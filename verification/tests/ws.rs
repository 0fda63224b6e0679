//! The byte stream over WebSocket messages.

use ech_tls_tunnel::ws::{write_step, EventStep, ReadStep, SinkState, WriteStep, WsEvent, WsReader};

/// Reads all that the events bring, `want` bytes at a time.
fn read_all(events: Vec<WsEvent>, want: usize) -> (Vec<u8>, bool) {
    let mut reader = WsReader::new();
    let mut events = events.into_iter();
    let mut out = Vec::new();
    loop {
        match reader.read(want) {
            ReadStep::Data(part) => out.extend_from_slice(&part),
            ReadStep::Eof => return (out, true),
            ReadStep::NextMessage => match events.next() {
                Some(e) => {
                    reader.on_event(e);
                }
                None => return (out, false),
            },
        }
    }
}

/// What one side writes in pieces of `size` bytes, as messages.
fn messages(data: &[u8], size: usize) -> Vec<WsEvent> {
    data.chunks(size)
        .map(|chunk| match write_step(SinkState::Ready, chunk) {
            WriteStep::Send { payload, written } => {
                assert_eq!(written, chunk.len());
                WsEvent::Binary(payload)
            }
            other => panic!("{other:?}"),
        })
        .collect()
}

#[test]
fn small_payload_round_trips_both_directions() {
    assert_eq!(read_all(messages(b"hello", 5), 5), (b"hello".to_vec(), false));
    assert_eq!(read_all(messages(b"world", 2), 3), (b"world".to_vec(), false));
}

#[test]
fn one_megabyte_round_trips() {
    let payload: Vec<u8> = (0..1_000_000).map(|i| (i % 251) as u8).collect();
    let (received_at_server, _) = read_all(messages(&payload, 65_536), 8_192);
    assert_eq!(received_at_server, payload);
    let (echoed, _) = read_all(messages(&received_at_server, 10_007), 1_000_000);
    assert_eq!(echoed, payload);
}

#[test]
fn shutdown_propagates_eof() {
    let mut events = messages(b"bye", 3);
    events.push(WsEvent::Close);
    assert_eq!(read_all(events, 16), (b"bye".to_vec(), true));
    assert_eq!(read_all(vec![WsEvent::Ended], 16), (vec![], true));
}

#[test]
fn text_counts_and_control_frames_do_not() {
    let events = vec![
        WsEvent::Control,
        WsEvent::Binary(vec![]),
        WsEvent::Text("é".to_string()),
        WsEvent::Pending,
        WsEvent::Binary(vec![1]),
        WsEvent::Close,
        WsEvent::Binary(vec![2]),
    ];
    assert_eq!(read_all(events, 1), (vec![0xc3, 0xa9, 1], true));
}

#[test]
fn events_lead_on() {
    let mut r = WsReader::new();
    assert_eq!(r.on_event(WsEvent::Pending), EventStep::Wait);
    assert_eq!(r.on_event(WsEvent::Failed), EventStep::Fail);
    assert_eq!(r.on_event(WsEvent::Control), EventStep::Again);
    assert!(matches!(r.read(1), ReadStep::NextMessage));
    assert_eq!(r.on_event(WsEvent::Binary(vec![5, 6])), EventStep::Again);
    assert!(matches!(r.read(0), ReadStep::Data(ref d) if d.is_empty()));
    assert!(matches!(r.read(1), ReadStep::Data(ref d) if d[..] == [5]));
    assert!(matches!(r.read(9), ReadStep::Data(ref d) if d[..] == [6]));
    assert_eq!(r.on_event(WsEvent::Ended), EventStep::Eof);
    assert!(matches!(r.read(1), ReadStep::Eof));
}

#[test]
fn writes_wait_for_the_socket() {
    assert!(matches!(write_step(SinkState::Pending, b"x"), WriteStep::Wait));
    assert!(matches!(write_step(SinkState::Failed, b"x"), WriteStep::Fail));
}
