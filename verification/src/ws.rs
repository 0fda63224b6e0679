//! A WebSocket as a stream of bytes.
//!
//! - What is written becomes binary frames.
//! - What is read is the payloads of binary and text frames, one after the
//!   other. (Tunnel data is binary; text is taken too, so that a peer that
//!   misuses it does not break the stream.)
//! - Control frames other than close carry nothing.
//! - A close frame is the end of the stream.

use vstd::prelude::*;
use vstd::utf8::*;

use crate::text::copy_bytes;

verus! {

// ---------------------------------------------------------------------------
// Buffers
// ---------------------------------------------------------------------------

/// A shared buffer of the `bytes` crate.
#[verifier::external_type_specification]
#[verifier::external_body]
pub struct ExBytes(bytes::Bytes);

/// The bytes that a buffer holds.
pub uninterp spec fn contents(b: bytes::Bytes) -> Seq<u8>;

/// `Bytes::new` makes an empty buffer.
#[verifier::external_body]
fn empty_buffer() -> (b: bytes::Bytes)
    ensures
        contents(b) == Seq::<u8>::empty(),
{
    bytes::Bytes::new()
}

/// `Bytes::from` takes over the bytes of a vector.
#[verifier::external_body]
fn buffer_from(v: Vec<u8>) -> (b: bytes::Bytes)
    ensures
        contents(b) == v@,
{
    bytes::Bytes::from(v)
}

/// `Bytes::len` is the number of bytes that a buffer holds.
#[verifier::external_body]
fn buffer_len(b: &bytes::Bytes) -> (n: usize)
    ensures
        n == contents(*b).len(),
{
    b.len()
}

/// `Bytes::slice` is the part of a buffer between two positions; it panics where
/// they are not in order or not in the buffer.
#[verifier::external_body]
fn buffer_slice(b: &bytes::Bytes, from: usize, to: usize) -> (part: bytes::Bytes)
    requires
        from <= to <= contents(*b).len(),
    ensures
        contents(part) == contents(*b).subrange(from as int, to as int),
{
    b.slice(from..to)
}

// ---------------------------------------------------------------------------
// Reading
// ---------------------------------------------------------------------------

/// What the socket gave when it was asked for the next message.
#[derive(Debug)]
pub enum WsEvent {
    /// Nothing yet.
    Pending,
    /// There will be no more messages.
    Ended,
    /// A binary message.
    Binary(Vec<u8>),
    /// A text message.
    Text(String),
    /// A close frame.
    Close,
    /// A ping, a pong or a raw frame.
    Control,
    /// An error.
    Failed,
}

pub enum Event {
    Pending,
    Ended,
    Binary(Seq<u8>),
    Text(Seq<char>),
    Close,
    Control,
    Failed,
}

impl View for WsEvent {
    type V = Event;

    open spec fn view(&self) -> Event {
        match self {
            WsEvent::Pending => Event::Pending,
            WsEvent::Ended => Event::Ended,
            WsEvent::Binary(data) => Event::Binary(data@),
            WsEvent::Text(s) => Event::Text(s@),
            WsEvent::Close => Event::Close,
            WsEvent::Control => Event::Control,
            WsEvent::Failed => Event::Failed,
        }
    }
}

/// The bytes that an event adds to the stream.
pub open spec fn payload(e: Event) -> Seq<u8> {
    match e {
        Event::Binary(data) => data,
        Event::Text(s) => encode_utf8(s),
        _ => Seq::empty(),
    }
}

/// Whether an event is the end of the stream.
pub open spec fn is_end(e: Event) -> bool {
    e is Ended || e is Close
}

/// The reading side of a stream: the bytes that have come and are not read
/// yet, and whether the end has come.
#[verifier::ext_equal]
pub struct ReadState {
    pub pending: Seq<u8>,
    pub eof: bool,
}

/// The state after an event.
pub open spec fn after_event(s: ReadState, e: Event) -> ReadState {
    ReadState {
        pending: match e {
            Event::Binary(_) => payload(e),
            Event::Text(_) => payload(e),
            _ => s.pending,
        },
        eof: s.eof || is_end(e),
    }
}

/// How many bytes a read for at most `want` bytes takes.
pub open spec fn taken(s: ReadState, want: nat) -> nat {
    if want < s.pending.len() {
        want
    } else {
        s.pending.len()
    }
}

/// The bytes that a read for at most `want` bytes takes.
pub open spec fn read_bytes(s: ReadState, want: nat) -> Seq<u8> {
    s.pending.take(taken(s, want) as int)
}

/// The state after a read for at most `want` bytes.
pub open spec fn after_read(s: ReadState, want: nat) -> ReadState {
    ReadState { pending: s.pending.skip(taken(s, want) as int), eof: s.eof }
}

/// What a read comes to.
#[derive(Debug)]
pub enum ReadStep {
    /// These bytes are read.
    Data(bytes::Bytes),
    /// The stream has ended.
    Eof,
    /// The socket is to be asked for the next message.
    NextMessage,
}

/// What a read comes to after an event.
#[derive(Debug, Clone, Copy, PartialEq, Eq, Structural)]
pub enum EventStep {
    /// Read again.
    Again,
    /// The stream has ended.
    Eof,
    /// Wait for the socket.
    Wait,
    /// Report the socket's error.
    Fail,
}

/// What a read comes to after an event.
pub open spec fn step_after(e: Event) -> EventStep {
    match e {
        Event::Pending => EventStep::Wait,
        Event::Ended => EventStep::Eof,
        Event::Failed => EventStep::Fail,
        _ => EventStep::Again,
    }
}

/// The reading side of a stream.
#[derive(Debug)]
pub struct WsReader {
    read_buf: bytes::Bytes,
    eof: bool,
}

impl View for WsReader {
    type V = ReadState;

    closed spec fn view(&self) -> ReadState {
        ReadState { pending: contents(self.read_buf), eof: self.eof }
    }
}

impl WsReader {
    /// The stream before anything has come.
    pub fn new() -> (r: Self)
        ensures
            r@.pending == Seq::<u8>::empty(),
            !r@.eof,
    {
        WsReader { read_buf: empty_buffer(), eof: false }
    }

    /// Reads at most `want` bytes of what has come.
    pub fn read(&mut self, want: usize) -> (step: ReadStep)
        ensures
            match step {
                ReadStep::Data(part) => old(self)@.pending.len() > 0 && contents(part)
                    == read_bytes(old(self)@, want as nat) && final(self)@ == after_read(
                    old(self)@,
                    want as nat,
                ) && contents(part).len() == (if want < old(self)@.pending.len() {
                    want as nat
                } else {
                    old(self)@.pending.len()
                }) && contents(part) + final(self)@.pending == old(self)@.pending
                    && final(self)@.eof == old(self)@.eof,
                ReadStep::Eof => old(self)@.pending.len() == 0 && old(self)@.eof && final(self)@
                    == old(self)@,
                ReadStep::NextMessage => old(self)@.pending.len() == 0 && !old(self)@.eof
                    && final(self)@ == old(self)@,
            },
    {
        let len: usize = buffer_len(&self.read_buf);
        if len > 0 {
            let n: usize = if want < len {
                want
            } else {
                len
            };
            let part = buffer_slice(&self.read_buf, 0, n);
            self.read_buf = buffer_slice(&self.read_buf, n, len);
            assert(contents(part) + contents(self.read_buf) == contents(old(self).read_buf));
            return ReadStep::Data(part);
        }
        if self.eof {
            ReadStep::Eof
        } else {
            ReadStep::NextMessage
        }
    }

    /// Takes in what the socket gave.
    pub fn on_event(&mut self, event: WsEvent) -> (step: EventStep)
        ensures
            final(self)@ == after_event(old(self)@, event@),
            step == match event {
                WsEvent::Pending => EventStep::Wait,
                WsEvent::Ended => EventStep::Eof,
                WsEvent::Failed => EventStep::Fail,
                _ => EventStep::Again,
            },
            step == step_after(event@),
    {
        match event {
            WsEvent::Pending => EventStep::Wait,
            WsEvent::Ended => {
                self.eof = true;
                EventStep::Eof
            },
            WsEvent::Binary(data) => {
                self.read_buf = buffer_from(data);
                EventStep::Again
            },
            WsEvent::Text(s) => {
                self.read_buf = buffer_from(copy_bytes(s.as_str().as_bytes()));
                EventStep::Again
            },
            WsEvent::Close => {
                self.eof = true;
                EventStep::Again
            },
            WsEvent::Control => EventStep::Again,
            WsEvent::Failed => EventStep::Fail,
        }
    }
}

// ---------------------------------------------------------------------------
// Writing
// ---------------------------------------------------------------------------

/// What the socket gave when it was asked whether it takes a message.
#[derive(Debug, Clone, Copy, PartialEq, Eq, Structural)]
pub enum SinkState {
    Pending,
    Ready,
    Failed,
}

/// What a write comes to.
#[derive(Debug)]
pub enum WriteStep {
    /// Wait for the socket.
    Wait,
    /// Send this binary message; this many bytes are written.
    Send { payload: Vec<u8>, written: usize },
    /// Report the socket's error.
    Fail,
}

/// Whether `step` is what a write of `buf` comes to.
pub open spec fn is_write_step(sink: SinkState, buf: Seq<u8>, step: WriteStep) -> bool {
    match (sink, step) {
        (SinkState::Pending, WriteStep::Wait) => true,
        (SinkState::Ready, WriteStep::Send { payload, written }) => payload@ == buf && written
            == buf.len(),
        (SinkState::Failed, WriteStep::Fail) => true,
        _ => false,
    }
}

/// Decides on a write: once the socket takes a message, all of `buf` goes into
/// one.
pub fn write_step(sink: SinkState, buf: &[u8]) -> (step: WriteStep)
    ensures
        match step {
            WriteStep::Wait => sink == SinkState::Pending,
            WriteStep::Send { payload, written } => sink == SinkState::Ready && payload@ == buf@
                && written == buf@.len(),
            WriteStep::Fail => sink == SinkState::Failed,
        },
        is_write_step(sink, buf@, step),
{
    match sink {
        SinkState::Pending => WriteStep::Wait,
        SinkState::Ready => WriteStep::Send { payload: copy_bytes(buf), written: buf.len() },
        SinkState::Failed => WriteStep::Fail,
    }
}

// ---------------------------------------------------------------------------
// Laws
// ---------------------------------------------------------------------------

/// One step in the life of a stream.
pub enum Step {
    /// A read for at most this many bytes.
    Read(nat),
    /// An event.
    Event(Event),
}

/// The state after a history.
pub open spec fn state_after(history: Seq<Step>) -> ReadState
    decreases history.len(),
{
    if history.len() == 0 {
        ReadState { pending: Seq::empty(), eof: false }
    } else {
        let before = state_after(history.drop_last());
        match history.last() {
            Step::Read(want) => after_read(before, want),
            Step::Event(e) => after_event(before, e),
        }
    }
}

/// The bytes that the reads of a history have taken.
pub open spec fn bytes_read(history: Seq<Step>) -> Seq<u8>
    decreases history.len(),
{
    if history.len() == 0 {
        Seq::empty()
    } else {
        let before = state_after(history.drop_last());
        bytes_read(history.drop_last()) + match history.last() {
            Step::Read(want) => read_bytes(before, want),
            Step::Event(_) => Seq::empty(),
        }
    }
}

/// The payloads of a history's events, one after the other.
pub open spec fn bytes_come(history: Seq<Step>) -> Seq<u8>
    decreases history.len(),
{
    if history.len() == 0 {
        Seq::empty()
    } else {
        bytes_come(history.drop_last()) + match history.last() {
            Step::Read(_) => Seq::empty(),
            Step::Event(e) => payload(e),
        }
    }
}

/// Whether the socket was asked for a message only when a read called for one:
/// nothing was pending, and the end had not come.
pub open spec fn is_orderly(history: Seq<Step>) -> bool
    decreases history.len(),
{
    history.len() > 0 ==> {
        let before = state_after(history.drop_last());
        &&& is_orderly(history.drop_last())
        &&& history.last() is Event ==> before.pending.len() == 0 && !before.eof
    }
}

/// No byte is lost, doubled or moved: what has been read, followed by what is
/// pending, is what has come. The end is reported if and only if it has come.
pub proof fn law_stream_is_kept(history: Seq<Step>)
    requires
        is_orderly(history),
    ensures
        bytes_read(history) + state_after(history).pending == bytes_come(history),
        state_after(history).eof <==> exists|i: int|
            0 <= i < history.len() && #[trigger] is_end_step(history[i]),
    decreases history.len(),
{
    if history.len() > 0 {
        let front = history.drop_last();
        let before = state_after(front);
        law_stream_is_kept(front);
        match history.last() {
            Step::Read(want) => {
                let n = taken(before, want) as int;
                assert(before.pending.take(n) + before.pending.skip(n) == before.pending);
                assert(bytes_read(front) + before.pending.take(n) + before.pending.skip(n)
                    == bytes_read(front) + before.pending);
                assert(bytes_come(front) + Seq::<u8>::empty() == bytes_come(front));
            },
            Step::Event(e) => {
                let none = Seq::<u8>::empty();
                assert(before.pending == none);
                assert(bytes_read(front) + none == bytes_read(front));
                assert(state_after(history).pending == payload(e));
                assert(bytes_read(history) + payload(e) == bytes_come(history));
            },
        }
        if state_after(history).eof {
            if before.eof {
                let i = choose|i: int| 0 <= i < front.len() && #[trigger] is_end_step(front[i]);
                assert(is_end_step(history[i]));
            } else {
                assert(is_end_step(history[history.len() - 1]));
            }
        }
        if exists|i: int| 0 <= i < history.len() && #[trigger] is_end_step(history[i]) {
            let i = choose|i: int| 0 <= i < history.len() && #[trigger] is_end_step(history[i]);
            if i < front.len() {
                assert(is_end_step(front[i]));
            }
        }
    } else {
        assert(bytes_read(history) + state_after(history).pending == bytes_come(history));
    }
}

/// Whether a step is the end of the stream.
pub open spec fn is_end_step(s: Step) -> bool {
    s matches Step::Event(e) && is_end(e)
}

/// A list of messages, one after the other.
pub open spec fn joined(messages: Seq<Seq<u8>>) -> Seq<u8>
    decreases messages.len(),
{
    if messages.len() == 0 {
        Seq::empty()
    } else {
        joined(messages.drop_last()) + messages.last()
    }
}

/// The payloads of the frames that carry one, in the order in which they came.
pub open spec fn frames_in(history: Seq<Step>) -> Seq<Seq<u8>>
    decreases history.len(),
{
    if history.len() == 0 {
        Seq::empty()
    } else {
        let front = frames_in(history.drop_last());
        match history.last() {
            Step::Event(Event::Binary(data)) => front.push(data),
            Step::Event(Event::Text(s)) => front.push(encode_utf8(s)),
            _ => front,
        }
    }
}

/// What one side writes, the other side reads: the bytes read, followed by those
/// still pending, are the written messages one after the other, however the
/// bytes were cut into messages and however many are read at a time.
pub proof fn law_written_bytes_are_read(history: Seq<Step>, messages: Seq<Seq<u8>>)
    requires
        is_orderly(history),
        frames_in(history) == messages,
    ensures
        bytes_read(history) + state_after(history).pending == joined(messages),
        state_after(history).pending.len() == 0 ==> bytes_read(history) == joined(messages),
{
    law_stream_is_kept(history);
    lemma_bytes_come(history);
    if state_after(history).pending.len() == 0 {
        assert(bytes_read(history) + state_after(history).pending == bytes_read(history));
    }
}

proof fn lemma_bytes_come(history: Seq<Step>)
    ensures
        bytes_come(history) == joined(frames_in(history)),
    decreases history.len(),
{
    if history.len() > 0 {
        let front = history.drop_last();
        lemma_bytes_come(front);
        let frames = frames_in(front);
        match history.last() {
            Step::Event(Event::Binary(data)) => {
                assert(frames.push(data).drop_last() == frames);
            },
            Step::Event(Event::Text(s)) => {
                assert(frames.push(encode_utf8(s)).drop_last() == frames);
            },
            _ => {
                assert(bytes_come(front) + Seq::<u8>::empty() == bytes_come(front));
            },
        }
    }
}

/// A read for at most `want` bytes gives the first of the pending bytes, as many
/// as are wanted or, if fewer are pending, all of them; the others stay pending.
/// So a read for something never comes back empty while something is pending.
pub proof fn law_read_gives_what_is_wanted(s: ReadState, want: nat)
    ensures
        want <= s.pending.len() ==> read_bytes(s, want).len() == want,
        want >= s.pending.len() ==> read_bytes(s, want) == s.pending,
        read_bytes(s, want) + after_read(s, want).pending == s.pending,
        after_read(s, want).eof == s.eof,
        want > 0 && s.pending.len() > 0 ==> read_bytes(s, want).len() > 0,
        want > 0 && s.pending.len() > 0 ==> read_bytes(s, want)[0] == s.pending[0],
{
    assert(read_bytes(s, want) + after_read(s, want).pending == s.pending);
}

/// The state after `n` reads for at most `want` bytes each.
pub open spec fn after_reads(s: ReadState, want: nat, n: nat) -> ReadState
    decreases n,
{
    if n == 0 {
        s
    } else {
        after_read(after_reads(s, want, (n - 1) as nat), want)
    }
}

/// The bytes that `n` reads for at most `want` bytes each take, one after the
/// other.
pub open spec fn bytes_of_reads(s: ReadState, want: nat, n: nat) -> Seq<u8>
    decreases n,
{
    if n == 0 {
        Seq::empty()
    } else {
        bytes_of_reads(s, want, (n - 1) as nat) + read_bytes(
            after_reads(s, want, (n - 1) as nat),
            want,
        )
    }
}

/// Reads drain the stream: however few bytes each of them asks for, enough of them
/// take all pending bytes, in order.
pub proof fn law_reads_drain(s: ReadState, want: nat, n: nat)
    requires
        want > 0,
    ensures
        bytes_of_reads(s, want, n) + after_reads(s, want, n).pending == s.pending,
        after_reads(s, want, n).pending.len() + n <= s.pending.len() || after_reads(
            s,
            want,
            n,
        ).pending.len() == 0,
        n >= s.pending.len() ==> bytes_of_reads(s, want, n) == s.pending,
        after_reads(s, want, n).eof == s.eof,
    decreases n,
{
    if n == 0 {
        assert(bytes_of_reads(s, want, n) + s.pending == s.pending);
        if s.pending.len() == 0 {
            assert(s.pending == Seq::<u8>::empty());
        }
    } else {
        let m = (n - 1) as nat;
        law_reads_drain(s, want, m);
        let t = after_reads(s, want, m);
        law_read_gives_what_is_wanted(t, want);
        let (a, b, c) = (bytes_of_reads(s, want, m), read_bytes(t, want), after_read(t, want).pending);
        assert(a + b + c == a + (b + c));
        if n >= s.pending.len() {
            assert(c.len() == 0);
            assert(a + b + c == a + b);
        }
    }
}

/// A message that comes to a reader with nothing pending is read in full, byte for
/// byte, a binary message as it is and a text as its UTF-8 bytes; nothing else adds
/// a byte, and nothing but a close frame or the socket's end is an end.
pub proof fn law_messages_arrive(s: ReadState, event: WsEvent, want: nat)
    requires
        want > 0,
    ensures
        event matches WsEvent::Binary(data) ==> after_event(s, event@).pending == data@
            && bytes_of_reads(after_event(s, event@), want, data@.len()) == data@,
        event matches WsEvent::Text(t) ==> after_event(s, event@).pending == encode_utf8(t@)
            && bytes_of_reads(after_event(s, event@), want, encode_utf8(t@).len()) == encode_utf8(
            t@,
        ),
        !(event is Binary) && !(event is Text) ==> after_event(s, event@).pending == s.pending,
        event is Close || event is Ended ==> after_event(s, event@).eof,
        !(event is Close) && !(event is Ended) ==> after_event(s, event@).eof == s.eof,
        step_after(event@) == EventStep::Wait <==> event is Pending,
        step_after(event@) == EventStep::Eof <==> event is Ended,
        step_after(event@) == EventStep::Fail <==> event is Failed,
{
    let t = after_event(s, event@);
    law_reads_drain(t, want, t.pending.len());
}

/// A write that the socket takes sends all bytes in one message, which the other
/// side reads as they were, whatever their number; a write that the socket does
/// not take sends nothing.
pub proof fn law_write_is_read_whole(
    s: ReadState,
    sink: SinkState,
    buf: Seq<u8>,
    step: WriteStep,
    want: nat,
)
    requires
        is_write_step(sink, buf, step),
        want > 0,
    ensures
        sink == SinkState::Ready <==> step is Send,
        sink == SinkState::Pending <==> step is Wait,
        step matches WriteStep::Send { payload, written } ==> written == buf.len()
            && bytes_of_reads(
            after_event(s, Event::Binary(payload@)),
            want,
            payload@.len(),
        ) == buf,
{
    if let WriteStep::Send { payload, written } = step {
        law_reads_drain(after_event(s, Event::Binary(payload@)), want, payload@.len());
    }
}

} // verus!
