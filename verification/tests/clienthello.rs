//! Looks at the start of connections.

use ech_tls_tunnel::clienthello::{classify, ClientHelloKind, ACME_ALPN, EXT_ALPN, EXT_ECH};


/// Wrap an already-built handshake body in TLS record + handshake
/// headers, then run classify on the result.
fn classify_with_record(hs_body: &[u8]) -> ClientHelloKind {
    let mut hs = vec![0x01]; // ClientHello
    let len = hs_body.len() as u32;
    hs.extend_from_slice(&[(len >> 16) as u8, (len >> 8) as u8, len as u8]);
    hs.extend_from_slice(hs_body);

    let mut record = vec![0x16, 0x03, 0x01]; // handshake, TLS 1.0 legacy
    let l = hs.len() as u16;
    record.extend_from_slice(&l.to_be_bytes());
    record.extend_from_slice(&hs);
    classify(&record)
}

fn build_hello(extensions: &[(u16, &[u8])]) -> Vec<u8> {
    let mut body = Vec::new();
    body.extend_from_slice(&[0x03, 0x03]); // legacy_version
    body.extend_from_slice(&[0u8; 32]); // random
    body.push(0); // session_id len
    body.extend_from_slice(&[0x00, 0x02, 0x13, 0x01]); // 1 cipher suite
    body.extend_from_slice(&[0x01, 0x00]); // 1 compression
    let mut exts = Vec::new();
    for (ty, data) in extensions {
        exts.extend_from_slice(&ty.to_be_bytes());
        exts.extend_from_slice(&(data.len() as u16).to_be_bytes());
        exts.extend_from_slice(data);
    }
    body.extend_from_slice(&(exts.len() as u16).to_be_bytes());
    body.extend_from_slice(&exts);
    body
}

fn alpn_ext(names: &[&[u8]]) -> Vec<u8> {
    let mut list = Vec::new();
    for n in names {
        list.push(n.len() as u8);
        list.extend_from_slice(n);
    }
    let mut out = Vec::new();
    out.extend_from_slice(&(list.len() as u16).to_be_bytes());
    out.extend_from_slice(&list);
    out
}

#[test]
fn empty_is_incomplete() {
    assert_eq!(classify(&[]), ClientHelloKind::Incomplete);
}

#[test]
fn non_handshake_record_is_not_tls() {
    assert_eq!(
        classify(&[0x17, 0x03, 0x03, 0, 1, 0]),
        ClientHelloKind::NotTls
    );
}

#[test]
fn truncated_record_is_incomplete() {
    let hello = build_hello(&[(EXT_ECH, &[0u8; 4])]);
    let mut record = vec![0x16, 0x03, 0x01];
    record.extend_from_slice(&(hello.len() as u16 + 4).to_be_bytes());
    record.push(0x01);
    record.extend_from_slice(&[
        (hello.len() >> 16) as u8,
        (hello.len() >> 8) as u8,
        hello.len() as u8,
    ]);
    record.extend_from_slice(&hello[..hello.len() / 2]);
    assert_eq!(classify(&record), ClientHelloKind::Incomplete);
}

#[test]
fn ech_extension_passes() {
    let hello = build_hello(&[(EXT_ECH, &[0u8; 8])]);
    assert_eq!(classify_with_record(&hello), ClientHelloKind::EchOrAcmeAlpn);
}

#[test]
fn acme_alpn_passes() {
    let alpn = alpn_ext(&[ACME_ALPN.as_bytes()]);
    let hello = build_hello(&[(EXT_ALPN, &alpn)]);
    assert_eq!(classify_with_record(&hello), ClientHelloKind::EchOrAcmeAlpn);
}

#[test]
fn ordinary_alpn_does_not_pass() {
    let alpn = alpn_ext(&[b"h2", b"http/1.1"]);
    let hello = build_hello(&[(EXT_ALPN, &alpn)]);
    assert_eq!(classify_with_record(&hello), ClientHelloKind::Other);
}

#[test]
fn no_relevant_extensions_is_other() {
    let hello = build_hello(&[(0x002b, &[0x02, 0x03, 0x04])]); // supported_versions
    assert_eq!(classify_with_record(&hello), ClientHelloKind::Other);
}

fn record_of(hs_body: &[u8]) -> Vec<u8> {
    let len = hs_body.len();
    let mut record = vec![0x16, 0x03, 0x01];
    record.extend_from_slice(&(len as u16 + 4).to_be_bytes());
    record.extend_from_slice(&[0x01, (len >> 16) as u8, (len >> 8) as u8, len as u8]);
    record.extend_from_slice(hs_body);
    record
}

#[test]
fn every_cut_of_a_hello_is_incomplete() {
    let record = record_of(&build_hello(&[(0x002b, &[0x02, 0x03, 0x04]), (EXT_ECH, &[0u8; 8])]));
    for n in 0..record.len() {
        assert_eq!(classify(&record[..n]), ClientHelloKind::Incomplete, "{n} bytes");
    }
    assert_eq!(classify(&record), ClientHelloKind::EchOrAcmeAlpn);
}

#[test]
fn verdicts_do_not_change_with_more_bytes() {
    for hello in [build_hello(&[(EXT_ECH, &[])]), build_hello(&[]), build_hello(&[(7, &[1])])] {
        let mut record = record_of(&hello);
        let verdict = classify(&record);
        assert_ne!(verdict, ClientHelloKind::Incomplete);
        record.extend_from_slice(&[0x17, 0x03, 0x03, 0xff, 0xff]);
        assert_eq!(classify(&record), verdict);
    }
}

#[test]
fn other_handshake_messages_are_other() {
    assert_eq!(classify(&[0x16, 3, 1, 0, 1, 2]), ClientHelloKind::Other);
    // An empty record says nothing yet.
    assert_eq!(classify(&[0x16, 3, 1, 0, 0]), ClientHelloKind::Incomplete);
}

#[test]
fn hello_without_extensions_is_other() {
    let mut body = vec![0x03, 0x03];
    body.extend_from_slice(&[0u8; 32]);
    body.push(0);
    body.extend_from_slice(&[0x00, 0x02, 0x13, 0x01]);
    body.extend_from_slice(&[0x01, 0x00]);
    assert_eq!(classify_with_record(&body), ClientHelloKind::Other);
}

#[test]
fn acme_is_found_behind_other_names_and_extensions() {
    let alpn = alpn_ext(&[b"h2", b"", ACME_ALPN.as_bytes()]);
    let hello = build_hello(&[(0, b"x"), (EXT_ALPN, &alpn)]);
    assert_eq!(classify_with_record(&hello), ClientHelloKind::EchOrAcmeAlpn);
    let alpn = alpn_ext(&[b"acme-tls/2", b"acme-tls/10"]);
    let hello = build_hello(&[(EXT_ALPN, &alpn)]);
    assert_eq!(classify_with_record(&hello), ClientHelloKind::Other);
}
