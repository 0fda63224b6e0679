//! A look at the start of a TLS connection that stops at one question: does
//! the ClientHello carry `encrypted_client_hello`, or offer the `acme-tls/1`
//! protocol of a certificate authority's validator?
//!
//! Just enough of the record layer and the handshake header is read to find
//! the extension list. A connection whose ClientHello has neither signal is
//! [`ClientHelloKind::Other`], and the caller is expected to reset it.

use vstd::prelude::*;
use vstd::utf8::*;

use crate::text::bytes_eq;
use crate::wire;
use crate::wire::u16_from;

verus! {

/// Record type of a TLS handshake record.
pub const RECORD_HANDSHAKE: u8 = 0x16;

/// Handshake type of a ClientHello.
pub const HANDSHAKE_CLIENT_HELLO: u8 = 0x01;

/// Extension type of `encrypted_client_hello`.
pub const EXT_ECH: u16 = 0xfe0d;

/// Extension type of `application_layer_protocol_negotiation`.
pub const EXT_ALPN: u16 = 0x0010;

/// The protocol name that a TLS-ALPN-01 validator offers (RFC 8737).
pub const ACME_ALPN: &'static str = "acme-tls/1";

/// What the bytes at the start of a connection are.
#[derive(Debug, Clone, Copy, PartialEq, Eq, Structural)]
pub enum ClientHelloKind {
    /// The buffer does not hold a complete ClientHello yet; the caller may read
    /// more bytes, up to its budget, before deciding.
    Incomplete,
    /// The first byte is not that of a TLS handshake record. Drop.
    NotTls,
    /// The ClientHello carries the ECH extension or offers `acme-tls/1`.
    EchOrAcmeAlpn,
    /// A ClientHello with neither signal, or another handshake message. Drop.
    Other,
}

/// One extension of a ClientHello.
pub struct Extension {
    pub kind: nat,
    pub data: Seq<u8>,
}

/// The well-formed extensions at the front of an extension block.
pub open spec fn extensions(block: Seq<u8>) -> Seq<Extension>
    decreases block.len(),
{
    if block.len() < 2 {
        Seq::empty()
    } else {
        match wire::prefixed(block.skip(2), 2) {
            None => Seq::empty(),
            Some((data, rest)) => seq![Extension { kind: wire::big_endian(block.take(2)), data }]
                + extensions(rest),
        }
    }
}

/// The well-formed names at the front of a list of protocol names.
pub open spec fn protocol_names(list: Seq<u8>) -> Seq<Seq<u8>>
    decreases list.len(),
{
    match wire::prefixed(list, 1) {
        None => Seq::empty(),
        Some((name, rest)) => seq![name] + protocol_names(rest),
    }
}

/// Whether the data of an ALPN extension lists `acme-tls/1`.
pub open spec fn offers_acme(data: Seq<u8>) -> bool {
    match wire::prefixed(data, 2) {
        None => false,
        Some((list, _)) => protocol_names(list).contains(encode_utf8(ACME_ALPN@)),
    }
}

/// Whether an extension marks a connection that must be let in.
pub open spec fn is_signal(e: Extension) -> bool {
    e.kind == EXT_ECH || (e.kind == EXT_ALPN && offers_acme(e.data))
}

/// Whether one of the extensions marks a connection that must be let in.
pub open spec fn any_signal(list: Seq<Extension>) -> bool {
    exists|i: int| 0 <= i < list.len() && is_signal(#[trigger] list[i])
}

/// What follows version, random, session id, cipher suites and compression
/// methods in the body of a ClientHello; `None` where the body ends earlier.
pub open spec fn after_fixed_fields(body: Seq<u8>) -> Option<Seq<u8>> {
    if body.len() < 34 {
        None
    } else {
        match wire::prefixed(body.skip(34), 1) {
            None => None,
            Some((_session, a)) => match wire::prefixed(a, 2) {
                None => None,
                Some((_suites, b)) => match wire::prefixed(b, 1) {
                    None => None,
                    Some((_compression, c)) => Some(c),
                },
            },
        }
    }
}

/// What the body of a ClientHello is.
pub open spec fn body_kind(body: Seq<u8>) -> ClientHelloKind {
    match after_fixed_fields(body) {
        None => ClientHelloKind::Incomplete,
        Some(tail) => if tail.len() < 2 {
            ClientHelloKind::Other
        } else {
            match wire::prefixed(tail, 2) {
                None => ClientHelloKind::Incomplete,
                Some((block, _)) => if any_signal(extensions(block)) {
                    ClientHelloKind::EchOrAcmeAlpn
                } else {
                    ClientHelloKind::Other
                },
            }
        },
    }
}

/// What the payload of a handshake record is.
pub open spec fn record_kind(record: Seq<u8>) -> ClientHelloKind {
    if record.len() == 0 {
        ClientHelloKind::Incomplete
    } else if record[0] != HANDSHAKE_CLIENT_HELLO {
        ClientHelloKind::Other
    } else {
        match wire::prefixed(record.skip(1), 3) {
            None => ClientHelloKind::Incomplete,
            Some((body, _)) => body_kind(body),
        }
    }
}

/// What the bytes `buf` at the start of a connection are.
pub open spec fn hello_kind(buf: Seq<u8>) -> ClientHelloKind {
    if buf.len() == 0 {
        ClientHelloKind::Incomplete
    } else if buf[0] != RECORD_HANDSHAKE {
        ClientHelloKind::NotTls
    } else if buf.len() < 3 {
        ClientHelloKind::Incomplete
    } else {
        match wire::prefixed(buf.skip(3), 2) {
            None => ClientHelloKind::Incomplete,
            Some((record, _)) => record_kind(record),
        }
    }
}

/// A cursor over bytes that have not been read yet.
struct Reader<'a> {
    rest: &'a [u8],
}

impl<'a> Reader<'a> {
    fn new(buf: &'a [u8]) -> (r: Self)
        ensures
            r.rest@ == buf@,
    {
        Reader { rest: buf }
    }

    fn is_empty(&self) -> (r: bool)
        ensures
            r == (self.rest@.len() == 0),
    {
        self.rest.len() == 0
    }

    /// The next `n` bytes; `None`, with nothing read, where fewer are left.
    fn read_slice(&mut self, n: usize) -> (r: Option<&'a [u8]>)
        ensures
            match r {
                Some(s) => {
                    &&& n <= old(self).rest@.len()
                    &&& s@ == old(self).rest@.take(n as int)
                    &&& final(self).rest@ == old(self).rest@.skip(n as int)
                },
                None => n > old(self).rest@.len() && final(self).rest@ == old(self).rest@,
            },
    {
        let all: &'a [u8] = self.rest;
        if n > all.len() {
            return None;
        }
        self.rest = &all[n..all.len()];
        Some(&all[0..n])
    }

    fn skip(&mut self, n: usize) -> (r: Option<()>)
        ensures
            match r {
                Some(_) => n <= old(self).rest@.len() && final(self).rest@ == old(self).rest@.skip(
                    n as int,
                ),
                None => n > old(self).rest@.len() && final(self).rest@ == old(self).rest@,
            },
    {
        match self.read_slice(n) {
            Some(_) => Some(()),
            None => None,
        }
    }

    fn read_u8(&mut self) -> (r: Option<u8>)
        ensures
            match r {
                Some(b) => {
                    &&& 1 <= old(self).rest@.len()
                    &&& b == wire::big_endian(old(self).rest@.take(1))
                    &&& b == old(self).rest@[0]
                    &&& final(self).rest@ == old(self).rest@.skip(1)
                },
                None => 1 > old(self).rest@.len() && final(self).rest@ == old(self).rest@,
            },
    {
        match self.read_slice(1) {
            Some(s) => {
                proof {
                    wire::lemma_big_endian_short(s@);
                }
                Some(s[0])
            },
            None => None,
        }
    }

    fn read_u16(&mut self) -> (r: Option<u16>)
        ensures
            match r {
                Some(v) => {
                    &&& 2 <= old(self).rest@.len()
                    &&& v == wire::big_endian(old(self).rest@.take(2))
                    &&& final(self).rest@ == old(self).rest@.skip(2)
                },
                None => 2 > old(self).rest@.len() && final(self).rest@ == old(self).rest@,
            },
    {
        match self.read_slice(2) {
            Some(s) => {
                assert(s@ == seq![s@[0], s@[1]]);
                Some(u16_from(s[0], s[1]))
            },
            None => None,
        }
    }

    fn read_u24(&mut self) -> (r: Option<u32>)
        ensures
            match r {
                Some(v) => {
                    &&& 3 <= old(self).rest@.len()
                    &&& v == wire::big_endian(old(self).rest@.take(3))
                    &&& final(self).rest@ == old(self).rest@.skip(3)
                },
                None => 3 > old(self).rest@.len() && final(self).rest@ == old(self).rest@,
            },
    {
        match self.read_slice(3) {
            Some(s) => {
                proof {
                    wire::lemma_big_endian_short(s@);
                }
                Some((s[0] as u32) * 65536 + (s[1] as u32) * 256 + (s[2] as u32))
            },
            None => None,
        }
    }
}

/// Whether the data of an ALPN extension lists `acme-tls/1`.
fn alpn_has_acme(ext_data: &[u8]) -> (r: bool)
    ensures
        r == offers_acme(ext_data@),
{
    let mut r = Reader::new(ext_data);
    let list: &[u8] = match read_vector16(&mut r) {
        Some(s) => s,
        None => {
            return false;
        },
    };
    let ghost acme = encode_utf8(ACME_ALPN@);
    let mut r = Reader::new(list);
    while !r.is_empty()
        invariant
            acme == encode_utf8(ACME_ALPN@),
            offers_acme(ext_data@) == protocol_names(r.rest@).contains(acme),
        decreases r.rest@.len(),
    {
        let ghost before = r.rest@;
        let name: &[u8] = match read_vector8(&mut r) {
            Some(s) => s,
            None => {
                return false;
            },
        };
        assert(protocol_names(before) == seq![name@] + protocol_names(r.rest@));
        if bytes_eq(name, ACME_ALPN.as_bytes()) {
            assert(protocol_names(before)[0] == acme);
            return true;
        }
        proof {
            wire::lemma_contains_first(name@, protocol_names(r.rest@), acme);
        }
    }
    false
}

proof fn lemma_signal_after_first(first: Extension, others: Seq<Extension>)
    ensures
        any_signal(seq![first] + others) == (is_signal(first) || any_signal(others)),
{
    let all = seq![first] + others;
    assert(all[0] == first);
    assert(forall|i: int| 0 <= i < others.len() ==> #[trigger] others[i] == all[i + 1]);
    if any_signal(all) {
        let i = choose|i: int| 0 <= i < all.len() && is_signal(#[trigger] all[i]);
        if i > 0 {
            assert(is_signal(others[i - 1]));
        }
    }
}

/// Classifies the bytes at the start of a TCP connection. Allocates nothing,
/// and looks at no more than one TLS record.
pub fn classify(buf: &[u8]) -> (kind: ClientHelloKind)
    ensures
        kind == hello_kind(buf@),
{
    let mut r = Reader::new(buf);

    // Record layer: type(1) version(2) length(2)
    let record_type: u8 = match r.read_u8() {
        Some(b) => b,
        None => {
            return ClientHelloKind::Incomplete;
        },
    };
    if record_type != RECORD_HANDSHAKE {
        return ClientHelloKind::NotTls;
    }
    if r.skip(2).is_none() {
        return ClientHelloKind::Incomplete;
    }
    assert(r.rest@ == buf@.skip(3));
    let record: &[u8] = match read_vector16(&mut r) {
        Some(s) => s,
        None => {
            return ClientHelloKind::Incomplete;
        },
    };
    let mut r = Reader::new(record);

    // Handshake header: type(1) length(3)
    let hs_type: u8 = match r.read_u8() {
        Some(b) => b,
        None => {
            return ClientHelloKind::Incomplete;
        },
    };
    if hs_type != HANDSHAKE_CLIENT_HELLO {
        return ClientHelloKind::Other;
    }
    let body: &[u8] = match read_vector24(&mut r) {
        Some(s) => s,
        None => {
            return ClientHelloKind::Incomplete;
        },
    };
    let mut r = Reader::new(body);

    // Body: version(2) random(32), then three vectors that do not matter here
    if r.skip(2 + 32).is_none() {
        return ClientHelloKind::Incomplete;
    }
    if read_vector8(&mut r).is_none() {
        return ClientHelloKind::Incomplete;
    }
    if read_vector16(&mut r).is_none() {
        return ClientHelloKind::Incomplete;
    }
    if read_vector8(&mut r).is_none() {
        return ClientHelloKind::Incomplete;
    }
    assert(after_fixed_fields(body@) == Some(r.rest@));
    if r.rest.len() < 2 {
        return ClientHelloKind::Other;
    }
    let exts: &[u8] = match read_vector16(&mut r) {
        Some(s) => s,
        None => {
            return ClientHelloKind::Incomplete;
        },
    };
    if has_signal(exts) {
        ClientHelloKind::EchOrAcmeAlpn
    } else {
        ClientHelloKind::Other
    }
}

/// Reads a vector behind its one-byte length.
fn read_vector8<'a>(r: &mut Reader<'a>) -> (v: Option<&'a [u8]>)
    ensures
        match v {
            Some(s) => wire::prefixed(old(r).rest@, 1) == Some((s@, final(r).rest@)),
            None => wire::prefixed(old(r).rest@, 1) is None,
        },
{
    let ghost before = r.rest@;
    let n: u8 = match r.read_u8() {
        Some(n) => n,
        None => {
            return None;
        },
    };
    let v = r.read_slice(n as usize);
    assert(v matches Some(s) ==> s@ == before.subrange(1, 1 + n as int) && r.rest@ == before.skip(
        1 + n as int,
    ));
    v
}

/// Reads a vector behind its two-byte length.
fn read_vector16<'a>(r: &mut Reader<'a>) -> (v: Option<&'a [u8]>)
    ensures
        match v {
            Some(s) => wire::prefixed(old(r).rest@, 2) == Some((s@, final(r).rest@)),
            None => wire::prefixed(old(r).rest@, 2) is None,
        },
{
    let ghost before = r.rest@;
    let n: u16 = match r.read_u16() {
        Some(n) => n,
        None => {
            return None;
        },
    };
    let v = r.read_slice(n as usize);
    assert(v matches Some(s) ==> s@ == before.subrange(2, 2 + n as int) && r.rest@ == before.skip(
        2 + n as int,
    ));
    v
}

/// Reads a vector behind its three-byte length.
fn read_vector24<'a>(r: &mut Reader<'a>) -> (v: Option<&'a [u8]>)
    ensures
        match v {
            Some(s) => wire::prefixed(old(r).rest@, 3) == Some((s@, final(r).rest@)),
            None => wire::prefixed(old(r).rest@, 3) is None,
        },
{
    let ghost before = r.rest@;
    let n: u32 = match r.read_u24() {
        Some(n) => n,
        None => {
            return None;
        },
    };
    let v = r.read_slice(n as usize);
    assert(v matches Some(s) ==> s@ == before.subrange(3, 3 + n as int) && r.rest@ == before.skip(
        3 + n as int,
    ));
    v
}

/// Looks through an extension block for a signal; it stops at the first
/// extension that is cut short.
fn has_signal(block: &[u8]) -> (found: bool)
    ensures
        found == any_signal(extensions(block@)),
{
    let mut r = Reader::new(block);
    while !r.is_empty()
        invariant
            any_signal(extensions(block@)) == any_signal(extensions(r.rest@)),
        decreases r.rest@.len(),
    {
        let ghost before = r.rest@;
        let ext_type: u16 = match r.read_u16() {
            Some(t) => t,
            None => {
                return false;
            },
        };
        let ext_data: &[u8] = match read_vector16(&mut r) {
            Some(s) => s,
            None => {
                return false;
            },
        };
        let ghost e = Extension { kind: ext_type as nat, data: ext_data@ };
        assert(extensions(before) == seq![e] + extensions(r.rest@));
        proof {
            lemma_signal_after_first(e, extensions(r.rest@));
        }
        if ext_type == EXT_ECH {
            return true;
        }
        if ext_type == EXT_ALPN && alpn_has_acme(ext_data) {
            return true;
        }
    }
    false
}

// ---------------------------------------------------------------------------
// Laws
// ---------------------------------------------------------------------------

/// A verdict is final: once `classify` has said more than "incomplete", bytes
/// that arrive later do not change what it says.
pub proof fn law_verdict_is_final(buf: Seq<u8>, more: Seq<u8>)
    requires
        hello_kind(buf) != ClientHelloKind::Incomplete,
    ensures
        hello_kind(buf + more) == hello_kind(buf),
{
    if buf[0] == RECORD_HANDSHAKE {
        assert((buf + more).skip(3) == buf.skip(3) + more);
        wire::lemma_prefixed_extend(buf.skip(3), 2, more);
    }
}

/// The fields of a ClientHello that is sent in one record.
pub struct Hello {
    /// Version in the record header.
    pub record_version: Seq<u8>,
    /// Version and random.
    pub version_and_random: Seq<u8>,
    pub session_id: Seq<u8>,
    pub cipher_suites: Seq<u8>,
    pub compression: Seq<u8>,
    pub extensions: Seq<Extension>,
}

/// The bytes of an extension list.
pub open spec fn extension_bytes(list: Seq<Extension>) -> Seq<u8>
    decreases list.len(),
{
    if list.len() == 0 {
        Seq::empty()
    } else {
        wire::be_bytes(list[0].kind, 2) + wire::vector(list[0].data, 2) + extension_bytes(
            list.drop_first(),
        )
    }
}

/// The body of the ClientHello message.
pub open spec fn body_bytes(h: Hello) -> Seq<u8> {
    h.version_and_random + (wire::vector(h.session_id, 1) + (wire::vector(h.cipher_suites, 2) + (
    wire::vector(h.compression, 1) + wire::vector(extension_bytes(h.extensions), 2))))
}

/// The payload of the record that carries the ClientHello.
pub open spec fn message_bytes(h: Hello) -> Seq<u8> {
    seq![HANDSHAKE_CLIENT_HELLO] + wire::vector(body_bytes(h), 3)
}

/// The record that carries the ClientHello.
pub open spec fn hello_bytes(h: Hello) -> Seq<u8> {
    seq![RECORD_HANDSHAKE] + h.record_version + wire::vector(message_bytes(h), 2)
}

/// Whether every field fits in the space that the format has for it.
pub open spec fn fits(h: Hello) -> bool {
    &&& h.record_version.len() == 2
    &&& h.version_and_random.len() == 34
    &&& h.session_id.len() <= 0xff
    &&& h.cipher_suites.len() <= 0xffff
    &&& h.compression.len() <= 0xff
    &&& forall|i: int|
        0 <= i < h.extensions.len() ==> (#[trigger] h.extensions[i]).kind <= 0xffff
            && h.extensions[i].data.len() <= 0xffff
    &&& extension_bytes(h.extensions).len() <= 0xffff
    &&& message_bytes(h).len() <= 0xffff
}

#[verifier::rlimit(30)]
proof fn lemma_extensions_round_trip(list: Seq<Extension>)
    requires
        forall|i: int|
            0 <= i < list.len() ==> (#[trigger] list[i]).kind <= 0xffff && list[i].data.len()
                <= 0xffff,
    ensures
        extensions(extension_bytes(list)) == list,
    decreases list.len(),
{
    if list.len() == 0 {
        assert(extensions(extension_bytes(list)) == list);
    } else {
        let tail = list.drop_first();
        assert forall|i: int| 0 <= i < tail.len() implies (#[trigger] tail[i]).kind <= 0xffff
            && tail[i].data.len() <= 0xffff by {
            assert(tail[i] == list[i + 1]);
        }
        lemma_extensions_round_trip(tail);
        wire::lemma_capacity();
        wire::lemma_be_round_trip(list[0].kind, 2);
        let rest = extension_bytes(tail);
        wire::lemma_vector_round_trip(list[0].data, 2, rest);
        let all = extension_bytes(list);
        assert(all.take(2) == wire::be_bytes(list[0].kind, 2));
        assert(all.skip(2) == wire::vector(list[0].data, 2) + rest);
        assert(extensions(all) == seq![list[0]] + tail);
        assert(seq![list[0]] + tail == list);
    }
}

/// A well-formed ClientHello is let in if and only if it carries the ECH
/// extension or offers `acme-tls/1`, whatever comes behind it.
pub proof fn law_hello_is_judged_by_its_extensions(h: Hello, more: Seq<u8>)
    requires
        fits(h),
    ensures
        hello_kind(hello_bytes(h) + more) == (if any_signal(h.extensions) {
            ClientHelloKind::EchOrAcmeAlpn
        } else {
            ClientHelloKind::Other
        }),
{
    wire::lemma_capacity();
    let buf = hello_bytes(h) + more;
    wire::lemma_vector_round_trip(message_bytes(h), 2, more);
    assert(buf.skip(3) == wire::vector(message_bytes(h), 2) + more);

    let message = message_bytes(h);
    let none = Seq::<u8>::empty();
    wire::lemma_be_bytes_len(body_bytes(h).len(), 3);
    wire::lemma_vector_round_trip(body_bytes(h), 3, none);
    assert(message.skip(1) == wire::vector(body_bytes(h), 3) + none);

    let e = wire::vector(extension_bytes(h.extensions), 2);
    let d = wire::vector(h.compression, 1) + e;
    let c = wire::vector(h.cipher_suites, 2) + d;
    wire::lemma_vector_round_trip(h.session_id, 1, c);
    wire::lemma_vector_round_trip(h.cipher_suites, 2, d);
    wire::lemma_vector_round_trip(h.compression, 1, e);
    wire::lemma_vector_round_trip(extension_bytes(h.extensions), 2, none);
    assert(body_bytes(h).skip(34) == wire::vector(h.session_id, 1) + c);
    assert(e == e + none);
    assert(after_fixed_fields(body_bytes(h)) == Some(e));
    lemma_extensions_round_trip(h.extensions);
}

/// As long as the record is not there in full, `classify` asks for more bytes.
pub proof fn law_cut_hello_is_incomplete(h: Hello, n: int)
    requires
        fits(h),
        0 <= n < hello_bytes(h).len(),
    ensures
        hello_kind(hello_bytes(h).take(n)) == ClientHelloKind::Incomplete,
{
    wire::lemma_capacity();
    let whole = hello_bytes(h);
    let buf = whole.take(n);
    wire::lemma_be_round_trip(message_bytes(h).len(), 2);
    if n >= 5 {
        assert(buf.skip(3).take(2) == wire::be_bytes(message_bytes(h).len(), 2));
    }
}

/// The bytes of `acme-tls/1`.
pub open spec fn acme_bytes() -> Seq<u8> {
    seq![0x61u8, 0x63u8, 0x6du8, 0x65u8, 0x2du8, 0x74u8, 0x6cu8, 0x73u8, 0x2fu8, 0x31u8]
}

proof fn lemma_acme_bytes()
    ensures
        encode_utf8(ACME_ALPN@) == acme_bytes(),
{
    reveal_strlit("acme-tls/1");
    is_ascii_chars_encode_utf8(ACME_ALPN@);
    assert(encode_utf8(ACME_ALPN@) =~= acme_bytes());
}

/// Names one after the other, each behind its length in one byte.
pub open spec fn names_bytes(names: Seq<Seq<u8>>) -> Seq<u8>
    decreases names.len(),
{
    if names.len() == 0 {
        Seq::empty()
    } else {
        seq![names[0].len() as u8] + names[0] + names_bytes(names.drop_first())
    }
}

/// Whether all names have at most 255 bytes.
pub open spec fn are_short(names: Seq<Seq<u8>>) -> bool {
    forall|i: int| 0 <= i < names.len() ==> (#[trigger] names[i]).len() <= 255
}

/// Whether `name` stands in the list `list`, behind the names `before`.
pub open spec fn stands_behind(list: Seq<u8>, before: Seq<Seq<u8>>, name: Seq<u8>) -> bool {
    &&& are_short(before)
    &&& (names_bytes(before) + seq![name.len() as u8] + name).is_prefix_of(list)
}

/// Whether the data of an ALPN extension is a list behind its length in two bytes,
/// in which `name` stands behind some other names or none.
pub open spec fn lists_name(data: Seq<u8>, name: Seq<u8>) -> bool {
    data.len() >= 2 && {
        let n = 256 * data[0] + data[1];
        data.len() >= 2 + n && exists|before: Seq<Seq<u8>>|
            #[trigger] stands_behind(data.subrange(2, 2 + n), before, name)
    }
}

proof fn lemma_names_read(before: Seq<Seq<u8>>, rest: Seq<u8>)
    requires
        are_short(before),
    ensures
        protocol_names(names_bytes(before) + rest) == before + protocol_names(rest),
    decreases before.len(),
{
    if before.len() == 0 {
        assert(names_bytes(before) + rest == rest);
        assert(before + protocol_names(rest) == protocol_names(rest));
    } else {
        let others = before.drop_first();
        assert forall|i: int| 0 <= i < others.len() implies (#[trigger] others[i]).len() <= 255 by {
            assert(others[i] == before[i + 1]);
        }
        lemma_names_read(others, rest);
        let tail = before[0] + (names_bytes(others) + rest);
        let a = before[0].len() as u8;
        wire::law_vectors_are_read_whole(a, 0, tail, before[0], names_bytes(others) + rest);
        assert(names_bytes(before) + rest == seq![a] + tail);
        assert(seq![before[0]] + (others + protocol_names(rest)) == before + protocol_names(rest));
    }
}

proof fn lemma_name_stands(list: Seq<u8>, i: int) -> (before: Seq<Seq<u8>>)
    requires
        0 <= i < protocol_names(list).len(),
    ensures
        stands_behind(list, before, protocol_names(list)[i]),
        protocol_names(list)[i].len() <= 255,
    decreases list.len(),
{
    let a = list[0];
    let tail = list.skip(1);
    assert(list == seq![a] + tail);
    let first = tail.take(a as int);
    let rest = tail.skip(a as int);
    wire::law_vectors_are_read_whole(a, 0, tail, first, rest);
    assert(tail.len() >= a);
    assert(tail == first + rest);
    assert(protocol_names(list) == seq![first] + protocol_names(rest));
    if i == 0 {
        let none = Seq::<Seq<u8>>::empty();
        assert(names_bytes(none) + seq![first.len() as u8] + first == seq![a] + first);
        assert((seq![a] + first).is_prefix_of(list));
        none
    } else {
        let others = lemma_name_stands(rest, i - 1);
        let before = seq![first] + others;
        let name = protocol_names(list)[i];
        assert(before.drop_first() == others);
        let inner = names_bytes(others) + seq![name.len() as u8] + name;
        let whole = names_bytes(before) + seq![name.len() as u8] + name;
        assert(whole == seq![a] + first + inner);
        assert(rest.take(inner.len() as int) == inner);
        assert(whole =~= list.take(whole.len() as int)) by {
            assert forall|k: int| 0 <= k < whole.len() implies whole[k] == list[k] by {
                if k >= 1 + a {
                    assert(whole[k] == inner[k - 1 - a]);
                    assert(list[k] == rest[k - 1 - a]);
                }
            }
        }
        assert(are_short(before)) by {
            assert forall|k: int| 0 <= k < before.len() implies (#[trigger] before[k]).len()
                <= 255 by {
                if k > 0 {
                    assert(before[k] == others[k - 1]);
                }
            }
        }
        before
    }
}

/// The data of an ALPN extension offers `acme-tls/1` if and only if that name
/// stands in its list.
pub proof fn law_acme_is_offered_by_name(data: Seq<u8>)
    ensures
        offers_acme(data) <==> lists_name(data, acme_bytes()),
{
    lemma_acme_bytes();
    let acme = acme_bytes();
    if data.len() >= 2 {
        let n = 256 * data[0] + data[1];
        let tail = data.skip(2);
        assert(data == seq![data[0], data[1]] + tail);
        if data.len() >= 2 + n {
            let list = data.subrange(2, 2 + n);
            assert(tail == list + tail.skip(n));
            wire::law_vectors_are_read_whole(data[0], data[1], tail, list, tail.skip(n));
            let names = protocol_names(list);
            if names.contains(acme) {
                let i = choose|i: int| 0 <= i < names.len() && names[i] == acme;
                let before = lemma_name_stands(list, i);
                assert(stands_behind(list, before, acme));
            }
            if exists|before: Seq<Seq<u8>>| #[trigger] stands_behind(list, before, acme) {
                let before = choose|before: Seq<Seq<u8>>| #[trigger]
                    stands_behind(list, before, acme);
                let head = names_bytes(before) + seq![acme.len() as u8] + acme;
                let rest = list.skip(head.len() as int);
                assert(list == head + rest);
                let all = before.push(acme);
                assert forall|k: int| 0 <= k < all.len() implies (#[trigger] all[k]).len()
                    <= 255 by {
                    if k < before.len() {
                        assert(all[k] == before[k]);
                    }
                }
                lemma_names_push(before, acme);
                lemma_names_read(all, rest);
                assert(names[before.len() as int] == acme);
            }
        } else {
            wire::law_vectors_are_read_whole(data[0], data[1], tail, tail, tail);
        }
    }
}

proof fn lemma_names_push(names: Seq<Seq<u8>>, name: Seq<u8>)
    ensures
        names_bytes(names.push(name)) == names_bytes(names) + seq![name.len() as u8] + name,
    decreases names.len(),
{
    let all = names.push(name);
    if names.len() == 0 {
        assert(all.drop_first() == names);
    } else {
        assert(all.drop_first() == names.drop_first().push(name));
        lemma_names_push(names.drop_first(), name);
        assert(all[0] == names[0]);
    }
    assert(names_bytes(all) =~= names_bytes(names) + seq![name.len() as u8] + name);
}

/// Whether an extension of the list is `encrypted_client_hello`, type 0xfe0d.
pub open spec fn carries_ech(list: Seq<Extension>) -> bool {
    exists|i: int| 0 <= i < list.len() && (#[trigger] list[i]).kind == 0xfe0d
}

/// Whether an extension of the list is ALPN, type 16, and lists `acme-tls/1`.
pub open spec fn carries_acme(list: Seq<Extension>) -> bool {
    exists|i: int|
        0 <= i < list.len() && (#[trigger] list[i]).kind == 0x0010 && lists_name(
            list[i].data,
            acme_bytes(),
        )
}

/// Of the extensions only ECH and an ALPN list with `acme-tls/1` count.
proof fn lemma_signals(list: Seq<Extension>)
    ensures
        any_signal(list) <==> carries_ech(list) || carries_acme(list),
{
    assert forall|i: int| 0 <= i < list.len() implies (is_signal(#[trigger] list[i]) <==> list[i].kind
        == 0xfe0d || (list[i].kind == 0x0010 && lists_name(list[i].data, acme_bytes()))) by {
        law_acme_is_offered_by_name(list[i].data);
    }
    if any_signal(list) {
        let i = choose|i: int| 0 <= i < list.len() && is_signal(#[trigger] list[i]);
        assert(list[i].kind == 0xfe0d || list[i].kind == 0x0010);
    }
    if carries_ech(list) {
        let i = choose|i: int| 0 <= i < list.len() && (#[trigger] list[i]).kind == 0xfe0d;
        assert(is_signal(list[i]));
    }
    if carries_acme(list) {
        let i = choose|i: int|
            0 <= i < list.len() && (#[trigger] list[i]).kind == 0x0010 && lists_name(
                list[i].data,
                acme_bytes(),
            );
        assert(is_signal(list[i]));
    }
}

/// A whole ClientHello is let in if it has an extension of type 0xfe0d, or one of
/// type 16 that lists the name `acme-tls/1`; with neither it is `Other`, whatever
/// extensions it has besides.
pub proof fn law_only_ech_and_validators_are_let_in(h: Hello, more: Seq<u8>)
    requires
        fits(h),
    ensures
        (exists|i: int| 0 <= i < h.extensions.len() && (#[trigger] h.extensions[i]).kind == 0xfe0d)
            ==> hello_kind(hello_bytes(h) + more) == ClientHelloKind::EchOrAcmeAlpn,
        (exists|i: int|
            0 <= i < h.extensions.len() && (#[trigger] h.extensions[i]).kind == 0x0010
                && lists_name(h.extensions[i].data, acme_bytes())) ==> hello_kind(
            hello_bytes(h) + more,
        ) == ClientHelloKind::EchOrAcmeAlpn,
        (forall|i: int|
            0 <= i < h.extensions.len() ==> (#[trigger] h.extensions[i]).kind != 0xfe0d && (
            h.extensions[i].kind == 0x0010 ==> !lists_name(h.extensions[i].data, acme_bytes())))
            ==> hello_kind(hello_bytes(h) + more) == ClientHelloKind::Other,
{
    law_hello_is_judged_by_its_extensions(h, more);
    lemma_signals(h.extensions);
}

/// The fields before the extensions: version and random, then session id, cipher
/// suites and compression methods, each behind its length.
pub open spec fn fixed_fields(
    version_and_random: Seq<u8>,
    session_id: Seq<u8>,
    cipher_suites: Seq<u8>,
    compression: Seq<u8>,
) -> Seq<u8> {
    version_and_random + (seq![session_id.len() as u8] + session_id) + (seq![
        (cipher_suites.len() / 256) as u8,
        (cipher_suites.len() % 256) as u8,
    ] + cipher_suites) + (seq![compression.len() as u8] + compression)
}

/// A record with a ClientHello message whose body is `body`; `behind` are bytes in
/// the record behind the message.
pub open spec fn record_with(version: Seq<u8>, body: Seq<u8>, behind: Seq<u8>) -> Seq<u8> {
    let n = body.len() as int;
    let m = 4 + n + behind.len();
    seq![0x16u8] + version + seq![(m / 256) as u8, (m % 256) as u8] + (seq![
        0x01u8,
        (n / 65536) as u8,
        (n / 256 % 256) as u8,
        (n % 256) as u8,
    ] + body + behind)
}

/// A ClientHello message is judged by its body, and by nothing behind it.
#[verifier::rlimit(30)]
proof fn lemma_message_with(body: Seq<u8>, behind: Seq<u8>)
    requires
        body.len() <= 0xffff,
    ensures
        ({
            let n = body.len() as int;
            record_kind(
                seq![0x01u8, (n / 65536) as u8, (n / 256 % 256) as u8, (n % 256) as u8] + body
                    + behind,
            ) == body_kind(body)
        }),
{
    let n = body.len() as int;
    let (a, b, c) = ((n / 65536) as u8, (n / 256 % 256) as u8, (n % 256) as u8);
    let message = seq![0x01u8, a, b, c] + body + behind;
    assert(message[0] == 1);
    let s = message.skip(1);
    assert(s.take(3) =~= seq![a, b, c]);
    wire::law_numbers_are_big_endian(a, b, c, 0);
    assert(65536 * a + 256 * b + c == n);
    assert(s.subrange(3, 3 + n) =~= body);
}

/// A whole record is judged by its message, and by nothing behind it.
#[verifier::rlimit(30)]
proof fn lemma_record_of(version: Seq<u8>, message: Seq<u8>, more: Seq<u8>)
    requires
        version.len() == 2,
        message.len() <= 0xffff,
    ensures
        ({
            let m = message.len() as int;
            hello_kind(
                seq![0x16u8] + version + seq![(m / 256) as u8, (m % 256) as u8] + message + more,
            ) == record_kind(message)
        }),
{
    let m = message.len() as int;
    let (hi, lo) = ((m / 256) as u8, (m % 256) as u8);
    let buf = seq![0x16u8] + version + seq![hi, lo] + message + more;
    assert(buf[0] == 0x16);
    assert(buf.skip(3) =~= seq![hi, lo] + (message + more));
    wire::law_vectors_are_read_whole(hi, lo, message + more, message, more);
}

/// A whole record is judged by the body of its message, and by nothing around it.
proof fn lemma_record_with(version: Seq<u8>, body: Seq<u8>, behind: Seq<u8>, more: Seq<u8>)
    requires
        version.len() == 2,
        4 + body.len() + behind.len() <= 0xffff,
    ensures
        hello_kind(record_with(version, body, behind) + more) == body_kind(body),
{
    let n = body.len() as int;
    let message = seq![0x01u8, (n / 65536) as u8, (n / 256 % 256) as u8, (n % 256) as u8] + body
        + behind;
    lemma_message_with(body, behind);
    lemma_record_of(version, message, more);
}

#[verifier::rlimit(30)]
proof fn lemma_fixed_fields(
    version_and_random: Seq<u8>,
    session_id: Seq<u8>,
    cipher_suites: Seq<u8>,
    compression: Seq<u8>,
    tail: Seq<u8>,
)
    requires
        version_and_random.len() == 34,
        session_id.len() <= 255,
        cipher_suites.len() <= 65535,
        compression.len() <= 255,
    ensures
        after_fixed_fields(
            fixed_fields(version_and_random, session_id, cipher_suites, compression) + tail,
        ) == Some(tail),
{
    let (s, c, m) = (session_id, cipher_suites, compression);
    let (hi, lo) = ((c.len() / 256) as u8, (c.len() % 256) as u8);
    let body = fixed_fields(version_and_random, s, c, m) + tail;
    let t3 = seq![m.len() as u8] + (m + tail);
    let t2 = seq![hi, lo] + (c + t3);
    let t1 = seq![s.len() as u8] + (s + t2);
    assert(body.skip(34) =~= t1);
    wire::law_vectors_are_read_whole(s.len() as u8, 0, s + t2, s, t2);
    wire::law_vectors_are_read_whole(hi, lo, c + t3, c, t3);
    wire::law_vectors_are_read_whole(m.len() as u8, 0, m + tail, m, tail);
}

/// Whether no whole extension stands at the front of `junk`: it ends before its
/// type and length, or before the data that the length announces.
pub open spec fn is_cut_extension(junk: Seq<u8>) -> bool {
    junk.len() < 4 || junk.len() < 4 + 256 * junk[2] + junk[3]
}

#[verifier::rlimit(30)]
proof fn lemma_extensions_before_junk(list: Seq<Extension>, junk: Seq<u8>)
    requires
        forall|i: int|
            0 <= i < list.len() ==> (#[trigger] list[i]).kind <= 0xffff && list[i].data.len()
                <= 0xffff,
        is_cut_extension(junk),
    ensures
        extensions(extension_bytes(list) + junk) == list,
    decreases list.len(),
{
    if list.len() == 0 {
        assert(extension_bytes(list) + junk == junk);
        if junk.len() >= 4 {
            let tail = junk.skip(4);
            assert(junk.skip(2) =~= seq![junk[2], junk[3]] + tail);
            wire::law_vectors_are_read_whole(junk[2], junk[3], tail, tail, tail);
        }
        assert(extensions(junk) =~= list);
    } else {
        let tail = list.drop_first();
        assert forall|i: int| 0 <= i < tail.len() implies (#[trigger] tail[i]).kind <= 0xffff
            && tail[i].data.len() <= 0xffff by {
            assert(tail[i] == list[i + 1]);
        }
        lemma_extensions_before_junk(tail, junk);
        wire::lemma_capacity();
        wire::lemma_be_round_trip(list[0].kind, 2);
        let rest = extension_bytes(tail) + junk;
        wire::lemma_vector_round_trip(list[0].data, 2, rest);
        let all = extension_bytes(list) + junk;
        assert(all.take(2) =~= wire::be_bytes(list[0].kind, 2));
        assert(all.skip(2) =~= wire::vector(list[0].data, 2) + rest);
        assert(extensions(all) == seq![list[0]] + tail);
        assert(seq![list[0]] + tail =~= list);
    }
}

/// A ClientHello is judged by the extensions that are whole: an extension that is
/// cut off at the end of the block counts for nothing, and so do bytes behind the
/// block, behind the message and behind the record.
pub proof fn law_whole_extensions_count(
    version: Seq<u8>,
    fields: (Seq<u8>, Seq<u8>, Seq<u8>, Seq<u8>),
    list: Seq<Extension>,
    junk: Seq<u8>,
    behind: (Seq<u8>, Seq<u8>, Seq<u8>),
)
    requires
        version.len() == 2,
        fields.0.len() == 34,
        fields.1.len() <= 255,
        fields.2.len() <= 65535,
        fields.3.len() <= 255,
        forall|i: int|
            0 <= i < list.len() ==> (#[trigger] list[i]).kind <= 0xffff && list[i].data.len()
                <= 0xffff,
        is_cut_extension(junk),
        40 + fields.1.len() + fields.2.len() + fields.3.len() + (extension_bytes(list)
            + junk).len() + behind.0.len() + behind.1.len() + 4 <= 0xffff,
    ensures
        ({
            let block = extension_bytes(list) + junk;
            let prefix = seq![(block.len() / 256) as u8, (block.len() % 256) as u8];
            let body = fixed_fields(fields.0, fields.1, fields.2, fields.3) + (prefix + block
                + behind.0);
            hello_kind(record_with(version, body, behind.1) + behind.2) == (if carries_ech(list)
                || carries_acme(list) {
                ClientHelloKind::EchOrAcmeAlpn
            } else {
                ClientHelloKind::Other
            })
        }),
{
    let block = extension_bytes(list) + junk;
    let (hi, lo) = ((block.len() / 256) as u8, (block.len() % 256) as u8);
    let tail = seq![hi, lo] + block + behind.0;
    let body = fixed_fields(fields.0, fields.1, fields.2, fields.3) + tail;
    lemma_record_with(version, body, behind.1, behind.2);
    lemma_fixed_fields(fields.0, fields.1, fields.2, fields.3, tail);
    assert(tail =~= seq![hi, lo] + (block + behind.0));
    wire::law_vectors_are_read_whole(hi, lo, block + behind.0, block, behind.0);
    lemma_extensions_before_junk(list, junk);
    lemma_signals(list);
}

/// A ClientHello without an extension block is `Other`; one whose extension block
/// is announced as longer than the message is incomplete.
pub proof fn law_hello_without_extensions(
    version: Seq<u8>,
    fields: (Seq<u8>, Seq<u8>, Seq<u8>, Seq<u8>),
    tail: Seq<u8>,
    behind: Seq<u8>,
    more: Seq<u8>,
)
    requires
        version.len() == 2,
        fields.0.len() == 34,
        fields.1.len() <= 255,
        fields.2.len() <= 65535,
        fields.3.len() <= 255,
        40 + fields.1.len() + fields.2.len() + fields.3.len() + tail.len() + behind.len() + 4
            <= 0xffff,
    ensures
        ({
            let body = fixed_fields(fields.0, fields.1, fields.2, fields.3) + tail;
            let kind = hello_kind(record_with(version, body, behind) + more);
            &&& tail.len() < 2 ==> kind == ClientHelloKind::Other
            &&& tail.len() >= 2 && tail.len() < 2 + 256 * tail[0] + tail[1] ==> kind
                == ClientHelloKind::Incomplete
        }),
{
    let body = fixed_fields(fields.0, fields.1, fields.2, fields.3) + tail;
    lemma_record_with(version, body, behind, more);
    lemma_fixed_fields(fields.0, fields.1, fields.2, fields.3, tail);
    if tail.len() >= 2 {
        let t = tail.skip(2);
        assert(tail =~= seq![tail[0], tail[1]] + t);
        wire::law_vectors_are_read_whole(tail[0], tail[1], t, t, t);
    }
}

/// The first byte decides whether it is TLS at all, and the first byte of the
/// message whether it is a ClientHello.
pub proof fn law_other_traffic_is_told_apart(buf: Seq<u8>, version: Seq<u8>, message: Seq<u8>, more: Seq<u8>)
    requires
        version.len() == 2,
        0 < message.len() <= 0xffff,
    ensures
        hello_kind(buf) == ClientHelloKind::NotTls <==> buf.len() > 0 && buf[0] != 0x16,
        hello_kind(Seq::empty()) == ClientHelloKind::Incomplete,
        message[0] != 1 ==> hello_kind(
            seq![0x16u8] + version + seq![
                (message.len() / 256) as u8,
                (message.len() % 256) as u8,
            ] + message + more,
        ) == ClientHelloKind::Other,
{
    lemma_record_of(version, message, more);
}

/// A message that ends within the fields before the extensions is incomplete.
pub proof fn law_cut_fields_are_incomplete(
    version: Seq<u8>,
    fields: (Seq<u8>, Seq<u8>, Seq<u8>, Seq<u8>),
    n: int,
    behind: Seq<u8>,
    more: Seq<u8>,
)
    requires
        version.len() == 2,
        fields.0.len() == 34,
        fields.1.len() <= 255,
        fields.2.len() <= 65535,
        fields.3.len() <= 255,
        0 <= n < fixed_fields(fields.0, fields.1, fields.2, fields.3).len(),
        4 + n + behind.len() <= 0xffff,
    ensures
        hello_kind(
            record_with(
                version,
                fixed_fields(fields.0, fields.1, fields.2, fields.3).take(n),
                behind,
            ) + more,
        ) == ClientHelloKind::Incomplete,
{
    let (s, c, m) = (fields.1, fields.2, fields.3);
    let (hi, lo) = ((c.len() / 256) as u8, (c.len() % 256) as u8);
    let all = fixed_fields(fields.0, s, c, m);
    let body = all.take(n);
    lemma_record_with(version, body, behind, more);
    if n >= 34 {
        let t3 = seq![m.len() as u8] + m;
        let t2 = seq![hi, lo] + (c + t3);
        let t1 = seq![s.len() as u8] + (s + t2);
        assert(all.skip(34) =~= t1);
        assert(body.skip(34) =~= t1.take(n - 34));
        lemma_cut_fields(s, c, m, n - 34);
    }
}

#[verifier::rlimit(30)]
proof fn lemma_cut_fields(s: Seq<u8>, c: Seq<u8>, m: Seq<u8>, n: int)
    requires
        s.len() <= 255,
        c.len() <= 65535,
        m.len() <= 255,
        0 <= n < 4 + s.len() + c.len() + m.len(),
    ensures
        ({
            let (hi, lo) = ((c.len() / 256) as u8, (c.len() % 256) as u8);
            let t3 = seq![m.len() as u8] + m;
            let t2 = seq![hi, lo] + (c + t3);
            let t1 = seq![s.len() as u8] + (s + t2);
            match wire::prefixed(t1.take(n), 1) {
                None => true,
                Some((_, a)) => match wire::prefixed(a, 2) {
                    None => true,
                    Some((_, b)) => wire::prefixed(b, 1) is None,
                },
            }
        }),
{
    let (hi, lo) = ((c.len() / 256) as u8, (c.len() % 256) as u8);
    let t3 = seq![m.len() as u8] + m;
    let t2 = seq![hi, lo] + (c + t3);
    let t1 = seq![s.len() as u8] + (s + t2);
    let cut = t1.take(n);
    if n >= 1 {
        let tail = (s + t2).take(n - 1);
        assert(cut =~= seq![s.len() as u8] + tail);
        if n - 1 >= s.len() {
            let k = n - 1 - s.len();
            let a = t2.take(k);
            assert(tail =~= s + a);
            wire::law_vectors_are_read_whole(s.len() as u8, 0, tail, s, a);
            if k >= 2 {
                let rest = (c + t3).take(k - 2);
                assert(a =~= seq![hi, lo] + rest);
                if k - 2 >= c.len() {
                    let l = k - 2 - c.len();
                    let b = t3.take(l);
                    assert(rest =~= c + b);
                    wire::law_vectors_are_read_whole(hi, lo, rest, c, b);
                    if l >= 1 {
                        let last = m.take(l - 1);
                        assert(b =~= seq![m.len() as u8] + last);
                        wire::law_vectors_are_read_whole(m.len() as u8, 0, last, last, last);
                    }
                } else {
                    wire::law_vectors_are_read_whole(hi, lo, rest, rest, rest);
                }
            }
        } else {
            wire::law_vectors_are_read_whole(s.len() as u8, 0, tail, tail, tail);
        }
    }
}

/// A record that ends before its ClientHello message does is incomplete.
pub proof fn law_cut_message_is_incomplete(version: Seq<u8>, message: Seq<u8>, more: Seq<u8>)
    requires
        version.len() == 2,
        message.len() <= 0xffff,
        message.len() == 0 || message[0] == 1,
        message.len() < 4 || message.len() < 4 + 65536 * message[1] + 256 * message[2] + message[3],
    ensures
        hello_kind(
            seq![0x16u8] + version + seq![
                (message.len() / 256) as u8,
                (message.len() % 256) as u8,
            ] + message + more,
        ) == ClientHelloKind::Incomplete,
{
    lemma_record_of(version, message, more);
    if message.len() >= 4 {
        let s = message.skip(1);
        assert(s.take(3) =~= seq![message[1], message[2], message[3]]);
        wire::law_numbers_are_big_endian(message[1], message[2], message[3], 0);
    }
}

} // verus!
