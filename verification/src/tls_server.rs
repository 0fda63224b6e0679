//! The decisions of the TLS server: which files it loads, which protocol a
//! handshake settles on, and when a handshake is answered with a challenge
//! certificate.
//!
//! TLS-ALPN-01 validation shares the listener with the tunnel. A client that
//! offers `acme-tls/1` for a name under validation gets the challenge
//! certificate of that name. Everybody else gets `h2` or `http/1.1` under the
//! production certificate.

use vstd::prelude::*;
use vstd::utf8::*;

use crate::challenge::ChallengeStore;
use crate::clienthello;
use crate::clienthello::ACME_ALPN;
use crate::config::{ServerCfg, ServerEch, ServerTls};
use crate::config;
use crate::ech;
use crate::ech::{EchError, EchServerKey};
use crate::text::{bytes_eq, str_eq};
use crate::wire;

verus! {

/// HTTP/2.
pub const ALPN_H2: &'static str = "h2";

/// HTTP/1.1.
pub const ALPN_HTTP11: &'static str = "http/1.1";

// ---------------------------------------------------------------------------
// Protocol lists
// ---------------------------------------------------------------------------

/// The entries of a protocol list, up to the first one that is empty or cut
/// off.
pub open spec fn alpn_entries(list: Seq<u8>) -> Seq<Seq<u8>>
    decreases list.len(),
{
    if list.len() == 0 || list[0] == 0 || list.len() < 1 + list[0] {
        Seq::empty()
    } else {
        seq![list.subrange(1, 1 + list[0])] + alpn_entries(list.skip(1 + list[0] as int))
    }
}

/// A protocol list: each name behind its length, of which one byte is kept.
pub open spec fn alpn_list(protos: Seq<Seq<u8>>) -> Seq<u8>
    decreases protos.len(),
{
    if protos.len() == 0 {
        Seq::empty()
    } else {
        seq![(protos[0].len() % 256) as u8] + protos[0] + alpn_list(protos.skip(1))
    }
}

/// Slices as sequences.
pub open spec fn byte_strings(v: Seq<&[u8]>) -> Seq<Seq<u8>> {
    v.map_values(|s: &[u8]| s@)
}

proof fn lemma_alpn_list_push(protos: Seq<Seq<u8>>, p: Seq<u8>)
    ensures
        alpn_list(protos.push(p)) == alpn_list(protos) + (seq![(p.len() % 256) as u8] + p),
    decreases protos.len(),
{
    let all = protos.push(p);
    let entry = seq![(p.len() % 256) as u8] + p;
    if protos.len() == 0 {
        assert(all.skip(1) == Seq::<Seq<u8>>::empty());
        assert(alpn_list(all.skip(1)) == Seq::<u8>::empty());
        assert(alpn_list(all) == entry);
        assert(alpn_list(protos) + entry == entry);
    } else {
        assert(all.skip(1) == protos.skip(1).push(p));
        lemma_alpn_list_push(protos.skip(1), p);
        let head = seq![(protos[0].len() % 256) as u8] + protos[0];
        assert(head + (alpn_list(protos.skip(1)) + entry) == head + alpn_list(protos.skip(1))
            + entry);
    }
}

/// Encodes a protocol list, such as `0x02 'h' '2' 0x08 'h' 't' 't' 'p' ...`.
pub fn alpn_wire(protos: &[&[u8]]) -> (out: Vec<u8>)
    ensures
        out@ == alpn_list(byte_strings(protos@)),
{
    let mut out: Vec<u8> = Vec::new();
    let ghost all = byte_strings(protos@);
    assert(all.take(0) == Seq::<Seq<u8>>::empty());
    for i in 0..protos.len()
        invariant
            all == byte_strings(protos@),
            out@ == alpn_list(all.take(i as int)),
    {
        let p = protos[i];
        let ghost before = out@;
        out.push((p.len() % 256) as u8);
        out.extend_from_slice(p);
        proof {
            assert(all.take(i + 1) == all.take(i as int).push(p@));
            lemma_alpn_list_push(all.take(i as int), p@);
            assert(out@ == before + (seq![(p@.len() % 256) as u8] + p@));
        }
    }
    assert(all.take(all.len() as int) == all);
    out
}

/// The protocol list that both sides offer: HTTP/2, then HTTP/1.1.
pub fn http_alpn_wire() -> (out: Vec<u8>)
    ensures
        out@ == alpn_list(seq![encode_utf8(ALPN_H2@), encode_utf8(ALPN_HTTP11@)]),
{
    let protos: [&[u8]; 2] = [ALPN_H2.as_bytes(), ALPN_HTTP11.as_bytes()];
    assert(byte_strings(protos@) == seq![encode_utf8(ALPN_H2@), encode_utf8(ALPN_HTTP11@)]);
    alpn_wire(protos.as_slice())
}

/// The protocol list of a challenge context: `acme-tls/1` alone, so that its
/// certificate never goes to an ordinary client.
pub fn acme_alpn_wire() -> (out: Vec<u8>)
    ensures
        out@ == alpn_list(seq![encode_utf8(ACME_ALPN@)]),
{
    let protos: [&[u8]; 1] = [ACME_ALPN.as_bytes()];
    assert(byte_strings(protos@) == seq![encode_utf8(ACME_ALPN@)]);
    alpn_wire(protos.as_slice())
}

/// Walks over the entries of a protocol list.
pub struct AlpnIter<'a> {
    remaining: &'a [u8],
}

impl<'a> View for AlpnIter<'a> {
    type V = Seq<u8>;

    closed spec fn view(&self) -> Seq<u8> {
        self.remaining@
    }
}

impl<'a> AlpnIter<'a> {
    pub fn new(list: &'a [u8]) -> (it: Self)
        ensures
            it@ == list@,
    {
        AlpnIter { remaining: list }
    }

    /// The next entry; `None` at the end, and where the rest is no entry.
    pub fn next(&mut self) -> (r: Option<&'a [u8]>)
        ensures
            match r {
                Some(proto) => alpn_entries(old(self)@) == seq![proto@] + alpn_entries(final(self)@)
                    && final(self)@.len() < old(self)@.len(),
                None => alpn_entries(old(self)@) == Seq::<Seq<u8>>::empty() && final(self)@ == old(
                    self,
                )@,
            },
    {
        let n: usize = self.remaining.len();
        if n == 0 {
            return None;
        }
        let len: usize = self.remaining[0] as usize;
        if len == 0 || n < 1 + len {
            return None;
        }
        let list = self.remaining;
        let proto = &list[1..1 + len];
        self.remaining = &list[1 + len..n];
        assert(proto@ == list@.subrange(1, 1 + list@[0]));
        assert(self.remaining@ == list@.skip(1 + list@[0] as int));
        Some(proto)
    }
}

// ---------------------------------------------------------------------------
// Protocol selection
// ---------------------------------------------------------------------------

/// How a handshake goes on.
#[derive(Debug, Clone, Copy, PartialEq, Eq, Structural)]
pub enum AlpnChoice {
    /// Under the challenge context of the name asked for, with `acme-tls/1`.
    Challenge,
    /// With `h2`.
    H2,
    /// With `http/1.1`.
    Http11,
    /// Without a protocol.
    NoAck,
    /// It ends with a fatal alert: the challenge context could not be switched
    /// to.
    Fatal,
}

/// How a handshake goes on that offers `protos`: `challenge` says whether the
/// name asked for is under validation.
pub open spec fn alpn_choice(protos: Seq<Seq<u8>>, challenge: bool) -> AlpnChoice {
    if protos.contains(encode_utf8(ACME_ALPN@)) && challenge {
        AlpnChoice::Challenge
    } else if protos.contains(encode_utf8(ALPN_H2@)) {
        AlpnChoice::H2
    } else if protos.contains(encode_utf8(ALPN_HTTP11@)) {
        AlpnChoice::Http11
    } else {
        AlpnChoice::NoAck
    }
}

/// Whether the name asked for, if any, is under validation.
pub open spec fn under_validation<C>(sni: Option<&str>, store: Map<Seq<char>, C>) -> bool {
    sni matches Some(name) && store.contains_key(name@)
}

/// The name of the protocol that a choice settles on, if it settles on one.
pub open spec fn protocol_of(choice: AlpnChoice) -> Option<Seq<char>> {
    match choice {
        AlpnChoice::Challenge => Some(ACME_ALPN@),
        AlpnChoice::H2 => Some(ALPN_H2@),
        AlpnChoice::Http11 => Some(ALPN_HTTP11@),
        AlpnChoice::NoAck => None,
        AlpnChoice::Fatal => None,
    }
}

/// A choice after the attempt to switch contexts, which only a challenge needs.
pub open spec fn settled(choice: AlpnChoice, switched: bool) -> AlpnChoice {
    if choice == AlpnChoice::Challenge && !switched {
        AlpnChoice::Fatal
    } else {
        choice
    }
}

impl AlpnChoice {
    /// The protocol that is settled on.
    pub fn protocol(self) -> (r: Option<&'static str>)
        ensures
            match self {
                AlpnChoice::Challenge => r matches Some(p) && p@ == ACME_ALPN@,
                AlpnChoice::H2 => r matches Some(p) && p@ == ALPN_H2@,
                AlpnChoice::Http11 => r matches Some(p) && p@ == ALPN_HTTP11@,
                AlpnChoice::NoAck => r is None,
                AlpnChoice::Fatal => r is None,
            },
            r matches Some(p) ==> protocol_of(self) == Some(p@),
            r is None ==> protocol_of(self) is None,
    {
        match self {
            AlpnChoice::Challenge => Some(ACME_ALPN),
            AlpnChoice::H2 => Some(ALPN_H2),
            AlpnChoice::Http11 => Some(ALPN_HTTP11),
            AlpnChoice::NoAck => None,
            AlpnChoice::Fatal => None,
        }
    }

    /// The choice once the TLS stack has tried to switch to the challenge
    /// context, where there was one to switch to.
    pub fn after_context_switch(self, switched: bool) -> (r: AlpnChoice)
        ensures
            r == if self == AlpnChoice::Challenge && !switched {
                AlpnChoice::Fatal
            } else {
                self
            },
            r == settled(self, switched),
    {
        match self {
            AlpnChoice::Challenge => if switched {
                AlpnChoice::Challenge
            } else {
                AlpnChoice::Fatal
            },
            _ => self,
        }
    }
}

/// Chooses the protocol of a handshake: `client_protos` is the client's list,
/// `sni` the name it asks for.
pub fn select_alpn<C>(
    client_protos: &[u8],
    sni: Option<&str>,
    challenges: &ChallengeStore<C>,
) -> (r: AlpnChoice)
    ensures
        r == alpn_choice(alpn_entries(client_protos@), under_validation(sni, challenges@)),
{
    let mut it = AlpnIter::new(client_protos);
    let mut offered_acme = false;
    let mut offered_h2 = false;
    let mut offered_http11 = false;
    let ghost all = alpn_entries(client_protos@);
    let ghost acme = encode_utf8(ACME_ALPN@);
    let ghost h2 = encode_utf8(ALPN_H2@);
    let ghost http11 = encode_utf8(ALPN_HTTP11@);
    proof {
        lemma_names_differ();
    }
    loop
        invariant_except_break
            all.contains(acme) == (offered_acme || alpn_entries(it@).contains(acme)),
            all.contains(h2) == (offered_h2 || alpn_entries(it@).contains(h2)),
            all.contains(http11) == (offered_http11 || alpn_entries(it@).contains(http11)),
            acme == encode_utf8(ACME_ALPN@),
            h2 == encode_utf8(ALPN_H2@),
            http11 == encode_utf8(ALPN_HTTP11@),
            acme != h2,
            acme != http11,
            h2 != http11,
        ensures
            all.contains(acme) == offered_acme,
            all.contains(h2) == offered_h2,
            all.contains(http11) == offered_http11,
        decreases it@.len(),
    {
        let proto = match it.next() {
            Some(p) => p,
            None => {
                break;
            },
        };
        proof {
            let rest = alpn_entries(it@);
            wire::lemma_contains_first(proto@, rest, acme);
            wire::lemma_contains_first(proto@, rest, h2);
            wire::lemma_contains_first(proto@, rest, http11);
        }
        if bytes_eq(proto, ACME_ALPN.as_bytes()) {
            offered_acme = true;
        } else if bytes_eq(proto, ALPN_H2.as_bytes()) {
            offered_h2 = true;
        } else if bytes_eq(proto, ALPN_HTTP11.as_bytes()) {
            offered_http11 = true;
        }
    }
    if offered_acme {
        if let Some(name) = sni {
            if challenges.get(name).is_some() {
                return AlpnChoice::Challenge;
            }
        }
    }
    if offered_h2 {
        AlpnChoice::H2
    } else if offered_http11 {
        AlpnChoice::Http11
    } else {
        AlpnChoice::NoAck
    }
}

/// The three protocol names are different.
proof fn lemma_names_differ()
    ensures
        encode_utf8(ACME_ALPN@) != encode_utf8(ALPN_H2@),
        encode_utf8(ACME_ALPN@) != encode_utf8(ALPN_HTTP11@),
        encode_utf8(ALPN_H2@) != encode_utf8(ALPN_HTTP11@),
{
    reveal_strlit("acme-tls/1");
    reveal_strlit("h2");
    reveal_strlit("http/1.1");
    encode_utf8_decode_utf8(ACME_ALPN@);
    encode_utf8_decode_utf8(ALPN_H2@);
    encode_utf8_decode_utf8(ALPN_HTTP11@);
    assert(ACME_ALPN@.len() == 10);
    assert(ALPN_H2@.len() == 2);
    assert(ALPN_HTTP11@.len() == 8);
}

// ---------------------------------------------------------------------------
// Certificate and key
// ---------------------------------------------------------------------------

/// The server is to load a certificate from disk, but is configured for ACME.
#[derive(Debug)]
pub struct NotStatic;

impl NotStatic {
    /// The message for the user.
    pub fn message(&self) -> (m: String)
        ensures
            m@ == "build_static called with tls=acme; use the ACME path"@,
    {
        "build_static called with tls=acme; use the ACME path".to_owned()
    }
}

/// Whether the server has its certificate and its key in these files.
pub open spec fn are_static_files(cfg: ServerCfg, cert: Seq<char>, key: Seq<char>) -> bool {
    cfg.tls matches ServerTls::Static { cert_file, key_file } && cert == cert_file@ && key
        == key_file@
}

/// The certificate file and the key file of a server that has them on disk.
pub fn static_files(cfg: &ServerCfg) -> (r: Result<(&str, &str), NotStatic>)
    ensures
        match r {
            Ok(files) => cfg@.tls == (config::TlsSettings::Static {
                cert_file: files.0@,
                key_file: files.1@,
            }),
            Err(_) => cfg@.tls is Acme,
        },
        match r {
            Ok(files) => are_static_files(*cfg, files.0@, files.1@),
            Err(_) => cfg.tls is Acme,
        },
{
    match &cfg.tls {
        ServerTls::Static { cert_file, key_file } => Ok((cert_file.as_str(), key_file.as_str())),
        ServerTls::Acme { .. } => Err(NotStatic),
    }
}

/// Whether a key was made for this public name.
pub open spec fn is_made_for(k: ech::EchKey, public_name: Seq<char>) -> bool {
    k.public_name == public_name
}

/// The ECH key in the bytes of the configured key file, and whether it was made
/// for the configured public name; one that was not is used all the same.
pub fn ech_key(cfg: &ServerEch, file: &[u8]) -> (r: Result<(EchServerKey, bool), EchError>)
    ensures
        match r {
            Ok(p) => ech::key_in_file(file@) == Ok::<_, ech::EchFault>(p.0@) && p.1 == (
            p.0@.public_name == cfg@.public_name),
            Err(e) => ech::key_in_file(file@) == Err::<ech::EchKey, _>(e@),
        },
        r matches Ok(p) ==> p.1 == is_made_for(p.0@, cfg.public_name@),
{
    match EchServerKey::read_from(file) {
        Ok(key) => {
            let same = str_eq(key.public_name(), cfg.public_name.as_str());
            Ok((key, same))
        },
        Err(e) => Err(e),
    }
}

// ---------------------------------------------------------------------------
// Laws
// ---------------------------------------------------------------------------

/// A list of names of one to 255 bytes is read back from its encoding.
pub proof fn law_alpn_round_trip(protos: Seq<Seq<u8>>)
    requires
        forall|i: int| 0 <= i < protos.len() ==> 1 <= (#[trigger] protos[i]).len() <= 255,
    ensures
        alpn_entries(alpn_list(protos)) == protos,
    decreases protos.len(),
{
    if protos.len() > 0 {
        let rest = protos.skip(1);
        let p = protos[0];
        assert forall|i: int| 0 <= i < rest.len() implies 1 <= (#[trigger] rest[i]).len()
            <= 255 by {
            assert(rest[i] == protos[i + 1]);
        }
        law_alpn_round_trip(rest);
        let list = alpn_list(protos);
        assert(list[0] == p.len());
        assert(list.subrange(1, 1 + list[0]) == p);
        assert(list.skip(1 + list[0] as int) == alpn_list(rest));
        assert(protos == seq![p] + rest);
    } else {
        assert(protos == Seq::<Seq<u8>>::empty());
    }
}

/// The challenge context answers validators of names under validation, and
/// nobody else: every other handshake gets the first of `h2` and `http/1.1` that
/// it offers, whether or not it offers `acme-tls/1` besides.
pub proof fn law_challenges_are_for_validators(protos: Seq<Seq<u8>>, challenge: bool)
    ensures
        alpn_choice(protos, challenge) == AlpnChoice::Challenge <==> protos.contains(
            encode_utf8(ACME_ALPN@),
        ) && challenge,
        alpn_choice(protos, challenge) != AlpnChoice::Challenge ==> alpn_choice(protos, challenge)
            == if protos.contains(encode_utf8(ALPN_H2@)) {
            AlpnChoice::H2
        } else if protos.contains(encode_utf8(ALPN_HTTP11@)) {
            AlpnChoice::Http11
        } else {
            AlpnChoice::NoAck
        },
{
}

/// A validator is answered from the time the context of its name is installed
/// until it is removed; at any other time it is treated like everybody else.
pub proof fn law_challenge_lifecycle<C>(
    protos: Seq<Seq<u8>>,
    name: &str,
    store: Map<Seq<char>, C>,
    ctx: C,
)
    requires
        protos.contains(encode_utf8(ACME_ALPN@)),
    ensures
        alpn_choice(protos, under_validation(Some(name), store.insert(name@, ctx)))
            == AlpnChoice::Challenge,
        alpn_choice(protos, under_validation(Some(name), store.remove(name@))) == alpn_choice(
            protos,
            false,
        ),
        alpn_choice(protos, under_validation(Some(name), store.remove(name@)))
            != AlpnChoice::Challenge,
{
}

proof fn lemma_entry_is_name(list: Seq<u8>, i: int)
    requires
        0 <= i < alpn_entries(list).len(),
    ensures
        i < clienthello::protocol_names(list).len(),
        alpn_entries(list)[i] == clienthello::protocol_names(list)[i],
    decreases list.len(),
{
    let n = list[0] as int;
    assert(list.take(1) == seq![list[0]]);
    wire::lemma_big_endian_short(list.take(1));
    let rest = list.skip(1 + n);
    assert(clienthello::protocol_names(list) == seq![list.subrange(1, 1 + n)]
        + clienthello::protocol_names(rest));
    if i > 0 {
        lemma_entry_is_name(rest, i - 1);
    }
}

/// Every validator that the handshake would answer passes the look at the
/// ClientHello as well: what is an entry here is a name there.
pub proof fn law_validators_pass_the_gate(list: Seq<u8>)
    requires
        list.len() <= 0xffff,
        alpn_entries(list).contains(encode_utf8(ACME_ALPN@)),
    ensures
        clienthello::offers_acme(wire::vector(list, 2)),
{
    let acme = encode_utf8(ACME_ALPN@);
    let i = choose|i: int| 0 <= i < alpn_entries(list).len() && alpn_entries(list)[i] == acme;
    lemma_entry_is_name(list, i);
    assert(clienthello::protocol_names(list)[i] == acme);
    wire::lemma_capacity();
    wire::lemma_vector_round_trip(list, 2, Seq::empty());
    assert(wire::vector(list, 2) + Seq::<u8>::empty() == wire::vector(list, 2));
}

/// A list of names is the lists of its parts one after the other, and a name of at
/// most 255 bytes stands in it behind its length, as it is.
pub proof fn law_lists_are_joined(a: Seq<Seq<u8>>, b: Seq<Seq<u8>>, p: Seq<u8>)
    ensures
        alpn_list(Seq::empty()) == Seq::<u8>::empty(),
        alpn_list(a + b) == alpn_list(a) + alpn_list(b),
        p.len() <= 255 ==> alpn_list(seq![p]) == seq![p.len() as u8] + p,
    decreases a.len(),
{
    if a.len() == 0 {
        assert(a + b =~= b);
        assert(alpn_list(a) + alpn_list(b) =~= alpn_list(b));
    } else {
        law_lists_are_joined(a.skip(1), b, p);
        assert((a + b).skip(1) =~= a.skip(1) + b);
        assert((a + b)[0] == a[0]);
        assert(alpn_list(a + b) =~= alpn_list(a) + alpn_list(b));
    }
    assert(seq![p].skip(1) =~= Seq::<Seq<u8>>::empty());
    assert(alpn_list(seq![p].skip(1)) == Seq::<u8>::empty());
    if p.len() <= 255 {
        assert(alpn_list(seq![p]) =~= seq![p.len() as u8] + p);
    }
}

/// The entries of a list are read up to the first that is empty or cut off: names
/// that are whole are read, whatever follows them.
pub proof fn law_whole_entries_are_read(protos: Seq<Seq<u8>>, junk: Seq<u8>)
    requires
        forall|i: int| 0 <= i < protos.len() ==> 1 <= (#[trigger] protos[i]).len() <= 255,
        junk.len() == 0 || junk[0] == 0 || junk.len() < 1 + junk[0],
    ensures
        alpn_entries(alpn_list(protos) + junk) == protos,
    decreases protos.len(),
{
    if protos.len() > 0 {
        let rest = protos.skip(1);
        let p = protos[0];
        assert forall|i: int| 0 <= i < rest.len() implies 1 <= (#[trigger] rest[i]).len()
            <= 255 by {
            assert(rest[i] == protos[i + 1]);
        }
        law_whole_entries_are_read(rest, junk);
        let list = alpn_list(protos) + junk;
        assert(list[0] == p.len());
        assert(list.subrange(1, 1 + list[0]) =~= p);
        assert(list.skip(1 + list[0] as int) =~= alpn_list(rest) + junk);
        assert(protos =~= seq![p] + rest);
    } else {
        assert(alpn_list(protos) + junk =~= junk);
        assert(alpn_entries(junk) =~= protos);
    }
}

/// What a client that offers these names is answered: `acme-tls/1` where it offers
/// that and its name is under validation; else `h2` where it offers that; else
/// `http/1.1` where it offers that; else no protocol. The order in which it offers
/// them, and other names among them, make no difference.
pub proof fn law_protocol_that_is_settled_on<C>(
    protos: Seq<Seq<u8>>,
    sni: Option<&str>,
    store: Map<Seq<char>, C>,
)
    ensures
        ({
            let known = match sni {
                Some(name) => store.contains_key(name@),
                None => false,
            };
            let acme = protos.contains(encode_utf8("acme-tls/1"@));
            let h2 = protos.contains(encode_utf8("h2"@));
            let http11 = protos.contains(encode_utf8("http/1.1"@));
            let choice = alpn_choice(protos, under_validation(sni, store));
            &&& acme && known <==> protocol_of(choice) == Some("acme-tls/1"@)
            &&& !(acme && known) && h2 <==> protocol_of(choice) == Some("h2"@)
            &&& !(acme && known) && !h2 && http11 <==> protocol_of(choice) == Some("http/1.1"@)
            &&& !(acme && known) && !h2 && !http11 <==> protocol_of(choice) is None
            &&& choice != AlpnChoice::Fatal
        }),
{
    reveal_strlit("acme-tls/1");
    reveal_strlit("h2");
    reveal_strlit("http/1.1");
    assert("acme-tls/1"@.len() == 10);
    assert("h2"@.len() == 2);
    assert("http/1.1"@.len() == 8);
}

/// A handshake is ended if and only if it is a challenge whose context could not be
/// switched to; any other choice stays as it is.
pub proof fn law_failed_switch_is_fatal(choice: AlpnChoice, switched: bool)
    ensures
        choice == AlpnChoice::Challenge && !switched ==> settled(choice, switched)
            == AlpnChoice::Fatal && protocol_of(settled(choice, switched)) is None,
        choice != AlpnChoice::Challenge || switched ==> settled(choice, switched) == choice,
{
}

/// The files of a server are those of its configuration.
pub proof fn law_files_are_the_configured_ones(cfg: ServerCfg, cert: Seq<char>, key: Seq<char>)
    requires
        are_static_files(cfg, cert, key),
    ensures
        cfg@.tls == (config::TlsSettings::Static { cert_file: cert, key_file: key }),
        !(cfg.tls is Acme),
{
}

/// A key was made for exactly one name: the one that is written in its file.
pub proof fn law_key_is_made_for_one_name(k: ech::EchKey, a: Seq<char>, b: Seq<char>)
    ensures
        is_made_for(k, k.public_name),
        is_made_for(k, a) && is_made_for(k, b) ==> a == b,
        a != k.public_name ==> !is_made_for(k, a),
{
}

} // verus!
