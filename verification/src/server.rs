//! The decisions of the server: which connections it lets in, which requests
//! it turns into tunnels, and how it comes by its certificate.

use tokio_tungstenite::tungstenite::handshake::derive_accept_key;
use vstd::prelude::*;
use vstd::utf8::*;

use crate::acme::CertMaterial;
use crate::clienthello;
use crate::clienthello::{classify, ClientHelloKind};
use crate::config;
use crate::config::{ServerCfg, ServerTls};
use crate::ech;
use crate::stealth;
use crate::stealth::{fake_404, HttpResponse};
use crate::text;
use crate::text::{has_token, same_ignoring_case, str_eq};

verus! {

// ---------------------------------------------------------------------------
// Requests
// ---------------------------------------------------------------------------

/// What the server reads of a request: the method, the path, and the raw values
/// of three headers.
#[derive(Debug)]
pub struct RequestHead {
    pub method: String,
    pub path: String,
    pub upgrade: Option<Vec<u8>>,
    pub connection: Option<Vec<u8>>,
    pub sec_websocket_key: Option<Vec<u8>>,
}

/// Whether a byte of a header is visible ASCII, or a tab.
pub open spec fn is_visible(b: u8) -> bool {
    32 <= b < 127 || b == 9
}

/// The text of a header value; `None` where it is not all visible ASCII.
pub open spec fn header_text(raw: Seq<u8>) -> Option<Seq<char>> {
    if forall|i: int| 0 <= i < raw.len() ==> is_visible(#[trigger] raw[i]) {
        Some(raw.map_values(|b: u8| b as char))
    } else {
        None
    }
}

fn header_str(raw: &[u8]) -> (r: Option<String>)
    ensures
        match r {
            Some(s) => header_text(raw@) == Some(s@),
            None => header_text(raw@) is None,
        },
{
    let mut out = String::new();
    for i in 0..raw.len()
        invariant
            forall|j: int| 0 <= j < i ==> is_visible(#[trigger] raw@[j]),
            out@ == raw@.take(i as int).map_values(|b: u8| b as char),
    {
        let b: u8 = raw[i];
        if !((32 <= b && b < 127) || b == 9) {
            assert(!is_visible(raw@[i as int]));
            return None;
        }
        out.push(b as char);
        assert(raw@.take(i + 1) == raw@.take(i as int).push(b));
        assert(out@ == raw@.take(i + 1).map_values(|b: u8| b as char));
    }
    assert(raw@.take(raw@.len() as int) == raw@);
    Some(out)
}

/// Whether the headers ask to switch to WebSocket.
pub open spec fn asks_for_websocket(h: RequestHead) -> bool {
    &&& h.upgrade matches Some(raw) && header_text(raw@) matches Some(s) && text::lowered(s)
        == text::lowered("websocket"@)
    &&& h.connection matches Some(raw) && header_text(raw@) matches Some(s) && text::lists_token(
        s,
        "upgrade"@,
    )
}

/// Whether the request asks to switch to WebSocket: `Upgrade` names it, and
/// `Connection` lists `upgrade`, both in any case.
pub fn is_ws_upgrade(h: &RequestHead) -> (r: bool)
    ensures
        r == asks_for_websocket(*h),
{
    let upgrade_match = match &h.upgrade {
        Some(raw) => match header_str(raw.as_slice()) {
            Some(s) => same_ignoring_case(s.as_str(), "websocket"),
            None => false,
        },
        None => false,
    };
    let connection_match = match &h.connection {
        Some(raw) => match header_str(raw.as_slice()) {
            Some(s) => has_token(s.as_str(), "upgrade"),
            None => false,
        },
        None => false,
    };
    upgrade_match && connection_match
}

/// Whether a request opens a tunnel: a GET of the secret path that asks to
/// switch to WebSocket and brings a key.
pub open spec fn opens_tunnel(h: RequestHead, ws_path: Seq<char>) -> bool {
    &&& h.method@ == "GET"@
    &&& h.path@ == ws_path
    &&& asks_for_websocket(h)
    &&& h.sec_websocket_key is Some
}

/// Whether a request opens a tunnel.
pub fn is_tunnel_request(h: &RequestHead, ws_path: &str) -> (r: bool)
    ensures
        r == opens_tunnel(*h, ws_path@),
{
    str_eq(h.method.as_str(), "GET") && str_eq(h.path.as_str(), ws_path) && is_ws_upgrade(h)
        && h.sec_websocket_key.is_some()
}

/// What `derive_accept_key` makes of a key: the base64 text of the SHA-1 digest
/// of the key and a fixed identifier (RFC 6455).
pub uninterp spec fn accept_key_text(key: Seq<u8>) -> Seq<char>;

/// Whether `s` is the base64 text of a digest of twenty bytes.
pub open spec fn is_digest_text(s: Seq<char>) -> bool {
    exists|digest: Seq<u8>| digest.len() == 20 && s == #[trigger] ech::base64_text(digest)
}

/// Calls tungstenite's `derive_accept_key`. Besides naming the outcome, the
/// contract says that it is the base64 text of a digest of twenty bytes.
#[verifier::external_body]
fn accept_key(key: &[u8]) -> (res: String)
    ensures
        res@ == accept_key_text(key@),
        is_digest_text(res@),
{
    derive_accept_key(key)
}

/// The response that opens a tunnel.
pub open spec fn switching_protocols(accept: Seq<char>) -> stealth::Response {
    stealth::Response {
        status: 101,
        headers: seq![
            ("upgrade"@, "websocket"@),
            ("connection"@, "Upgrade"@),
            ("sec-websocket-accept"@, accept),
        ],
        body: ""@,
    }
}

/// Builds the response that opens a tunnel, with `accept` as the answer to the
/// client's key.
pub fn upgrade_response(accept: String) -> (r: HttpResponse)
    ensures
        r@ == switching_protocols(accept@),
{
    let mut headers: Vec<(&'static str, String)> = Vec::new();
    headers.push(("upgrade", "websocket".to_owned()));
    headers.push(("connection", "Upgrade".to_owned()));
    headers.push(("sec-websocket-accept", accept));
    let r = HttpResponse { status: 101, headers, body: "" };
    assert(r@.headers == switching_protocols(accept@).headers);
    r
}

/// The response to a request.
pub open spec fn reply_of(h: RequestHead, cfg: config::ServerSettings) -> stealth::Response {
    if opens_tunnel(h, cfg.ws_path) {
        match h.sec_websocket_key {
            Some(key) => switching_protocols(accept_key_text(key@)),
            None => stealth::not_found(cfg.server_name),
        }
    } else {
        stealth::not_found(cfg.server_name)
    }
}

/// What is done with a request.
#[derive(Debug)]
pub enum Reply {
    /// The response is sent, and the connection becomes a tunnel.
    Tunnel(HttpResponse),
    /// The response is sent.
    Page(HttpResponse),
}

/// Whether `r` is what is done with the request.
pub open spec fn is_reply(h: RequestHead, cfg: ServerCfg, r: Reply) -> bool {
    match r {
        Reply::Tunnel(resp) => opens_tunnel(h, cfg.ws_path@) && resp@ == reply_of(h, cfg@),
        Reply::Page(resp) => !opens_tunnel(h, cfg.ws_path@) && resp@ == reply_of(h, cfg@),
    }
}

/// Decides on a request. A name that no header can hold makes it impossible to
/// refuse one.
pub fn handle_request(h: &RequestHead, cfg: &ServerCfg) -> (r: Reply)
    requires
        opens_tunnel(*h, cfg.ws_path@) || stealth::is_header_value(cfg.server_name@),
    ensures
        match r {
            Reply::Tunnel(resp) => opens_tunnel(*h, cfg.ws_path@) && resp@ == reply_of(*h, cfg@)
                && stealth::is_header_value(resp@.headers[2].1),
            Reply::Page(resp) => !opens_tunnel(*h, cfg.ws_path@) && resp@ == reply_of(*h, cfg@),
        },
        is_reply(*h, *cfg, r),
{
    if !is_tunnel_request(h, cfg.ws_path.as_str()) {
        return Reply::Page(fake_404(cfg.server_name.as_str()));
    }
    match &h.sec_websocket_key {
        Some(key) => {
            let accept = accept_key(key.as_slice());
            proof {
                let digest = choose|digest: Seq<u8>|
                    digest.len() == 20 && accept@ == #[trigger] ech::base64_text(digest);
                lemma_base64_is_header_value(digest);
            }
            Reply::Tunnel(upgrade_response(accept))
        },
        None => Reply::Page(fake_404(cfg.server_name.as_str())),
    }
}

/// Base64 text can be the value of a header.
proof fn lemma_base64_is_header_value(b: Seq<u8>)
    ensures
        stealth::is_header_value(ech::base64_text(b)),
{
    let s = ech::base64_text(b);
    ech::lemma_base64_shape(b);
    assert(is_ascii_chars(s));
    is_ascii_chars_encode_utf8(s);
}

// ---------------------------------------------------------------------------
// Connections
// ---------------------------------------------------------------------------

/// What is done with a new connection after a look at its first bytes.
#[derive(Debug, Clone, Copy, PartialEq, Eq, Structural)]
pub enum Gate {
    /// The handshake goes on.
    Admit,
    /// More bytes are needed.
    ReadMore,
    /// The connection is reset, before it has seen the certificate.
    Reset,
}

/// Whether the server looks at the first bytes of connections at all.
pub open spec fn is_guarded(cfg: config::ServerSettings) -> bool {
    cfg.ech is Some && cfg.reject_non_ech
}

/// What is done with a connection that begins with `buf`; `last` says that no
/// more bytes are to come before the decision.
pub open spec fn gate_of(cfg: config::ServerSettings, buf: Seq<u8>, last: bool) -> Gate {
    if !is_guarded(cfg) {
        Gate::Admit
    } else {
        match clienthello::hello_kind(buf) {
            ClientHelloKind::EchOrAcmeAlpn => Gate::Admit,
            ClientHelloKind::Incomplete => if last {
                Gate::Reset
            } else {
                Gate::ReadMore
            },
            ClientHelloKind::NotTls => Gate::Reset,
            ClientHelloKind::Other => Gate::Reset,
        }
    }
}

/// Decides on a new connection by its first bytes.
pub fn gate(cfg: &ServerCfg, buf: &[u8], last: bool) -> (g: Gate)
    ensures
        g == gate_of(cfg@, buf@, last),
{
    if cfg.ech.is_none() || !cfg.reject_non_ech {
        return Gate::Admit;
    }
    match classify(buf) {
        ClientHelloKind::EchOrAcmeAlpn => Gate::Admit,
        ClientHelloKind::Incomplete => if last {
            Gate::Reset
        } else {
            Gate::ReadMore
        },
        ClientHelloKind::NotTls => Gate::Reset,
        ClientHelloKind::Other => Gate::Reset,
    }
}

/// Whether a look at `n` of `budget` bytes is the last one.
pub open spec fn last_look(n: nat, budget: nat, late: bool) -> bool {
    n == 0 || n == budget || late
}

/// Whether a look at a connection that showed `n` bytes is the last one: the peer
/// sends no more, all `budget` bytes that are looked at are there, or it is `late`.
pub fn is_last_look(n: usize, budget: usize, late: bool) -> (r: bool)
    ensures
        r == (n == 0 || n == budget || late),
        r == last_look(n as nat, budget as nat, late),
{
    n == 0 || n == budget || late
}

// ---------------------------------------------------------------------------
// The certificate
// ---------------------------------------------------------------------------

/// Whether the public name is a name of the certificate too.
pub open spec fn covers_public_name(cfg: config::ServerSettings) -> bool {
    cfg.ech matches Some(e) && cfg.acme_cover_san && e.public_name.len() > 0 && e.public_name
        != cfg.domain
}

/// Whether `name` is the public name.
pub open spec fn is_public_name(cfg: config::ServerSettings, name: Seq<char>) -> bool {
    cfg.ech matches Some(e) && name == e.public_name
}

/// The names that the certificate is ordered for.
pub open spec fn certificate_names(cfg: config::ServerSettings) -> Seq<Seq<char>> {
    if covers_public_name(cfg) {
        match cfg.ech {
            Some(e) => seq![cfg.domain, e.public_name],
            None => seq![cfg.domain],
        }
    } else {
        seq![cfg.domain]
    }
}

/// The texts of a list of strings.
pub open spec fn texts(v: Seq<String>) -> Seq<Seq<char>> {
    v.map_values(|s: String| s@)
}

/// The names that the certificate is ordered for: the domain, and the public
/// name where it is another one and the configuration does not leave it out.
pub fn certificate_domains(cfg: &ServerCfg) -> (names: Vec<String>)
    ensures
        texts(names@) == certificate_names(cfg@),
{
    let mut names: Vec<String> = Vec::new();
    names.push(cfg.domain.clone());
    if let Some(ech) = &cfg.ech {
        if cfg.acme_cover_san && !ech.public_name.as_str().is_empty() && !str_eq(
            ech.public_name.as_str(),
            cfg.domain.as_str(),
        ) {
            names.push(ech.public_name.clone());
        }
    }
    assert(texts(names@) == certificate_names(cfg@));
    names
}

/// How the server comes by its certificate when it starts.
#[derive(Debug)]
pub enum CertPlan {
    /// From the configured files.
    LoadFiles { cert_file: String, key_file: String },
    /// From the cache of an earlier order.
    UseCached(CertMaterial),
    /// By an order; until it is done a throwaway certificate for the domain
    /// stands in.
    Order { domains: Vec<String>, email: String, staging: bool, cache_dir: String },
}

/// Whether `p` is how a server with this configuration comes by its certificate.
pub open spec fn is_certificate_plan(
    cfg: ServerCfg,
    cached: Option<CertMaterial>,
    p: CertPlan,
) -> bool {
    match (cfg.tls, cached, p) {
        (
            ServerTls::Static { cert_file, key_file },
            _,
            CertPlan::LoadFiles { cert_file: c, key_file: k },
        ) => c@ == cert_file@ && k@ == key_file@,
        (ServerTls::Acme { .. }, Some(m), CertPlan::UseCached(n)) => m == n,
        (
            ServerTls::Acme { email, staging, cache_dir },
            None,
            CertPlan::Order { domains, email: e, staging: s, cache_dir: d },
        ) => texts(domains@) == certificate_names(cfg@) && e@ == email@ && s == staging && d@
            == cache_dir@,
        _ => false,
    }
}

/// Decides how the server comes by its certificate: `cached` is what the cache
/// holds that is not due for renewal.
pub fn certificate_plan(cfg: &ServerCfg, cached: Option<CertMaterial>) -> (p: CertPlan)
    ensures
        match (cfg@.tls, cached, p) {
            (
                config::TlsSettings::Static { cert_file, key_file },
                _,
                CertPlan::LoadFiles { cert_file: c, key_file: k },
            ) => c@ == cert_file && k@ == key_file,
            (config::TlsSettings::Acme { .. }, Some(m), CertPlan::UseCached(n)) => m == n,
            (
                config::TlsSettings::Acme { email, staging, cache_dir },
                None,
                CertPlan::Order { domains, email: e, staging: s, cache_dir: d },
            ) => texts(domains@) == certificate_names(cfg@) && e@ == email && s == staging && d@
                == cache_dir,
            _ => false,
        },
        is_certificate_plan(*cfg, cached, p),
{
    match &cfg.tls {
        ServerTls::Static { cert_file, key_file } => CertPlan::LoadFiles {
            cert_file: cert_file.clone(),
            key_file: key_file.clone(),
        },
        ServerTls::Acme { email, staging, cache_dir } => match cached {
            Some(material) => CertPlan::UseCached(material),
            None => CertPlan::Order {
                domains: certificate_domains(cfg),
                email: email.clone(),
                staging: *staging,
                cache_dir: cache_dir.clone(),
            },
        },
    }
}

// ---------------------------------------------------------------------------
// Laws
// ---------------------------------------------------------------------------

/// What a refused request is answered does not depend on the request: any two
/// get the same page, with a length that is right.
pub proof fn law_refusals_look_alike(a: RequestHead, b: RequestHead, cfg: config::ServerSettings)
    requires
        !opens_tunnel(a, cfg.ws_path),
        !opens_tunnel(b, cfg.ws_path),
    ensures
        reply_of(a, cfg) == reply_of(b, cfg),
        reply_of(a, cfg).status == 404,
        reply_of(a, cfg).body == stealth::NOT_FOUND_PAGE@,
        reply_of(a, cfg).headers[0] == ("Server"@, cfg.server_name),
        reply_of(a, cfg).headers[2] == (
            "Content-Length"@,
            text::decimal(encode_utf8(reply_of(a, cfg).body).len()),
        ),
{
}

/// Only a GET of exactly the secret path opens a tunnel.
pub proof fn law_other_paths_open_no_tunnel(h: RequestHead, ws_path: Seq<char>)
    ensures
        h.path@ != ws_path ==> !opens_tunnel(h, ws_path),
        h.method@ != "GET"@ ==> !opens_tunnel(h, ws_path),
        h.upgrade is None || h.connection is None || h.sec_websocket_key is None ==> !opens_tunnel(
            h,
            ws_path,
        ),
{
}

/// While ECH is on and probes are rejected, a connection is admitted if and only
/// if its ClientHello carries ECH or comes from an ACME validator; with either
/// switched off every connection is admitted at once.
pub proof fn law_gate(cfg: config::ServerSettings, buf: Seq<u8>, last: bool)
    ensures
        is_guarded(cfg) ==> (gate_of(cfg, buf, last) == Gate::Admit <==> clienthello::hello_kind(
            buf,
        ) == ClientHelloKind::EchOrAcmeAlpn),
        !is_guarded(cfg) ==> gate_of(cfg, buf, last) == Gate::Admit,
        gate_of(cfg, buf, true) != Gate::ReadMore,
{
}

/// A decision that was reached before the last byte is not changed by more
/// bytes.
pub proof fn law_gate_is_final(cfg: config::ServerSettings, buf: Seq<u8>, more: Seq<u8>, last: bool)
    requires
        gate_of(cfg, buf, false) != Gate::ReadMore,
    ensures
        gate_of(cfg, buf + more, last) == gate_of(cfg, buf, false),
{
    if is_guarded(cfg) {
        clienthello::law_verdict_is_final(buf, more);
    }
}

/// A probe sees nothing: while the server is guarded, a connection that brings
/// a whole ClientHello is reset unless that carries ECH or offers `acme-tls/1`,
/// and one of either sort is let in. Until the ClientHello is whole, more of it
/// is waited for.
pub proof fn law_probes_are_reset(
    cfg: config::ServerSettings,
    hello: clienthello::Hello,
    more: Seq<u8>,
    n: int,
    last: bool,
)
    requires
        is_guarded(cfg),
        clienthello::fits(hello),
        0 <= n < clienthello::hello_bytes(hello).len(),
    ensures
        gate_of(cfg, clienthello::hello_bytes(hello) + more, last)
            == if clienthello::any_signal(hello.extensions) {
            Gate::Admit
        } else {
            Gate::Reset
        },
        gate_of(cfg, clienthello::hello_bytes(hello).take(n), false) == Gate::ReadMore,
{
    clienthello::law_hello_is_judged_by_its_extensions(hello, more);
    clienthello::law_cut_hello_is_incomplete(hello, n);
}

/// A server with ECH is guarded unless its options say otherwise.
pub proof fn law_guarded_by_default(m: config::Options)
    requires
        config::server_fault(m) is None,
        m.contains_key("ech_public_name"@),
    ensures
        is_guarded(config::server_settings(m)) <==> config::flag(m, "reject_non_ech"@, true),
        !m.contains_key("reject_non_ech"@) ==> is_guarded(config::server_settings(m)),
{
}

/// The certificate is always ordered for the domain, first of all; for the
/// public name if and only if ECH has one that is not empty and not the domain,
/// and the option does not leave it out. No name is ordered twice.
pub proof fn law_certificate_names(cfg: config::ServerSettings)
    ensures
        certificate_names(cfg).len() >= 1,
        certificate_names(cfg)[0] == cfg.domain,
        certificate_names(cfg).no_duplicates(),
        forall|name: Seq<char>| #[trigger]
            certificate_names(cfg).contains(name) <==> name == cfg.domain || (covers_public_name(
                cfg,
            ) && is_public_name(cfg, name)),
        !cfg.acme_cover_san ==> certificate_names(cfg) == seq![cfg.domain],
{
    assert forall|name: Seq<char>| #[trigger]
        certificate_names(cfg).contains(name) <==> name == cfg.domain || (covers_public_name(cfg)
            && is_public_name(cfg, name)) by {
        assert(certificate_names(cfg)[0] == cfg.domain);
        if covers_public_name(cfg) {
            if let Some(e) = cfg.ech {
                assert(certificate_names(cfg)[1] == e.public_name);
            }
        }
    }
}

/// The text of a header is read byte by byte, and only where every byte is visible
/// ASCII or a tab.
pub proof fn law_headers_are_read_as_ascii(raw: Seq<u8>)
    ensures
        header_text(raw) is Some <==> forall|i: int|
            0 <= i < raw.len() ==> 32 <= #[trigger] raw[i] <= 126 || raw[i] == 9,
        header_text(raw) matches Some(s) ==> s.len() == raw.len() && forall|i: int|
            0 <= i < raw.len() ==> (#[trigger] s[i]) as u8 == raw[i],
{
    if forall|i: int| 0 <= i < raw.len() ==> 32 <= #[trigger] raw[i] <= 126 || raw[i] == 9 {
        assert forall|i: int| 0 <= i < raw.len() implies is_visible(#[trigger] raw[i]) by {}
    }
    if header_text(raw) is Some {
        assert forall|i: int| 0 <= i < raw.len() implies 32 <= #[trigger] raw[i] <= 126 || raw[i]
            == 9 by {
            assert(is_visible(raw[i]));
        }
    }
}

/// A request opens a tunnel if and only if it is a GET of exactly the path, its
/// `Upgrade` header reads `websocket` in any case, its `Connection` header lists
/// `upgrade` in any case, and it brings a key.
pub proof fn law_what_opens_a_tunnel(h: RequestHead, ws_path: Seq<char>)
    ensures
        opens_tunnel(h, ws_path) <==> {
            &&& h.method@ == seq!['G', 'E', 'T']
            &&& h.path@ == ws_path
            &&& h.sec_websocket_key is Some
            &&& h.upgrade matches Some(raw) && header_text(raw@) matches Some(s) && text::lowered(s)
                == seq!['w', 'e', 'b', 's', 'o', 'c', 'k', 'e', 't']
            &&& h.connection matches Some(raw) && header_text(raw@) matches Some(s)
                && text::lists_token(s, seq!['u', 'p', 'g', 'r', 'a', 'd', 'e'])
        },
{
    reveal_strlit("GET");
    reveal_strlit("websocket");
    reveal_strlit("upgrade");
    assert("GET"@ =~= seq!['G', 'E', 'T']);
    assert("websocket"@ =~= seq!['w', 'e', 'b', 's', 'o', 'c', 'k', 'e', 't']);
    assert("upgrade"@ =~= seq!['u', 'p', 'g', 'r', 'a', 'd', 'e']);
    assert(text::lowered("websocket"@) =~= "websocket"@);
}

/// An ordinary WebSocket handshake opens a tunnel, in whatever case its headers are
/// written: `websocket` as the whole of `Upgrade`, and `upgrade` as the whole of
/// `Connection` or behind a comma.
pub proof fn law_ordinary_handshakes_are_taken(
    h: RequestHead,
    upgrade: Seq<char>,
    connection: Seq<char>,
    token: Seq<char>,
    before: Seq<char>,
)
    requires
        h.method@ == "GET"@,
        h.sec_websocket_key is Some,
        h.upgrade matches Some(u) && header_text(u@) == Some(upgrade),
        h.connection matches Some(c) && header_text(c@) == Some(connection),
        text::lowered(upgrade) == "websocket"@,
        text::lowered(token) == "upgrade"@,
        connection == token || connection == before + seq![',', ' '] + token,
    ensures
        opens_tunnel(h, h.path@),
{
    law_what_opens_a_tunnel(h, h.path@);
    reveal_strlit("websocket");
    reveal_strlit("upgrade");
    let word = seq!['u', 'p', 'g', 'r', 'a', 'd', 'e'];
    assert("websocket"@ =~= seq!['w', 'e', 'b', 's', 'o', 'c', 'k', 'e', 't']);
    assert("upgrade"@ =~= word);
    reveal_strlit("GET");
    assert("GET"@ =~= seq!['G', 'E', 'T']);
    assert(text::lowered(word) =~= word);
    assert(token.len() == 7);
    assert forall|i: int| 0 <= i < 7 implies token[i] != ',' && !text::is_white_space(
        #[trigger] token[i],
    ) by {
        assert(text::lowered(token)[i] == text::lower(token[i]));
        assert(text::lowered(token)[i] == word[i]);
        assert('a' <= word[i] <= 'z');
    }
    let none = Seq::<char>::empty();
    let space = seq![' '];
    text::lemma_trim_surrounded(none, token, none);
    text::lemma_trim_surrounded(space, token, none);
    assert(none + token + none == token);
    assert(space + token + none == space + token);
    text::law_tokens_stand_between_commas(token, none, word);
    text::law_tokens_stand_between_commas(space + token, none, word);
    text::law_tokens_stand_between_commas(before, space + token, word);
    assert(!token.contains(','));
    assert(!(space + token).contains(',')) by {
        assert forall|i: int| 0 <= i < (space + token).len() implies (space + token)[i] != ',' by {
            if i > 0 {
                assert((space + token)[i] == token[i - 1]);
            }
        }
    }
    assert(before + seq![',', ' '] + token =~= before + seq![','] + (space + token));
}

/// What a request is answered: one that opens a tunnel gets a 101 with three
/// headers, the last of which answers its key; every other one gets the page of
/// nginx under the configured name.
pub proof fn law_replies(h: RequestHead, cfg: ServerCfg)
    ensures
        opens_tunnel(h, cfg.ws_path@) ==> {
            let r = reply_of(h, cfg@);
            &&& r.status == 101
            &&& r.body.len() == 0
            &&& r.headers.len() == 3
            &&& r.headers[0] == ("upgrade"@, "websocket"@)
            &&& r.headers[1] == ("connection"@, "Upgrade"@)
            &&& r.headers[2].0 == "sec-websocket-accept"@
            &&& h.sec_websocket_key matches Some(key) && r.headers[2].1 == accept_key_text(key@)
        },
        !opens_tunnel(h, cfg.ws_path@) ==> {
            let r = reply_of(h, cfg@);
            &&& r.status == 404
            &&& r.headers.len() == 3
            &&& r.headers[0] == ("Server"@, cfg.server_name@)
            &&& r.headers[1] == ("Content-Type"@, "text/html"@)
            &&& r.headers[2].0 == "Content-Length"@
            &&& text::digits_value(r.headers[2].1) == encode_utf8(r.body).len()
            &&& r.body == stealth::not_found(Seq::empty()).body
        },
{
    reveal_strlit("");
    stealth::law_page_is_that_of_nginx(cfg.server_name@);
}

/// A connection is looked at if and only if there is an ECH key and connections
/// without ECH are to be rejected. Then it is let in if and only if it is of the
/// right kind, waited for if and only if it is incomplete and more may come, and
/// reset otherwise.
pub proof fn law_gate_decides_by_kind(cfg: ServerCfg, buf: Seq<u8>, last: bool)
    ensures
        cfg.ech is None || !cfg.reject_non_ech ==> gate_of(cfg@, buf, last) == Gate::Admit,
        cfg.ech is Some && cfg.reject_non_ech ==> {
            let kind = clienthello::hello_kind(buf);
            &&& gate_of(cfg@, buf, last) == Gate::Admit <==> kind == ClientHelloKind::EchOrAcmeAlpn
            &&& gate_of(cfg@, buf, last) == Gate::ReadMore <==> kind == ClientHelloKind::Incomplete
                && !last
        },
{
}

/// A server with ECH resets a connection whose whole ClientHello has neither an
/// extension of type 0xfe0d nor one of type 16 that lists `acme-tls/1`, and lets it
/// in with either. Anything that does not begin like TLS is reset at once.
pub proof fn law_gate_on_whole_hellos(
    cfg: ServerCfg,
    hello: clienthello::Hello,
    more: Seq<u8>,
    other: Seq<u8>,
    last: bool,
)
    requires
        cfg.ech is Some,
        cfg.reject_non_ech,
        clienthello::fits(hello),
    ensures
        (exists|i: int|
            0 <= i < hello.extensions.len() && (#[trigger] hello.extensions[i]).kind == 0xfe0d)
            ==> gate_of(cfg@, clienthello::hello_bytes(hello) + more, last) == Gate::Admit,
        (exists|i: int|
            0 <= i < hello.extensions.len() && (#[trigger] hello.extensions[i]).kind == 0x0010
                && clienthello::lists_name(hello.extensions[i].data, clienthello::acme_bytes()))
            ==> gate_of(cfg@, clienthello::hello_bytes(hello) + more, last) == Gate::Admit,
        (forall|i: int|
            0 <= i < hello.extensions.len() ==> (#[trigger] hello.extensions[i]).kind != 0xfe0d && (
            hello.extensions[i].kind == 0x0010 ==> !clienthello::lists_name(
                hello.extensions[i].data,
                clienthello::acme_bytes(),
            ))) ==> gate_of(cfg@, clienthello::hello_bytes(hello) + more, last) == Gate::Reset,
        other.len() > 0 && other[0] != 0x16 ==> gate_of(cfg@, other, last) == Gate::Reset,
{
    clienthello::law_only_ech_and_validators_are_let_in(hello, more);
    law_gate_decides_by_kind(cfg, clienthello::hello_bytes(hello) + more, last);
    clienthello::law_other_traffic_is_told_apart(other, seq![3, 3], seq![1], Seq::empty());
}

/// A look that showed nothing is the last, and so is one that showed all that is
/// looked at; any other one is the last only if it is late.
pub proof fn law_looks_come_to_an_end(n: nat, budget: nat, late: bool)
    ensures
        late ==> last_look(n, budget, late),
        last_look(0, budget, late),
        last_look(budget, budget, late),
        0 < n < budget && !late ==> !last_look(n, budget, late),
{
}

/// The certificate is for the domain alone, unless there is an ECH public name that
/// is neither empty nor the domain and is not to be left out: then it is for the
/// domain and that name.
pub proof fn law_names_of_the_certificate(cfg: ServerCfg)
    ensures
        cfg.ech is None ==> certificate_names(cfg@) == seq![cfg.domain@],
        !cfg.acme_cover_san ==> certificate_names(cfg@) == seq![cfg.domain@],
        cfg.ech matches Some(e) ==> (e.public_name@.len() == 0 || e.public_name@ == cfg.domain@
            ==> certificate_names(cfg@) == seq![cfg.domain@]),
        cfg.ech matches Some(e) ==> (cfg.acme_cover_san && e.public_name@.len() > 0
            && e.public_name@ != cfg.domain@ ==> certificate_names(cfg@) == seq![
            cfg.domain@,
            e.public_name@,
        ]),
{
}

/// A server with a certificate on disk always loads those files. One with ACME uses
/// the cached certificate where there is one, as it is, and orders one where there
/// is none, with the address, the directory and the cache that are configured.
pub proof fn law_certificate_comes_from(cfg: ServerCfg, cached: Option<CertMaterial>, p: CertPlan)
    requires
        is_certificate_plan(cfg, cached, p),
    ensures
        cfg.tls matches ServerTls::Static { cert_file, key_file } ==> (p matches CertPlan::LoadFiles {
            cert_file: c,
            key_file: k,
        } && c@ == cert_file@ && k@ == key_file@),
        cfg.tls is Acme && cached is Some ==> (p matches CertPlan::UseCached(m) && cached == Some(
            m,
        )),
        cfg.tls matches ServerTls::Acme { email, staging, cache_dir } ==> (cached is None ==> (
        p matches CertPlan::Order { domains, email: e, staging: s, cache_dir: d } && e@ == email@
            && s == staging && d@ == cache_dir@ && texts(domains@) == certificate_names(cfg@)
            && domains@.len() >= 1 && domains@[0]@ == cfg.domain@)),
{
    law_certificate_names(cfg@);
    if let CertPlan::Order { domains, .. } = p {
        assert(texts(domains@).len() == domains@.len());
        if domains@.len() >= 1 {
            assert(texts(domains@)[0] == domains@[0]@);
        }
    }
}

/// A connection becomes a tunnel if and only if its request opens one, and then its
/// response is a 101; every other response is a 404.
pub proof fn law_tunnels_are_switched_to(h: RequestHead, cfg: ServerCfg, r: Reply)
    requires
        is_reply(h, cfg, r),
    ensures
        r is Tunnel <==> opens_tunnel(h, cfg.ws_path@),
        r matches Reply::Tunnel(resp) ==> resp.status == 101 && resp.body@.len() == 0,
        r matches Reply::Page(resp) ==> resp.status == 404 && resp.headers@.len() == 3
            && resp.headers@[0].0@ == "Server"@ && resp.headers@[0].1@ == cfg.server_name@,
{
    law_replies(h, cfg);
    if let Reply::Page(resp) = r {
        assert(resp@.headers.len() == resp.headers@.len());
        assert(resp@.headers[0] == (resp.headers@[0].0@, resp.headers@[0].1@));
    }
}

} // verus!
