//! The decisions of the TLS client: whom it trusts, which protocols it offers,
//! which browser it looks like, and where its ECHConfigList comes from.

use vstd::prelude::*;
use vstd::utf8::*;

use crate::config;
use crate::config::{ClientCfg, ClientEch, ClientTrust};
use crate::ech;
use crate::ech::{decode_config_list_b64, EchError};
use crate::fingerprint;
use crate::fingerprint::FingerprintParams;
use crate::text;
use crate::text::quoted;
use crate::tls_server;
use crate::tls_server::http_alpn_wire;

verus! {

/// Where the ECHConfigList comes from.
#[derive(Debug)]
pub enum EchSource {
    /// There is none: ECH is off.
    Off,
    /// These bytes.
    List(Vec<u8>),
    /// The contents of this file.
    File(String),
}

/// How the TLS client is set up, besides whom it trusts.
#[derive(Debug)]
pub struct ClientPlan {
    /// The protocol list that is offered.
    pub alpn: Vec<u8>,
    /// The shape of the ClientHello, applied after the protocol list.
    pub fingerprint: Option<FingerprintParams>,
    /// The ECHConfigList that every connection is given.
    pub ech: EchSource,
}

/// Why the TLS client cannot be set up.
pub enum ClientPlanFault {
    /// No profile of that name.
    UnknownFingerprint(Seq<char>),
    /// The pasted ECHConfigList cannot be read.
    BadEchConfig(ech::EchFault),
}

/// Why the TLS client was not set up.
#[derive(Debug)]
pub enum ClientPlanError {
    UnknownFingerprint { name: String },
    BadEchConfig { error: EchError },
}

impl View for ClientPlanError {
    type V = ClientPlanFault;

    open spec fn view(&self) -> ClientPlanFault {
        match self {
            ClientPlanError::UnknownFingerprint { name } => ClientPlanFault::UnknownFingerprint(
                name@,
            ),
            ClientPlanError::BadEchConfig { error } => ClientPlanFault::BadEchConfig(error@),
        }
    }
}

/// The text that tells a user about a fault.
pub open spec fn plan_fault_text(f: ClientPlanFault) -> Seq<char> {
    match f {
        ClientPlanFault::UnknownFingerprint(name) => "unknown fingerprint "@ + text::debug_quoted(
            name,
        ) + " (config validation should have caught this)"@,
        ClientPlanFault::BadEchConfig(f) => ech::ech_fault_text(f),
    }
}

impl ClientPlanError {
    /// The message for the user.
    pub fn message(&self) -> (m: String)
        ensures
            m@ == plan_fault_text(self@),
    {
        match self {
            ClientPlanError::UnknownFingerprint { name } => {
                let mut m = "unknown fingerprint ".to_owned();
                m.append(quoted(name.as_str()).as_str());
                m.append(" (config validation should have caught this)");
                m
            },
            ClientPlanError::BadEchConfig { error } => error.message(),
        }
    }
}

/// Whether a pasted text holds an ECHConfigList.
pub open spec fn is_pasted_list(b64: Seq<char>) -> bool {
    exists|list: Seq<u8>| text::trimmed(b64) == #[trigger] ech::base64_text(list)
}

/// The first thing that keeps the TLS client from being set up.
pub open spec fn plan_fault(cfg: config::ClientSettings) -> Option<ClientPlanFault> {
    if cfg.fingerprint matches Some(name) && !fingerprint::is_known(name) {
        match cfg.fingerprint {
            Some(name) => Some(ClientPlanFault::UnknownFingerprint(name)),
            None => None,
        }
    } else {
        match cfg.ech {
            Some(config::ClientEchSettings::Inline(b64)) => if is_pasted_list(b64) {
                None
            } else {
                Some(
                    ClientPlanFault::BadEchConfig(
                        ech::EchFault::NotBase64(ech::decode_fault_text(text::trimmed(b64))),
                    ),
                )
            },
            _ => None,
        }
    }
}

/// Whether `params` is the shape that a profile name asks for: of `random`, any
/// that it can pick.
pub open spec fn is_shape(name: Option<Seq<char>>, params: Option<FingerprintParams>) -> bool {
    match name {
        None => params is None,
        Some(name) => match fingerprint::profile_named(name) {
            Some(p) => params == Some(fingerprint::params_of(p)),
            None => exists|byte: u8|
                params == Some(fingerprint::params_of(#[trigger] fingerprint::picked(byte))),
        },
    }
}

/// The certificates that the client's peer may be vouched for by.
#[derive(Debug)]
pub enum Roots {
    /// The platform's root store.
    Platform,
    /// All certificates in this file, and no others.
    File(String),
    /// None are asked for.
    Unused,
}

/// Whom the TLS client trusts.
#[derive(Debug)]
pub struct TrustPlan {
    /// Whom the peer must be vouched for by.
    pub roots: Roots,
    /// Whether the peer's certificate is verified.
    pub verify: bool,
}

/// Whether a client that trusts like this verifies its peer.
pub open spec fn verifies(trust: config::TrustSettings) -> bool {
    !(trust is InsecureSkipVerify)
}

/// Whether `t` is whom a client with this configuration trusts.
pub open spec fn is_trust_plan(cfg: ClientCfg, t: TrustPlan) -> bool {
    match (cfg.trust, t.roots) {
        (ClientTrust::SystemRoots, Roots::Platform) => t.verify,
        (ClientTrust::CaFile(path), Roots::File(p)) => t.verify && p@ == path@,
        (ClientTrust::InsecureSkipVerify, Roots::Unused) => !t.verify,
        _ => false,
    }
}

/// Decides whom the TLS client trusts.
pub fn trust_plan(cfg: &ClientCfg) -> (t: TrustPlan)
    ensures
        t.verify == verifies(cfg@.trust),
        match (cfg@.trust, t.roots) {
            (config::TrustSettings::SystemRoots, Roots::Platform) => true,
            (config::TrustSettings::CaFile(path), Roots::File(p)) => p@ == path,
            (config::TrustSettings::InsecureSkipVerify, Roots::Unused) => true,
            _ => false,
        },
        is_trust_plan(*cfg, t),
{
    match &cfg.trust {
        ClientTrust::SystemRoots => TrustPlan { roots: Roots::Platform, verify: true },
        ClientTrust::CaFile(path) => TrustPlan { roots: Roots::File(path.clone()), verify: true },
        ClientTrust::InsecureSkipVerify => TrustPlan { roots: Roots::Unused, verify: false },
    }
}

/// Whether `plan` is how a client with this configuration is set up.
pub open spec fn is_client_plan(cfg: ClientCfg, plan: ClientPlan) -> bool {
    &&& plan.alpn@ == tls_server::alpn_list(
        seq![encode_utf8(tls_server::ALPN_H2@), encode_utf8(tls_server::ALPN_HTTP11@)],
    )
    &&& is_shape(cfg@.fingerprint, plan.fingerprint)
    &&& match (cfg.ech, plan.ech) {
        (None, EchSource::Off) => true,
        (Some(ClientEch::Inline(b64)), EchSource::List(list)) => text::trimmed(b64@)
            == ech::base64_text(list@),
        (Some(ClientEch::File(path)), EchSource::File(p)) => p@ == path@,
        _ => false,
    }
}

/// Decides how the TLS client is set up.
pub fn client_plan(cfg: &ClientCfg) -> (r: Result<ClientPlan, ClientPlanError>)
    ensures
        match r {
            Ok(plan) => {
                &&& plan_fault(cfg@) is None
                &&& plan.alpn@ == tls_server::alpn_list(
                    seq![
                        encode_utf8(tls_server::ALPN_H2@),
                        encode_utf8(tls_server::ALPN_HTTP11@),
                    ],
                )
                &&& is_shape(cfg@.fingerprint, plan.fingerprint)
                &&& match (cfg@.ech, plan.ech) {
                    (None, EchSource::Off) => true,
                    (
                        Some(config::ClientEchSettings::Inline(b64)),
                        EchSource::List(list),
                    ) => text::trimmed(b64) == ech::base64_text(list@),
                    (Some(config::ClientEchSettings::File(path)), EchSource::File(p)) => p@ == path,
                    _ => false,
                }
            },
            Err(e) => plan_fault(cfg@) == Some(e@),
        },
        r matches Ok(plan) ==> is_client_plan(*cfg, plan),
{
    let alpn = http_alpn_wire();
    let params = match &cfg.fingerprint {
        None => None,
        Some(name) => match fingerprint::resolve(name.as_str()) {
            Some(p) => Some(p),
            None => return Err(ClientPlanError::UnknownFingerprint { name: name.clone() }),
        },
    };
    let source = match &cfg.ech {
        None => EchSource::Off,
        Some(ClientEch::Inline(b64)) => match decode_config_list_b64(b64.as_str()) {
            Ok(list) => EchSource::List(list),
            Err(error) => return Err(ClientPlanError::BadEchConfig { error }),
        },
        Some(ClientEch::File(path)) => EchSource::File(path.clone()),
    };
    Ok(ClientPlan { alpn, fingerprint: params, ech: source })
}

/// The peer is verified unless the options ask for the opposite, and against a
/// given file alone where they name one.
pub proof fn law_peer_is_verified_unless_told(m: config::Options)
    requires
        config::client_fault(m) is None,
    ensures
        verifies(config::client_settings(m).trust) <==> !config::flag(m, "insecure"@, false),
        m.contains_key("ca_file"@) ==> config::client_settings(m).trust
            == config::TrustSettings::CaFile(m["ca_file"@]),
        m.contains_key("ca_file"@) ==> verifies(config::client_settings(m).trust),
{
}

/// A configuration that was accepted and has no pasted ECHConfigList can always
/// be set up.
pub proof fn law_accepted_config_can_be_set_up(m: config::Options)
    requires
        config::client_fault(m) is None,
        !m.contains_key("ech_config"@),
    ensures
        plan_fault(config::client_settings(m)) is None,
{
}

/// A pasted text of a list is accepted, and is taken for that list.
pub proof fn law_pasted_list_is_taken(list: Seq<u8>, other: Seq<u8>)
    ensures
        is_pasted_list(ech::base64_text(list)),
        text::trimmed(ech::base64_text(list)) == ech::base64_text(other) <==> list == other,
{
    let none = Seq::<char>::empty();
    ech::law_base64_round_trip(list, list, none, none);
    ech::law_base64_round_trip(list, other, none, none);
    assert(none + ech::base64_text(list) + none == ech::base64_text(list));
}

/// The peer is verified unless the configuration says otherwise, against the
/// platform's roots or against the file that it names, and no other.
pub proof fn law_trust_follows_the_configuration(cfg: ClientCfg, t: TrustPlan)
    requires
        is_trust_plan(cfg, t),
    ensures
        t.verify <==> !(cfg.trust is InsecureSkipVerify),
        t.verify ==> (t.roots is Platform <==> cfg.trust is SystemRoots),
        cfg.trust matches ClientTrust::CaFile(path) ==> (t.roots matches Roots::File(p) && p@
            == path@),
        verifies(cfg@.trust) == t.verify,
{
}

/// How a client is set up: it offers `h2` and then `http/1.1`; it uses ECH if and
/// only if it is configured to, with the list that the pasted text stands for, space
/// around it or not, or with the file that is named; and it looks like the browser
/// that is named, or, where none is, like none.
pub proof fn law_setup_follows_the_configuration(
    cfg: ClientCfg,
    plan: ClientPlan,
    bytes: Seq<u8>,
    before: Seq<char>,
    after: Seq<char>,
)
    requires
        is_client_plan(cfg, plan),
        forall|i: int| 0 <= i < before.len() ==> text::is_white_space(#[trigger] before[i]),
        forall|i: int| 0 <= i < after.len() ==> text::is_white_space(#[trigger] after[i]),
    ensures
        tls_server::alpn_entries(plan.alpn@) == seq![encode_utf8("h2"@), encode_utf8("http/1.1"@)],
        cfg.ech is None <==> plan.ech is Off,
        cfg.ech matches Some(ClientEch::File(path)) ==> (plan.ech matches EchSource::File(p) && p@
            == path@),
        cfg.ech matches Some(ClientEch::Inline(b64)) ==> plan.ech is List,
        cfg.ech matches Some(ClientEch::Inline(b64)) ==> (b64@ == before + ech::base64_text(bytes)
            + after ==> (plan.ech matches EchSource::List(list) && list@ == bytes)),
        cfg.fingerprint is None <==> plan.fingerprint is None,
        cfg.fingerprint matches Some(name) ==> (fingerprint::profile_named(name@) matches Some(p)
            ==> plan.fingerprint == Some(fingerprint::params_of(p))),
        cfg.fingerprint matches Some(name) ==> (fingerprint::profile_named(name@) is None ==> (
        plan.fingerprint == Some(fingerprint::params_of(fingerprint::Profile::Chrome))
            || plan.fingerprint == Some(fingerprint::params_of(fingerprint::Profile::Safari))
            || plan.fingerprint == Some(fingerprint::params_of(fingerprint::Profile::Ios))
            || plan.fingerprint == Some(fingerprint::params_of(fingerprint::Profile::Firefox)))),
{
    let h2 = encode_utf8("h2"@);
    let http11 = encode_utf8("http/1.1"@);
    reveal_strlit("h2");
    reveal_strlit("http/1.1");
    is_ascii_chars_encode_utf8("h2"@);
    is_ascii_chars_encode_utf8("http/1.1"@);
    let protos = seq![h2, http11];
    assert forall|i: int| 0 <= i < protos.len() implies 1 <= (#[trigger] protos[i]).len()
        <= 255 by {}
    tls_server::law_alpn_round_trip(protos);
    if let (Some(ClientEch::Inline(b64)), EchSource::List(list)) = (cfg.ech, plan.ech) {
        if b64@ == before + ech::base64_text(bytes) + after {
            ech::law_base64_round_trip(bytes, list@, before, after);
        }
    }
    if let Some(name) = cfg.fingerprint {
        if fingerprint::profile_named(name@) is None {
            let byte = choose|byte: u8|
                plan.fingerprint == Some(
                    fingerprint::params_of(#[trigger] fingerprint::picked(byte)),
                );
            fingerprint::law_picks_repeat(byte);
        }
    }
}

/// A client cannot be set up if and only if its profile is unknown, which is reported
/// first and by name, or its pasted list is not base64.
pub proof fn law_what_keeps_a_client_from_setup(cfg: ClientCfg)
    ensures
        plan_fault(cfg@) is None <==> {
            &&& cfg.fingerprint matches Some(name) ==> fingerprint::is_known(name@)
            &&& cfg.ech matches Some(ClientEch::Inline(b64)) ==> exists|list: Seq<u8>|
                text::trimmed(b64@) == #[trigger] ech::base64_text(list)
        },
        cfg.fingerprint matches Some(name) ==> (!fingerprint::is_known(name@) ==> plan_fault(cfg@)
            == Some(ClientPlanFault::UnknownFingerprint(name@))),
{
}

/// The message of a client that cannot be set up names the profile.
pub proof fn law_message_names_the_profile(name: Seq<char>, f: ech::EchFault)
    ensures
        plan_fault_text(ClientPlanFault::UnknownFingerprint(name)) == "unknown fingerprint "@
            + text::debug_quoted(name) + " (config validation should have caught this)"@,
        plan_fault_text(ClientPlanFault::BadEchConfig(f)) == ech::ech_fault_text(f),
{
}

} // verus!
