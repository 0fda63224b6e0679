//! The configuration, derived entirely from the plugin options.
//!
//! There is no configuration file: everything the plugin needs is one option
//! string in the shadowsocks configuration.
//!
//! Both modes:
//! - `mode=server|client` (required)
//! - `path=/<ws-path>` (required, must start with `/`)
//! - `fast_open=true|false` (default `false`)
//!
//! `mode=server`:
//! - `domain=<real-domain>` (required, inner SNI and certificate name)
//! - `cert=<path>` and `key=<path>` (certificate on disk), or
//! - `acme_email=<addr>` (certificate from Let's Encrypt)
//! - `acme_cache=<dir>` (default `/var/lib/ech-tls-tunnel/acme`)
//! - `acme_staging=true|false` (default `false`)
//! - `acme_cover_san=true|false` (default `true`): also ask for a certificate
//!   for `ech_public_name`. Switch it off where the cover name is a domain of
//!   somebody else.
//! - `ech_public_name=<name>` and `ech_key=<path>` (both, to enable ECH)
//! - `reject_non_ech=true|false` (default `true`, of use with ECH only): reset
//!   every handshake without the ECH extension that is no ACME validation
//! - `server_name=<header value>` (default `nginx/1.24.0`)
//!
//! `mode=client`:
//! - `sni=<real-domain>` (required, inner SNI and host)
//! - `ech_config=<base64>` or `ech_config_file=<path>` (enables ECH)
//! - `ca_file=<path>` (in place of the default trust store)
//! - `insecure=true` (development only: no verification)
//! - `fingerprint=<profile>` (a browser to look like)

use vstd::prelude::*;

use crate::fingerprint;
use crate::sip003;
use crate::sip003::{Mode, ModeError, ModeFault, PluginOptions};
use crate::text;
use crate::text::{ascii_lowercase, first_char, quoted, str_eq, trim};

verus! {

pub const DEFAULT_SERVER_NAME: &'static str = "nginx/1.24.0";

pub const DEFAULT_ACME_CACHE: &'static str = "/var/lib/ech-tls-tunnel/acme";

/// The options of a plugin, as far as they are read: a map of texts.
pub type Options = Map<Seq<char>, Seq<char>>;

// ---------------------------------------------------------------------------
// Data
// ---------------------------------------------------------------------------

/// How the server comes by its certificate.
#[derive(Debug, Clone)]
pub enum ServerTls {
    /// PEM files on disk.
    Static { cert_file: String, key_file: String },
    /// Issued by Let's Encrypt (TLS-ALPN-01).
    Acme { email: String, staging: bool, cache_dir: String },
}

/// The server's ECH key and the name it is advertised under.
#[derive(Debug, Clone)]
pub struct ServerEch {
    pub public_name: String,
    pub key_file: String,
}

/// Where the client has the ECHConfigList from.
#[derive(Debug, Clone)]
pub enum ClientEch {
    /// Base64, pasted into the option string.
    Inline(String),
    /// A binary file.
    File(String),
}

/// Whom the client trusts.
#[derive(Debug, Clone)]
pub enum ClientTrust {
    /// The platform's root store.
    SystemRoots,
    /// One CA bundle.
    CaFile(String),
    /// Anybody: no verification.
    InsecureSkipVerify,
}

impl Default for ClientTrust {
    fn default() -> (t: Self)
        ensures
            t@ == TrustSettings::SystemRoots,
    {
        ClientTrust::SystemRoots
    }
}

/// The server's configuration.
#[derive(Debug, Clone)]
pub struct ServerCfg {
    /// The real tunnel domain.
    pub domain: String,
    /// The secret WebSocket path.
    pub ws_path: String,
    /// TCP Fast Open on the listener and on outgoing connections.
    pub fast_open: bool,
    /// How the certificate is obtained.
    pub tls: ServerTls,
    /// The ECH key; `None` disables ECH.
    pub ech: Option<ServerEch>,
    /// Whether the ECH public name is a name of the ACME certificate.
    pub acme_cover_san: bool,
    /// Whether handshakes without ECH are reset while ECH is enabled.
    pub reject_non_ech: bool,
    /// The `Server` header of the fake 404.
    pub server_name: String,
}

/// The client's configuration.
#[derive(Debug, Clone)]
pub struct ClientCfg {
    /// The real upstream host name.
    pub sni: String,
    /// The WebSocket path on the upstream.
    pub ws_path: String,
    /// TCP Fast Open on outgoing connections.
    pub fast_open: bool,
    /// The ECHConfigList; `None` disables ECH.
    pub ech: Option<ClientEch>,
    /// Whom to trust.
    pub trust: ClientTrust,
    /// The browser profile; `None` leaves the ClientHello as it is.
    pub fingerprint: Option<String>,
}

/// The configuration of one side.
#[derive(Debug, Clone)]
pub enum Config {
    Server(ServerCfg),
    Client(ClientCfg),
}

#[verifier::ext_equal]
pub enum TlsSettings {
    Static { cert_file: Seq<char>, key_file: Seq<char> },
    Acme { email: Seq<char>, staging: bool, cache_dir: Seq<char> },
}

#[verifier::ext_equal]
pub struct ServerEchSettings {
    pub public_name: Seq<char>,
    pub key_file: Seq<char>,
}

#[verifier::ext_equal]
pub enum ClientEchSettings {
    Inline(Seq<char>),
    File(Seq<char>),
}

#[verifier::ext_equal]
pub enum TrustSettings {
    SystemRoots,
    CaFile(Seq<char>),
    InsecureSkipVerify,
}

#[verifier::ext_equal]
pub struct ServerSettings {
    pub domain: Seq<char>,
    pub ws_path: Seq<char>,
    pub fast_open: bool,
    pub tls: TlsSettings,
    pub ech: Option<ServerEchSettings>,
    pub acme_cover_san: bool,
    pub reject_non_ech: bool,
    pub server_name: Seq<char>,
}

#[verifier::ext_equal]
pub struct ClientSettings {
    pub sni: Seq<char>,
    pub ws_path: Seq<char>,
    pub fast_open: bool,
    pub ech: Option<ClientEchSettings>,
    pub trust: TrustSettings,
    pub fingerprint: Option<Seq<char>>,
}

#[verifier::ext_equal]
pub enum Settings {
    Server(ServerSettings),
    Client(ClientSettings),
}

impl View for ServerTls {
    type V = TlsSettings;

    open spec fn view(&self) -> TlsSettings {
        match self {
            ServerTls::Static { cert_file, key_file } => TlsSettings::Static {
                cert_file: cert_file@,
                key_file: key_file@,
            },
            ServerTls::Acme { email, staging, cache_dir } => TlsSettings::Acme {
                email: email@,
                staging: *staging,
                cache_dir: cache_dir@,
            },
        }
    }
}

impl View for ServerEch {
    type V = ServerEchSettings;

    open spec fn view(&self) -> ServerEchSettings {
        ServerEchSettings { public_name: self.public_name@, key_file: self.key_file@ }
    }
}

impl View for ClientEch {
    type V = ClientEchSettings;

    open spec fn view(&self) -> ClientEchSettings {
        match self {
            ClientEch::Inline(b64) => ClientEchSettings::Inline(b64@),
            ClientEch::File(path) => ClientEchSettings::File(path@),
        }
    }
}

impl View for ClientTrust {
    type V = TrustSettings;

    open spec fn view(&self) -> TrustSettings {
        match self {
            ClientTrust::SystemRoots => TrustSettings::SystemRoots,
            ClientTrust::CaFile(path) => TrustSettings::CaFile(path@),
            ClientTrust::InsecureSkipVerify => TrustSettings::InsecureSkipVerify,
        }
    }
}

impl View for ServerCfg {
    type V = ServerSettings;

    open spec fn view(&self) -> ServerSettings {
        ServerSettings {
            domain: self.domain@,
            ws_path: self.ws_path@,
            fast_open: self.fast_open,
            tls: self.tls@,
            ech: match self.ech {
                Some(e) => Some(e@),
                None => None,
            },
            acme_cover_san: self.acme_cover_san,
            reject_non_ech: self.reject_non_ech,
            server_name: self.server_name@,
        }
    }
}

impl View for ClientCfg {
    type V = ClientSettings;

    open spec fn view(&self) -> ClientSettings {
        ClientSettings {
            sni: self.sni@,
            ws_path: self.ws_path@,
            fast_open: self.fast_open,
            ech: match self.ech {
                Some(e) => Some(e@),
                None => None,
            },
            trust: self.trust@,
            fingerprint: match self.fingerprint {
                Some(f) => Some(f@),
                None => None,
            },
        }
    }
}

impl View for Config {
    type V = Settings;

    open spec fn view(&self) -> Settings {
        match self {
            Config::Server(s) => Settings::Server(s@),
            Config::Client(c) => Settings::Client(c@),
        }
    }
}

// ---------------------------------------------------------------------------
// Faults
// ---------------------------------------------------------------------------

/// What can be wrong with the options.
pub enum ConfigFault {
    /// No mode, or an unknown one.
    Mode(ModeFault),
    /// A required option is missing or empty.
    Required(Seq<char>),
    /// `path` does not start with `/`.
    PathWithoutSlash(Seq<char>),
    /// An option that switches something holds no boolean.
    NotBoolean(Seq<char>, Seq<char>),
    /// Both a certificate on disk and ACME.
    CertAndAcme,
    /// `cert` without `key`.
    CertWithoutKey,
    /// `key` without `cert`.
    KeyWithoutCert,
    /// Neither a certificate on disk nor ACME.
    NoCertSource,
    /// `ech_public_name` without `ech_key`.
    EchNameWithoutKey,
    /// `ech_key` without `ech_public_name`.
    EchKeyWithoutName,
    /// Both `ech_config` and `ech_config_file`.
    TwoEchConfigs,
    /// Both `ca_file` and `insecure=true`.
    CaAndInsecure,
    /// No profile of that name.
    UnknownFingerprint(Seq<char>),
}

/// What is wrong with the options.
#[derive(Debug)]
pub enum ConfigError {
    Mode { error: ModeError },
    Required { key: &'static str },
    PathWithoutSlash { path: String },
    NotBoolean { key: &'static str, value: String },
    CertAndAcme,
    CertWithoutKey,
    KeyWithoutCert,
    NoCertSource,
    EchNameWithoutKey,
    EchKeyWithoutName,
    TwoEchConfigs,
    CaAndInsecure,
    UnknownFingerprint { name: String },
}

impl View for ConfigError {
    type V = ConfigFault;

    open spec fn view(&self) -> ConfigFault {
        match self {
            ConfigError::Mode { error } => ConfigFault::Mode(error@),
            ConfigError::Required { key } => ConfigFault::Required(key@),
            ConfigError::PathWithoutSlash { path } => ConfigFault::PathWithoutSlash(path@),
            ConfigError::NotBoolean { key, value } => ConfigFault::NotBoolean(key@, value@),
            ConfigError::CertAndAcme => ConfigFault::CertAndAcme,
            ConfigError::CertWithoutKey => ConfigFault::CertWithoutKey,
            ConfigError::KeyWithoutCert => ConfigFault::KeyWithoutCert,
            ConfigError::NoCertSource => ConfigFault::NoCertSource,
            ConfigError::EchNameWithoutKey => ConfigFault::EchNameWithoutKey,
            ConfigError::EchKeyWithoutName => ConfigFault::EchKeyWithoutName,
            ConfigError::TwoEchConfigs => ConfigFault::TwoEchConfigs,
            ConfigError::CaAndInsecure => ConfigFault::CaAndInsecure,
            ConfigError::UnknownFingerprint { name } => ConfigFault::UnknownFingerprint(name@),
        }
    }
}

/// The text that tells a user about a fault.
pub open spec fn fault_text(f: ConfigFault) -> Seq<char> {
    match f {
        ConfigFault::Mode(m) => sip003::mode_fault_text(m),
        ConfigFault::Required(key) => "plugin option `"@ + key + "` is required"@,
        ConfigFault::PathWithoutSlash(p) => "plugin option `path` must start with `/`: "@
            + text::debug_quoted(p),
        ConfigFault::NotBoolean(key, v) => "plugin option `"@ + key + "` must be a boolean, got "@
            + text::debug_quoted(v),
        ConfigFault::CertAndAcme =>
            "static cert (`cert`/`key`) and `acme_email` are mutually exclusive"@,
        ConfigFault::CertWithoutKey => "plugin option `key` must accompany `cert`"@,
        ConfigFault::KeyWithoutCert => "plugin option `cert` must accompany `key`"@,
        ConfigFault::NoCertSource =>
            "must provide either `cert`+`key` or `acme_email` for the server cert"@,
        ConfigFault::EchNameWithoutKey => "`ech_public_name` requires `ech_key`"@,
        ConfigFault::EchKeyWithoutName => "`ech_key` requires `ech_public_name`"@,
        ConfigFault::TwoEchConfigs => "`ech_config` and `ech_config_file` are mutually exclusive"@,
        ConfigFault::CaAndInsecure => "`ca_file` and `insecure=true` are mutually exclusive"@,
        ConfigFault::UnknownFingerprint(name) => "unknown fingerprint "@ + text::debug_quoted(name)
            + "; expected one of chrome|firefox|safari|ios|android|edge|random (or a versioned alias like chrome120, firefox120, safari16, ios14, android11, edge85)"@,
    }
}

impl ConfigError {
    /// The message for the user.
    pub fn message(&self) -> (m: String)
        ensures
            m@ == fault_text(self@),
    {
        match self {
            ConfigError::Mode { error } => error.message(),
            ConfigError::Required { key } => {
                let mut m = "plugin option `".to_owned();
                m.append(key);
                m.append("` is required");
                m
            },
            ConfigError::PathWithoutSlash { path } => {
                let mut m = "plugin option `path` must start with `/`: ".to_owned();
                m.append(quoted(path.as_str()).as_str());
                m
            },
            ConfigError::NotBoolean { key, value } => {
                let mut m = "plugin option `".to_owned();
                m.append(key);
                m.append("` must be a boolean, got ");
                m.append(quoted(value.as_str()).as_str());
                m
            },
            ConfigError::CertAndAcme =>
                "static cert (`cert`/`key`) and `acme_email` are mutually exclusive".to_owned(),
            ConfigError::CertWithoutKey => "plugin option `key` must accompany `cert`".to_owned(),
            ConfigError::KeyWithoutCert => "plugin option `cert` must accompany `key`".to_owned(),
            ConfigError::NoCertSource =>
                "must provide either `cert`+`key` or `acme_email` for the server cert".to_owned(),
            ConfigError::EchNameWithoutKey => "`ech_public_name` requires `ech_key`".to_owned(),
            ConfigError::EchKeyWithoutName => "`ech_key` requires `ech_public_name`".to_owned(),
            ConfigError::TwoEchConfigs =>
                "`ech_config` and `ech_config_file` are mutually exclusive".to_owned(),
            ConfigError::CaAndInsecure =>
                "`ca_file` and `insecure=true` are mutually exclusive".to_owned(),
            ConfigError::UnknownFingerprint { name } => {
                let mut m = "unknown fingerprint ".to_owned();
                m.append(quoted(name.as_str()).as_str());
                m.append(
                    "; expected one of chrome|firefox|safari|ios|android|edge|random (or a versioned alias like chrome120, firefox120, safari16, ios14, android11, edge85)",
                );
                m
            },
        }
    }
}

// ---------------------------------------------------------------------------
// What the options say
// ---------------------------------------------------------------------------

/// The first of two faults, if there is one.
pub open spec fn earlier(a: Option<ConfigFault>, b: Option<ConfigFault>) -> Option<ConfigFault> {
    if a is Some {
        a
    } else {
        b
    }
}

/// A required option is there and not empty.
pub open spec fn required_fault(m: Options, key: Seq<char>) -> Option<ConfigFault> {
    if m.contains_key(key) && m[key].len() > 0 {
        None
    } else {
        Some(ConfigFault::Required(key))
    }
}

pub open spec fn path_fault(m: Options) -> Option<ConfigFault> {
    earlier(
        required_fault(m, "path"@),
        if m["path"@][0] == '/' {
            None
        } else {
            Some(ConfigFault::PathWithoutSlash(m["path"@]))
        },
    )
}

/// The words for yes and no; the empty word is a no.
pub open spec fn boolean(v: Seq<char>) -> Option<bool> {
    if v == "true"@ || v == "1"@ || v == "yes"@ || v == "on"@ {
        Some(true)
    } else if v == "false"@ || v == "0"@ || v == "no"@ || v == "off"@ || v == ""@ {
        Some(false)
    } else {
        None
    }
}

pub open spec fn flag_fault(m: Options, key: Seq<char>) -> Option<ConfigFault> {
    if m.contains_key(key) && boolean(m[key]) is None {
        Some(ConfigFault::NotBoolean(key, m[key]))
    } else {
        None
    }
}

/// Whether the option `key` is switched on, `default` where it is not given.
pub open spec fn flag(m: Options, key: Seq<char>, default: bool) -> bool {
    if m.contains_key(key) {
        boolean(m[key]) == Some(true)
    } else {
        default
    }
}

/// The value of `key`, `default` where it is not given.
pub open spec fn text_or(m: Options, key: Seq<char>, default: Seq<char>) -> Seq<char> {
    if m.contains_key(key) {
        m[key]
    } else {
        default
    }
}

pub open spec fn tls_fault(m: Options) -> Option<ConfigFault> {
    let cert = m.contains_key("cert"@);
    let key = m.contains_key("key"@);
    let acme = m.contains_key("acme_email"@);
    if cert && key && acme {
        Some(ConfigFault::CertAndAcme)
    } else if cert && !key {
        Some(ConfigFault::CertWithoutKey)
    } else if key && !cert {
        Some(ConfigFault::KeyWithoutCert)
    } else if !cert && !acme {
        Some(ConfigFault::NoCertSource)
    } else if !cert {
        flag_fault(m, "acme_staging"@)
    } else {
        None
    }
}

pub open spec fn tls_settings(m: Options) -> TlsSettings {
    if m.contains_key("cert"@) {
        TlsSettings::Static { cert_file: m["cert"@], key_file: m["key"@] }
    } else {
        TlsSettings::Acme {
            email: m["acme_email"@],
            staging: flag(m, "acme_staging"@, false),
            cache_dir: text_or(m, "acme_cache"@, DEFAULT_ACME_CACHE@),
        }
    }
}

pub open spec fn server_ech_fault(m: Options) -> Option<ConfigFault> {
    let name = m.contains_key("ech_public_name"@);
    let key = m.contains_key("ech_key"@);
    if name && !key {
        Some(ConfigFault::EchNameWithoutKey)
    } else if key && !name {
        Some(ConfigFault::EchKeyWithoutName)
    } else {
        None
    }
}

pub open spec fn server_ech_settings(m: Options) -> Option<ServerEchSettings> {
    if m.contains_key("ech_public_name"@) {
        Some(ServerEchSettings { public_name: m["ech_public_name"@], key_file: m["ech_key"@] })
    } else {
        None
    }
}

/// The first fault in the options of a server.
pub open spec fn server_fault(m: Options) -> Option<ConfigFault> {
    earlier(
        required_fault(m, "domain"@),
        earlier(
            path_fault(m),
            earlier(
                flag_fault(m, "fast_open"@),
                earlier(
                    tls_fault(m),
                    earlier(
                        server_ech_fault(m),
                        earlier(
                            flag_fault(m, "acme_cover_san"@),
                            flag_fault(m, "reject_non_ech"@),
                        ),
                    ),
                ),
            ),
        ),
    )
}

/// What faultless options say to a server.
pub open spec fn server_settings(m: Options) -> ServerSettings {
    ServerSettings {
        domain: m["domain"@],
        ws_path: m["path"@],
        fast_open: flag(m, "fast_open"@, false),
        tls: tls_settings(m),
        ech: server_ech_settings(m),
        acme_cover_san: flag(m, "acme_cover_san"@, true),
        reject_non_ech: flag(m, "reject_non_ech"@, true),
        server_name: text_or(m, "server_name"@, DEFAULT_SERVER_NAME@),
    }
}

pub open spec fn client_ech_fault(m: Options) -> Option<ConfigFault> {
    if m.contains_key("ech_config"@) && m.contains_key("ech_config_file"@) {
        Some(ConfigFault::TwoEchConfigs)
    } else {
        None
    }
}

pub open spec fn client_ech_settings(m: Options) -> Option<ClientEchSettings> {
    if m.contains_key("ech_config"@) {
        Some(ClientEchSettings::Inline(m["ech_config"@]))
    } else if m.contains_key("ech_config_file"@) {
        Some(ClientEchSettings::File(m["ech_config_file"@]))
    } else {
        None
    }
}

pub open spec fn trust_fault(m: Options) -> Option<ConfigFault> {
    earlier(
        flag_fault(m, "insecure"@),
        if m.contains_key("ca_file"@) && flag(m, "insecure"@, false) {
            Some(ConfigFault::CaAndInsecure)
        } else {
            None
        },
    )
}

pub open spec fn trust_settings(m: Options) -> TrustSettings {
    if m.contains_key("ca_file"@) {
        TrustSettings::CaFile(m["ca_file"@])
    } else if flag(m, "insecure"@, false) {
        TrustSettings::InsecureSkipVerify
    } else {
        TrustSettings::SystemRoots
    }
}

/// A profile name as it is compared: without surrounding space, in lower case.
pub open spec fn normalized(name: Seq<char>) -> Seq<char> {
    text::lowered(text::trimmed(name))
}

pub open spec fn fingerprint_fault(m: Options) -> Option<ConfigFault> {
    if m.contains_key("fingerprint"@) && normalized(m["fingerprint"@]).len() > 0
        && !fingerprint::is_known(normalized(m["fingerprint"@])) {
        Some(ConfigFault::UnknownFingerprint(m["fingerprint"@]))
    } else {
        None
    }
}

pub open spec fn fingerprint_settings(m: Options) -> Option<Seq<char>> {
    if m.contains_key("fingerprint"@) && normalized(m["fingerprint"@]).len() > 0 {
        Some(normalized(m["fingerprint"@]))
    } else {
        None
    }
}

/// The first fault in the options of a client.
pub open spec fn client_fault(m: Options) -> Option<ConfigFault> {
    earlier(
        required_fault(m, "sni"@),
        earlier(
            path_fault(m),
            earlier(
                flag_fault(m, "fast_open"@),
                earlier(
                    client_ech_fault(m),
                    earlier(trust_fault(m), fingerprint_fault(m)),
                ),
            ),
        ),
    )
}

/// What faultless options say to a client.
pub open spec fn client_settings(m: Options) -> ClientSettings {
    ClientSettings {
        sni: m["sni"@],
        ws_path: m["path"@],
        fast_open: flag(m, "fast_open"@, false),
        ech: client_ech_settings(m),
        trust: trust_settings(m),
        fingerprint: fingerprint_settings(m),
    }
}

/// The first fault in the options.
pub open spec fn config_fault(m: Options) -> Option<ConfigFault> {
    match sip003::mode_of(m) {
        Err(f) => Some(ConfigFault::Mode(f)),
        Ok(Mode::Server) => server_fault(m),
        Ok(Mode::Client) => client_fault(m),
    }
}

/// What faultless options say.
pub open spec fn config_settings(m: Options) -> Settings {
    if sip003::mode_of(m) == Ok::<_, ModeFault>(Mode::Server) {
        Settings::Server(server_settings(m))
    } else {
        Settings::Client(client_settings(m))
    }
}

// ---------------------------------------------------------------------------
// Reading the options
// ---------------------------------------------------------------------------

fn required(o: &PluginOptions, key: &'static str) -> (r: Result<String, ConfigError>)
    ensures
        match r {
            Ok(v) => required_fault(o@, key@) is None && v@ == o@[key@],
            Err(e) => required_fault(o@, key@) == Some(e@),
        },
{
    match o.get(key) {
        Some(v) => if v.is_empty() {
            Err(ConfigError::Required { key })
        } else {
            Ok(v.to_owned())
        },
        None => Err(ConfigError::Required { key }),
    }
}

fn ws_path(o: &PluginOptions) -> (r: Result<String, ConfigError>)
    ensures
        match r {
            Ok(v) => path_fault(o@) is None && v@ == o@["path"@],
            Err(e) => path_fault(o@) == Some(e@),
        },
{
    let path = required(o, "path")?;
    match first_char(path.as_str()) {
        Some('/') => Ok(path),
        _ => Err(ConfigError::PathWithoutSlash { path }),
    }
}

fn parse_bool(o: &PluginOptions, key: &'static str) -> (r: Result<Option<bool>, ConfigError>)
    ensures
        match r {
            Ok(b) => flag_fault(o@, key@) is None && b is Some == o@.contains_key(key@) && (
            b matches Some(x) ==> boolean(o@[key@]) == Some(x)),
            Err(e) => flag_fault(o@, key@) == Some(e@),
        },
{
    match o.get(key) {
        None => Ok(None),
        Some(v) => if str_eq(v, "true") || str_eq(v, "1") || str_eq(v, "yes") || str_eq(v, "on") {
            Ok(Some(true))
        } else if str_eq(v, "false") || str_eq(v, "0") || str_eq(v, "no") || str_eq(v, "off")
            || str_eq(v, "") {
            Ok(Some(false))
        } else {
            Err(ConfigError::NotBoolean { key, value: v.to_owned() })
        },
    }
}

fn build_server_tls(o: &PluginOptions) -> (r: Result<ServerTls, ConfigError>)
    ensures
        match r {
            Ok(t) => tls_fault(o@) is None && t@ == tls_settings(o@),
            Err(e) => tls_fault(o@) == Some(e@),
        },
{
    let acme_email = o.get("acme_email");
    match (o.get("cert"), o.get("key")) {
        (Some(cert), Some(key)) => if acme_email.is_some() {
            Err(ConfigError::CertAndAcme)
        } else {
            Ok(ServerTls::Static { cert_file: cert.to_owned(), key_file: key.to_owned() })
        },
        (Some(_), None) => Err(ConfigError::CertWithoutKey),
        (None, Some(_)) => Err(ConfigError::KeyWithoutCert),
        (None, None) => match acme_email {
            Some(email) => {
                let cache_dir = match o.get("acme_cache") {
                    Some(dir) => dir,
                    None => DEFAULT_ACME_CACHE,
                };
                let staging = parse_bool(o, "acme_staging")?.unwrap_or(false);
                Ok(
                    ServerTls::Acme {
                        email: email.to_owned(),
                        staging,
                        cache_dir: cache_dir.to_owned(),
                    },
                )
            },
            None => Err(ConfigError::NoCertSource),
        },
    }
}

fn build_server_ech(o: &PluginOptions) -> (r: Result<Option<ServerEch>, ConfigError>)
    ensures
        match r {
            Ok(Some(e)) => server_ech_fault(o@) is None && server_ech_settings(o@) == Some(e@),
            Ok(None) => server_ech_fault(o@) is None && server_ech_settings(o@) is None,
            Err(e) => server_ech_fault(o@) == Some(e@),
        },
{
    match (o.get("ech_public_name"), o.get("ech_key")) {
        (None, None) => Ok(None),
        (Some(name), Some(key)) => Ok(
            Some(ServerEch { public_name: name.to_owned(), key_file: key.to_owned() }),
        ),
        (Some(_), None) => Err(ConfigError::EchNameWithoutKey),
        (None, Some(_)) => Err(ConfigError::EchKeyWithoutName),
    }
}

fn build_client_ech(o: &PluginOptions) -> (r: Result<Option<ClientEch>, ConfigError>)
    ensures
        match r {
            Ok(Some(e)) => client_ech_fault(o@) is None && client_ech_settings(o@) == Some(e@),
            Ok(None) => client_ech_fault(o@) is None && client_ech_settings(o@) is None,
            Err(e) => client_ech_fault(o@) == Some(e@),
        },
{
    match (o.get("ech_config"), o.get("ech_config_file")) {
        (None, None) => Ok(None),
        (Some(b64), None) => Ok(Some(ClientEch::Inline(b64.to_owned()))),
        (None, Some(path)) => Ok(Some(ClientEch::File(path.to_owned()))),
        (Some(_), Some(_)) => Err(ConfigError::TwoEchConfigs),
    }
}

fn build_client_trust(o: &PluginOptions) -> (r: Result<ClientTrust, ConfigError>)
    ensures
        match r {
            Ok(t) => trust_fault(o@) is None && t@ == trust_settings(o@),
            Err(e) => trust_fault(o@) == Some(e@),
        },
{
    let insecure = parse_bool(o, "insecure")?.unwrap_or(false);
    match o.get("ca_file") {
        Some(path) => if insecure {
            Err(ConfigError::CaAndInsecure)
        } else {
            Ok(ClientTrust::CaFile(path.to_owned()))
        },
        None => if insecure {
            Ok(ClientTrust::InsecureSkipVerify)
        } else {
            Ok(ClientTrust::SystemRoots)
        },
    }
}

fn build_fingerprint(o: &PluginOptions) -> (r: Result<Option<String>, ConfigError>)
    ensures
        match r {
            Ok(Some(f)) => fingerprint_fault(o@) is None && fingerprint_settings(o@) == Some(f@),
            Ok(None) => fingerprint_fault(o@) is None && fingerprint_settings(o@) is None,
            Err(e) => fingerprint_fault(o@) == Some(e@),
        },
{
    let raw = match o.get("fingerprint") {
        Some(v) => v,
        None => return Ok(None),
    };
    let name = ascii_lowercase(trim(raw).as_str());
    if name.as_str().is_empty() {
        return Ok(None);
    }
    if fingerprint::resolve(name.as_str()).is_none() {
        return Err(ConfigError::UnknownFingerprint { name: raw.to_owned() });
    }
    Ok(Some(name))
}

impl ServerCfg {
    /// Reads the options of a server.
    pub fn from_options(o: &PluginOptions) -> (r: Result<Self, ConfigError>)
        ensures
            match r {
                Ok(c) => server_fault(o@) is None && c@ == server_settings(o@),
                Err(e) => server_fault(o@) == Some(e@),
            },
    {
        let domain = required(o, "domain")?;
        let ws_path = ws_path(o)?;
        let fast_open = parse_bool(o, "fast_open")?.unwrap_or(false);
        let tls = build_server_tls(o)?;
        let ech = build_server_ech(o)?;
        let acme_cover_san = parse_bool(o, "acme_cover_san")?.unwrap_or(true);
        let reject_non_ech = parse_bool(o, "reject_non_ech")?.unwrap_or(true);
        let server_name = match o.get("server_name") {
            Some(name) => name,
            None => DEFAULT_SERVER_NAME,
        };
        Ok(
            ServerCfg {
                domain,
                ws_path,
                fast_open,
                tls,
                ech,
                acme_cover_san,
                reject_non_ech,
                server_name: server_name.to_owned(),
            },
        )
    }
}

impl ClientCfg {
    /// Reads the options of a client.
    pub fn from_options(o: &PluginOptions) -> (r: Result<Self, ConfigError>)
        ensures
            match r {
                Ok(c) => client_fault(o@) is None && c@ == client_settings(o@),
                Err(e) => client_fault(o@) == Some(e@),
            },
    {
        let sni = required(o, "sni")?;
        let ws_path = ws_path(o)?;
        let fast_open = parse_bool(o, "fast_open")?.unwrap_or(false);
        let ech = build_client_ech(o)?;
        let trust = build_client_trust(o)?;
        let fingerprint = build_fingerprint(o)?;
        Ok(ClientCfg { sni, ws_path, fast_open, ech, trust, fingerprint })
    }
}

impl Config {
    /// Reads the whole configuration.
    pub fn from_options(opts: &PluginOptions) -> (r: Result<Self, ConfigError>)
        ensures
            match r {
                Ok(c) => config_fault(opts@) is None && c@ == config_settings(opts@),
                Err(e) => config_fault(opts@) == Some(e@),
            },
    {
        match opts.mode() {
            Ok(Mode::Server) => Ok(Config::Server(ServerCfg::from_options(opts)?)),
            Ok(Mode::Client) => Ok(Config::Client(ClientCfg::from_options(opts)?)),
            Err(error) => Err(ConfigError::Mode { error }),
        }
    }
}

// ---------------------------------------------------------------------------
// Laws
// ---------------------------------------------------------------------------

/// Every accepted server configuration has a domain and a path that starts
/// with `/`; it has a certificate on disk exactly where `cert` and `key` are
/// given and `acme_email` is not, and ECH exactly where both of its options are
/// given.
pub proof fn law_server_config(m: Options)
    requires
        server_fault(m) is None,
    ensures
        server_settings(m).domain.len() > 0,
        server_settings(m).ws_path.len() > 0 && server_settings(m).ws_path[0] == '/',
        server_settings(m).tls is Static <==> m.contains_key("cert"@) && m.contains_key("key"@)
            && !m.contains_key("acme_email"@),
        server_settings(m).tls is Acme <==> m.contains_key("acme_email"@) && !m.contains_key(
            "cert"@,
        ) && !m.contains_key("key"@),
        server_settings(m).ech is Some <==> m.contains_key("ech_public_name"@) && m.contains_key(
            "ech_key"@,
        ),
        server_settings(m).ech is None <==> !m.contains_key("ech_public_name"@) && !m.contains_key(
            "ech_key"@,
        ),
{
}

/// Every accepted client configuration has a host name and a path that starts
/// with `/`; verification is off only where `insecure` was switched on and no
/// CA was given; and its profile, if it has one, is one that can be resolved.
pub proof fn law_client_config(m: Options)
    requires
        client_fault(m) is None,
    ensures
        client_settings(m).sni.len() > 0,
        client_settings(m).ws_path.len() > 0 && client_settings(m).ws_path[0] == '/',
        client_settings(m).trust is InsecureSkipVerify <==> flag(m, "insecure"@, false),
        client_settings(m).trust is CaFile <==> m.contains_key("ca_file"@),
        client_settings(m).fingerprint matches Some(f) ==> f.len() > 0 && fingerprint::is_known(f),
{
}

/// Options that exclude each other, and options without the one that they
/// need, are always refused.
pub proof fn law_contradictions_are_refused(m: Options)
    ensures
        m.contains_key("cert"@) != m.contains_key("key"@) ==> server_fault(m) is Some,
        m.contains_key("cert"@) && m.contains_key("acme_email"@) ==> server_fault(m) is Some,
        m.contains_key("ech_public_name"@) != m.contains_key("ech_key"@) ==> server_fault(
            m,
        ) is Some,
        m.contains_key("ech_config"@) && m.contains_key("ech_config_file"@) ==> client_fault(
            m,
        ) is Some,
        m.contains_key("ca_file"@) && flag(m, "insecure"@, false) ==> client_fault(m) is Some,
{
}

/// The keys that the configuration reads.
pub open spec fn is_option(key: Seq<char>) -> bool {
    ||| key == "mode"@
    ||| key == "path"@
    ||| key == "fast_open"@
    ||| key == "domain"@
    ||| key == "cert"@
    ||| key == "key"@
    ||| key == "acme_email"@
    ||| key == "acme_cache"@
    ||| key == "acme_staging"@
    ||| key == "acme_cover_san"@
    ||| key == "ech_public_name"@
    ||| key == "ech_key"@
    ||| key == "reject_non_ech"@
    ||| key == "server_name"@
    ||| key == "sni"@
    ||| key == "ech_config"@
    ||| key == "ech_config_file"@
    ||| key == "ca_file"@
    ||| key == "insecure"@
    ||| key == "fingerprint"@
}

/// Nothing but the options decides the configuration: keys that it does not
/// read make no difference.
pub proof fn law_other_keys_do_not_matter(m: Options, n: Options)
    requires
        forall|key: Seq<char>|
            #[trigger] is_option(key) ==> (m.contains_key(key) <==> n.contains_key(key)) && (
            m.contains_key(key) ==> m[key] == n[key]),
    ensures
        config_fault(m) == config_fault(n),
        config_fault(m) is None ==> config_settings(m) == config_settings(n),
{
    assert(is_option("mode"@));
    assert(is_option("path"@));
    assert(is_option("fast_open"@));
    assert(is_option("domain"@));
    assert(is_option("cert"@));
    assert(is_option("key"@));
    assert(is_option("acme_email"@));
    assert(is_option("acme_cache"@));
    assert(is_option("acme_staging"@));
    assert(is_option("acme_cover_san"@));
    assert(is_option("ech_public_name"@));
    assert(is_option("ech_key"@));
    assert(is_option("reject_non_ech"@));
    assert(is_option("server_name"@));
    assert(is_option("sni"@));
    assert(is_option("ech_config"@));
    assert(is_option("ech_config_file"@));
    assert(is_option("ca_file"@));
    assert(is_option("insecure"@));
    assert(is_option("fingerprint"@));
}

/// The mode in the options is the side that is configured.
pub proof fn law_mode_decides_the_side(m: Options)
    requires
        config_fault(m) is None,
    ensures
        config_settings(m) is Server <==> sip003::mode_of(m) == Ok::<_, ModeFault>(Mode::Server),
        config_settings(m) is Client <==> sip003::mode_of(m) == Ok::<_, ModeFault>(Mode::Client),
{
}

/// The words of a switch, and no others: four for yes, four and the empty one for
/// no.
pub proof fn law_words_of_a_switch(v: Seq<char>)
    ensures
        boolean(v) == Some(true) <==> v == "true"@ || v == "1"@ || v == "yes"@ || v == "on"@,
        boolean(v) == Some(false) <==> v == "false"@ || v == "0"@ || v == "no"@ || v == "off"@
            || v.len() == 0,
{
    reveal_strlit("true");
    reveal_strlit("1");
    reveal_strlit("yes");
    reveal_strlit("on");
    reveal_strlit("false");
    reveal_strlit("0");
    reveal_strlit("no");
    reveal_strlit("off");
    reveal_strlit("");
    assert("true"@[0] == 't');
    assert("1"@[0] == '1');
    assert("yes"@[0] == 'y');
    assert("on"@[1] == 'n');
    assert("false"@[0] == 'f');
    assert("0"@[0] == '0');
    assert("no"@[0] == 'n');
    assert("off"@[1] == 'f');
    if v.len() == 0 {
        assert(v =~= ""@);
    }
}

/// A switch that is given says what its word says; one that is not given has its
/// default.
pub proof fn law_switches(m: Options, key: Seq<char>, default: bool)
    ensures
        !m.contains_key(key) ==> flag(m, key, default) == default && flag_fault(m, key) is None,
        m.contains_key(key) ==> (flag_fault(m, key) is None <==> boolean(m[key]) is Some),
        m.contains_key(key) && boolean(m[key]) is Some ==> boolean(m[key]) == Some(
            flag(m, key, default),
        ),
        flag_fault(m, key) is Some ==> flag_fault(m, key) == Some(
            ConfigFault::NotBoolean(key, m[key]),
        ),
{
}

/// An accepted client has its host, path and trust from the options as they are
/// written, and ECH exactly as they ask for it, whatever other options there are:
/// the pasted list where there is one, else the file where there is one, else none.
pub proof fn law_client_is_configured_as_told(m: Options, c: ClientCfg)
    requires
        client_fault(m) is None,
        c@ == client_settings(m),
    ensures
        c.sni@ == m["sni"@],
        c.ws_path@ == m["path"@],
        c.fast_open <==> m.contains_key("fast_open"@) && boolean(m["fast_open"@]) == Some(true),
        m.contains_key("ech_config"@) <==> (c.ech matches Some(ClientEch::Inline(b64)) && b64@
            == m["ech_config"@]),
        m.contains_key("ech_config_file"@) <==> (c.ech matches Some(ClientEch::File(path)) && path@
            == m["ech_config_file"@]),
        !m.contains_key("ech_config"@) && !m.contains_key("ech_config_file"@) <==> c.ech is None,
        m.contains_key("ca_file"@) <==> (c.trust matches ClientTrust::CaFile(path) && path@
            == m["ca_file"@]),
        c.trust is InsecureSkipVerify <==> m.contains_key("insecure"@) && boolean(m["insecure"@])
            == Some(true),
        c.fingerprint is Some <==> m.contains_key("fingerprint"@) && text::trimmed(
            m["fingerprint"@],
        ).len() > 0,
        c.fingerprint matches Some(f) ==> f@ == text::lowered(text::trimmed(m["fingerprint"@])),
{
}

/// The same in terms of the settings: where the list of an accepted client comes
/// from is decided by two keys alone.
pub proof fn law_client_ech_is_decided_by_its_keys(m: Options)
    requires
        client_fault(m) is None,
    ensures
        m.contains_key("ech_config"@) <==> client_settings(m).ech == Some(
            ClientEchSettings::Inline(m["ech_config"@]),
        ),
        m.contains_key("ech_config_file"@) <==> client_settings(m).ech == Some(
            ClientEchSettings::File(m["ech_config_file"@]),
        ),
        !m.contains_key("ech_config"@) && !m.contains_key("ech_config_file"@) <==> client_settings(
            m,
        ).ech is None,
{
}

/// An accepted server has every setting from the option of its name, as it is
/// written, and the default where the option is not given.
pub proof fn law_server_is_configured_as_told(m: Options, c: ServerCfg)
    requires
        server_fault(m) is None,
        c@ == server_settings(m),
    ensures
        c.domain@ == m["domain"@],
        c.ws_path@ == m["path"@],
        c.fast_open <==> m.contains_key("fast_open"@) && boolean(m["fast_open"@]) == Some(true),
        m.contains_key("cert"@) <==> (c.tls matches ServerTls::Static { cert_file, key_file }
            && cert_file@ == m["cert"@] && key_file@ == m["key"@]),
        m.contains_key("acme_email"@) <==> (c.tls matches ServerTls::Acme {
            email,
            staging,
            cache_dir,
        } && email@ == m["acme_email"@] && (staging <==> m.contains_key("acme_staging"@) && boolean(
            m["acme_staging"@],
        ) == Some(true)) && cache_dir@ == (if m.contains_key("acme_cache"@) {
            m["acme_cache"@]
        } else {
            "/var/lib/ech-tls-tunnel/acme"@
        })),
        m.contains_key("ech_public_name"@) <==> (c.ech matches Some(e) && e.public_name@
            == m["ech_public_name"@] && e.key_file@ == m["ech_key"@]),
        !m.contains_key("ech_public_name"@) <==> c.ech is None,
        c.acme_cover_san <==> !m.contains_key("acme_cover_san"@) || boolean(m["acme_cover_san"@])
            == Some(true),
        c.reject_non_ech <==> !m.contains_key("reject_non_ech"@) || boolean(m["reject_non_ech"@])
            == Some(true),
        c.server_name@ == (if m.contains_key("server_name"@) {
            m["server_name"@]
        } else {
            "nginx/1.24.0"@
        }),
{
}

/// Whether an option is there and not empty.
pub open spec fn is_given(m: Options, key: Seq<char>) -> bool {
    m.contains_key(key) && m[key].len() > 0
}

/// Whether a switch is not given or holds one of its words.
pub open spec fn is_switch(m: Options, key: Seq<char>) -> bool {
    m.contains_key(key) ==> boolean(m[key]) is Some
}

/// A client's options are accepted if and only if host and path are there, the path
/// starts with `/`, all switches hold words of a switch, no two options exclude
/// each other, and the profile is empty or known.
pub proof fn law_accepted_clients(m: Options)
    ensures
        client_fault(m) is None <==> {
            &&& is_given(m, "sni"@)
            &&& is_given(m, "path"@)
            &&& m["path"@][0] == '/'
            &&& is_switch(m, "fast_open"@)
            &&& is_switch(m, "insecure"@)
            &&& !(m.contains_key("ech_config"@) && m.contains_key("ech_config_file"@))
            &&& !(m.contains_key("ca_file"@) && m.contains_key("insecure"@) && boolean(
                m["insecure"@],
            ) == Some(true))
            &&& m.contains_key("fingerprint"@) ==> {
                let name = text::lowered(text::trimmed(m["fingerprint"@]));
                name.len() == 0 || fingerprint::is_known(name)
            }
        },
{
}

/// A server's options are accepted if and only if domain and path are there, the
/// path starts with `/`, all switches that count hold words of a switch, there is
/// exactly one source for the certificate, with both of its files if it is on disk,
/// and ECH has both of its options or neither.
pub proof fn law_accepted_servers(m: Options)
    ensures
        server_fault(m) is None <==> {
            &&& is_given(m, "domain"@)
            &&& is_given(m, "path"@)
            &&& m["path"@][0] == '/'
            &&& is_switch(m, "fast_open"@)
            &&& is_switch(m, "acme_cover_san"@)
            &&& is_switch(m, "reject_non_ech"@)
            &&& m.contains_key("cert"@) == m.contains_key("key"@)
            &&& m.contains_key("cert"@) != m.contains_key("acme_email"@)
            &&& m.contains_key("acme_email"@) ==> is_switch(m, "acme_staging"@)
            &&& m.contains_key("ech_public_name"@) == m.contains_key("ech_key"@)
        },
{
}

/// Which fault is reported: the first in the order of the options, and it names
/// what is wrong.
pub proof fn law_first_fault_is_reported(m: Options)
    ensures
        !is_given(m, "sni"@) ==> client_fault(m) == Some(ConfigFault::Required("sni"@)),
        !is_given(m, "domain"@) ==> server_fault(m) == Some(ConfigFault::Required("domain"@)),
        is_given(m, "sni"@) && !is_given(m, "path"@) ==> client_fault(m) == Some(
            ConfigFault::Required("path"@),
        ),
        is_given(m, "domain"@) && !is_given(m, "path"@) ==> server_fault(m) == Some(
            ConfigFault::Required("path"@),
        ),
        is_given(m, "sni"@) && is_given(m, "path"@) && m["path"@][0] != '/' ==> client_fault(m)
            == Some(ConfigFault::PathWithoutSlash(m["path"@])),
        is_given(m, "domain"@) && is_given(m, "path"@) && m["path"@][0] != '/' ==> server_fault(m)
            == Some(ConfigFault::PathWithoutSlash(m["path"@])),
        client_fault(m) matches Some(f) ==> is_client_fault(m, f),
        server_fault(m) matches Some(f) ==> is_server_fault(m, f),
{
}

/// Whether the options of a client have this fault.
pub open spec fn is_client_fault(m: Options, f: ConfigFault) -> bool {
    match f {
        ConfigFault::Required(key) => (key == "sni"@ || key == "path"@) && !is_given(m, key),
        ConfigFault::PathWithoutSlash(path) => path == m["path"@] && path[0] != '/',
        ConfigFault::NotBoolean(key, v) => (key == "fast_open"@ || key == "insecure"@)
            && m.contains_key(key) && m[key] == v && boolean(v) is None,
        ConfigFault::TwoEchConfigs => m.contains_key("ech_config"@) && m.contains_key(
            "ech_config_file"@,
        ),
        ConfigFault::CaAndInsecure => m.contains_key("ca_file"@) && m.contains_key("insecure"@)
            && boolean(m["insecure"@]) == Some(true),
        ConfigFault::UnknownFingerprint(name) => m.contains_key("fingerprint"@) && name
            == m["fingerprint"@] && !fingerprint::is_known(text::lowered(text::trimmed(name))),
        _ => false,
    }
}

/// Whether the options of a server have this fault.
pub open spec fn is_server_fault(m: Options, f: ConfigFault) -> bool {
    let (cert, key, acme) = (
        m.contains_key("cert"@),
        m.contains_key("key"@),
        m.contains_key("acme_email"@),
    );
    let (name, ech_key) = (m.contains_key("ech_public_name"@), m.contains_key("ech_key"@));
    match f {
        ConfigFault::Required(k) => (k == "domain"@ || k == "path"@) && !is_given(m, k),
        ConfigFault::PathWithoutSlash(path) => path == m["path"@] && path[0] != '/',
        ConfigFault::NotBoolean(k, v) => (k == "fast_open"@ || k == "acme_staging"@ || k
            == "acme_cover_san"@ || k == "reject_non_ech"@) && m.contains_key(k) && m[k] == v
            && boolean(v) is None,
        ConfigFault::CertAndAcme => cert && key && acme,
        ConfigFault::CertWithoutKey => cert && !key,
        ConfigFault::KeyWithoutCert => key && !cert,
        ConfigFault::NoCertSource => !cert && !key && !acme,
        ConfigFault::EchNameWithoutKey => name && !ech_key,
        ConfigFault::EchKeyWithoutName => ech_key && !name,
        _ => false,
    }
}

/// The mode decides the side, and a wrong or missing one is reported before
/// anything else.
pub proof fn law_mode_comes_first(m: Options)
    ensures
        !m.contains_key("mode"@) ==> config_fault(m) == Some(ConfigFault::Mode(ModeFault::Missing)),
        m.contains_key("mode"@) && m["mode"@] == "server"@ ==> config_fault(m) == server_fault(m)
            && config_settings(m) == Settings::Server(server_settings(m)),
        m.contains_key("mode"@) && m["mode"@] == "client"@ ==> config_fault(m) == client_fault(m)
            && config_settings(m) == Settings::Client(client_settings(m)),
        m.contains_key("mode"@) && m["mode"@] != "server"@ && m["mode"@] != "client"@
            ==> config_fault(m) == Some(ConfigFault::Mode(ModeFault::Unknown(m["mode"@]))),
{
    reveal_strlit("server");
    reveal_strlit("client");
    assert("server"@[0] == 's');
    assert("client"@[0] == 'c');
}

/// Of several faults the earlier one is reported: host or domain, path, Fast Open,
/// then on a client ECH, trust and profile, and on a server certificate, ECH and the
/// two switches of the guard.
pub proof fn law_order_of_faults(m: Options)
    ensures
        client_fault(m) matches Some(ConfigFault::TwoEchConfigs) ==> is_switch(m, "fast_open"@),
        client_fault(m) matches Some(ConfigFault::CaAndInsecure) ==> is_switch(m, "fast_open"@)
            && !(m.contains_key("ech_config"@) && m.contains_key("ech_config_file"@)),
        client_fault(m) == Some(ConfigFault::NotBoolean("insecure"@, m["insecure"@])) ==> is_switch(
            m,
            "fast_open"@,
        ) && !(m.contains_key("ech_config"@) && m.contains_key("ech_config_file"@)),
        client_fault(m) matches Some(ConfigFault::UnknownFingerprint(_)) ==> is_switch(
            m,
            "fast_open"@,
        ) && is_switch(m, "insecure"@) && !(m.contains_key("ech_config"@) && m.contains_key(
            "ech_config_file"@,
        )) && !(m.contains_key("ca_file"@) && flag(m, "insecure"@, false)),
        server_fault(m) matches Some(ConfigFault::NoCertSource) ==> is_switch(m, "fast_open"@),
        server_fault(m) matches Some(ConfigFault::CertAndAcme) ==> is_switch(m, "fast_open"@),
        server_fault(m) matches Some(ConfigFault::CertWithoutKey) ==> is_switch(m, "fast_open"@),
        server_fault(m) matches Some(ConfigFault::KeyWithoutCert) ==> is_switch(m, "fast_open"@),
        server_fault(m) matches Some(ConfigFault::EchNameWithoutKey) ==> is_switch(m, "fast_open"@)
            && m.contains_key("cert"@) == m.contains_key("key"@) && m.contains_key("cert"@)
            != m.contains_key("acme_email"@),
        server_fault(m) matches Some(ConfigFault::EchKeyWithoutName) ==> is_switch(m, "fast_open"@)
            && m.contains_key("cert"@) == m.contains_key("key"@) && m.contains_key("cert"@)
            != m.contains_key("acme_email"@),
        server_fault(m) == Some(ConfigFault::NotBoolean("reject_non_ech"@, m["reject_non_ech"@]))
            ==> is_switch(m, "fast_open"@) && is_switch(m, "acme_cover_san"@) && m.contains_key(
            "ech_public_name"@,
        ) == m.contains_key("ech_key"@) && m.contains_key("cert"@) != m.contains_key(
            "acme_email"@,
        ),
{
    lemma_switches_differ();
}

proof fn lemma_switches_differ()
    ensures
        "insecure"@ != "fast_open"@,
        "reject_non_ech"@ != "fast_open"@,
        "reject_non_ech"@ != "acme_cover_san"@,
        "reject_non_ech"@ != "acme_staging"@,
{
    reveal_strlit("insecure");
    reveal_strlit("fast_open");
    reveal_strlit("reject_non_ech");
    reveal_strlit("acme_cover_san");
    reveal_strlit("acme_staging");
    assert("insecure"@[0] == 'i');
    assert("fast_open"@[0] == 'f');
    assert("reject_non_ech"@[0] == 'r');
    assert("acme_cover_san"@[0] == 'a');
    assert("acme_staging"@[0] == 'a');
}

/// A message names what it is about: the option that is missing or wrong.
pub proof fn law_messages_name_the_option(key: Seq<char>, v: Seq<char>)
    ensures
        fault_text(ConfigFault::Required(key)) == "plugin option `"@ + key + "` is required"@,
        fault_text(ConfigFault::NotBoolean(key, v)) == "plugin option `"@ + key
            + "` must be a boolean, got "@ + text::debug_quoted(v),
        fault_text(ConfigFault::PathWithoutSlash(v))
            == "plugin option `path` must start with `/`: "@ + text::debug_quoted(v),
{
}

} // verus!
