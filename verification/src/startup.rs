//! From the variables of the process to a plugin that knows what to do.

use vstd::prelude::*;

use crate::config;
use crate::config::{Config, ConfigError};
use crate::namemap::NameMap;
use crate::sip003;
use crate::sip003::{Mode, ModeFault, SipEnv, SipError};
use crate::text;

verus! {

/// Where to listen, whom to dial, and how.
#[derive(Debug)]
pub struct Startup {
    pub listen: String,
    pub upstream: String,
    pub config: Config,
}

/// Why the plugin cannot start.
pub enum StartupFault {
    Env(sip003::SipFault),
    Config(config::ConfigFault),
}

/// Why the plugin does not start.
#[derive(Debug)]
pub enum StartupError {
    Env(SipError),
    Config(ConfigError),
}

impl View for StartupError {
    type V = StartupFault;

    open spec fn view(&self) -> StartupFault {
        match self {
            StartupError::Env(error) => StartupFault::Env(error@),
            StartupError::Config(error) => StartupFault::Config(error@),
        }
    }
}

impl StartupError {
    /// The message for the user.
    pub fn message(&self) -> (m: String)
        ensures
            m@ == match self@ {
                StartupFault::Env(f) => sip003::env_fault_text(f),
                StartupFault::Config(f) => config::fault_text(f),
            },
    {
        match self {
            StartupError::Env(error) => error.message(),
            StartupError::Config(error) => error.message(),
        }
    }
}

/// The mode that faultless options ask for.
pub open spec fn configured_mode(m: config::Options) -> Mode {
    if sip003::mode_of(m) == Ok::<_, ModeFault>(Mode::Server) {
        Mode::Server
    } else {
        Mode::Client
    }
}

/// Whether the variables `env` say to start like this.
pub open spec fn says_to_start(env: Map<Seq<char>, Seq<char>>, s: Startup) -> bool {
    exists|sip: sip003::SipSettings|
        {
            &&& #[trigger] sip003::env_says(env, sip)
            &&& config::config_fault(sip.options) is None
            &&& s.config@ == config::config_settings(sip.options)
            &&& (s.listen@, s.upstream@) == sip003::endpoints_of(sip, configured_mode(sip.options))
        }
}

/// Whether the variables `env` are in order and their options have this fault.
pub open spec fn options_are_faulty(
    env: Map<Seq<char>, Seq<char>>,
    f: config::ConfigFault,
) -> bool {
    exists|sip: sip003::SipSettings| #[trigger]
        sip003::env_says(env, sip) && config::config_fault(sip.options) == Some(f)
}

/// Reads the variables: first the addresses, then the options.
pub fn startup(env: &NameMap<String>) -> (r: Result<Startup, StartupError>)
    ensures
        match r {
            Ok(s) => sip003::env_fault(sip003::text_map(env@)) is None && says_to_start(
                sip003::text_map(env@),
                s,
            ),
            Err(StartupError::Env(error)) => sip003::env_fault(sip003::text_map(env@)) == Some(
                error@,
            ),
            Err(StartupError::Config(error)) => sip003::env_fault(sip003::text_map(env@)) is None
                && options_are_faulty(sip003::text_map(env@), error@),
        },
{
    let sip = match SipEnv::from_map(env) {
        Ok(sip) => sip,
        Err(error) => return Err(StartupError::Env(error)),
    };
    assert(sip003::env_says(sip003::text_map(env@), sip@));
    let mode = match sip.options.mode() {
        Ok(mode) => mode,
        Err(error) => return Err(StartupError::Config(ConfigError::Mode { error })),
    };
    let config = match Config::from_options(&sip.options) {
        Ok(config) => config,
        Err(error) => return Err(StartupError::Config(error)),
    };
    let (listen, upstream) = sip.endpoints(mode);
    Ok(Startup { listen, upstream, config })
}

/// The variables say at most one thing: two ways to start that they allow are
/// the same.
pub proof fn law_env_decides(env: Map<Seq<char>, Seq<char>>, a: Startup, b: Startup)
    requires
        says_to_start(env, a),
        says_to_start(env, b),
    ensures
        a.listen@ == b.listen@,
        a.upstream@ == b.upstream@,
        a.config@ == b.config@,
{
    let x = choose|sip: sip003::SipSettings|
        {
            &&& #[trigger] sip003::env_says(env, sip)
            &&& config::config_fault(sip.options) is None
            &&& a.config@ == config::config_settings(sip.options)
            &&& (a.listen@, a.upstream@) == sip003::endpoints_of(sip, configured_mode(sip.options))
        };
    let y = choose|sip: sip003::SipSettings|
        {
            &&& #[trigger] sip003::env_says(env, sip)
            &&& config::config_fault(sip.options) is None
            &&& b.config@ == config::config_settings(sip.options)
            &&& (b.listen@, b.upstream@) == sip003::endpoints_of(sip, configured_mode(sip.options))
        };
    assert(x == y);
}

/// A server listens on the remote address and dials the local one, a client the
/// other way round.
pub proof fn law_side_decides_the_direction(sip: sip003::SipSettings)
    requires
        config::config_fault(sip.options) is None,
    ensures
        config::config_settings(sip.options) is Server ==> sip003::endpoints_of(
            sip,
            configured_mode(sip.options),
        ) == (
            sip003::address_text(sip.remote_host, sip.remote_port),
            sip003::address_text(sip.local_host, sip.local_port),
        ),
        config::config_settings(sip.options) is Client ==> sip003::endpoints_of(
            sip,
            configured_mode(sip.options),
        ) == (
            sip003::address_text(sip.local_host, sip.local_port),
            sip003::address_text(sip.remote_host, sip.remote_port),
        ),
{
}

/// How a plugin starts that has what it needs: in the mode `server` it listens on the
/// remote address and dials the local one, in the mode `client` the other way round,
/// with the configuration of that side.
pub proof fn law_start_follows_the_variables(env: Map<Seq<char>, Seq<char>>, s: Startup)
    requires
        says_to_start(env, s),
    ensures
        ({
            let remote = env["SS_REMOTE_HOST"@] + seq![':'];
            let local = env["SS_LOCAL_HOST"@] + seq![':'];
            let remote_port = text::port_number(env["SS_REMOTE_PORT"@]);
            let local_port = text::port_number(env["SS_LOCAL_PORT"@]);
            let m = if env.contains_key("SS_PLUGIN_OPTIONS"@) {
                sip003::options_of(env["SS_PLUGIN_OPTIONS"@])
            } else {
                Ok(Map::empty())
            };
            &&& remote_port matches Some(r) && local_port matches Some(l) && m matches Ok(o) && {
                let a = remote + text::decimal(r as nat);
                let b = local + text::decimal(l as nat);
                &&& o.contains_key("mode"@)
                &&& o["mode"@] == "server"@ ==> s.listen@ == a && s.upstream@ == b && s.config@
                    == config::Settings::Server(config::server_settings(o))
                    && config::server_fault(o) is None
                &&& o["mode"@] == "client"@ ==> s.listen@ == b && s.upstream@ == a && s.config@
                    == config::Settings::Client(config::client_settings(o))
                    && config::client_fault(o) is None
                &&& o["mode"@] == "server"@ || o["mode"@] == "client"@
            }
        }),
{
    let sip = choose|sip: sip003::SipSettings|
        {
            &&& #[trigger] sip003::env_says(env, sip)
            &&& config::config_fault(sip.options) is None
            &&& s.config@ == config::config_settings(sip.options)
            &&& (s.listen@, s.upstream@) == sip003::endpoints_of(sip, configured_mode(sip.options))
        };
    config::law_mode_comes_first(sip.options);
    sip003::law_modes(sip.options);
    reveal_strlit(":");
    assert(":"@ =~= seq![':']);
}

/// A configuration that is reported as faulty is the one in the variables.
pub proof fn law_reported_faults_are_there(
    env: Map<Seq<char>, Seq<char>>,
    f: config::ConfigFault,
    m: config::Options,
)
    requires
        options_are_faulty(env, f),
        sip003::options_in_env(env) == Ok::<_, sip003::OptionsFault>(m),
    ensures
        config::config_fault(m) == Some(f),
{
}

} // verus!
