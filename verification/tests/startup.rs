//! From variables to a plugin, and how its sockets are set up.

use ech_tls_tunnel::config::Config;
use ech_tls_tunnel::namemap::NameMap;
use ech_tls_tunnel::net::{
    connect_begun, connect_plan, listen_plan, ConnectPlan, Platform, BACKLOG, TFO_QUEUE_LEN,
};
use ech_tls_tunnel::startup::startup;

fn env(options: &str) -> NameMap<String> {
    let mut m = NameMap::new();
    for (k, v) in [
        ("SS_REMOTE_HOST", "1.2.3.4"),
        ("SS_REMOTE_PORT", "443"),
        ("SS_LOCAL_HOST", "127.0.0.1"),
        ("SS_LOCAL_PORT", "9000"),
        ("SS_PLUGIN_OPTIONS", options),
    ] {
        m.insert(k.to_string(), v.to_string());
    }
    m
}

#[test]
fn server_listens_on_the_remote_address() {
    let s = startup(&env("mode=server;domain=t.x;path=/ws;cert=/c;key=/k")).unwrap();
    assert_eq!((s.listen.as_str(), s.upstream.as_str()), ("1.2.3.4:443", "127.0.0.1:9000"));
    assert!(matches!(s.config, Config::Server(ref c) if c.domain == "t.x"));
}

#[test]
fn client_listens_on_the_local_address() {
    let s = startup(&env("mode=client;sni=t.x;path=/ws")).unwrap();
    assert_eq!((s.listen.as_str(), s.upstream.as_str()), ("127.0.0.1:9000", "1.2.3.4:443"));
    assert!(matches!(s.config, Config::Client(ref c) if c.sni == "t.x"));
}

#[test]
fn addresses_are_checked_before_options() {
    let mut m = env("mode=middle");
    assert_eq!(
        startup(&m).unwrap_err().message(),
        "plugin option `mode` must be `server` or `client`, got \"middle\""
    );
    m.insert("SS_REMOTE_PORT".to_string(), "x".to_string());
    assert_eq!(
        startup(&m).unwrap_err().message(),
        "SS_REMOTE_PORT must be a u16: invalid digit found in string"
    );
    m.remove("SS_REMOTE_HOST");
    assert_eq!(
        startup(&m).unwrap_err().message(),
        "missing required env var SS_REMOTE_HOST"
    );
    assert_eq!(
        startup(&env("mode=client;path=/ws")).unwrap_err().message(),
        "plugin option `sni` is required"
    );
}

#[test]
fn listeners_use_fast_open_on_linux_only() {
    let p = listen_plan(true, true, Platform::Linux);
    assert_eq!(p.fast_open_queue, Some(TFO_QUEUE_LEN));
    assert!(p.ipv6 && p.reuse_address && !p.fast_open_ignored);
    assert_eq!(p.backlog, BACKLOG);
    let p = listen_plan(false, true, Platform::MacOs);
    assert_eq!(p.fast_open_queue, None);
    assert!(!p.ipv6 && p.fast_open_ignored);
    let p = listen_plan(false, false, Platform::Linux);
    assert_eq!(p.fast_open_queue, None);
    assert!(!p.fast_open_ignored);
    assert_eq!((TFO_QUEUE_LEN, BACKLOG), (256, 1024));
}

#[test]
fn connections_use_what_the_platform_has() {
    assert_eq!(connect_plan(false, Platform::Other), ConnectPlan::Plain);
    assert_eq!(connect_plan(true, Platform::Linux), ConnectPlan::SocketOption);
    assert_eq!(connect_plan(true, Platform::MacOs), ConnectPlan::Connectx);
    assert_eq!(connect_plan(true, Platform::Other), ConnectPlan::Unsupported);
    assert!(connect_begun(Ok(()), 115));
    assert!(connect_begun(Err(Some(115)), 115));
    assert!(!connect_begun(Err(Some(111)), 115));
    assert!(!connect_begun(Err(None), 115));
}

#[test]
fn name_map_keeps_the_last_value() {
    let mut m = NameMap::new();
    assert!(m.is_empty());
    m.insert("a".to_string(), 1);
    m.insert("b".to_string(), 2);
    m.insert("a".to_string(), 3);
    assert_eq!(m.len(), 2);
    assert_eq!(m.get("a"), Some(&3));
    assert!(m.contains_key("b") && !m.contains_key("c"));
    let mut copy = m.clone();
    copy.remove("a");
    assert_eq!(copy.get("a"), None);
    assert_eq!(copy.get("b"), Some(&2));
    assert_eq!(m.len(), 2);
}
