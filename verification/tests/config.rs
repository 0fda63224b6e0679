//! The configuration that option strings make.

use std::path::PathBuf;

use ech_tls_tunnel::config::{
    ClientCfg, ClientEch, ClientTrust, Config, ServerCfg, ServerTls, DEFAULT_SERVER_NAME,
};
use ech_tls_tunnel::sip003::PluginOptions;


fn opts(s: &str) -> PluginOptions {
    PluginOptions::parse(s).unwrap()
}

fn server_cfg(s: &str) -> ServerCfg {
    match Config::from_options(&opts(s)).unwrap() {
        Config::Server(s) => s,
        Config::Client(_) => panic!("expected server"),
    }
}

fn client_cfg(s: &str) -> ClientCfg {
    match Config::from_options(&opts(s)).unwrap() {
        Config::Client(c) => c,
        Config::Server(_) => panic!("expected client"),
    }
}

fn err_str(s: &str) -> String {
    Config::from_options(&opts(s)).unwrap_err().message()
}

#[test]
fn server_minimum_static_cert() {
    let c = server_cfg(
        "mode=server;domain=tunnel.example.com;path=/ws;cert=/tmp/c.pem;key=/tmp/k.pem",
    );
    assert_eq!(c.domain, "tunnel.example.com");
    assert_eq!(c.ws_path, "/ws");
    assert!(!c.fast_open);
    assert_eq!(c.server_name, "nginx/1.24.0");
    assert!(c.ech.is_none());
    match c.tls {
        ServerTls::Static {
            cert_file,
            key_file,
        } => {
            assert_eq!(PathBuf::from(cert_file), PathBuf::from("/tmp/c.pem"));
            assert_eq!(PathBuf::from(key_file), PathBuf::from("/tmp/k.pem"));
        }
        ServerTls::Acme { .. } => panic!("expected static"),
    }
}

#[test]
fn server_acme_with_defaults() {
    let c = server_cfg("mode=server;domain=tunnel.example.com;path=/ws;acme_email=a@b.c");
    match c.tls {
        ServerTls::Acme {
            email,
            staging,
            cache_dir,
        } => {
            assert_eq!(email, "a@b.c");
            assert!(!staging);
            assert_eq!(PathBuf::from(cache_dir), PathBuf::from("/var/lib/ech-tls-tunnel/acme"));
        }
        ServerTls::Static { .. } => panic!("expected acme"),
    }
}

#[test]
fn server_acme_with_overrides() {
    let c = server_cfg(
        "mode=server;domain=t.x;path=/ws;acme_email=a@b.c;\
         acme_cache=/srv/acme;acme_staging=true",
    );
    match c.tls {
        ServerTls::Acme {
            staging, cache_dir, ..
        } => {
            assert!(staging);
            assert_eq!(PathBuf::from(cache_dir), PathBuf::from("/srv/acme"));
        }
        _ => panic!(),
    }
}

#[test]
fn server_ech_pair_required_together() {
    assert!(
        err_str("mode=server;domain=t.x;path=/ws;cert=/c;key=/k;ech_public_name=front.x")
            .contains("ech_key")
    );
    assert!(
        err_str("mode=server;domain=t.x;path=/ws;cert=/c;key=/k;ech_key=/e.key")
            .contains("ech_public_name")
    );
}

#[test]
fn server_acme_cover_san_default_true() {
    let c = server_cfg(
        "mode=server;domain=t.x;path=/ws;acme_email=a@b.c;\
         ech_public_name=front.x;ech_key=/e.key",
    );
    assert!(c.acme_cover_san);
}

#[test]
fn server_acme_cover_san_opt_out() {
    let c = server_cfg(
        "mode=server;domain=t.x;path=/ws;acme_email=a@b.c;\
         ech_public_name=www.baidu.com;ech_key=/e.key;acme_cover_san=false",
    );
    assert!(!c.acme_cover_san);
}

#[test]
fn server_reject_non_ech_default_true() {
    let c = server_cfg("mode=server;domain=t.x;path=/ws;cert=/c;key=/k");
    assert!(c.reject_non_ech);
}

#[test]
fn server_reject_non_ech_opt_out() {
    let c = server_cfg("mode=server;domain=t.x;path=/ws;cert=/c;key=/k;reject_non_ech=false");
    assert!(!c.reject_non_ech);
}

#[test]
fn server_ech_both_yields_some() {
    let c = server_cfg(
        "mode=server;domain=t.x;path=/ws;cert=/c;key=/k;\
         ech_public_name=front.x;ech_key=/e.key",
    );
    let ech = c.ech.expect("ech expected");
    assert_eq!(ech.public_name, "front.x");
    assert_eq!(PathBuf::from(ech.key_file), PathBuf::from("/e.key"));
}

#[test]
fn server_static_and_acme_are_exclusive() {
    let err = err_str("mode=server;domain=t.x;path=/ws;cert=/c;key=/k;acme_email=a@b.c");
    assert!(err.contains("mutually exclusive"));
}

#[test]
fn server_missing_cert_or_acme_email_errors() {
    let err = err_str("mode=server;domain=t.x;path=/ws");
    assert!(err.contains("cert") || err.contains("acme_email"));
}

#[test]
fn server_path_must_start_with_slash() {
    let err = err_str("mode=server;domain=t.x;path=ws;cert=/c;key=/k");
    assert!(err.contains("path") && err.contains('/'));
}

#[test]
fn server_custom_server_name_and_fast_open() {
    let c = server_cfg(
        "mode=server;domain=t.x;path=/ws;cert=/c;key=/k;\
         server_name=Apache/2.4;fast_open=yes",
    );
    assert_eq!(c.server_name, "Apache/2.4");
    assert!(c.fast_open);
}

#[test]
fn client_minimum() {
    let c = client_cfg("mode=client;sni=tunnel.example.com;path=/ws");
    assert_eq!(c.sni, "tunnel.example.com");
    assert_eq!(c.ws_path, "/ws");
    assert!(c.ech.is_none());
    assert!(matches!(c.trust, ClientTrust::SystemRoots));
}

#[test]
fn client_ech_inline() {
    let c = client_cfg("mode=client;sni=t.x;path=/ws;ech_config=AAAAAA");
    match c.ech.unwrap() {
        ClientEch::Inline(b64) => assert_eq!(b64, "AAAAAA"),
        ClientEch::File(_) => panic!("expected inline"),
    }
}

#[test]
fn client_ech_file() {
    let c = client_cfg("mode=client;sni=t.x;path=/ws;ech_config_file=/e.bin");
    match c.ech.unwrap() {
        ClientEch::File(p) => assert_eq!(PathBuf::from(p), PathBuf::from("/e.bin")),
        ClientEch::Inline(_) => panic!("expected file"),
    }
}

#[test]
fn client_ech_inline_and_file_exclusive() {
    let err = err_str("mode=client;sni=t.x;path=/ws;ech_config=AAAA;ech_config_file=/e.bin");
    assert!(err.contains("mutually exclusive"));
}

#[test]
fn client_trust_ca_file() {
    let c = client_cfg("mode=client;sni=t.x;path=/ws;ca_file=/etc/ca.pem");
    assert!(
        matches!(c.trust, ClientTrust::CaFile(ref p) if PathBuf::from(p) == PathBuf::from("/etc/ca.pem"))
    );
}

#[test]
fn client_trust_insecure() {
    let c = client_cfg("mode=client;sni=t.x;path=/ws;insecure=true");
    assert!(matches!(c.trust, ClientTrust::InsecureSkipVerify));
}

#[test]
fn client_trust_ca_and_insecure_exclusive() {
    let err = err_str("mode=client;sni=t.x;path=/ws;ca_file=/etc/ca.pem;insecure=true");
    assert!(err.contains("mutually exclusive"));
}

#[test]
fn parse_bool_rejects_garbage() {
    let err = err_str("mode=server;domain=t.x;path=/ws;cert=/c;key=/k;fast_open=maybe");
    assert!(err.contains("boolean"));
}

#[test]
fn client_fingerprint_recognized_names() {
    for fp in [
        "chrome",
        "Chrome",
        "firefox",
        "safari",
        "ios",
        "android",
        "edge",
        "random",
        "chrome120",
    ] {
        let c = client_cfg(&format!("mode=client;sni=t.x;path=/ws;fingerprint={fp}"));
        assert_eq!(c.fingerprint, Some(fp.to_ascii_lowercase()));
    }
}

#[test]
fn client_fingerprint_default_is_none() {
    let c = client_cfg("mode=client;sni=t.x;path=/ws");
    assert!(c.fingerprint.is_none());
}

#[test]
fn client_fingerprint_unknown_errors() {
    let err = err_str("mode=client;sni=t.x;path=/ws;fingerprint=netscape");
    assert!(
        err.contains("unknown fingerprint"),
        "expected unknown fingerprint error, got: {err}"
    );
}

#[test]
fn every_fault_has_its_message() {
    let client = "mode=client;sni=t.x;path=/ws";
    let server = "mode=server;domain=t.x;path=/ws";
    let cases = [
        ("path=/ws".to_string(), "plugin option `mode` is required (set via SS_PLUGIN_OPTIONS)"),
        (
            "mode=middle".to_string(),
            "plugin option `mode` must be `server` or `client`, got \"middle\"",
        ),
        ("mode=server;path=/ws".to_string(), "plugin option `domain` is required"),
        ("mode=server;domain=;path=/ws".to_string(), "plugin option `domain` is required"),
        ("mode=client;path=/ws".to_string(), "plugin option `sni` is required"),
        ("mode=client;sni=t.x".to_string(), "plugin option `path` is required"),
        (
            "mode=client;sni=t.x;path=ws".to_string(),
            "plugin option `path` must start with `/`: \"ws\"",
        ),
        (
            format!("{client};fast_open=maybe"),
            "plugin option `fast_open` must be a boolean, got \"maybe\"",
        ),
        (
            format!("{server};cert=/c;key=/k;acme_email=a@b.c"),
            "static cert (`cert`/`key`) and `acme_email` are mutually exclusive",
        ),
        (format!("{server};cert=/c"), "plugin option `key` must accompany `cert`"),
        (format!("{server};key=/k"), "plugin option `cert` must accompany `key`"),
        (
            server.to_string(),
            "must provide either `cert`+`key` or `acme_email` for the server cert",
        ),
        (
            format!("{server};acme_email=a@b.c;acme_staging=2"),
            "plugin option `acme_staging` must be a boolean, got \"2\"",
        ),
        (
            format!("{server};cert=/c;key=/k;ech_public_name=f.x"),
            "`ech_public_name` requires `ech_key`",
        ),
        (
            format!("{server};cert=/c;key=/k;ech_key=/e"),
            "`ech_key` requires `ech_public_name`",
        ),
        (
            format!("{client};ech_config=AAAA;ech_config_file=/e"),
            "`ech_config` and `ech_config_file` are mutually exclusive",
        ),
        (
            format!("{client};ca_file=/ca;insecure=on"),
            "`ca_file` and `insecure=true` are mutually exclusive",
        ),
        (
            format!("{client};fingerprint= Netscape"),
            "unknown fingerprint \" Netscape\"; expected one of \
             chrome|firefox|safari|ios|android|edge|random (or a versioned alias like \
             chrome120, firefox120, safari16, ios14, android11, edge85)",
        ),
    ];
    for (options, message) in cases {
        assert_eq!(err_str(&options), message, "{options}");
    }
}

#[test]
fn the_first_fault_is_reported() {
    assert_eq!(
        err_str("mode=server;path=ws;fast_open=maybe;cert=/c;ech_key=/e"),
        "plugin option `domain` is required"
    );
    assert_eq!(
        err_str("mode=server;domain=t.x;path=ws;fast_open=maybe;cert=/c;ech_key=/e"),
        "plugin option `path` must start with `/`: \"ws\""
    );
    assert_eq!(
        err_str("mode=server;domain=t.x;path=/ws;fast_open=no;cert=/c;ech_key=/e"),
        "plugin option `key` must accompany `cert`"
    );
}

#[test]
fn booleans_have_four_words_each() {
    for yes in ["true", "1", "yes", "on"] {
        let c = client_cfg(&format!("mode=client;sni=t.x;path=/ws;fast_open={yes}"));
        assert!(c.fast_open);
    }
    for no in ["false", "0", "no", "off", ""] {
        let c = client_cfg(&format!("mode=client;sni=t.x;path=/ws;fast_open={no}"));
        assert!(!c.fast_open);
        let s = server_cfg(&format!(
            "mode=server;domain=t.x;path=/ws;cert=/c;key=/k;reject_non_ech={no};acme_cover_san={no}"
        ));
        assert!(!s.reject_non_ech);
        assert!(!s.acme_cover_san);
    }
    assert!(err_str("mode=client;sni=t.x;path=/ws;fast_open=True").contains("boolean"));
}

#[test]
fn unread_keys_do_not_matter() {
    let c = client_cfg("mode=client;sni=t.x;path=/ws;domain=;cert=/c;color=blue;reject_non_ech=x");
    assert_eq!(c.sni, "t.x");
    assert_eq!(c.ws_path, "/ws");
}

#[test]
fn blank_fingerprint_is_none() {
    let c = client_cfg("mode=client;sni=t.x;path=/ws;fingerprint=  ");
    assert!(c.fingerprint.is_none());
    let c = client_cfg("mode=client;sni=t.x;path=/ws;fingerprint= EDGE85 ");
    assert_eq!(c.fingerprint, Some("edge85".to_string()));
}

#[test]
fn defaults_are_as_documented() {
    let s = server_cfg("mode=server;domain=t.x;path=/ws;cert=/c;key=/k");
    assert_eq!(s.server_name, DEFAULT_SERVER_NAME);
    assert!(s.acme_cover_san);
    assert!(matches!(ClientTrust::default(), ClientTrust::SystemRoots));
}
