//! What the server does with connections and requests.

use ech_tls_tunnel::acme::CertMaterial;
use ech_tls_tunnel::config::{ServerCfg, ServerEch, ServerTls};
use ech_tls_tunnel::server::{
    certificate_domains, certificate_plan, gate, handle_request, is_last_look, is_tunnel_request,
    is_ws_upgrade, upgrade_response, CertPlan, Gate, Reply, RequestHead,
};
use ech_tls_tunnel::sip003::PluginOptions;
use ech_tls_tunnel::tls_server::static_files;

fn cfg() -> ServerCfg {
    ServerCfg {
        domain: "tunnel.local".into(),
        ws_path: "/ws-secret".into(),
        fast_open: false,
        tls: ServerTls::Static { cert_file: "/c".into(), key_file: "/k".into() },
        ech: None,
        acme_cover_san: true,
        reject_non_ech: true,
        server_name: "nginx/1.24.0".into(),
    }
}

fn with_ech(name: &str) -> ServerCfg {
    let mut c = cfg();
    c.ech = Some(ServerEch { public_name: name.into(), key_file: "/e".into() });
    c
}

fn head() -> RequestHead {
    RequestHead {
        method: "GET".into(),
        path: "/ws-secret".into(),
        upgrade: Some(b"websocket".to_vec()),
        connection: Some(b"Upgrade".to_vec()),
        sec_websocket_key: Some(b"dGhlIHNhbXBsZSBub25jZQ==".to_vec()),
    }
}

fn is_404(r: &Reply) -> bool {
    match r {
        Reply::Page(resp) => {
            resp.status == 404 && resp.headers[0] == ("Server", "nginx/1.24.0".to_string())
        }
        Reply::Tunnel(_) => false,
    }
}

#[test]
fn unmatched_path_serves_fake_404() {
    let mut h = head();
    h.path = "/".into();
    h.upgrade = None;
    h.connection = None;
    h.sec_websocket_key = None;
    assert!(is_404(&handle_request(&h, &cfg())));
}

#[test]
fn matching_request_opens_a_tunnel() {
    match handle_request(&head(), &cfg()) {
        Reply::Tunnel(resp) => {
            assert_eq!(resp.status, 101);
            assert_eq!(
                resp.headers,
                [
                    ("upgrade", "websocket".to_string()),
                    ("connection", "Upgrade".to_string()),
                    ("sec-websocket-accept", "s3pPLMBiTxaQ9kYGzzhZRbK+xOo=".to_string()),
                ]
            );
            assert_eq!(resp.body, "");
        }
        Reply::Page(_) => panic!("expected a tunnel"),
    }
}

#[test]
fn every_other_request_gets_the_same_page() {
    let mut requests = Vec::new();
    for change in 0..7 {
        let mut h = head();
        match change {
            0 => h.method = "POST".into(),
            1 => h.method = "get".into(),
            2 => h.path = "/ws-secret/".into(),
            3 => h.upgrade = None,
            4 => h.connection = Some(b"keep-alive".to_vec()),
            5 => h.upgrade = Some(b"websocket\xff".to_vec()),
            _ => h.sec_websocket_key = None,
        }
        requests.push(h);
    }
    let mut pages = Vec::new();
    for h in &requests {
        let r = handle_request(h, &cfg());
        assert!(is_404(&r), "{h:?}");
        assert!(!is_tunnel_request(h, "/ws-secret"));
        pages.push(format!("{r:?}"));
    }
    assert!(pages.iter().all(|p| p == &pages[0]));
}

#[test]
fn upgrade_headers_are_read_leniently() {
    for (upgrade, connection, expected) in [
        (&b"WebSocket"[..], &b"keep-alive, Upgrade"[..], true),
        (b"WEBSOCKET", b"\tUPGRADE ,x", true),
        (b"websocket", b"", false),
        (b"websocket", b"upgrades", false),
        (b"websocket", b"up grade", false),
        (b" websocket", b"upgrade", false),
        (b"websocket, h2c", b"upgrade", false),
        (b"websocket", b"upgrade\x00", false),
        (b"websocket", b",,upgrade", true),
    ] {
        let mut h = head();
        h.upgrade = Some(upgrade.to_vec());
        h.connection = Some(connection.to_vec());
        assert_eq!(is_ws_upgrade(&h), expected, "{h:?}");
    }
}

#[test]
fn upgrade_response_carries_the_answer() {
    let resp = upgrade_response("abc".to_string());
    assert_eq!(resp.status, 101);
    assert_eq!(resp.headers[2], ("sec-websocket-accept", "abc".to_string()));
}

fn hello(ext: u16) -> Vec<u8> {
    let mut body = vec![0x03, 0x03];
    body.extend_from_slice(&[0u8; 32]);
    body.push(0);
    body.extend_from_slice(&[0, 2, 0x13, 1, 1, 0, 0, 4]);
    body.extend_from_slice(&ext.to_be_bytes());
    body.extend_from_slice(&[0, 0]);
    let n = body.len() as u8;
    let mut record = vec![0x16, 3, 1, 0, n + 4, 1, 0, 0, n];
    record.extend_from_slice(&body);
    record
}

#[test]
fn probes_are_reset_while_ech_is_on() {
    let guarded = with_ech("front.x");
    assert_eq!(gate(&guarded, &hello(0xfe0d), false), Gate::Admit);
    assert_eq!(gate(&guarded, &hello(0x002b), false), Gate::Reset);
    assert_eq!(gate(&guarded, b"GET / HTTP/1.1", false), Gate::Reset);
    assert_eq!(gate(&guarded, &hello(0xfe0d)[..20], false), Gate::ReadMore);
    assert_eq!(gate(&guarded, &hello(0xfe0d)[..20], true), Gate::Reset);
    assert_eq!(gate(&guarded, b"", true), Gate::Reset);
}

#[test]
fn gate_decisions_are_final() {
    let guarded = with_ech("front.x");
    for (first, more) in [(hello(0xfe0d), &b"junk"[..]), (hello(1), b""), (vec![0x17], b"\x16")] {
        let decision = gate(&guarded, &first, false);
        assert_ne!(decision, Gate::ReadMore);
        let mut all = first.clone();
        all.extend_from_slice(more);
        assert_eq!(gate(&guarded, &all, true), decision);
    }
}

#[test]
fn everybody_is_admitted_otherwise() {
    let mut unguarded = with_ech("front.x");
    unguarded.reject_non_ech = false;
    for c in [cfg(), unguarded] {
        for bytes in [&b""[..], b"GET /", &hello(0x002b)] {
            assert_eq!(gate(&c, bytes, false), Gate::Admit);
        }
    }
}

#[test]
fn certificate_covers_the_public_name_unless_told_not_to() {
    assert_eq!(certificate_domains(&cfg()), ["tunnel.local"]);
    assert_eq!(certificate_domains(&with_ech("front.x")), ["tunnel.local", "front.x"]);
    assert_eq!(certificate_domains(&with_ech("tunnel.local")), ["tunnel.local"]);
    assert_eq!(certificate_domains(&with_ech("")), ["tunnel.local"]);
    let mut c = with_ech("www.baidu.com");
    c.acme_cover_san = false;
    assert_eq!(certificate_domains(&c), ["tunnel.local"]);
}

#[test]
fn certificate_comes_from_disk_cache_or_an_order() {
    let cached = || Some(CertMaterial { cert_pem: "C".into(), key_pem: "K".into() });
    match certificate_plan(&cfg(), cached()) {
        CertPlan::LoadFiles { cert_file, key_file } => {
            assert_eq!((cert_file.as_str(), key_file.as_str()), ("/c", "/k"));
        }
        other => panic!("{other:?}"),
    }
    let mut c = with_ech("front.x");
    c.tls = ServerTls::Acme { email: "a@b.c".into(), staging: true, cache_dir: "/d".into() };
    match certificate_plan(&c, cached()) {
        CertPlan::UseCached(m) => assert_eq!((m.cert_pem, m.key_pem), ("C".into(), "K".into())),
        other => panic!("{other:?}"),
    }
    match certificate_plan(&c, None) {
        CertPlan::Order { domains, email, staging, cache_dir } => {
            assert_eq!(domains, ["tunnel.local", "front.x"]);
            assert_eq!((email.as_str(), staging, cache_dir.as_str()), ("a@b.c", true, "/d"));
        }
        other => panic!("{other:?}"),
    }
}

#[test]
fn build_static_rejects_acme_config() {
    let cfg = ServerCfg {
        domain: "tunnel.local".into(),
        ws_path: "/ws".into(),
        fast_open: false,
        tls: ServerTls::Acme {
            email: "x@example.com".into(),
            staging: true,
            cache_dir: "/tmp".into(),
        },
        ech: None,
        acme_cover_san: true,
        reject_non_ech: true,
        server_name: "nginx/1.24.0".into(),
    };
    let err = static_files(&cfg).unwrap_err();
    assert!(err.message().contains("ACME"));
    assert_eq!(err.message(), "build_static called with tls=acme; use the ACME path");
}

#[test]
fn servers_with_ech_are_guarded_by_default() {
    let base = "mode=server;domain=t.x;path=/ws;cert=/c;key=/k;ech_public_name=f.x;ech_key=/e";
    for (more, expected) in [
        ("", Gate::Reset),
        (";reject_non_ech=true", Gate::Reset),
        (";reject_non_ech=false", Gate::Admit),
    ] {
        let options = PluginOptions::parse(&format!("{base}{more}")).unwrap();
        let c = ServerCfg::from_options(&options).unwrap();
        let probe = hello(0x002b);
        assert_eq!(gate(&c, &probe, false), expected);
        if expected == Gate::Reset {
            for n in 0..probe.len() {
                assert_eq!(gate(&c, &probe[..n], false), Gate::ReadMore);
            }
        }
    }
}

#[test]
fn tunnels_need_no_server_name() {
    let mut c = cfg();
    c.server_name = "a\nb".into();
    assert!(is_tunnel_request(&head(), &c.ws_path));
    assert!(matches!(handle_request(&head(), &c), Reply::Tunnel(_)));
}

#[test]
fn last_look_is_at_the_end_or_when_late() {
    assert!(is_last_look(0, 100, false));
    assert!(is_last_look(100, 100, false));
    assert!(is_last_look(50, 100, true));
    assert!(!is_last_look(50, 100, false));
}
