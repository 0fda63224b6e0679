//! Protocol lists, protocol selection, and the setup of the TLS client.

use ech_tls_tunnel::challenge::ChallengeStore;
use ech_tls_tunnel::client::tunnel_url;
use ech_tls_tunnel::config::{ClientCfg, ClientEch, ClientTrust, ServerCfg, ServerEch, ServerTls};
use ech_tls_tunnel::ech::EchServerKey;
use ech_tls_tunnel::fingerprint::{CHROME, SAFARI};
use ech_tls_tunnel::tls_client::{client_plan, trust_plan, EchSource, Roots};
use ech_tls_tunnel::tls_server::{
    acme_alpn_wire, alpn_wire, ech_key, http_alpn_wire, select_alpn, static_files, AlpnChoice,
    AlpnIter,
};

fn entries(list: &[u8]) -> Vec<Vec<u8>> {
    let mut it = AlpnIter::new(list);
    let mut out = Vec::new();
    while let Some(p) = it.next() {
        out.push(p.to_vec());
    }
    out
}

#[test]
fn alpn_lists_have_their_form() {
    assert_eq!(http_alpn_wire(), b"\x02h2\x08http/1.1");
    assert_eq!(acme_alpn_wire(), b"\x0aacme-tls/1");
    assert_eq!(alpn_wire(&[]), b"");
    let long = [b'x'; 300];
    assert_eq!(alpn_wire(&[&long])[0], 44);
}

#[test]
fn alpn_lists_round_trip() {
    let long = [b'x'; 255];
    let protos: [&[u8]; 3] = [b"h2", &long, b"a"];
    assert_eq!(entries(&alpn_wire(&protos)), protos);
}

#[test]
fn alpn_walk_stops_at_what_is_no_entry() {
    assert_eq!(entries(b""), Vec::<Vec<u8>>::new());
    assert_eq!(entries(b"\x02h2\x00\x01x"), [b"h2"]);
    assert_eq!(entries(b"\x02h2\x03x"), [b"h2"]);
}

#[test]
fn ordinary_clients_get_http() {
    let mut store = ChallengeStore::new();
    store.install("t.x", ());
    for (offer, choice) in [
        (&[&b"h2"[..], b"http/1.1"][..], AlpnChoice::H2),
        (&[b"http/1.1", b"h2"], AlpnChoice::H2),
        (&[b"http/1.1"], AlpnChoice::Http11),
        (&[b"spdy/1"], AlpnChoice::NoAck),
        (&[], AlpnChoice::NoAck),
    ] {
        assert_eq!(select_alpn(&alpn_wire(offer), Some("t.x"), &store), choice);
    }
    assert_eq!(AlpnChoice::H2.protocol(), Some("h2"));
    assert_eq!(AlpnChoice::Http11.protocol(), Some("http/1.1"));
    assert_eq!(AlpnChoice::NoAck.protocol(), None);
}

#[test]
fn validators_get_the_challenge_while_there_is_one() {
    let mut store = ChallengeStore::new();
    store.install("t.x", ());
    let offer = alpn_wire(&[b"acme-tls/1", b"http/1.1", b"h2"]);
    assert_eq!(select_alpn(&offer, Some("t.x"), &store), AlpnChoice::Challenge);
    assert_eq!(select_alpn(&offer, Some("other.x"), &store), AlpnChoice::H2);
    assert_eq!(select_alpn(&offer, None, &store), AlpnChoice::H2);
    let alone = alpn_wire(&[b"acme-tls/1"]);
    assert_eq!(select_alpn(&alone, Some("t.x"), &store), AlpnChoice::Challenge);
    store.remove("t.x");
    assert_eq!(select_alpn(&offer, Some("t.x"), &store), AlpnChoice::H2);
    assert_eq!(select_alpn(&alone, Some("t.x"), &store), AlpnChoice::NoAck);
    let old = alpn_wire(&[b"http/1.1", b"acme-tls/1"]);
    assert_eq!(select_alpn(&old, Some("t.x"), &store), AlpnChoice::Http11);
}

#[test]
fn failed_context_switch_is_fatal() {
    assert_eq!(AlpnChoice::Challenge.protocol(), Some("acme-tls/1"));
    assert_eq!(AlpnChoice::Challenge.after_context_switch(true), AlpnChoice::Challenge);
    assert_eq!(AlpnChoice::Challenge.after_context_switch(false), AlpnChoice::Fatal);
    assert_eq!(AlpnChoice::Fatal.protocol(), None);
    assert_eq!(AlpnChoice::H2.after_context_switch(false), AlpnChoice::H2);
}

#[test]
fn static_files_are_those_configured() {
    let cfg = ServerCfg {
        domain: "t.x".into(),
        ws_path: "/ws".into(),
        fast_open: false,
        tls: ServerTls::Static { cert_file: "/c".into(), key_file: "/k".into() },
        ech: None,
        acme_cover_san: true,
        reject_non_ech: true,
        server_name: "x".into(),
    };
    assert_eq!(static_files(&cfg).unwrap(), ("/c", "/k"));
}

#[test]
fn ech_key_is_used_under_another_name_too() {
    let key = EchServerKey::with_config_id(4, "front.x", &[1; 32]).ok().unwrap();
    let mut file = Vec::new();
    key.write_to(&mut file).unwrap();
    for (name, same) in [("front.x", true), ("other.x", false)] {
        let cfg = ServerEch { public_name: name.into(), key_file: "/e".into() };
        let (loaded, matches) = ech_key(&cfg, &file).ok().unwrap();
        assert_eq!(loaded.public_name(), "front.x");
        assert_eq!(matches, same);
        assert!(ech_key(&cfg, &file[1..]).is_err());
    }
}

fn client(fingerprint: Option<&str>, ech: Option<ClientEch>) -> ClientCfg {
    ClientCfg {
        sni: "tunnel.local".into(),
        ws_path: "/ws".into(),
        fast_open: false,
        ech,
        trust: ClientTrust::SystemRoots,
        fingerprint: fingerprint.map(str::to_string),
    }
}

#[test]
fn client_plan_follows_the_configuration() {
    let plan = client_plan(&client(None, None)).unwrap();
    assert_eq!(plan.alpn, b"\x02h2\x08http/1.1");
    assert!(plan.fingerprint.is_none());
    assert!(matches!(plan.ech, EchSource::Off));

    let inline = ClientEch::Inline(" Zm9v ".into());
    let plan = client_plan(&client(Some("safari16"), Some(inline))).unwrap();
    assert_eq!(plan.fingerprint.unwrap().cipher_list, SAFARI.params().cipher_list);
    assert!(matches!(plan.ech, EchSource::List(ref l) if l == b"foo"));

    let plan = client_plan(&client(Some("random"), Some(ClientEch::File("/l".into())))).unwrap();
    assert!(plan.fingerprint.is_some());
    assert!(matches!(plan.ech, EchSource::File(ref p) if p == "/l"));
    assert_ne!(CHROME.params().cipher_list, SAFARI.params().cipher_list);
}

#[test]
fn client_plan_faults_have_their_messages() {
    let bad = Some(ClientEch::Inline("?".into()));
    assert_eq!(
        client_plan(&client(Some("netscape"), bad.clone())).unwrap_err().message(),
        "unknown fingerprint \"netscape\" (config validation should have caught this)"
    );
    assert_eq!(
        client_plan(&client(None, bad)).unwrap_err().message(),
        "decode ECHConfigList base64: Invalid symbol 63, offset 0."
    );
}

#[test]
fn trust_plan_follows_the_configuration() {
    let plan = |trust: ClientTrust| {
        let mut cfg = client(None, None);
        cfg.trust = trust;
        trust_plan(&cfg)
    };
    let t = plan(ClientTrust::SystemRoots);
    assert!(t.verify && matches!(t.roots, Roots::Platform));
    let t = plan(ClientTrust::CaFile("/ca.pem".into()));
    assert!(t.verify && matches!(t.roots, Roots::File(ref p) if p == "/ca.pem"));
    let t = plan(ClientTrust::InsecureSkipVerify);
    assert!(!t.verify && matches!(t.roots, Roots::Unused));
}

#[test]
fn tunnel_url_is_built_from_host_and_path() {
    assert_eq!(tunnel_url(&client(None, None)), "wss://tunnel.local/ws");
}
