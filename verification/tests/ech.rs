//! ECH keys, their files, and the ECHConfigList.

use base64::engine::general_purpose::STANDARD;
use base64::Engine;
use ech_tls_tunnel::ech::{
    decode_config_list_b64, encode_config_list_b64, keygen_report, EchServerKey,
};
use ech_tls_tunnel::sip003::PluginOptions;

const KEY: [u8; 32] = [7; 32];

/// Stands for what the TLS stack marshals.
fn marshal(key: &EchServerKey) -> Vec<u8> {
    let input = key.marshal_input().unwrap();
    let mut out = vec![0xfe, 0x0d, input.config_id];
    out.extend_from_slice(&input.private_key);
    out.extend_from_slice(&input.public_name);
    EchServerKey::marshal_config(1, Some(out)).unwrap()
}

#[test]
fn generate_then_marshal_then_load_round_trip() {
    let key = EchServerKey::generate("front.example.com", &KEY).ok().unwrap();
    let cfg = marshal(&key);
    assert!(!cfg.is_empty());

    let list = EchServerKey::marshal_config_list(&cfg).unwrap();
    assert_eq!(list.len(), 2 + cfg.len());
    assert_eq!(
        u16::from_be_bytes([list[0], list[1]]) as usize,
        cfg.len(),
        "u16 length prefix should equal ECHConfig length"
    );
    assert_eq!(&list[2..], &cfg[..]);
}

#[test]
fn write_then_read_round_trip() {
    let key = EchServerKey::generate("front.example.com", &KEY).ok().unwrap();
    let mut file = Vec::new();
    key.write_to(&mut file).unwrap();
    let loaded = EchServerKey::read_from(&file).ok().unwrap();
    assert_eq!(loaded.config_id(), key.config_id());
    assert_eq!(loaded.public_name(), key.public_name());
    // Marshaling from the loaded key gives the same bytes as from the first.
    let a = marshal(&key);
    let b = marshal(&loaded);
    assert_eq!(a, b);
}

#[test]
fn empty_public_name_rejected() {
    assert!(EchServerKey::generate("", &KEY).is_err());
}

#[test]
fn read_short_file_errors() {
    assert!(EchServerKey::read_from(b"x").is_err());
}

#[test]
fn b64_round_trip() {
    let key = EchServerKey::generate("front.example.com", &KEY).ok().unwrap();
    let list = EchServerKey::marshal_config_list(&marshal(&key)).unwrap();
    let b64 = encode_config_list_b64(&list);
    let decoded = decode_config_list_b64(&b64).unwrap();
    assert_eq!(decoded, list);
}

#[test]
fn key_file_has_its_layout() {
    let key = EchServerKey::with_config_id(0xab, "f.x", &KEY).ok().unwrap();
    let mut file = vec![0xff];
    key.write_to(&mut file).unwrap();
    let mut expected = vec![0xff, 0xab, 0, 3, b'f', b'.', b'x'];
    expected.extend_from_slice(&KEY);
    assert_eq!(file, expected);
    let again = EchServerKey::read_from(&file[1..]).ok().unwrap();
    assert_eq!(again.config_id(), 0xab);
    assert_eq!(again.public_name(), "f.x");
    let copy = again.clone();
    let mut second = Vec::new();
    copy.write_to(&mut second).unwrap();
    assert_eq!(second, &file[1..]);
}

#[test]
fn ech_faults_have_their_messages() {
    let message = |file: &[u8]| EchServerKey::read_from(file).err().unwrap().message();
    assert_eq!(message(b"ab"), "ECH key file too short (got 2 bytes)");
    assert_eq!(
        message(&[1, 0, 2, 3]),
        "ECH key file length mismatch: got 4 bytes, expected 37 (nlen=2)"
    );
    let mut file = vec![1, 0, 1, 0xff];
    file.extend_from_slice(&KEY);
    assert_eq!(
        message(&file),
        "public_name not valid UTF-8: invalid utf-8 sequence of 1 bytes from index 0"
    );

    let refused = |name: &str, key: &[u8]| EchServerKey::generate(name, key).err().unwrap().message();
    assert_eq!(refused("", &[]), "ECH public_name must be non-empty");
    assert_eq!(refused("f.x", &[0; 31]), "unexpected HPKE private key length: 31");

    let key = EchServerKey::generate("a\0b", &KEY).ok().unwrap();
    assert_eq!(
        key.marshal_input().err().unwrap().message(),
        "public_name has NUL byte: nul byte found in provided data at position: 1"
    );
    let out_of_range = u16::try_from(65536usize).unwrap_err();
    let long = "x".repeat(65536);
    let key = EchServerKey::generate(&long, &KEY).ok().unwrap();
    let mut out = vec![1, 2];
    assert_eq!(
        key.write_to(&mut out).unwrap_err().message(),
        format!("public_name too long: {out_of_range}")
    );
    assert_eq!(out, [1, 2]);

    for (rc, out) in [(0, Some(vec![1])), (1, None), (-1, None)] {
        let err = EchServerKey::marshal_config(rc, out).unwrap_err();
        assert_eq!(err.message(), "SSL_marshal_ech_config failed");
    }
    assert_eq!(
        EchServerKey::marshal_config_list(&[0; 65536]).unwrap_err().message(),
        format!("ECHConfig too large for u16 length prefix: {out_of_range}")
    );
    assert_eq!(EchServerKey::marshal_config_list(&[0; 65535]).unwrap().len(), 65537);
    assert_eq!(
        decode_config_list_b64("AAA").unwrap_err().message(),
        "decode ECHConfigList base64: Invalid padding"
    );
    assert_eq!(
        decode_config_list_b64(" A?== ").unwrap_err().message(),
        "decode ECHConfigList base64: Invalid symbol 63, offset 1."
    );
}

#[test]
fn longest_name_round_trips() {
    let name = "é".repeat(32767);
    let key = EchServerKey::with_config_id(9, &name, &KEY).ok().unwrap();
    let mut file = Vec::new();
    key.write_to(&mut file).unwrap();
    assert_eq!(EchServerKey::read_from(&file).ok().unwrap().public_name(), name);
}

#[test]
fn base64_is_the_standard_one() {
    for (bytes, text) in [
        (&b""[..], ""),
        (b"f", "Zg=="),
        (b"fo", "Zm8="),
        (b"foo", "Zm9v"),
        (b"foob", "Zm9vYg=="),
        (&[0xff, 0xef, 0xbe], "/+++"),
    ] {
        assert_eq!(encode_config_list_b64(bytes), text);
        assert_eq!(encode_config_list_b64(bytes), STANDARD.encode(bytes));
        assert_eq!(decode_config_list_b64(text).unwrap(), bytes);
    }
}

#[test]
fn only_canonical_base64_is_read() {
    for text in ["Zg", "Zg=", "Zh==", "Zm9=", "=", "====", "Zm9v=", "Z m9v", "Zm9v\nZm9v", "Zé=="] {
        assert!(decode_config_list_b64(text).is_err(), "{text:?}");
    }
}

#[test]
fn space_around_the_text_is_ignored() {
    assert_eq!(decode_config_list_b64(" \t\nZm9v\r\n\u{2003}").unwrap(), b"foo");
    assert_eq!(decode_config_list_b64("   ").unwrap(), b"");
}

#[test]
fn printed_option_can_be_pasted_for_every_length() {
    let bytes: Vec<u8> = (0..40).map(|i| 251u8.wrapping_mul(i)).collect();
    for n in 0..bytes.len() {
        let list = EchServerKey::marshal_config_list(&bytes[..n]).unwrap();
        let b64 = encode_config_list_b64(&list);
        let report = keygen_report("f.x", "/o/ech.key", "/o/ech.config_list", &b64);
        let line = report.lines().last().unwrap().trim();
        let options = format!("mode=client;sni=t.x;path=/ws;{line}");
        let opts = PluginOptions::parse(&options).unwrap();
        assert_eq!(opts.get("ech_config"), Some(b64.as_str()));
        assert_eq!(opts.len(), 4);
        assert_eq!(decode_config_list_b64(opts.get("ech_config").unwrap()).unwrap(), list);
        assert_eq!(PluginOptions::parse(line).unwrap().get("ech_config"), Some(b64.as_str()));
    }
}

#[test]
fn padding_is_escaped_in_the_client_option() {
    let report = keygen_report("f.x", "/k", "/l", "Zm9vYg==");
    assert!(report.contains("ECHConfigList (base64):\nZm9vYg==\n"));
    assert!(report.ends_with("\n    ech_config=Zm9vYg\\=\\=\n"));
}

#[test]
fn report_names_files_and_options() {
    assert_eq!(
        keygen_report("f.x", "/o/ech.key", "/o/ech.config_list", "Zm9v"),
        "Wrote /o/ech.key\n\
         Wrote /o/ech.config_list\n\
         \n\
         ECHConfigList (base64):\n\
         Zm9v\n\
         \n\
         Server plugin options:\n    ech_public_name=f.x;ech_key=/o/ech.key\n\
         Client plugin options:\n    ech_config=Zm9v\n"
    );
}

#[test]
fn report_can_be_pasted() {
    let report = keygen_report("f.x", "/o/ech.key", "/o/ech.config_list", "Zm9v");
    let options: Vec<_> = report.lines().filter_map(|l| l.strip_prefix("    ")).collect();
    let server = PluginOptions::parse(options[0]).unwrap();
    assert_eq!(server.get("ech_public_name"), Some("f.x"));
    assert_eq!(server.get("ech_key"), Some("/o/ech.key"));
    assert_eq!(server.len(), 2);
    let client = PluginOptions::parse(options[1]).unwrap();
    assert_eq!(client.get("ech_config"), Some("Zm9v"));
}

#[test]
fn key_is_logged_without_its_secret() {
    let key = EchServerKey::with_config_id(171, "f\"x", &KEY).ok().unwrap();
    assert_eq!(
        key.redacted(),
        "EchServerKey { config_id: 171, public_name: \"f\\\"x\", private_key: \"<32 bytes>\" }"
    );
    assert_eq!(key.marshal_input().ok().unwrap().private_key.len(), 32);
}
