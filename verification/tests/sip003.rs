//! The option string and the address variables.

use ech_tls_tunnel::namemap::NameMap;
use ech_tls_tunnel::sip003::{escape, unescape, Mode, PluginOptions, SipEnv};

fn env_map(pairs: &[(&str, &str)]) -> NameMap<String> {
    let mut map = NameMap::new();
    for (k, v) in pairs {
        map.insert((*k).to_string(), (*v).to_string());
    }
    map
}

#[test]
fn parses_required_address_vars() {
    let env = env_map(&[
        ("SS_REMOTE_HOST", "0.0.0.0"),
        ("SS_REMOTE_PORT", "443"),
        ("SS_LOCAL_HOST", "127.0.0.1"),
        ("SS_LOCAL_PORT", "9000"),
        ("SS_PLUGIN_OPTIONS", "mode=server"),
    ]);
    let s = SipEnv::from_map(&env).unwrap();
    assert_eq!(s.remote_host, "0.0.0.0");
    assert_eq!(s.remote_port, 443);
    assert_eq!(s.local_host, "127.0.0.1");
    assert_eq!(s.local_port, 9000);
    assert_eq!(s.options.mode().unwrap(), Mode::Server);
}

#[test]
fn missing_required_var_errors() {
    let env = env_map(&[
        ("SS_REMOTE_HOST", "0.0.0.0"),
        ("SS_REMOTE_PORT", "443"),
        // SS_LOCAL_HOST omitted
        ("SS_LOCAL_PORT", "9000"),
    ]);
    let err = SipEnv::from_map(&env).unwrap_err();
    assert!(err.message().contains("SS_LOCAL_HOST"));
}

#[test]
fn endpoints_swap_by_mode() {
    let env = env_map(&[
        ("SS_REMOTE_HOST", "1.2.3.4"),
        ("SS_REMOTE_PORT", "443"),
        ("SS_LOCAL_HOST", "127.0.0.1"),
        ("SS_LOCAL_PORT", "9000"),
    ]);
    let s = SipEnv::from_map(&env).unwrap();
    assert_eq!(
        s.endpoints(Mode::Server),
        ("1.2.3.4:443".to_string(), "127.0.0.1:9000".to_string())
    );
    assert_eq!(
        s.endpoints(Mode::Client),
        ("127.0.0.1:9000".to_string(), "1.2.3.4:443".to_string())
    );
}

#[test]
fn plugin_options_basic() {
    let opts = PluginOptions::parse("mode=server;config=/etc/foo.yaml").unwrap();
    assert_eq!(opts.get("mode"), Some("server"));
    assert_eq!(opts.get("config"), Some("/etc/foo.yaml"));
    assert_eq!(opts.get("missing"), None);
}

#[test]
fn plugin_options_value_less_key() {
    let opts = PluginOptions::parse("mode=server;ech;debug=true").unwrap();
    assert_eq!(opts.get("ech"), Some(""));
    assert!(opts.contains_key("ech"));
    assert_eq!(opts.get("debug"), Some("true"));
}

#[test]
fn plugin_options_escapes_semicolon_and_equals() {
    let opts = PluginOptions::parse(r"path=/ws\;1;note=a\=b").unwrap();
    assert_eq!(opts.get("path"), Some("/ws;1"));
    assert_eq!(opts.get("note"), Some("a=b"));
}

#[test]
fn plugin_options_double_backslash() {
    let opts = PluginOptions::parse(r"k=a\\b").unwrap();
    assert_eq!(opts.get("k"), Some(r"a\b"));
}

#[test]
fn plugin_options_empty_string_is_empty_map() {
    let opts = PluginOptions::parse("").unwrap();
    assert!(opts.is_empty());
}

#[test]
fn plugin_options_trailing_semicolon_is_ignored() {
    let opts = PluginOptions::parse("mode=server;").unwrap();
    assert_eq!(opts.get("mode"), Some("server"));
    assert_eq!(opts.len(), 1);
}

#[test]
fn plugin_options_empty_key_errors() {
    let err = PluginOptions::parse("=value").unwrap_err();
    assert!(err.message().contains("empty key"));
}

#[test]
fn plugin_options_extra_unescaped_equals_errors() {
    let err = PluginOptions::parse("k=a=b").unwrap_err();
    assert!(err.message().contains("more than one unescaped"));
}

#[test]
fn mode_helper_rejects_unknown_value() {
    let opts = PluginOptions::parse("mode=middle").unwrap();
    let err = opts.mode().unwrap_err();
    assert!(err.message().contains("server"));
}

#[test]
fn mode_helper_requires_option() {
    let opts = PluginOptions::parse("config=/x.yaml").unwrap();
    assert!(opts.mode().is_err());
}

#[test]
fn option_faults_have_their_messages() {
    assert_eq!(
        PluginOptions::parse("a=1;=value").unwrap_err().message(),
        "empty key in plugin options: \"a=1;=value\""
    );
    assert_eq!(
        PluginOptions::parse("k=a=b").unwrap_err().message(),
        "plugin option \"k\" has more than one unescaped `=`"
    );
    assert_eq!(
        PluginOptions::parse("==").unwrap_err().message(),
        "plugin option \"\" has more than one unescaped `=`"
    );
    assert_eq!(
        PluginOptions::parse(r"\a;x=1=2;=").unwrap_err().message(),
        "plugin option \"x\" has more than one unescaped `=`"
    );
}

#[test]
fn env_faults_have_their_messages() {
    let full = [
        ("SS_REMOTE_HOST", "0.0.0.0"),
        ("SS_REMOTE_PORT", "443"),
        ("SS_LOCAL_HOST", "127.0.0.1"),
        ("SS_LOCAL_PORT", "9000"),
    ];
    for i in 0..4 {
        let mut pairs = full.to_vec();
        let (name, _) = pairs.remove(i);
        let err = SipEnv::from_map(&env_map(&pairs)).unwrap_err();
        assert_eq!(err.message(), format!("missing required env var {name}"));
    }
    for (i, bad) in [(1, "65536"), (1, ""), (1, "+"), (3, "-1"), (3, " 9"), (3, "0x1")] {
        let mut pairs = full.to_vec();
        pairs[i].1 = bad;
        let err = SipEnv::from_map(&env_map(&pairs)).unwrap_err();
        let cause = bad.parse::<u16>().unwrap_err();
        assert_eq!(err.message(), format!("{} must be a u16: {cause}", pairs[i].0));
    }
    let mut pairs = full.to_vec();
    pairs.push(("SS_PLUGIN_OPTIONS", "=x"));
    let err = SipEnv::from_map(&env_map(&pairs)).unwrap_err();
    assert_eq!(err.message(), "parse SS_PLUGIN_OPTIONS: empty key in plugin options: \"=x\"");
}

#[test]
fn ports_are_read_as_numbers() {
    for (text, port) in [("0", 0u16), ("65535", 65535), ("+443", 443), ("00080", 80)] {
        let env = env_map(&[
            ("SS_REMOTE_HOST", "h"),
            ("SS_REMOTE_PORT", text),
            ("SS_LOCAL_HOST", "l"),
            ("SS_LOCAL_PORT", "1"),
        ]);
        let s = SipEnv::from_map(&env).unwrap();
        assert_eq!(s.remote_port, port);
        assert_eq!(s.endpoints(Mode::Server).0, format!("h:{port}"));
        assert!(s.options.is_empty());
    }
}

#[test]
fn last_value_of_a_key_counts() {
    let opts = PluginOptions::parse("a=1;b=2;a=3;;").unwrap();
    assert_eq!(opts.get("a"), Some("3"));
    assert_eq!(opts.get("b"), Some("2"));
    assert_eq!(opts.len(), 2);
}

#[test]
fn escapes_round_trip() {
    let pairs = [("k;1", "a=b"), ("=", ";;"), ("\\", "\\\\"), ("plain", ""), ("é;", "日=本")];
    let mut text = String::new();
    for (k, v) in pairs {
        text.push_str(&escape(k));
        text.push('=');
        text.push_str(&escape(v));
        text.push(';');
    }
    let opts = PluginOptions::parse(&text).unwrap();
    for (k, v) in pairs {
        assert_eq!(opts.get(k), Some(v));
    }
    assert_eq!(opts.len(), pairs.len());
}

#[test]
fn escape_at_the_end_stands_for_nothing() {
    let opts = PluginOptions::parse("k=a\\").unwrap();
    assert_eq!(opts.get("k"), Some("a"));
    // An open escape takes the `;` that would have ended the option.
    let opts = PluginOptions::parse(r"k=a\;b=1").unwrap_err();
    assert_eq!(opts.message(), "plugin option \"k\" has more than one unescaped `=`");
    let opts = PluginOptions::parse(r"\k=\v").unwrap();
    assert_eq!(opts.get("k"), Some("v"));
}

#[test]
fn joined_option_strings_are_read_as_both() {
    let opts = PluginOptions::parse("a=1;b=2;b=3;c").unwrap();
    let a = PluginOptions::parse("a=1;b=2").unwrap();
    let b = PluginOptions::parse("b=3;c").unwrap();
    assert_eq!(opts.get("a"), a.get("a"));
    assert_eq!(opts.get("b"), b.get("b"));
    assert_eq!(opts.get("c"), b.get("c"));
}

#[test]
fn clones_are_equal() {
    let env = env_map(&[
        ("SS_REMOTE_HOST", "1.2.3.4"),
        ("SS_REMOTE_PORT", "443"),
        ("SS_LOCAL_HOST", "127.0.0.1"),
        ("SS_LOCAL_PORT", "9000"),
        ("SS_PLUGIN_OPTIONS", "mode=client;x"),
    ]);
    let s = SipEnv::from_map(&env).unwrap().clone();
    assert_eq!(s.endpoints(Mode::Client).1, "1.2.3.4:443");
    assert_eq!(s.options.mode().unwrap(), Mode::Client);
    assert_eq!(s.options.get("x"), Some(""));
}

#[test]
fn escape_marks_three_characters() {
    assert_eq!(escape(""), "");
    assert_eq!(escape(r"a;b=c\d"), r"a\;b\=c\\d");
    assert_eq!(escape("é plain"), "é plain");
}

#[test]
fn unescaping_goes_piece_by_piece() {
    let value = |s: &str| {
        PluginOptions::parse(&format!("k={s}")).unwrap().get("k").unwrap().to_string()
    };
    for a in ["", "plain", r"\;", r"a\\", r"\x\="] {
        for b in ["", "tail", r"\q", "\\"] {
            assert_eq!(value(&format!("{a}{b}")), value(a) + &value(b));
            let un = |s: &str| unescape(s.to_string());
            assert_eq!(un(&format!("{a}{b}")), un(a) + &un(b));
        }
    }
    assert_eq!(unescape(r"\;a\=\\\x".to_string()), r";a=\x");
    assert_eq!(unescape("\\".to_string()), "");
    assert_eq!(unescape("plain é".to_string()), "plain é");
    assert_eq!(value(r"\é"), "é");
    assert_eq!(value("\\"), "");
}
