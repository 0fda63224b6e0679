//! Browser profiles.

use ech_tls_tunnel::fingerprint::{
    lookup, pick, resolve, Profile, ANDROID, CHROME, EDGE, FIREFOX, IOS, SAFARI,
};

#[test]
fn resolve_known_profiles() {
    for name in [
        "chrome",
        "chrome120",
        "firefox",
        "firefox120",
        "safari",
        "safari16",
        "ios",
        "ios14",
        "android",
        "android11",
        "edge",
        "edge85",
    ] {
        assert!(resolve(name).is_some(), "missing profile {name}");
    }
}

#[test]
fn random_returns_a_profile() {
    for _ in 0..32 {
        assert!(resolve("random").is_some());
    }
}

#[test]
fn unknown_returns_none() {
    assert!(resolve("netscape").is_none());
    assert!(resolve("").is_none());
}

#[test]
fn names_are_those_of_their_profiles() {
    let names = [
        ("chrome", CHROME),
        ("firefox120", FIREFOX),
        ("safari", SAFARI),
        ("ios14", IOS),
        ("android", ANDROID),
        ("edge85", EDGE),
    ];
    for (name, profile) in names {
        assert_eq!(lookup(name), Some(profile));
        let found = resolve(name).unwrap();
        assert_eq!(found.cipher_list, profile.params().cipher_list);
        assert_eq!(found.sigalgs_list, profile.params().sigalgs_list);
    }
    assert_eq!(lookup("random"), None);
    assert_eq!(lookup("Chrome"), None);
}

#[test]
fn profiles_differ_where_browsers_do() {
    let chrome = CHROME.params();
    assert!(chrome.grease && chrome.permute_extensions);
    assert_eq!(chrome.curves_list, "X25519:P-256:P-384");
    assert!(chrome.cipher_list.starts_with("ECDHE-ECDSA-AES128-GCM-SHA256:"));
    assert!(chrome.cipher_list.ends_with(":AES256-SHA"));
    assert_eq!(chrome.sigalgs_list.split(':').count(), 8);
    let firefox = FIREFOX.params();
    assert!(!firefox.grease && !firefox.permute_extensions);
    assert_eq!(firefox.curves_list, "X25519:P-256:P-384:P-521");
    assert_eq!(firefox.cipher_list.split(':').count(), 15);
    let edge = EDGE.params();
    assert!(edge.grease && !edge.permute_extensions);
    assert_eq!(edge.cipher_list, chrome.cipher_list);
    assert!(edge.sigalgs_list.ends_with(":rsa_pkcs1_sha1"));
    assert_eq!(IOS.params().cipher_list, SAFARI.params().cipher_list);
    assert_ne!(IOS.params().sigalgs_list, SAFARI.params().sigalgs_list);
    assert_eq!(IOS.params().sigalgs_list.split(':').count(), 10);
    assert_eq!(ANDROID.params().curves_list, "P-256:X25519");
}

#[test]
fn random_is_weighted() {
    let mut counts = [0u32; 4];
    for byte in 0..12u8 {
        match pick(byte) {
            Profile::Chrome => counts[0] += 1,
            Profile::Safari => counts[1] += 1,
            Profile::Ios => counts[2] += 1,
            Profile::Firefox => counts[3] += 1,
            other => panic!("{other:?}"),
        }
    }
    assert_eq!(counts, [6, 3, 2, 1]);
    assert_eq!(pick(255), pick(3));
    assert_eq!(pick(251), FIREFOX);
}

#[test]
fn random_does_not_always_pick_the_same() {
    let first = resolve("random").unwrap().cipher_list;
    assert!((0..200).any(|_| resolve("random").unwrap().cipher_list != first));
}
