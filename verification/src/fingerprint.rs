//! Profiles that shape the client's TLS ClientHello after a browser.
//!
//! A BoringSSL ClientHello is recognizable by its cipher, curve and signature
//! algorithm order and by the absence of GREASE. A profile is a bundle of
//! OpenSSL-format lists and two switches that make it look like the
//! ClientHello of a particular browser:
//!
//! - the TLS 1.2 cipher order (the 1.3 ciphers are fixed and come first)
//! - the named-group order
//! - GREASE in ciphers, extensions and groups
//! - random extension order
//! - the signature algorithm order

use vstd::prelude::*;

use crate::text::str_eq;

verus! {

/// What a ClientHello takes from a profile.
#[derive(Debug, Clone, Copy)]
pub struct FingerprintParams {
    pub cipher_list: &'static str,
    pub curves_list: &'static str,
    pub grease: bool,
    pub permute_extensions: bool,
    pub sigalgs_list: &'static str,
}

/// The browsers with a profile.
#[derive(Debug, Clone, Copy, PartialEq, Eq, Structural)]
pub enum Profile {
    /// Chrome 120.
    Chrome,
    /// Firefox 120.
    Firefox,
    /// Safari 16.
    Safari,
    /// iOS 14: the ciphers of Safari 16, other signature algorithms.
    Ios,
    /// Android 11 (OkHttp).
    Android,
    /// Edge 85, before extension order was randomized.
    Edge,
}

pub const CHROME: Profile = Profile::Chrome;

pub const FIREFOX: Profile = Profile::Firefox;

pub const SAFARI: Profile = Profile::Safari;

pub const IOS: Profile = Profile::Ios;

pub const ANDROID: Profile = Profile::Android;

pub const EDGE: Profile = Profile::Edge;

pub const CHROME_CIPHERS: &'static str = "ECDHE-ECDSA-AES128-GCM-SHA256:\
    ECDHE-RSA-AES128-GCM-SHA256:\
    ECDHE-ECDSA-AES256-GCM-SHA384:\
    ECDHE-RSA-AES256-GCM-SHA384:\
    ECDHE-ECDSA-CHACHA20-POLY1305:\
    ECDHE-RSA-CHACHA20-POLY1305:\
    ECDHE-RSA-AES128-SHA:\
    ECDHE-RSA-AES256-SHA:\
    AES128-GCM-SHA256:\
    AES256-GCM-SHA384:\
    AES128-SHA:\
    AES256-SHA";

pub const CHROME_CURVES: &'static str = "X25519:P-256:P-384";

pub const CHROME_SIGALGS: &'static str = "ecdsa_secp256r1_sha256:\
    rsa_pss_rsae_sha256:\
    rsa_pkcs1_sha256:\
    ecdsa_secp384r1_sha384:\
    rsa_pss_rsae_sha384:\
    rsa_pkcs1_sha384:\
    rsa_pss_rsae_sha512:\
    rsa_pkcs1_sha512";

pub const FIREFOX_CIPHERS: &'static str = "ECDHE-ECDSA-AES128-GCM-SHA256:\
    ECDHE-RSA-AES128-GCM-SHA256:\
    ECDHE-ECDSA-CHACHA20-POLY1305:\
    ECDHE-RSA-CHACHA20-POLY1305:\
    ECDHE-ECDSA-AES256-GCM-SHA384:\
    ECDHE-RSA-AES256-GCM-SHA384:\
    ECDHE-ECDSA-AES256-SHA:\
    ECDHE-ECDSA-AES128-SHA:\
    ECDHE-RSA-AES128-SHA:\
    ECDHE-RSA-AES256-SHA:\
    AES128-GCM-SHA256:\
    AES256-GCM-SHA384:\
    AES128-SHA:\
    AES256-SHA:\
    DES-CBC3-SHA";

pub const FIREFOX_CURVES: &'static str = "X25519:P-256:P-384:P-521";

pub const FIREFOX_SIGALGS: &'static str = "ecdsa_secp256r1_sha256:\
    ecdsa_secp384r1_sha384:\
    ecdsa_secp521r1_sha512:\
    rsa_pss_rsae_sha256:\
    rsa_pss_rsae_sha384:\
    rsa_pss_rsae_sha512:\
    rsa_pkcs1_sha256:\
    rsa_pkcs1_sha384:\
    rsa_pkcs1_sha512";

pub const SAFARI_CIPHERS: &'static str = "ECDHE-ECDSA-AES256-GCM-SHA384:\
    ECDHE-ECDSA-AES128-GCM-SHA256:\
    ECDHE-ECDSA-CHACHA20-POLY1305:\
    ECDHE-RSA-AES256-GCM-SHA384:\
    ECDHE-RSA-AES128-GCM-SHA256:\
    ECDHE-RSA-CHACHA20-POLY1305:\
    ECDHE-ECDSA-AES256-SHA:\
    ECDHE-ECDSA-AES128-SHA:\
    ECDHE-RSA-AES256-SHA:\
    ECDHE-RSA-AES128-SHA:\
    AES256-GCM-SHA384:\
    AES128-GCM-SHA256:\
    AES256-SHA:\
    AES128-SHA:\
    DES-CBC3-SHA";

pub const SAFARI_SIGALGS: &'static str = "ecdsa_secp256r1_sha256:\
    rsa_pss_rsae_sha256:\
    rsa_pkcs1_sha256:\
    ecdsa_secp384r1_sha384:\
    ecdsa_secp521r1_sha512:\
    rsa_pss_rsae_sha384:\
    rsa_pss_rsae_sha512:\
    rsa_pkcs1_sha384:\
    rsa_pkcs1_sha512:\
    rsa_pkcs1_sha1";

pub const IOS_SIGALGS: &'static str = "ecdsa_secp256r1_sha256:\
    rsa_pss_rsae_sha256:\
    rsa_pkcs1_sha256:\
    ecdsa_secp384r1_sha384:\
    ecdsa_sha1:\
    rsa_pss_rsae_sha384:\
    rsa_pkcs1_sha384:\
    rsa_pss_rsae_sha512:\
    rsa_pkcs1_sha512:\
    rsa_pkcs1_sha1";

pub const ANDROID_CURVES: &'static str = "P-256:X25519";

pub const EDGE_SIGALGS: &'static str = "ecdsa_secp256r1_sha256:\
    rsa_pss_rsae_sha256:\
    rsa_pkcs1_sha256:\
    ecdsa_secp384r1_sha384:\
    rsa_pss_rsae_sha384:\
    rsa_pkcs1_sha384:\
    rsa_pss_rsae_sha512:\
    rsa_pkcs1_sha512:\
    rsa_pkcs1_sha1";

/// The parameters of a profile.
pub open spec fn params_of(p: Profile) -> FingerprintParams {
    match p {
        Profile::Chrome => FingerprintParams {
            cipher_list: CHROME_CIPHERS,
            curves_list: CHROME_CURVES,
            grease: true,
            permute_extensions: true,
            sigalgs_list: CHROME_SIGALGS,
        },
        Profile::Firefox => FingerprintParams {
            cipher_list: FIREFOX_CIPHERS,
            curves_list: FIREFOX_CURVES,
            grease: false,
            permute_extensions: false,
            sigalgs_list: FIREFOX_SIGALGS,
        },
        Profile::Safari => FingerprintParams {
            cipher_list: SAFARI_CIPHERS,
            curves_list: CHROME_CURVES,
            grease: false,
            permute_extensions: false,
            sigalgs_list: SAFARI_SIGALGS,
        },
        Profile::Ios => FingerprintParams {
            cipher_list: SAFARI_CIPHERS,
            curves_list: CHROME_CURVES,
            grease: false,
            permute_extensions: false,
            sigalgs_list: IOS_SIGALGS,
        },
        Profile::Android => FingerprintParams {
            cipher_list: CHROME_CIPHERS,
            curves_list: ANDROID_CURVES,
            grease: false,
            permute_extensions: false,
            sigalgs_list: CHROME_SIGALGS,
        },
        Profile::Edge => FingerprintParams {
            cipher_list: CHROME_CIPHERS,
            curves_list: CHROME_CURVES,
            grease: true,
            permute_extensions: false,
            sigalgs_list: EDGE_SIGALGS,
        },
    }
}

/// The profile that `fp` names, by its bare or its versioned name.
pub open spec fn profile_named(fp: Seq<char>) -> Option<Profile> {
    if fp == "chrome"@ || fp == "chrome120"@ {
        Some(CHROME)
    } else if fp == "firefox"@ || fp == "firefox120"@ {
        Some(FIREFOX)
    } else if fp == "safari"@ || fp == "safari16"@ {
        Some(SAFARI)
    } else if fp == "ios"@ || fp == "ios14"@ {
        Some(IOS)
    } else if fp == "android"@ || fp == "android11"@ {
        Some(ANDROID)
    } else if fp == "edge"@ || fp == "edge85"@ {
        Some(EDGE)
    } else {
        None
    }
}

/// The name that stands for a profile picked at random.
pub const RANDOM: &'static str = "random";

/// Whether `fp` names a profile, or `random`.
pub open spec fn is_known(fp: Seq<char>) -> bool {
    profile_named(fp) is Some || fp == RANDOM@
}

/// The profile that a random byte picks: of twelve residues chrome has six,
/// safari three, ios two and firefox one.
pub open spec fn picked(byte: u8) -> Profile {
    if byte % 12 < 6 {
        CHROME
    } else if byte % 12 < 9 {
        SAFARI
    } else if byte % 12 < 11 {
        IOS
    } else {
        FIREFOX
    }
}

impl Profile {
    /// The parameters of this profile.
    pub fn params(self) -> (r: FingerprintParams)
        ensures
            r == params_of(self),
    {
        match self {
            Profile::Chrome => FingerprintParams {
                cipher_list: CHROME_CIPHERS,
                curves_list: CHROME_CURVES,
                grease: true,
                permute_extensions: true,
                sigalgs_list: CHROME_SIGALGS,
            },
            Profile::Firefox => FingerprintParams {
                cipher_list: FIREFOX_CIPHERS,
                curves_list: FIREFOX_CURVES,
                grease: false,
                permute_extensions: false,
                sigalgs_list: FIREFOX_SIGALGS,
            },
            Profile::Safari => FingerprintParams {
                cipher_list: SAFARI_CIPHERS,
                curves_list: CHROME_CURVES,
                grease: false,
                permute_extensions: false,
                sigalgs_list: SAFARI_SIGALGS,
            },
            Profile::Ios => FingerprintParams {
                cipher_list: SAFARI_CIPHERS,
                curves_list: CHROME_CURVES,
                grease: false,
                permute_extensions: false,
                sigalgs_list: IOS_SIGALGS,
            },
            Profile::Android => FingerprintParams {
                cipher_list: CHROME_CIPHERS,
                curves_list: ANDROID_CURVES,
                grease: false,
                permute_extensions: false,
                sigalgs_list: CHROME_SIGALGS,
            },
            Profile::Edge => FingerprintParams {
                cipher_list: CHROME_CIPHERS,
                curves_list: CHROME_CURVES,
                grease: true,
                permute_extensions: false,
                sigalgs_list: EDGE_SIGALGS,
            },
        }
    }
}

/// Picks among the most common browsers, weighted, by a random byte.
pub fn pick(byte: u8) -> (p: Profile)
    ensures
        p == picked(byte),
{
    let residue: u8 = byte % 12;
    if residue < 6 {
        CHROME
    } else if residue < 9 {
        SAFARI
    } else if residue < 11 {
        IOS
    } else {
        FIREFOX
    }
}

/// Finds the profile with the given name.
pub fn lookup(fp: &str) -> (r: Option<Profile>)
    ensures
        r == profile_named(fp@),
{
    if str_eq(fp, "chrome") || str_eq(fp, "chrome120") {
        Some(CHROME)
    } else if str_eq(fp, "firefox") || str_eq(fp, "firefox120") {
        Some(FIREFOX)
    } else if str_eq(fp, "safari") || str_eq(fp, "safari16") {
        Some(SAFARI)
    } else if str_eq(fp, "ios") || str_eq(fp, "ios14") {
        Some(IOS)
    } else if str_eq(fp, "android") || str_eq(fp, "android11") {
        Some(ANDROID)
    } else if str_eq(fp, "edge") || str_eq(fp, "edge85") {
        Some(EDGE)
    } else {
        None
    }
}

/// A byte from `rand::random`. It is chance, so nothing is claimed of it.
#[verifier::external_body]
pub(crate) fn random_byte() -> (b: u8) {
    rand::random::<u8>()
}

/// The parameters of the profile that a lowercase name stands for; `random`
/// picks one anew on each call.
pub fn resolve(fp: &str) -> (r: Option<FingerprintParams>)
    ensures
        r is Some <==> is_known(fp@),
        profile_named(fp@) matches Some(p) ==> r == Some(params_of(p)),
        fp@ == RANDOM@ ==> exists|byte: u8|
            r == Some(params_of(#[trigger] picked(byte))),
{
    proof {
        law_random_weights();
    }
    match lookup(fp) {
        Some(p) => Some(p.params()),
        None => if str_eq(fp, RANDOM) {
            let byte: u8 = random_byte();
            Some(pick(byte).params())
        } else {
            None
        },
    }
}

/// `random` is not the name of a profile, and what it picks is one of chrome,
/// safari, ios and firefox, each by its share of the twelve residues.
pub proof fn law_random_weights()
    ensures
        profile_named(RANDOM@) is None,
        forall|r: u8| r < 12 ==> (#[trigger] picked(r) == CHROME <==> r < 6),
        forall|r: u8| r < 12 ==> (#[trigger] picked(r) == SAFARI <==> 6 <= r < 9),
        forall|r: u8| r < 12 ==> (#[trigger] picked(r) == IOS <==> 9 <= r < 11),
        forall|r: u8| r < 12 ==> (#[trigger] picked(r) == FIREFOX <==> r == 11),
        forall|b: u8| #[trigger] picked(b) == picked((b % 12) as u8),
{
    reveal_strlit("random");
    reveal_strlit("chrome");
    reveal_strlit("chrome120");
    reveal_strlit("firefox");
    reveal_strlit("firefox120");
    reveal_strlit("safari");
    reveal_strlit("safari16");
    reveal_strlit("ios");
    reveal_strlit("ios14");
    reveal_strlit("android");
    reveal_strlit("android11");
    reveal_strlit("edge");
    reveal_strlit("edge85");
    assert(RANDOM@[0] == 'r');
}

/// The iOS profile has the ciphers of Safari, and signature algorithms of its
/// own.
pub proof fn law_ios_differs_from_safari()
    ensures
        params_of(IOS).cipher_list@ == params_of(SAFARI).cipher_list@,
        params_of(IOS).sigalgs_list@ != params_of(SAFARI).sigalgs_list@,
{
    reveal_strlit(
        "ecdsa_secp256r1_sha256:rsa_pss_rsae_sha256:rsa_pkcs1_sha256:ecdsa_secp384r1_sha384:ecdsa_secp521r1_sha512:rsa_pss_rsae_sha384:rsa_pss_rsae_sha512:rsa_pkcs1_sha384:rsa_pkcs1_sha512:rsa_pkcs1_sha1",
    );
    reveal_strlit(
        "ecdsa_secp256r1_sha256:rsa_pss_rsae_sha256:rsa_pkcs1_sha256:ecdsa_secp384r1_sha384:ecdsa_sha1:rsa_pss_rsae_sha384:rsa_pkcs1_sha384:rsa_pss_rsae_sha512:rsa_pkcs1_sha512:rsa_pkcs1_sha1",
    );
    assert(SAFARI_SIGALGS@.len() != IOS_SIGALGS@.len());
}

/// A profile is known by two names, the bare one and the one with its version, and
/// by no other; besides these only `random` is known.
pub proof fn law_names_of_profiles(fp: Seq<char>)
    ensures
        profile_named(fp) == Some(Profile::Chrome) <==> fp == "chrome"@ || fp == "chrome120"@,
        profile_named(fp) == Some(Profile::Firefox) <==> fp == "firefox"@ || fp == "firefox120"@,
        profile_named(fp) == Some(Profile::Safari) <==> fp == "safari"@ || fp == "safari16"@,
        profile_named(fp) == Some(Profile::Ios) <==> fp == "ios"@ || fp == "ios14"@,
        profile_named(fp) == Some(Profile::Android) <==> fp == "android"@ || fp == "android11"@,
        profile_named(fp) == Some(Profile::Edge) <==> fp == "edge"@ || fp == "edge85"@,
        is_known(fp) <==> profile_named(fp) is Some || fp == "random"@,
{
    reveal_strlit("chrome");
    reveal_strlit("chrome120");
    reveal_strlit("firefox");
    reveal_strlit("firefox120");
    reveal_strlit("safari");
    reveal_strlit("safari16");
    reveal_strlit("ios");
    reveal_strlit("ios14");
    reveal_strlit("android");
    reveal_strlit("android11");
    reveal_strlit("edge");
    reveal_strlit("edge85");
    assert("chrome"@[0] == 'c');
    assert("chrome120"@[0] == 'c');
    assert("firefox"@[0] == 'f');
    assert("firefox120"@[0] == 'f');
    assert("safari"@[0] == 's');
    assert("safari16"@[0] == 's');
    assert("ios"@[0] == 'i');
    assert("ios14"@[0] == 'i');
    assert("android"@[0] == 'a');
    assert("android11"@[0] == 'a');
    assert("edge"@[0] == 'e');
    assert("edge85"@[0] == 'e');
}

/// What each profile puts into a ClientHello. Only Chrome and Edge have GREASE, and
/// only Chrome shuffles its extensions.
pub proof fn law_what_profiles_look_like()
    ensures
        params_of(Profile::Chrome).cipher_list@
            == "ECDHE-ECDSA-AES128-GCM-SHA256:ECDHE-RSA-AES128-GCM-SHA256:ECDHE-ECDSA-AES256-GCM-SHA384:ECDHE-RSA-AES256-GCM-SHA384:ECDHE-ECDSA-CHACHA20-POLY1305:ECDHE-RSA-CHACHA20-POLY1305:ECDHE-RSA-AES128-SHA:ECDHE-RSA-AES256-SHA:AES128-GCM-SHA256:AES256-GCM-SHA384:AES128-SHA:AES256-SHA"@,
        params_of(Profile::Chrome).curves_list@ == "X25519:P-256:P-384"@,
        params_of(Profile::Chrome).sigalgs_list@
            == "ecdsa_secp256r1_sha256:rsa_pss_rsae_sha256:rsa_pkcs1_sha256:ecdsa_secp384r1_sha384:rsa_pss_rsae_sha384:rsa_pkcs1_sha384:rsa_pss_rsae_sha512:rsa_pkcs1_sha512"@,
        params_of(Profile::Chrome).grease == true,
        params_of(Profile::Chrome).permute_extensions == true,
        params_of(Profile::Firefox).cipher_list@
            == "ECDHE-ECDSA-AES128-GCM-SHA256:ECDHE-RSA-AES128-GCM-SHA256:ECDHE-ECDSA-CHACHA20-POLY1305:ECDHE-RSA-CHACHA20-POLY1305:ECDHE-ECDSA-AES256-GCM-SHA384:ECDHE-RSA-AES256-GCM-SHA384:ECDHE-ECDSA-AES256-SHA:ECDHE-ECDSA-AES128-SHA:ECDHE-RSA-AES128-SHA:ECDHE-RSA-AES256-SHA:AES128-GCM-SHA256:AES256-GCM-SHA384:AES128-SHA:AES256-SHA:DES-CBC3-SHA"@,
        params_of(Profile::Firefox).curves_list@ == "X25519:P-256:P-384:P-521"@,
        params_of(Profile::Firefox).sigalgs_list@
            == "ecdsa_secp256r1_sha256:ecdsa_secp384r1_sha384:ecdsa_secp521r1_sha512:rsa_pss_rsae_sha256:rsa_pss_rsae_sha384:rsa_pss_rsae_sha512:rsa_pkcs1_sha256:rsa_pkcs1_sha384:rsa_pkcs1_sha512"@,
        params_of(Profile::Firefox).grease == false,
        params_of(Profile::Firefox).permute_extensions == false,
        params_of(Profile::Safari).cipher_list@
            == "ECDHE-ECDSA-AES256-GCM-SHA384:ECDHE-ECDSA-AES128-GCM-SHA256:ECDHE-ECDSA-CHACHA20-POLY1305:ECDHE-RSA-AES256-GCM-SHA384:ECDHE-RSA-AES128-GCM-SHA256:ECDHE-RSA-CHACHA20-POLY1305:ECDHE-ECDSA-AES256-SHA:ECDHE-ECDSA-AES128-SHA:ECDHE-RSA-AES256-SHA:ECDHE-RSA-AES128-SHA:AES256-GCM-SHA384:AES128-GCM-SHA256:AES256-SHA:AES128-SHA:DES-CBC3-SHA"@,
        params_of(Profile::Safari).curves_list@ == "X25519:P-256:P-384"@,
        params_of(Profile::Safari).sigalgs_list@
            == "ecdsa_secp256r1_sha256:rsa_pss_rsae_sha256:rsa_pkcs1_sha256:ecdsa_secp384r1_sha384:ecdsa_secp521r1_sha512:rsa_pss_rsae_sha384:rsa_pss_rsae_sha512:rsa_pkcs1_sha384:rsa_pkcs1_sha512:rsa_pkcs1_sha1"@,
        params_of(Profile::Safari).grease == false,
        params_of(Profile::Safari).permute_extensions == false,
        params_of(Profile::Ios).cipher_list@
            == "ECDHE-ECDSA-AES256-GCM-SHA384:ECDHE-ECDSA-AES128-GCM-SHA256:ECDHE-ECDSA-CHACHA20-POLY1305:ECDHE-RSA-AES256-GCM-SHA384:ECDHE-RSA-AES128-GCM-SHA256:ECDHE-RSA-CHACHA20-POLY1305:ECDHE-ECDSA-AES256-SHA:ECDHE-ECDSA-AES128-SHA:ECDHE-RSA-AES256-SHA:ECDHE-RSA-AES128-SHA:AES256-GCM-SHA384:AES128-GCM-SHA256:AES256-SHA:AES128-SHA:DES-CBC3-SHA"@,
        params_of(Profile::Ios).curves_list@ == "X25519:P-256:P-384"@,
        params_of(Profile::Ios).sigalgs_list@
            == "ecdsa_secp256r1_sha256:rsa_pss_rsae_sha256:rsa_pkcs1_sha256:ecdsa_secp384r1_sha384:ecdsa_sha1:rsa_pss_rsae_sha384:rsa_pkcs1_sha384:rsa_pss_rsae_sha512:rsa_pkcs1_sha512:rsa_pkcs1_sha1"@,
        params_of(Profile::Ios).grease == false,
        params_of(Profile::Ios).permute_extensions == false,
        params_of(Profile::Android).cipher_list@
            == "ECDHE-ECDSA-AES128-GCM-SHA256:ECDHE-RSA-AES128-GCM-SHA256:ECDHE-ECDSA-AES256-GCM-SHA384:ECDHE-RSA-AES256-GCM-SHA384:ECDHE-ECDSA-CHACHA20-POLY1305:ECDHE-RSA-CHACHA20-POLY1305:ECDHE-RSA-AES128-SHA:ECDHE-RSA-AES256-SHA:AES128-GCM-SHA256:AES256-GCM-SHA384:AES128-SHA:AES256-SHA"@,
        params_of(Profile::Android).curves_list@ == "P-256:X25519"@,
        params_of(Profile::Android).sigalgs_list@
            == "ecdsa_secp256r1_sha256:rsa_pss_rsae_sha256:rsa_pkcs1_sha256:ecdsa_secp384r1_sha384:rsa_pss_rsae_sha384:rsa_pkcs1_sha384:rsa_pss_rsae_sha512:rsa_pkcs1_sha512"@,
        params_of(Profile::Android).grease == false,
        params_of(Profile::Android).permute_extensions == false,
        params_of(Profile::Edge).cipher_list@
            == "ECDHE-ECDSA-AES128-GCM-SHA256:ECDHE-RSA-AES128-GCM-SHA256:ECDHE-ECDSA-AES256-GCM-SHA384:ECDHE-RSA-AES256-GCM-SHA384:ECDHE-ECDSA-CHACHA20-POLY1305:ECDHE-RSA-CHACHA20-POLY1305:ECDHE-RSA-AES128-SHA:ECDHE-RSA-AES256-SHA:AES128-GCM-SHA256:AES256-GCM-SHA384:AES128-SHA:AES256-SHA"@,
        params_of(Profile::Edge).curves_list@ == "X25519:P-256:P-384"@,
        params_of(Profile::Edge).sigalgs_list@
            == "ecdsa_secp256r1_sha256:rsa_pss_rsae_sha256:rsa_pkcs1_sha256:ecdsa_secp384r1_sha384:rsa_pss_rsae_sha384:rsa_pkcs1_sha384:rsa_pss_rsae_sha512:rsa_pkcs1_sha512:rsa_pkcs1_sha1"@,
        params_of(Profile::Edge).grease == true,
        params_of(Profile::Edge).permute_extensions == false,
{
}

/// A byte picks by its remainder of twelve, so that bytes that differ by twelve pick
/// the same profile, and Android and Edge are never picked.
pub proof fn law_picks_repeat(byte: u8)
    ensures
        byte < 244 ==> picked((byte + 12) as u8) == picked(byte),
        picked(byte) != Profile::Android && picked(byte) != Profile::Edge,
        picked(byte) == Profile::Chrome <==> byte % 12 <= 5,
        picked(byte) == Profile::Safari <==> 6 <= byte % 12 <= 8,
        picked(byte) == Profile::Ios <==> 9 <= byte % 12 <= 10,
        picked(byte) == Profile::Firefox <==> byte % 12 == 11,
{
}

} // verus!
