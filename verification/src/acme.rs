//! Certificates from Let's Encrypt, by TLS-ALPN-01.
//!
//! On start the server looks into its cache; where there is no certificate, or
//! one that is due for renewal, it runs an order. The names are validated over
//! the server's own listener (see [`crate::challenge`]). What is decided here is
//! when a certificate is due, what is sent to the authority, and how an order
//! proceeds from one answer of the authority to the next; the requests
//! themselves, the waiting and the files are the caller's.

use instant_acme::LetsEncrypt;
use rcgen::{CertificateParams, CustomExtension, DistinguishedName, KeyPair};
use sha2::{Digest, Sha256};
use vstd::prelude::*;
use vstd::utf8::*;

use crate::challenge;
use crate::ech;
use crate::ech::{base64_decode, encode_config_list_b64};
use crate::server;
use crate::text::{chars_of, str_eq, string_of};

verus! {

/// A certificate is due for renewal this many days before it expires.
pub const RENEWAL_WINDOW_DAYS: i64 = 30;

/// The renewal window in seconds.
pub const RENEWAL_WINDOW_SECS: i64 = 2_592_000;

/// The time between two looks at the certificate, in seconds.
pub const RENEWAL_CHECK_SECS: u64 = 86_400;

/// How often an order is polled until it is ready.
pub const READY_TRIES: u32 = 60;

/// How often an order is polled for its certificate.
pub const CERTIFICATE_TRIES: u32 = 30;

/// The time before each poll, in seconds.
pub const POLL_SECS: u64 = 2;

/// A certificate chain and its key, as PEM text.
#[derive(Debug, Clone)]
pub struct CertMaterial {
    pub cert_pem: String,
    pub key_pem: String,
}

#[verifier::ext_equal]
pub struct CertTexts {
    pub cert_pem: Seq<char>,
    pub key_pem: Seq<char>,
}

impl View for CertMaterial {
    type V = CertTexts;

    open spec fn view(&self) -> CertTexts {
        CertTexts { cert_pem: self.cert_pem@, key_pem: self.key_pem@ }
    }
}

// ---------------------------------------------------------------------------
// Cache and renewal
// ---------------------------------------------------------------------------

/// Whether a chain is due for renewal at the time `now`: `chain` holds the times
/// at which its certificates expire, the leaf's first; it is `None` where the
/// chain could not be read. Times behind the leaf's do not count and may be left
/// out. All times are in seconds of the same clock.
pub open spec fn is_due(chain: Option<Seq<i64>>, now: i64) -> bool {
    match chain {
        None => true,
        Some(times) => times.len() == 0 || times[0] < now + RENEWAL_WINDOW_SECS,
    }
}

/// The expiry times as a sequence.
pub open spec fn times_of(chain: Option<&[i64]>) -> Option<Seq<i64>> {
    match chain {
        None => None,
        Some(times) => Some(times@),
    }
}

/// Whether a chain is due for renewal: its leaf expires within the window, or it
/// has none, or it could not be read.
pub fn needs_renewal(chain: Option<&[i64]>, now: i64) -> (r: bool)
    ensures
        r == is_due(times_of(chain), now),
{
    match chain {
        None => true,
        Some(times) => if times.len() == 0 {
            true
        } else {
            let leaf: i64 = times[0];
            match now.checked_add(RENEWAL_WINDOW_SECS) {
                Some(threshold) => leaf < threshold,
                None => true,
            }
        },
    }
}

/// A span of days and seconds, in seconds.
pub open spec fn span(days: int, secs: int) -> int {
    days * 86_400 + secs
}

/// A span of days and seconds, in seconds.
pub fn seconds_of(days: i32, secs: i32) -> (t: i64)
    ensures
        t == days * 86_400 + secs,
        t == span(days as int, secs as int),
{
    days as i64 * 86_400 + secs as i64
}

/// The cached certificate, if both files could be read and it is not due.
pub fn load_cached(
    cert_pem: Option<String>,
    key_pem: Option<String>,
    chain: Option<&[i64]>,
    now: i64,
) -> (r: Option<CertMaterial>)
    ensures
        match r {
            Some(m) => cert_pem == Some(m.cert_pem) && key_pem == Some(m.key_pem) && !is_due(
                times_of(chain),
                now,
            ),
            None => cert_pem is None || key_pem is None || is_due(times_of(chain), now),
        },
        r is Some <==> cache_serves(text_of(cert_pem), text_of(key_pem), times_of(chain), now),
        r matches Some(m) ==> is_cached(text_of(cert_pem), text_of(key_pem), m),
{
    match (cert_pem, key_pem) {
        (Some(cert_pem), Some(key_pem)) => if needs_renewal(chain, now) {
            None
        } else {
            Some(CertMaterial { cert_pem, key_pem })
        },
        _ => None,
    }
}

/// Whether the daily look leads to an order.
pub open spec fn order_is_due(readable: bool, chain: Option<Seq<i64>>, now: i64) -> bool {
    readable && is_due(chain, now)
}

/// Whether the cache serves: both files were read, and the certificate is not due.
pub open spec fn cache_serves(
    cert_pem: Option<Seq<char>>,
    key_pem: Option<Seq<char>>,
    chain: Option<Seq<i64>>,
    now: i64,
) -> bool {
    cert_pem is Some && key_pem is Some && !is_due(chain, now)
}

/// Whether `m` is what the two files hold.
pub open spec fn is_cached(
    cert_pem: Option<Seq<char>>,
    key_pem: Option<Seq<char>>,
    m: CertMaterial,
) -> bool {
    cert_pem == Some(m.cert_pem@) && key_pem == Some(m.key_pem@)
}

/// Whether the daily look at the cached certificate leads to an order:
/// `readable` says whether its file could be read. One that cannot be read is
/// left alone until the next look.
pub fn renewal_due(readable: bool, chain: Option<&[i64]>, now: i64) -> (r: bool)
    ensures
        r == (readable && is_due(times_of(chain), now)),
        r == order_is_due(readable, times_of(chain), now),
{
    readable && needs_renewal(chain, now)
}

// ---------------------------------------------------------------------------
// The account
// ---------------------------------------------------------------------------

/// The two directories of Let's Encrypt.
#[derive(Debug, Clone, Copy, PartialEq, Eq, Structural)]
pub enum Directory {
    Production,
    Staging,
}

/// The address of a directory.
pub open spec fn directory_address(d: Directory) -> Seq<char> {
    match d {
        Directory::Production => "https://acme-v02.api.letsencrypt.org/directory"@,
        Directory::Staging => "https://acme-staging-v02.api.letsencrypt.org/directory"@,
    }
}

/// Calls `LetsEncrypt::url` of `instant-acme`, which is the address of the
/// directory.
#[verifier::external_body]
fn lets_encrypt_url(d: Directory) -> (url: &'static str)
    ensures
        url@ == directory_address(d),
{
    match d {
        Directory::Production => LetsEncrypt::Production.url(),
        Directory::Staging => LetsEncrypt::Staging.url(),
    }
}

/// The address of the directory that orders go to.
pub open spec fn directory_text(given: Option<Seq<char>>, staging: bool) -> Seq<char> {
    match given {
        Some(url) => url,
        None => if staging {
            directory_address(Directory::Staging)
        } else {
            directory_address(Directory::Production)
        },
    }
}

/// The directory that orders go to: the given one, else that of Let's Encrypt.
pub fn directory_for(directory_url: Option<&str>, staging: bool) -> (url: String)
    ensures
        match directory_url {
            Some(given) => url@ == given@,
            None => url@ == directory_address(
                if staging {
                    Directory::Staging
                } else {
                    Directory::Production
                },
            ),
        },
        url@ == directory_text(
            match directory_url {
                Some(given) => Some(given@),
                None => None,
            },
            staging,
        ),
{
    match directory_url {
        Some(given) => given.to_owned(),
        None => if staging {
            lets_encrypt_url(Directory::Staging).to_owned()
        } else {
            lets_encrypt_url(Directory::Production).to_owned()
        },
    }
}

/// The contact address for an e-mail address.
pub open spec fn contact_text(email: Seq<char>) -> Seq<char> {
    "mailto:"@ + email
}

/// The contact address of the account.
pub fn contact(email: &str) -> (c: String)
    ensures
        c@ == "mailto:"@ + email@,
        c@ == contact_text(email@),
{
    let mut c = "mailto:".to_owned();
    c.append(email);
    c
}

/// What is stored of an account: the directory that it is with, its identifier,
/// and its private key in base64, each on a line.
pub open spec fn account_text(directory: Seq<char>, id: Seq<char>, key: Seq<u8>) -> Seq<char> {
    directory + "\n"@ + id + "\n"@ + ech::base64_text(key) + "\n"@
}

/// Whether `text` is what is stored of the account `id` with the key `key` at
/// the directory. An identifier is on one line.
pub open spec fn stores_account(
    text: Seq<char>,
    directory: Seq<char>,
    id: Seq<char>,
    key: Seq<u8>,
) -> bool {
    !id.contains('\n') && text == account_text(directory, id, key)
}

/// Writes down what is stored of an account.
pub fn account_record(directory: &str, id: &str, key: &[u8]) -> (text: String)
    requires
        (key@.len() + 2) / 3 * 4 <= isize::MAX,
    ensures
        text@ == account_text(directory@, id@, key@),
{
    let mut text = directory.to_owned();
    text.append("\n");
    text.append(id);
    text.append("\n");
    text.append(encode_config_list_b64(key).as_str());
    text.append("\n");
    text
}

/// Where the account for an order comes from.
pub enum AccountPlan {
    /// It is restored.
    Restore { id: String, key: Vec<u8> },
    /// It is created, and stored for later orders.
    Create,
}

/// What a stored text looks like.
proof fn lemma_stored_account(
    text: Seq<char>,
    directory: Seq<char>,
    id: Seq<char>,
    key: Seq<u8>,
)
    requires
        stores_account(text, directory, id, key),
    ensures
        text.len() == directory.len() + id.len() + ech::base64_text(key).len() + 3,
        text.take(directory.len() as int) == directory,
        text[directory.len() as int] == '\n',
        text.subrange(directory.len() as int + 1, directory.len() as int + 1 + id.len()) == id,
        forall|k: int|
            directory.len() < k < directory.len() + 1 + id.len() ==> #[trigger] text[k] != '\n',
        text[directory.len() as int + 1 + id.len()] == '\n',
        text.subrange(directory.len() as int + id.len() + 2, text.len() - 1) == ech::base64_text(key),
        text.last() == '\n',
{
    reveal_strlit("\n");
    assert(text.subrange(directory.len() as int + 1, directory.len() as int + 1 + id.len()) == id);
    assert forall|k: int| directory.len() < k < directory.len() + 1 + id.len() implies
        #[trigger] text[k] != '\n' by {
        assert(text[k] == id[k - directory.len() - 1]);
    }
}

/// Decides where the account comes from: `cached` is what is stored, if
/// anything. An account at another directory is of no use.
pub fn account_plan(cached: Option<&str>, directory: &str) -> (p: AccountPlan)
    ensures
        match p {
            AccountPlan::Restore { id, key } => cached matches Some(text) && stores_account(
                text@,
                directory@,
                id@,
                key@,
            ),
            AccountPlan::Create => cached matches Some(text) ==> forall|id: Seq<char>, key: Seq<u8>|
                !#[trigger] stores_account(text@, directory@, id, key),
        },
{
    let text = match cached {
        Some(text) => text,
        None => return AccountPlan::Create,
    };
    let chars = chars_of(text);
    let n: usize = chars.len();
    let d = chars_of(directory);
    let m: usize = d.len();
    proof {
        assert forall|id: Seq<char>, key: Seq<u8>| #[trigger]
            stores_account(text@, directory@, id, key) implies text@.len() >= m + 3 && text@.take(
            m as int,
        ) == directory@ && text@[m as int] == '\n' && text@.last() == '\n' by {
            lemma_stored_account(text@, directory@, id, key);
        }
    }
    if n < 3 || m > n - 3 || chars[m] != '\n' || chars[n - 1] != '\n' {
        return AccountPlan::Create;
    }
    if !str_eq(string_of(&chars[0..m]).as_str(), directory) {
        assert(chars@.subrange(0, m as int) == text@.take(m as int));
        return AccountPlan::Create;
    }
    let mut j: usize = m + 1;
    while j < n && chars[j] != '\n'
        invariant
            n == chars@.len(),
            m < j <= n,
            forall|k: int| m < k < j ==> #[trigger] chars@[k] != '\n',
        decreases n - j,
    {
        j = j + 1;
    }
    let ghost found = j as int;
    proof {
        assert forall|id: Seq<char>, key: Seq<u8>| #[trigger]
            stores_account(text@, directory@, id, key) implies found == m + 1 + id.len() && found
            < n - 1 && id == text@.subrange(m + 1, found) && text@.subrange(found + 1, n - 1)
            == ech::base64_text(key) by {
            lemma_stored_account(text@, directory@, id, key);
            let end = m + 1 + id.len();
            assert(text@[end] == '\n');
            if found < end {
                assert(text@[found] != '\n');
            }
            if end < found {
                assert(chars@[end] != '\n');
            }
        }
    }
    if j >= n - 1 {
        return AccountPlan::Create;
    }
    let id = string_of(&chars[m + 1..j]);
    let b64 = string_of(&chars[j + 1..n - 1]);
    match base64_decode(b64.as_str()) {
        Ok(key) => {
            proof {
                reveal_strlit("\n");
                assert(text@ == account_text(directory@, id@, key@)) by {
                    assert(text@.take(m as int) == directory@);
                }
                if id@.contains('\n') {
                    let k = choose|k: int| 0 <= k < id@.len() && id@[k] == '\n';
                    assert(chars@[m + 1 + k] != '\n');
                }
            }
            AccountPlan::Restore { id, key }
        },
        Err(_) => AccountPlan::Create,
    }
}

/// An account that was stored is restored, and no other: orders of later runs
/// go on under the same account.
pub proof fn law_stored_account_is_restored(
    directory: Seq<char>,
    id: Seq<char>,
    key: Seq<u8>,
    other_id: Seq<char>,
    other_key: Seq<u8>,
)
    requires
        !id.contains('\n'),
    ensures
        stores_account(account_text(directory, id, key), directory, other_id, other_key) <==> id
            == other_id && key == other_key,
{
    let text = account_text(directory, id, key);
    lemma_stored_account(text, directory, id, key);
    if stores_account(text, directory, other_id, other_key) {
        lemma_stored_account(text, directory, other_id, other_key);
        let a = directory.len() + 1 + id.len();
        let b = directory.len() + 1 + other_id.len();
        assert(text[a as int] == '\n' && text[b as int] == '\n');
        assert(a == b);
        ech::lemma_base64_injective(key, other_key);
    }
}

// ---------------------------------------------------------------------------
// Keys and certificates
// ---------------------------------------------------------------------------

/// Why a certificate or a request could not be made; it is carried, never
/// looked into.
#[verifier::external_type_specification]
#[verifier::external_body]
pub struct ExRcgenError(rcgen::Error);

/// The SHA-256 digest of the bytes (FIPS 180-4).
pub uninterp spec fn sha256_of(data: Seq<u8>) -> Seq<u8>;

/// Calls `Sha256::digest` of `sha2`: the digest is a function of the bytes, and
/// has 32 bytes.
#[verifier::external_body]
fn sha256(data: &[u8]) -> (digest: Vec<u8>)
    ensures
        digest@ == sha256_of(data@),
        digest@.len() == 32,
{
    Sha256::digest(data).to_vec()
}

/// Whether all names are ASCII.
pub open spec fn all_ascii(names: Seq<Seq<char>>) -> bool {
    forall|i: int| 0 <= i < names.len() ==> is_ascii_chars(#[trigger] names[i])
}

/// Calls `CertificateParams::new` of `rcgen`: it takes a list of names if and
/// only if each is ASCII.
#[verifier::external_body]
fn certificate_params(names: Vec<String>) -> (res: Result<(), rcgen::Error>)
    ensures
        res is Ok <==> all_ascii(server::texts(names@)),
{
    let _params = CertificateParams::new(names)?;
    Ok(())
}

/// Whether the PEM text `cert_pem` is a certificate of the key `key_pem`, signed
/// with that key, for what `CertificateParams::new` makes of `name` (an IP
/// address for a literal, else a DNS name), with the critical extension
/// `acmeIdentifier` that holds `digest`.
pub uninterp spec fn answers_for(
    cert_pem: Seq<char>,
    key_pem: Seq<char>,
    name: Seq<char>,
    digest: Seq<u8>,
) -> bool;

/// Calls `KeyPair::generate` of `rcgen`: a fresh key, as PEM. It is random, and
/// nothing is claimed of it.
#[verifier::external_body]
fn new_key() -> (res: Result<String, rcgen::Error>) {
    Ok(KeyPair::generate()?.serialize_pem())
}

/// Makes, with `rcgen`, a certificate for `name`, signed with the key `key_pem`
/// (`CertificateParams::self_signed`), that carries `digest` in the
/// `acmeIdentifier` extension (`CustomExtension::new_acme_identifier`, which
/// panics where the digest has not 32 bytes). What is claimed of the PEM text is
/// that it is a certificate of the key for this name and this digest, and that
/// it is made for ASCII names only; the signature is random.
#[verifier::external_body]
fn sign_challenge(name: String, digest: &[u8], key_pem: &str) -> (res: Result<
    String,
    rcgen::Error,
>)
    requires
        digest@.len() == 32,
    ensures
        res is Ok ==> is_ascii_chars(name@),
        res matches Ok(cert_pem) ==> answers_for(cert_pem@, key_pem@, name@, digest@),
{
    let mut params = CertificateParams::new(vec![name])?;
    params.custom_extensions.push(CustomExtension::new_acme_identifier(digest));
    let key = KeyPair::from_pem(key_pem)?;
    Ok(params.self_signed(&key)?.pem())
}

/// The subject of a certificate: a list of attributes.
#[verifier::external_type_specification]
#[verifier::external_body]
pub struct ExDistinguishedName(DistinguishedName);

/// The values of a subject's attributes, in their order.
pub uninterp spec fn subject_values(subject: DistinguishedName) -> Seq<Seq<char>>;

/// `DistinguishedName::new` of `rcgen` makes a subject without attributes.
pub assume_specification[ DistinguishedName::new ]() -> (subject: DistinguishedName)
    ensures
        subject_values(subject) == Seq::<Seq<char>>::empty(),
;

/// Whether the DER bytes `csr_der` are a certificate request of the key
/// `key_pem`, signed with that key, for what `CertificateParams::new` makes of
/// each of `names`, with a subject whose attributes have the values `subject`.
pub uninterp spec fn requests(
    csr_der: Seq<u8>,
    key_pem: Seq<char>,
    names: Seq<Seq<char>>,
    subject: Seq<Seq<char>>,
) -> bool;

/// Makes, with `rcgen`, a certificate request for `names` with this subject,
/// signed with the key `key_pem` (`CertificateParams::serialize_request`), as
/// DER. What is claimed is that it is a request of that key for these names and
/// this subject, and that it is made for ASCII names only; the signature is
/// random.
#[verifier::external_body]
fn sign_request(names: Vec<String>, subject: DistinguishedName, key_pem: &str) -> (res: Result<
    Vec<u8>,
    rcgen::Error,
>)
    ensures
        res is Ok ==> all_ascii(server::texts(names@)),
        res matches Ok(csr_der) ==> requests(
            csr_der@,
            key_pem@,
            server::texts(names@),
            subject_values(subject),
        ),
{
    let mut params = CertificateParams::new(names)?;
    params.distinguished_name = subject;
    let key = KeyPair::from_pem(key_pem)?;
    Ok(params.serialize_request(&key)?.der().to_vec())
}

/// Whether the PEM text `cert_pem` is a certificate of the key `key_pem`, signed
/// with that key, for what `CertificateParams::new` makes of `name`.
pub uninterp spec fn made_for(cert_pem: Seq<char>, key_pem: Seq<char>, name: Seq<char>) -> bool;

/// Calls `generate_simple_self_signed` of `rcgen`: a key and a certificate for
/// `name`, signed with that key, as PEM. The key is random; what is claimed is
/// that the certificate is one of that key for this name, and that it is made
/// for ASCII names only.
#[verifier::external_body]
fn sign_throwaway(name: String) -> (res: Result<(String, String), rcgen::Error>)
    ensures
        res is Ok ==> is_ascii_chars(name@),
        res matches Ok(p) ==> made_for(p.0@, p.1@, name@),
{
    let made = rcgen::generate_simple_self_signed(vec![name])?;
    Ok((made.cert.pem(), made.key_pair.serialize_pem()))
}

/// What the answer to a challenge is made from.
#[derive(Debug)]
pub struct ChallengeInput {
    /// The name under validation.
    pub name: String,
    /// The digest of the key authorization.
    pub digest: Vec<u8>,
}

/// Whether `i` is what the answer for this name and key authorization is made from.
pub open spec fn is_challenge_input(
    domain: Seq<char>,
    key_authorization: Seq<char>,
    i: ChallengeInput,
) -> bool {
    i.name@ == domain && i.digest@ == sha256_of(encode_utf8(key_authorization))
}

/// What the answer to the challenge for `domain` is made from.
pub fn challenge_input(domain: &str, key_authorization: &str) -> (i: ChallengeInput)
    ensures
        i.name@ == domain@,
        i.digest@ == sha256_of(encode_utf8(key_authorization@)),
        i.digest@.len() == 32,
        is_challenge_input(domain@, key_authorization@, i),
{
    ChallengeInput { name: domain.to_owned(), digest: sha256(key_authorization.as_bytes()) }
}

/// One name as a list.
fn only(name: &String) -> (v: Vec<String>)
    ensures
        server::texts(v@) == seq![name@],
{
    let mut v: Vec<String> = Vec::new();
    v.push(name.clone());
    assert(server::texts(v@) == seq![name@]);
    v
}

/// The certificate that answers a challenge: of a fresh key, for the name, with
/// the digest. It is refused for a name that is not ASCII; otherwise it is up to
/// the key generator whether it is made.
pub fn challenge_certificate(input: &ChallengeInput) -> (r: Result<CertMaterial, CertError>)
    requires
        input.digest@.len() == 32,
    ensures
        r is Ok ==> is_ascii_chars(input.name@),
        r matches Ok(m) ==> answers_for(m.cert_pem@, m.key_pem@, input.name@, input.digest@),
        r matches Err(e) ==> (e is Names <==> !is_ascii_chars(input.name@)),
{
    let names = only(&input.name);
    assert(server::texts(names@)[0] == input.name@);
    match certificate_params(names) {
        Ok(()) => {},
        Err(error) => return Err(CertError::Names { error }),
    }
    let key_pem = match new_key() {
        Ok(key_pem) => key_pem,
        Err(error) => return Err(CertError::Key { error }),
    };
    match sign_challenge(input.name.clone(), input.digest.as_slice(), key_pem.as_str()) {
        Ok(cert_pem) => Ok(CertMaterial { cert_pem, key_pem }),
        Err(error) => Err(CertError::Signing { error }),
    }
}

/// The certificate that stands in until the first order is done.
pub fn throwaway_certificate(domain: &str) -> (r: Result<CertMaterial, CertError>)
    ensures
        r is Ok ==> is_ascii_chars(domain@),
        r matches Ok(m) ==> made_for(m.cert_pem@, m.key_pem@, domain@),
        r matches Err(e) ==> (e is Names <==> !is_ascii_chars(domain@)) && !(e is Key),
{
    let name = domain.to_owned();
    let names = only(&name);
    assert(server::texts(names@)[0] == domain@);
    match certificate_params(names) {
        Ok(()) => {},
        Err(error) => return Err(CertError::Names { error }),
    }
    match sign_throwaway(name) {
        Ok((cert_pem, key_pem)) => Ok(CertMaterial { cert_pem, key_pem }),
        Err(error) => Err(CertError::Signing { error }),
    }
}

fn clone_all(names: &Vec<String>) -> (out: Vec<String>)
    ensures
        server::texts(out@) == server::texts(names@),
{
    let mut out: Vec<String> = Vec::new();
    for i in 0..names.len()
        invariant
            server::texts(out@) == server::texts(names@).take(i as int),
    {
        let ghost before = out@;
        out.push(names[i].clone());
        assert(server::texts(out@) == server::texts(before).push(names@[i as int]@));
        assert(server::texts(names@).take(i + 1) == server::texts(names@).take(i as int).push(
            names@[i as int]@,
        ));
    }
    assert(server::texts(names@).take(names@.len() as int) == server::texts(names@));
    out
}

/// A request for a certificate, and the key that it is for.
#[derive(Debug)]
pub struct CertRequest {
    pub csr_der: Vec<u8>,
    pub key_pem: String,
}

/// A fresh key and a certificate request for `names` with an empty subject. It is
/// up to the key generator whether there is a key; where there is one, the
/// request is refused if and only if a name is not ASCII or it is not signed.
pub fn certificate_request(names: &Vec<String>) -> (r: Result<CertRequest, CertError>)
    ensures
        r is Ok ==> all_ascii(server::texts(names@)),
        r matches Ok(q) ==> requests(
            q.csr_der@,
            q.key_pem@,
            server::texts(names@),
            Seq::<Seq<char>>::empty(),
        ),
        r matches Err(e) ==> match e {
            CertError::Key { .. } => true,
            CertError::Names { .. } => !all_ascii(server::texts(names@)),
            CertError::Signing { .. } => all_ascii(server::texts(names@)),
        },
{
    let key_pem = match new_key() {
        Ok(key_pem) => key_pem,
        Err(error) => return Err(CertError::Key { error }),
    };
    match certificate_params(clone_all(names)) {
        Ok(()) => {},
        Err(error) => return Err(CertError::Names { error }),
    }
    match sign_request(clone_all(names), DistinguishedName::new(), key_pem.as_str()) {
        Ok(csr_der) => Ok(CertRequest { csr_der, key_pem }),
        Err(error) => Err(CertError::Signing { error }),
    }
}

/// Why a certificate or a request was not made.
#[derive(Debug)]
pub enum CertError {
    /// A name cannot stand in a certificate.
    Names { error: rcgen::Error },
    /// The key was not made.
    Key { error: rcgen::Error },
    /// The signature was not made.
    Signing { error: rcgen::Error },
}

/// What a certificate or a request was to be made for.
#[derive(Debug, Clone, Copy, PartialEq, Eq, Structural)]
pub enum CertPurpose {
    /// To answer a challenge.
    Challenge,
    /// To finalize an order.
    Request,
    /// To stand in until the first order is done.
    Throwaway,
}

impl CertError {
    /// What was being done when it went wrong. A throwaway certificate is made in
    /// one go.
    pub fn context(&self, purpose: CertPurpose) -> (c: &'static str)
        ensures
            c@ == match (purpose, *self) {
                (CertPurpose::Challenge, CertError::Names { .. }) => "challenge cert params"@,
                (CertPurpose::Challenge, CertError::Key { .. }) => "challenge keypair"@,
                (CertPurpose::Challenge, CertError::Signing { .. }) => "challenge cert sign"@,
                (CertPurpose::Request, CertError::Names { .. }) => "CSR params"@,
                (CertPurpose::Request, CertError::Key { .. }) => "generate cert keypair"@,
                (CertPurpose::Request, CertError::Signing { .. }) => "serialize CSR"@,
                (CertPurpose::Throwaway, _) => "generate bootstrap self-signed cert"@,
            },
    {
        match (purpose, self) {
            (CertPurpose::Challenge, CertError::Names { .. }) => "challenge cert params",
            (CertPurpose::Challenge, CertError::Key { .. }) => "challenge keypair",
            (CertPurpose::Challenge, CertError::Signing { .. }) => "challenge cert sign",
            (CertPurpose::Request, CertError::Names { .. }) => "CSR params",
            (CertPurpose::Request, CertError::Key { .. }) => "generate cert keypair",
            (CertPurpose::Request, CertError::Signing { .. }) => "serialize CSR",
            (CertPurpose::Throwaway, _) => "generate bootstrap self-signed cert",
        }
    }
}

// ---------------------------------------------------------------------------
// The order
// ---------------------------------------------------------------------------

/// What an authorization is for.
#[derive(Debug)]
pub enum AuthIdentifier {
    /// A DNS name.
    Dns(String),
    /// Anything else, as text.
    Other(String),
}

/// What the state of an order is.
#[derive(Debug)]
pub enum OrderProgress {
    /// It can be finalized.
    Ready,
    /// It has failed; this is what the authority says of it.
    Invalid(String),
    /// Neither yet.
    Waiting,
}

/// What comes back from the authority, or from an attempt to reach it.
#[derive(Debug)]
pub enum AcmeEvent {
    /// There are no more authorizations.
    NoMoreAuthorizations,
    /// The next authorization: whether it is still pending, what it is for, and
    /// the key authorization of its `tls-alpn-01` challenge, if it has one.
    Authorization {
        pending: bool,
        identifier: AuthIdentifier,
        key_authorization: Option<String>,
    },
    /// The answer to the challenge is installed, and the authority knows.
    ChallengeReady,
    /// The state of the order.
    Order(OrderProgress),
    /// A key and a request for the certificate were made.
    Request(CertRequest),
    /// The order is finalized.
    Finalized,
    /// The certificate chain, once there is one.
    Certificate(Option<String>),
    /// Something went wrong; this is what.
    Failure(String),
}

/// What is to be done next.
#[derive(Debug)]
pub enum AcmeAction {
    /// Ask for the next authorization.
    NextAuthorization,
    /// Make the challenge certificate, install it, and tell the authority.
    Answer { domain: String, key_authorization: String },
    /// Wait, then ask for the state of the order.
    PollOrder,
    /// Remove the answers for these names, and make a key and a request.
    MakeRequest { answered: Vec<String> },
    /// Finalize the order with this request.
    Finalize { csr_der: Vec<u8> },
    /// Wait, then ask for the certificate.
    PollCertificate,
    /// Store and use the certificate.
    Finish(CertMaterial),
    /// Give up.
    Fail(AcmeError),
}

/// Why an order failed.
#[derive(Debug)]
pub enum AcmeError {
    UnexpectedIdentifier { identifier: String },
    NoChallenge { domain: String },
    OrderInvalid { state: String },
    NotReadyInTime,
    NoCertificateInTime,
    Failure { what: String },
}

pub enum AcmeFault {
    UnexpectedIdentifier(Seq<char>),
    NoChallenge(Seq<char>),
    OrderInvalid(Seq<char>),
    NotReadyInTime,
    NoCertificateInTime,
    Failure(Seq<char>),
}

impl View for AcmeError {
    type V = AcmeFault;

    open spec fn view(&self) -> AcmeFault {
        match self {
            AcmeError::UnexpectedIdentifier { identifier } => AcmeFault::UnexpectedIdentifier(
                identifier@,
            ),
            AcmeError::NoChallenge { domain } => AcmeFault::NoChallenge(domain@),
            AcmeError::OrderInvalid { state } => AcmeFault::OrderInvalid(state@),
            AcmeError::NotReadyInTime => AcmeFault::NotReadyInTime,
            AcmeError::NoCertificateInTime => AcmeFault::NoCertificateInTime,
            AcmeError::Failure { what } => AcmeFault::Failure(what@),
        }
    }
}

/// The text that tells a user about a fault.
pub open spec fn acme_fault_text(f: AcmeFault) -> Seq<char> {
    match f {
        AcmeFault::UnexpectedIdentifier(i) => "unexpected identifier "@ + i,
        AcmeFault::NoChallenge(domain) => "no tls-alpn-01 challenge for "@ + domain,
        AcmeFault::OrderInvalid(state) => "order invalid: "@ + state,
        AcmeFault::NotReadyInTime => "ACME order timed out waiting for ready"@,
        AcmeFault::NoCertificateInTime => "certificate not available"@,
        AcmeFault::Failure(what) => what,
    }
}

impl AcmeError {
    /// The message for the user.
    pub fn message(&self) -> (m: String)
        ensures
            m@ == acme_fault_text(self@),
    {
        match self {
            AcmeError::UnexpectedIdentifier { identifier } => {
                let mut m = "unexpected identifier ".to_owned();
                m.append(identifier.as_str());
                m
            },
            AcmeError::NoChallenge { domain } => {
                let mut m = "no tls-alpn-01 challenge for ".to_owned();
                m.append(domain.as_str());
                m
            },
            AcmeError::OrderInvalid { state } => {
                let mut m = "order invalid: ".to_owned();
                m.append(state.as_str());
                m
            },
            AcmeError::NotReadyInTime => "ACME order timed out waiting for ready".to_owned(),
            AcmeError::NoCertificateInTime => "certificate not available".to_owned(),
            AcmeError::Failure { what } => what.clone(),
        }
    }
}

/// What is said of an event.
pub enum Event {
    NoMoreAuthorizations,
    Authorization {
        pending: bool,
        dns: Option<Seq<char>>,
        other: Seq<char>,
        key_authorization: Option<Seq<char>>,
    },
    ChallengeReady,
    OrderReady,
    OrderInvalid(Seq<char>),
    OrderWaiting,
    Request { csr_der: Seq<u8>, key_pem: Seq<char> },
    Finalized,
    Certificate(Option<Seq<char>>),
    Failure(Seq<char>),
}

/// The text of a string that may be missing.
pub open spec fn text_of(s: Option<String>) -> Option<Seq<char>> {
    match s {
        Some(s) => Some(s@),
        None => None,
    }
}

impl View for AcmeEvent {
    type V = Event;

    open spec fn view(&self) -> Event {
        match self {
            AcmeEvent::NoMoreAuthorizations => Event::NoMoreAuthorizations,
            AcmeEvent::Authorization { pending, identifier, key_authorization } =>
                Event::Authorization {
                pending: *pending,
                dns: match identifier {
                    AuthIdentifier::Dns(name) => Some(name@),
                    AuthIdentifier::Other(_) => None,
                },
                other: match identifier {
                    AuthIdentifier::Dns(_) => Seq::empty(),
                    AuthIdentifier::Other(text) => text@,
                },
                key_authorization: text_of(*key_authorization),
            },
            AcmeEvent::ChallengeReady => Event::ChallengeReady,
            AcmeEvent::Order(OrderProgress::Ready) => Event::OrderReady,
            AcmeEvent::Order(OrderProgress::Invalid(state)) => Event::OrderInvalid(state@),
            AcmeEvent::Order(OrderProgress::Waiting) => Event::OrderWaiting,
            AcmeEvent::Request(r) => Event::Request { csr_der: r.csr_der@, key_pem: r.key_pem@ },
            AcmeEvent::Finalized => Event::Finalized,
            AcmeEvent::Certificate(chain) => Event::Certificate(text_of(*chain)),
            AcmeEvent::Failure(what) => Event::Failure(what@),
        }
    }
}

/// What is said of an action.
#[verifier::ext_equal]
pub enum Action {
    NextAuthorization,
    Answer { domain: Seq<char>, key_authorization: Seq<char> },
    PollOrder,
    MakeRequest { answered: Seq<Seq<char>> },
    Finalize { csr_der: Seq<u8> },
    PollCertificate,
    Finish(CertTexts),
    Fail(AcmeFault),
}

impl View for AcmeAction {
    type V = Action;

    open spec fn view(&self) -> Action {
        match self {
            AcmeAction::NextAuthorization => Action::NextAuthorization,
            AcmeAction::Answer { domain, key_authorization } => Action::Answer {
                domain: domain@,
                key_authorization: key_authorization@,
            },
            AcmeAction::PollOrder => Action::PollOrder,
            AcmeAction::MakeRequest { answered } => Action::MakeRequest {
                answered: server::texts(answered@),
            },
            AcmeAction::Finalize { csr_der } => Action::Finalize { csr_der: csr_der@ },
            AcmeAction::PollCertificate => Action::PollCertificate,
            AcmeAction::Finish(m) => Action::Finish(m@),
            AcmeAction::Fail(e) => Action::Fail(e@),
        }
    }
}

/// Where an order stands.
#[derive(Debug)]
pub enum Phase {
    /// Authorizations are gone through.
    Authorizing,
    /// The challenge of this name is being answered.
    Answering { domain: String },
    /// The order is polled until it is ready; so many polls are left.
    AwaitingReady { tries_left: u32 },
    /// The request is being made.
    Requesting,
    /// The order is being finalized; this is the certificate's key.
    Finalizing { key_pem: String },
    /// The certificate is polled for; so many polls are left.
    AwaitingCertificate { key_pem: String, tries_left: u32 },
    /// It is over, well or badly.
    Over,
}

#[verifier::ext_equal]
pub enum Stage {
    Authorizing,
    Answering(Seq<char>),
    AwaitingReady(nat),
    Requesting,
    Finalizing(Seq<char>),
    AwaitingCertificate(Seq<char>, nat),
    Over,
}

impl View for Phase {
    type V = Stage;

    open spec fn view(&self) -> Stage {
        match self {
            Phase::Authorizing => Stage::Authorizing,
            Phase::Answering { domain } => Stage::Answering(domain@),
            Phase::AwaitingReady { tries_left } => Stage::AwaitingReady(*tries_left as nat),
            Phase::Requesting => Stage::Requesting,
            Phase::Finalizing { key_pem } => Stage::Finalizing(key_pem@),
            Phase::AwaitingCertificate { key_pem, tries_left } => Stage::AwaitingCertificate(
                key_pem@,
                *tries_left as nat,
            ),
            Phase::Over => Stage::Over,
        }
    }
}

/// An order: where it stands, and the names whose challenges were answered.
#[verifier::ext_equal]
pub struct OrderState {
    pub stage: Stage,
    pub answered: Seq<Seq<char>>,
}

/// The state in which every order begins.
pub open spec fn new_order() -> OrderState {
    OrderState { stage: Stage::Authorizing, answered: Seq::empty() }
}

/// Whether an event can come at a stage. A failure can come at any but the last.
pub open spec fn can_come(stage: Stage, e: Event) -> bool {
    match e {
        Event::NoMoreAuthorizations => stage is Authorizing,
        Event::Authorization { .. } => stage is Authorizing,
        Event::ChallengeReady => stage is Answering,
        Event::OrderReady => stage is AwaitingReady,
        Event::OrderInvalid(_) => stage is AwaitingReady,
        Event::OrderWaiting => stage is AwaitingReady,
        Event::Request { .. } => stage is Requesting,
        Event::Finalized => stage is Finalizing,
        Event::Certificate(_) => stage is AwaitingCertificate,
        Event::Failure(_) => !(stage is Over),
    }
}

/// What follows an event: the next state, and what is to be done.
pub open spec fn on_event(s: OrderState, e: Event) -> (OrderState, Action) {
    let over = OrderState { stage: Stage::Over, answered: s.answered };
    match (s.stage, e) {
        (_, Event::Failure(what)) => (over, Action::Fail(AcmeFault::Failure(what))),
        (Stage::Authorizing, Event::NoMoreAuthorizations) => (
            OrderState {
                stage: Stage::AwaitingReady(READY_TRIES as nat),
                answered: s.answered,
            },
            Action::PollOrder,
        ),
        (
            Stage::Authorizing,
            Event::Authorization { pending, dns, other, key_authorization },
        ) => if !pending {
            (s, Action::NextAuthorization)
        } else {
            match (dns, key_authorization) {
                (None, _) => (over, Action::Fail(AcmeFault::UnexpectedIdentifier(other))),
                (Some(domain), None) => (over, Action::Fail(AcmeFault::NoChallenge(domain))),
                (Some(domain), Some(key_authorization)) => (
                    OrderState { stage: Stage::Answering(domain), answered: s.answered },
                    Action::Answer { domain, key_authorization },
                ),
            }
        },
        (Stage::Answering(domain), Event::ChallengeReady) => (
            OrderState { stage: Stage::Authorizing, answered: s.answered.push(domain) },
            Action::NextAuthorization,
        ),
        (Stage::AwaitingReady(_), Event::OrderReady) => (
            OrderState { stage: Stage::Requesting, answered: s.answered },
            Action::MakeRequest { answered: s.answered },
        ),
        (Stage::AwaitingReady(_), Event::OrderInvalid(state)) => (
            over,
            Action::Fail(AcmeFault::OrderInvalid(state)),
        ),
        (Stage::AwaitingReady(left), Event::OrderWaiting) => if left <= 1 {
            (over, Action::Fail(AcmeFault::NotReadyInTime))
        } else {
            (
                OrderState {
                    stage: Stage::AwaitingReady((left - 1) as nat),
                    answered: s.answered,
                },
                Action::PollOrder,
            )
        },
        (Stage::Requesting, Event::Request { csr_der, key_pem }) => (
            OrderState { stage: Stage::Finalizing(key_pem), answered: s.answered },
            Action::Finalize { csr_der },
        ),
        (Stage::Finalizing(key_pem), Event::Finalized) => (
            OrderState {
                stage: Stage::AwaitingCertificate(key_pem, CERTIFICATE_TRIES as nat),
                answered: s.answered,
            },
            Action::PollCertificate,
        ),
        (Stage::AwaitingCertificate(key_pem, _), Event::Certificate(Some(cert_pem))) => (
            over,
            Action::Finish(CertTexts { cert_pem, key_pem }),
        ),
        (Stage::AwaitingCertificate(key_pem, left), Event::Certificate(None)) => if left <= 1 {
            (over, Action::Fail(AcmeFault::NoCertificateInTime))
        } else {
            (
                OrderState {
                    stage: Stage::AwaitingCertificate(key_pem, (left - 1) as nat),
                    answered: s.answered,
                },
                Action::PollCertificate,
            )
        },
        _ => (s, Action::Fail(AcmeFault::Failure(Seq::empty()))),
    }
}

/// An order on its way.
#[derive(Debug)]
pub struct IssueFlow {
    phase: Phase,
    answered: Vec<String>,
}

impl View for IssueFlow {
    type V = OrderState;

    closed spec fn view(&self) -> OrderState {
        OrderState { stage: self.phase@, answered: server::texts(self.answered@) }
    }
}

impl IssueFlow {
    /// A new order; the first thing to do is to ask for an authorization.
    pub fn new() -> (f: Self)
        ensures
            f@ == new_order(),
    {
        let f = IssueFlow { phase: Phase::Authorizing, answered: Vec::new() };
        assert(f@ == new_order());
        f
    }

    /// Whether the event can come where the order stands.
    pub fn expects(&self, e: &AcmeEvent) -> (r: bool)
        ensures
            r == can_come(self@.stage, e@),
    {
        match (e, &self.phase) {
            (AcmeEvent::NoMoreAuthorizations, Phase::Authorizing) => true,
            (AcmeEvent::Authorization { .. }, Phase::Authorizing) => true,
            (AcmeEvent::ChallengeReady, Phase::Answering { .. }) => true,
            (AcmeEvent::Order(_), Phase::AwaitingReady { .. }) => true,
            (AcmeEvent::Request(_), Phase::Requesting) => true,
            (AcmeEvent::Finalized, Phase::Finalizing { .. }) => true,
            (AcmeEvent::Certificate(_), Phase::AwaitingCertificate { .. }) => true,
            (AcmeEvent::Failure(_), Phase::Over) => false,
            (AcmeEvent::Failure(_), _) => true,
            _ => false,
        }
    }

    /// Takes in an event, and says what is to be done.
    pub fn step(&mut self, e: AcmeEvent) -> (a: AcmeAction)
        requires
            can_come(old(self)@.stage, e@),
        ensures
            (final(self)@, a@) == on_event(old(self)@, e@),
    {
        let mut phase = Phase::Over;
        std::mem::swap(&mut phase, &mut self.phase);
        match e {
            AcmeEvent::Failure(what) => AcmeAction::Fail(AcmeError::Failure { what }),
            AcmeEvent::NoMoreAuthorizations => {
                self.phase = Phase::AwaitingReady { tries_left: READY_TRIES };
                AcmeAction::PollOrder
            },
            AcmeEvent::Authorization { pending, identifier, key_authorization } => {
                if !pending {
                    self.phase = Phase::Authorizing;
                    return AcmeAction::NextAuthorization;
                }
                let domain = match identifier {
                    AuthIdentifier::Dns(domain) => domain,
                    AuthIdentifier::Other(identifier) => {
                        return AcmeAction::Fail(AcmeError::UnexpectedIdentifier { identifier });
                    },
                };
                match key_authorization {
                    Some(key_authorization) => {
                        self.phase = Phase::Answering { domain: domain.clone() };
                        AcmeAction::Answer { domain, key_authorization }
                    },
                    None => AcmeAction::Fail(AcmeError::NoChallenge { domain }),
                }
            },
            AcmeEvent::ChallengeReady => {
                if let Phase::Answering { domain } = phase {
                    let ghost before = self.answered@;
                    self.answered.push(domain);
                    assert(server::texts(self.answered@) == server::texts(before).push(domain@));
                }
                self.phase = Phase::Authorizing;
                AcmeAction::NextAuthorization
            },
            AcmeEvent::Order(OrderProgress::Ready) => {
                self.phase = Phase::Requesting;
                AcmeAction::MakeRequest { answered: clone_all(&self.answered) }
            },
            AcmeEvent::Order(OrderProgress::Invalid(state)) => AcmeAction::Fail(
                AcmeError::OrderInvalid { state },
            ),
            AcmeEvent::Order(OrderProgress::Waiting) => {
                if let Phase::AwaitingReady { tries_left } = phase {
                    if tries_left > 1 {
                        self.phase = Phase::AwaitingReady { tries_left: tries_left - 1 };
                        return AcmeAction::PollOrder;
                    }
                }
                AcmeAction::Fail(AcmeError::NotReadyInTime)
            },
            AcmeEvent::Request(r) => {
                self.phase = Phase::Finalizing { key_pem: r.key_pem };
                AcmeAction::Finalize { csr_der: r.csr_der }
            },
            AcmeEvent::Finalized => {
                if let Phase::Finalizing { key_pem } = phase {
                    self.phase = Phase::AwaitingCertificate {
                        key_pem,
                        tries_left: CERTIFICATE_TRIES,
                    };
                }
                AcmeAction::PollCertificate
            },
            AcmeEvent::Certificate(chain) => {
                if let Phase::AwaitingCertificate { key_pem, tries_left } = phase {
                    match chain {
                        Some(cert_pem) => {
                            return AcmeAction::Finish(CertMaterial { cert_pem, key_pem });
                        },
                        None => if tries_left > 1 {
                            self.phase = Phase::AwaitingCertificate {
                                key_pem,
                                tries_left: tries_left - 1,
                            };
                            return AcmeAction::PollCertificate;
                        },
                    }
                }
                AcmeAction::Fail(AcmeError::NoCertificateInTime)
            },
        }
    }
}

// ---------------------------------------------------------------------------
// Laws
// ---------------------------------------------------------------------------

/// Once a certificate is due it stays due; one that is not due has at least
/// the window before it expires.
pub proof fn law_due_stays_due(chain: Option<Seq<i64>>, now: i64, later: i64)
    requires
        now <= later,
    ensures
        is_due(chain, now) ==> is_due(chain, later),
        !is_due(chain, now) ==> (chain matches Some(times) && times.len() > 0 && times[0] - now
            >= RENEWAL_WINDOW_DAYS * 86_400),
{
}

/// The state of an order after a history of events.
pub open spec fn run(events: Seq<Event>) -> OrderState
    decreases events.len(),
{
    if events.len() == 0 {
        new_order()
    } else {
        on_event(run(events.drop_last()), events.last()).0
    }
}

/// Whether every event of a history could come when it came.
pub open spec fn is_orderly(events: Seq<Event>) -> bool
    decreases events.len(),
{
    events.len() > 0 ==> is_orderly(events.drop_last()) && can_come(
        run(events.drop_last()).stage,
        events.last(),
    )
}

/// The names whose challenges a history had to answer, in order.
pub open spec fn names_answered(events: Seq<Event>) -> Seq<Seq<char>>
    decreases events.len(),
{
    if events.len() == 0 {
        Seq::empty()
    } else {
        let front = names_answered(events.drop_last());
        match on_event(run(events.drop_last()), events.last()).1 {
            Action::Answer { domain, .. } => front.push(domain),
            _ => front,
        }
    }
}

/// How many polls of a history found the order not ready.
pub open spec fn waits(events: Seq<Event>) -> nat
    decreases events.len(),
{
    if events.len() == 0 {
        0
    } else {
        waits(events.drop_last()) + if events.last() is OrderWaiting {
            1nat
        } else {
            0nat
        }
    }
}

/// How many polls of a history found no certificate.
pub open spec fn misses(events: Seq<Event>) -> nat
    decreases events.len(),
{
    if events.len() == 0 {
        0
    } else {
        misses(events.drop_last()) + if events.last() == Event::Certificate(None) {
            1nat
        } else {
            0nat
        }
    }
}

/// An order does not go on for ever: it is found not ready at most 60 times and
/// without a certificate at most 30 times, and it is over once it was so as
/// often as that.
pub proof fn law_polls_are_bounded(events: Seq<Event>)
    requires
        is_orderly(events),
    ensures
        waits(events) <= READY_TRIES,
        misses(events) <= CERTIFICATE_TRIES,
        waits(events) == READY_TRIES ==> run(events).stage is Over,
        misses(events) == CERTIFICATE_TRIES ==> run(events).stage is Over,
        run(events).stage matches Stage::AwaitingReady(left) ==> waits(events) + left
            == READY_TRIES && left >= 1,
        run(events).stage matches Stage::AwaitingCertificate(_, left) ==> misses(events) + left
            == CERTIFICATE_TRIES && left >= 1,
{
    lemma_polls(events);
}

proof fn lemma_polls(events: Seq<Event>)
    requires
        is_orderly(events),
    ensures
        match run(events).stage {
            Stage::Authorizing => waits(events) == 0 && misses(events) == 0,
            Stage::Answering(_) => waits(events) == 0 && misses(events) == 0,
            Stage::AwaitingReady(left) => waits(events) + left == READY_TRIES && left >= 1
                && misses(events) == 0,
            Stage::Requesting => waits(events) < READY_TRIES && misses(events) == 0,
            Stage::Finalizing(_) => waits(events) < READY_TRIES && misses(events) == 0,
            Stage::AwaitingCertificate(_, left) => waits(events) < READY_TRIES && misses(events)
                + left == CERTIFICATE_TRIES && left >= 1,
            Stage::Over => waits(events) <= READY_TRIES && misses(events) <= CERTIFICATE_TRIES,
        },
    decreases events.len(),
{
    if events.len() > 0 {
        lemma_polls(events.drop_last());
    }
}

/// Nothing comes after the end of an order.
pub proof fn law_end_is_final(s: OrderState, e: Event)
    requires
        s.stage is Over,
    ensures
        !can_come(s.stage, e),
{
}

/// The names to clean up after are exactly those that had to be answered: when
/// the order is ready, removing them leaves no answer in the store.
pub proof fn law_answers_are_cleaned_up<C>(events: Seq<Event>, store: Map<Seq<char>, C>)
    requires
        is_orderly(events),
        run(events).stage is AwaitingReady,
    ensures
        on_event(run(events), Event::OrderReady).1 == (Action::MakeRequest {
            answered: names_answered(events),
        }),
        forall|i: int|
            0 <= i < names_answered(events).len() ==> !challenge::without_all(
                store,
                names_answered(events),
            ).contains_key(#[trigger] names_answered(events)[i]),
        forall|name: Seq<char>|
            !names_answered(events).contains(name) ==> challenge::without_all(
                store,
                names_answered(events),
            ).contains_key(name) == #[trigger] store.contains_key(name),
{
    lemma_answered(events);
    let names = names_answered(events);
    assert forall|i: int| 0 <= i < names.len() implies !challenge::without_all(
        store,
        names,
    ).contains_key(#[trigger] names[i]) by {
        assert(names.to_set().contains(names[i]));
    }
}

proof fn lemma_answered(events: Seq<Event>)
    requires
        is_orderly(events),
    ensures
        match run(events).stage {
            Stage::Answering(domain) => names_answered(events) == run(events).answered.push(domain),
            Stage::Over => true,
            _ => names_answered(events) == run(events).answered,
        },
    decreases events.len(),
{
    if events.len() > 0 {
        lemma_answered(events.drop_last());
    }
}

/// A certificate comes with the key that its request was made with, and only
/// after the order was ready.
pub proof fn law_certificate_has_its_key(events: Seq<Event>, chain: Seq<char>)
    requires
        is_orderly(events),
        can_come(run(events).stage, Event::Certificate(Some(chain))),
    ensures
        on_event(run(events), Event::Certificate(Some(chain))).1 matches Action::Finish(m)
            && m.cert_pem == chain && was_requested(events, m.key_pem),
        events.contains(Event::OrderReady),
{
    lemma_key(events);
}

/// Whether a request was made with this key.
pub open spec fn was_requested(events: Seq<Event>, key_pem: Seq<char>) -> bool {
    exists|i: int|
        0 <= i < events.len() && (#[trigger] events[i] matches Event::Request { key_pem: k, .. }
            && k == key_pem)
}

proof fn lemma_key(events: Seq<Event>)
    requires
        is_orderly(events),
    ensures
        match run(events).stage {
            Stage::Requesting => events.contains(Event::OrderReady),
            Stage::Finalizing(key) => events.contains(Event::OrderReady) && was_requested(
                events,
                key,
            ),
            Stage::AwaitingCertificate(key, _) => events.contains(Event::OrderReady)
                && was_requested(events, key),
            _ => true,
        },
    decreases events.len(),
{
    if events.len() > 0 {
        let front = events.drop_last();
        lemma_key(front);
        let last = events.len() - 1;
        assert(events[last] == events.last());
        if front.contains(Event::OrderReady) {
            let i = choose|i: int| 0 <= i < front.len() && front[i] == Event::OrderReady;
            assert(events[i] == Event::OrderReady);
        }
        assert forall|key: Seq<char>| was_requested(front, key) implies was_requested(
            events,
            key,
        ) by {
            let i = choose|i: int|
                0 <= i < front.len() && (#[trigger] front[i] matches Event::Request {
                    key_pem: k,
                    ..
                } && k == key);
            assert(events[i] == front[i]);
        }
    }
}

/// A certificate is due if and only if its leaf expires less than thirty days from
/// now, or there is no leaf to look at; later certificates of the chain do not
/// matter.
pub proof fn law_due_by_the_leaf(times: Seq<i64>, others: Seq<i64>, leaf: i64, now: i64)
    ensures
        is_due(None, now),
        is_due(Some(Seq::empty()), now),
        is_due(Some(seq![leaf] + others), now) <==> leaf - now < 30 * 24 * 60 * 60,
        is_due(Some(seq![leaf] + times), now) == is_due(Some(seq![leaf] + others), now),
{
}

/// The cache serves if and only if both of its files are there and its certificate
/// is not due. The daily look orders where the file can be read and is due: never
/// while the cache serves, and always where it can be read and does not.
pub proof fn law_cache_and_renewal(
    cert_pem: Seq<char>,
    key_pem: Seq<char>,
    chain: Option<Seq<i64>>,
    now: i64,
)
    ensures
        !cache_serves(None, Some(key_pem), chain, now),
        !cache_serves(Some(cert_pem), None, chain, now),
        cache_serves(Some(cert_pem), Some(key_pem), chain, now) <==> !is_due(chain, now),
        cache_serves(Some(cert_pem), Some(key_pem), chain, now) <==> !order_is_due(
            true,
            chain,
            now,
        ),
        !order_is_due(false, chain, now),
{
}

/// Days count 24 hours, and spans add up.
pub proof fn law_spans_add_up(a: int, b: int, s: int, t: int)
    ensures
        span(0, s) == s,
        span(1, 0) == 24 * 60 * 60,
        span(a + b, s + t) == span(a, s) + span(b, t),
{
    assert((a + b) * 86_400 == a * 86_400 + b * 86_400) by (nonlinear_arith);
}

/// A challenge is answered for the name and with the key authorization that the
/// authority gave, character by character, whatever was answered before; then the
/// name counts as answered once the authority knows.
pub proof fn law_challenge_is_answered_as_given(
    s: OrderState,
    domain: String,
    key_authorization: String,
)
    requires
        s.stage is Authorizing,
    ensures
        ({
            let e = AcmeEvent::Authorization {
                pending: true,
                identifier: AuthIdentifier::Dns(domain),
                key_authorization: Some(key_authorization),
            };
            let (next, action) = on_event(s, e@);
            &&& action == (Action::Answer {
                domain: domain@,
                key_authorization: key_authorization@,
            })
            &&& next.stage == Stage::Answering(domain@)
            &&& next.answered == s.answered
            &&& on_event(next, AcmeEvent::ChallengeReady@).0.answered == s.answered.push(domain@)
            &&& on_event(next, AcmeEvent::ChallengeReady@).0.stage is Authorizing
            &&& on_event(next, AcmeEvent::ChallengeReady@).1 is NextAuthorization
        }),
{
}

/// An action says what it is about as it is: what is answered, removed, sent or
/// stored is what stands in it.
pub proof fn law_actions_say_what_they_hold(a: AcmeAction)
    ensures
        match a {
            AcmeAction::Answer { domain, key_authorization } => a@ == (Action::Answer {
                domain: domain@,
                key_authorization: key_authorization@,
            }),
            AcmeAction::Finalize { csr_der } => a@ == (Action::Finalize { csr_der: csr_der@ }),
            AcmeAction::MakeRequest { answered } => a@ matches Action::MakeRequest {
                answered: names,
            } && names.len() == answered@.len() && forall|i: int|
                0 <= i < names.len() ==> #[trigger] names[i] == answered@[i]@,
            AcmeAction::Finish(m) => a@ == Action::Finish(
                (CertTexts { cert_pem: m.cert_pem@, key_pem: m.key_pem@ }),
            ),
            AcmeAction::Fail(e) => a@ == Action::Fail(e@),
            AcmeAction::NextAuthorization => a@ is NextAuthorization,
            AcmeAction::PollOrder => a@ is PollOrder,
            AcmeAction::PollCertificate => a@ is PollCertificate,
        },
{
}

/// Authorizations that are not pending are passed over, and one that cannot be
/// answered ends the order with the reason.
pub proof fn law_other_authorizations(
    s: OrderState,
    identifier: AuthIdentifier,
    key_authorization: Option<String>,
    domain: String,
    other: String,
)
    requires
        s.stage is Authorizing,
    ensures
        on_event(
            s,
            AcmeEvent::Authorization { pending: false, identifier, key_authorization }@,
        ) == (s, Action::NextAuthorization),
        ({
            let e = AcmeEvent::Authorization {
                pending: true,
                identifier: AuthIdentifier::Dns(domain),
                key_authorization: None,
            };
            on_event(s, e@).0.stage is Over && on_event(s, e@).1 == Action::Fail(
                AcmeFault::NoChallenge(domain@),
            )
        }),
        ({
            let e = AcmeEvent::Authorization {
                pending: true,
                identifier: AuthIdentifier::Other(other),
                key_authorization,
            };
            on_event(s, e@).0.stage is Over && on_event(s, e@).1 == Action::Fail(
                AcmeFault::UnexpectedIdentifier(other@),
            )
        }),
        on_event(s, AcmeEvent::NoMoreAuthorizations@) == (
            OrderState { stage: Stage::AwaitingReady(60), answered: s.answered },
            Action::PollOrder,
        ),
{
}

/// From a ready order to its certificate: the answers that were given are cleaned
/// up, the order is finalized with exactly the request that was made, and the chain
/// that comes is finished with the key of that request.
pub proof fn law_request_is_sent_as_made(
    s: OrderState,
    left: nat,
    request: CertRequest,
    chain: String,
)
    requires
        s.stage == Stage::AwaitingReady(left),
    ensures
        ({
            let (a, clean_up) = on_event(s, AcmeEvent::Order(OrderProgress::Ready)@);
            let (b, finalize) = on_event(a, AcmeEvent::Request(request)@);
            let (c, poll) = on_event(b, AcmeEvent::Finalized@);
            let (d, finish) = on_event(c, AcmeEvent::Certificate(Some(chain))@);
            &&& clean_up == (Action::MakeRequest { answered: s.answered })
            &&& a.stage is Requesting
            &&& finalize == (Action::Finalize { csr_der: request.csr_der@ })
            &&& poll is PollCertificate
            &&& c.stage == Stage::AwaitingCertificate(request.key_pem@, 30)
            &&& finish == Action::Finish(
                CertTexts { cert_pem: chain@, key_pem: request.key_pem@ },
            )
            &&& d.stage is Over
        }),
{
}

/// Polling goes on while polls are left and ends when the last one was in vain; an
/// order that is invalid, and any failure, ends it with what was said.
pub proof fn law_polling(s: OrderState, key: Seq<char>, left: nat, what: String)
    ensures
        s.stage == Stage::AwaitingReady(left) && left > 1 ==> on_event(
            s,
            AcmeEvent::Order(OrderProgress::Waiting)@,
        ) == (
            OrderState { stage: Stage::AwaitingReady((left - 1) as nat), answered: s.answered },
            Action::PollOrder,
        ),
        s.stage == Stage::AwaitingReady(left) && left <= 1 ==> {
            let (next, action) = on_event(s, AcmeEvent::Order(OrderProgress::Waiting)@);
            next.stage is Over && action == Action::Fail(AcmeFault::NotReadyInTime)
        },
        s.stage == Stage::AwaitingCertificate(key, left) && left > 1 ==> on_event(
            s,
            AcmeEvent::Certificate(None)@,
        ) == (
            OrderState {
                stage: Stage::AwaitingCertificate(key, (left - 1) as nat),
                answered: s.answered,
            },
            Action::PollCertificate,
        ),
        s.stage == Stage::AwaitingCertificate(key, left) && left <= 1 ==> {
            let (next, action) = on_event(s, AcmeEvent::Certificate(None)@);
            next.stage is Over && action == Action::Fail(AcmeFault::NoCertificateInTime)
        },
        s.stage is AwaitingReady ==> {
            let (next, action) = on_event(s, AcmeEvent::Order(OrderProgress::Invalid(what))@);
            next.stage is Over && action == Action::Fail(AcmeFault::OrderInvalid(what@))
        },
        !(s.stage is Over) ==> {
            let (next, action) = on_event(s, AcmeEvent::Failure(what)@);
            next.stage is Over && action == Action::Fail(AcmeFault::Failure(what@))
        },
{
}

/// What can come when: every stage takes the answers to what was asked last, and a
/// failure; nothing else.
pub proof fn law_what_can_come(stage: Stage, e: AcmeEvent)
    ensures
        can_come(stage, e@) <==> match stage {
            Stage::Authorizing => e is NoMoreAuthorizations || e is Authorization || e is Failure,
            Stage::Answering(_) => e is ChallengeReady || e is Failure,
            Stage::AwaitingReady(_) => e is Order || e is Failure,
            Stage::Requesting => e is Request || e is Failure,
            Stage::Finalizing(_) => e is Finalized || e is Failure,
            Stage::AwaitingCertificate(_, _) => e is Certificate || e is Failure,
            Stage::Over => false,
        },
        new_order().stage is Authorizing,
        new_order().answered.len() == 0,
{
}

/// The message of a failed order says what the authority or the network said.
pub proof fn law_failures_are_told(what: Seq<char>)
    ensures
        acme_fault_text(AcmeFault::Failure(what)) == what,
        acme_fault_text(AcmeFault::OrderInvalid(what)) == "order invalid: "@ + what,
        acme_fault_text(AcmeFault::NoChallenge(what)) == "no tls-alpn-01 challenge for "@ + what,
        acme_fault_text(AcmeFault::UnexpectedIdentifier(what)) == "unexpected identifier "@ + what,
{
}

/// What is stored of an account is three lines: the directory, the identifier, and
/// the text of the key.
pub proof fn law_account_is_three_lines(directory: Seq<char>, id: Seq<char>, key: Seq<u8>)
    ensures
        ({
            let text = account_text(directory, id, key);
            let (d, i) = (directory.len() as int, id.len() as int);
            &&& text.take(d) == directory
            &&& text[d] == '\n'
            &&& text.subrange(d + 1, d + 1 + i) == id
            &&& text[d + 1 + i] == '\n'
            &&& text.skip(d + i + 2) == ech::base64_text(key).push('\n')
        }),
{
    reveal_strlit("\n");
    let text = account_text(directory, id, key);
    let (d, i) = (directory.len() as int, id.len() as int);
    assert(text.take(d) =~= directory);
    assert(text.subrange(d + 1, d + 1 + i) =~= id);
    assert(text.skip(d + i + 2) =~= ech::base64_text(key).push('\n'));
}

/// The account's contact is the e-mail address as it is, behind `mailto:`.
pub proof fn law_contact_is_the_address(email: Seq<char>)
    ensures
        contact_text(email).len() == 7 + email.len(),
        contact_text(email).take(7) == seq!['m', 'a', 'i', 'l', 't', 'o', ':'],
        contact_text(email).skip(7) == email,
{
    reveal_strlit("mailto:");
    assert(contact_text(email).take(7) =~= seq!['m', 'a', 'i', 'l', 't', 'o', ':']);
    assert(contact_text(email).skip(7) =~= email);
}

/// A directory that is given is used as it is, staging or not; otherwise staging and
/// production orders go to two different directories of Let's Encrypt.
pub proof fn law_directories(given: Seq<char>, staging: bool)
    ensures
        directory_text(Some(given), staging) == given,
        directory_text(None, false) == "https://acme-v02.api.letsencrypt.org/directory"@,
        directory_text(None, true) == "https://acme-staging-v02.api.letsencrypt.org/directory"@,
        directory_text(None, true) != directory_text(None, false),
{
    reveal_strlit("https://acme-v02.api.letsencrypt.org/directory");
    reveal_strlit("https://acme-staging-v02.api.letsencrypt.org/directory");
    assert(directory_text(None, true).len() != directory_text(None, false).len());
}

/// From the authority's challenge to the certificate that answers it: the name in it
/// is the one under validation, and the digest in it is that of the key authorization
/// that the authority gave, byte by byte.
pub proof fn law_certificate_answers_the_challenge(
    s: OrderState,
    domain: String,
    key_authorization: String,
    input: ChallengeInput,
)
    requires
        s.stage is Authorizing,
        ({
            let e = AcmeEvent::Authorization {
                pending: true,
                identifier: AuthIdentifier::Dns(domain),
                key_authorization: Some(key_authorization),
            };
            on_event(s, e@).1 matches Action::Answer { domain: d, key_authorization: k }
                && is_challenge_input(d, k, input)
        }),
    ensures
        input.name@ == domain@,
        input.digest@ == sha256_of(encode_utf8(key_authorization@)),
{
}

/// A certificate that was finished and stored is what the cache gives, chain and key
/// each in its place.
pub proof fn law_stored_certificate_is_cached(m: CertMaterial, cert: Seq<char>, key: Seq<char>)
    ensures
        is_cached(Some(cert), Some(key), m) <==> m.cert_pem@ == cert && m.key_pem@ == key,
        !is_cached(None, Some(key), m),
        !is_cached(Some(cert), None, m),
        m@.cert_pem == m.cert_pem@ && m@.key_pem == m.key_pem@,
{
}

} // verus!
