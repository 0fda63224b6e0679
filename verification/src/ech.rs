//! Encrypted Client Hello: the server's key and the ECHConfigList.
//!
//! The server holds an HPKE X25519 key and the public name that is advertised
//! in the cleartext ClientHello. The TLS stack itself makes the key and
//! marshals the ECHConfig; what is kept here is the key's file, the framing of
//! the list, its text form, and the checks around all of these.
//!
//! The key's file:
//!
//! ```text
//! [u8 config_id]
//! [u16 BE name_len]
//! [name_len bytes UTF-8 public_name]
//! [32 bytes raw X25519 private key]
//! ```

use base64::engine::general_purpose::STANDARD;
use base64::Engine;
use vstd::prelude::*;
use vstd::utf8::*;

use crate::fingerprint::random_byte;
use crate::sip003;
use crate::sip003::escape;
use crate::text;
use crate::text::{decimal_string, quoted, read_utf8, trim};
use crate::wire;
use crate::wire::{put_u16, u16_from};

verus! {

pub const X25519_PRIVATE_KEY_LEN: usize = 32;

/// Zero leaves it to the TLS stack to pick the usual maximum when it pads the
/// inner ClientHello.
pub const MAX_NAME_LENGTH: usize = 0;

/// The server's ECH key.
pub struct EchServerKey {
    config_id: u8,
    public_name: String,
    private_key: [u8; X25519_PRIVATE_KEY_LEN],
}

/// The contents of an ECH key.
#[verifier::ext_equal]
pub struct EchKey {
    pub config_id: u8,
    pub public_name: Seq<char>,
    pub private_key: Seq<u8>,
}

impl View for EchServerKey {
    type V = EchKey;

    closed spec fn view(&self) -> EchKey {
        EchKey {
            config_id: self.config_id,
            public_name: self.public_name@,
            private_key: self.private_key@,
        }
    }
}

/// What can go wrong with ECH material.
pub enum EchFault {
    /// The public name is empty.
    EmptyName,
    /// The private key has not 32 bytes.
    KeyLength(nat),
    /// The public name holds a NUL byte, the first one here.
    NulInName(nat),
    /// The TLS stack did not marshal the ECHConfig.
    MarshalFailed,
    /// The ECHConfig is longer than its length prefix can say.
    ConfigTooLarge,
    /// The public name is longer than its length prefix can say.
    NameTooLong,
    /// The key's file ends before the name's length.
    FileTooShort(nat),
    /// The key's file has the first length, not the second; the name's is the
    /// third.
    FileLength(nat, nat, nat),
    /// The public name is not UTF-8; this is why.
    NotUtf8(Seq<char>),
    /// The text is not base64; this is why.
    NotBase64(Seq<char>),
}

/// What went wrong with ECH material.
#[derive(Debug)]
pub enum EchError {
    EmptyName,
    KeyLength { len: usize },
    NulInName { position: usize },
    MarshalFailed,
    ConfigTooLarge,
    NameTooLong,
    FileTooShort { len: usize },
    FileLength { len: usize, expected: usize, name_len: usize },
    NotUtf8 { cause: String },
    NotBase64 { cause: String },
}

impl View for EchError {
    type V = EchFault;

    open spec fn view(&self) -> EchFault {
        match self {
            EchError::EmptyName => EchFault::EmptyName,
            EchError::KeyLength { len } => EchFault::KeyLength(*len as nat),
            EchError::NulInName { position } => EchFault::NulInName(*position as nat),
            EchError::MarshalFailed => EchFault::MarshalFailed,
            EchError::ConfigTooLarge => EchFault::ConfigTooLarge,
            EchError::NameTooLong => EchFault::NameTooLong,
            EchError::FileTooShort { len } => EchFault::FileTooShort(*len as nat),
            EchError::FileLength { len, expected, name_len } => EchFault::FileLength(
                *len as nat,
                *expected as nat,
                *name_len as nat,
            ),
            EchError::NotUtf8 { cause } => EchFault::NotUtf8(cause@),
            EchError::NotBase64 { cause } => EchFault::NotBase64(cause@),
        }
    }
}

/// The text that tells a user about a fault.
pub open spec fn ech_fault_text(f: EchFault) -> Seq<char> {
    match f {
        EchFault::EmptyName => "ECH public_name must be non-empty"@,
        EchFault::KeyLength(n) => "unexpected HPKE private key length: "@ + text::decimal(n),
        EchFault::NulInName(position) => "public_name has NUL byte: "@
            + "nul byte found in provided data at position: "@ + text::decimal(position),
        EchFault::MarshalFailed => "SSL_marshal_ech_config failed"@,
        EchFault::ConfigTooLarge => "ECHConfig too large for u16 length prefix: "@
            + "out of range integral type conversion attempted"@,
        EchFault::NameTooLong => "public_name too long: "@
            + "out of range integral type conversion attempted"@,
        EchFault::FileTooShort(n) => "ECH key file too short (got "@ + text::decimal(n)
            + " bytes)"@,
        EchFault::FileLength(n, expected, name_len) => "ECH key file length mismatch: got "@
            + text::decimal(n) + " bytes, expected "@ + text::decimal(expected) + " (nlen="@
            + text::decimal(name_len) + ")"@,
        EchFault::NotUtf8(cause) => "public_name not valid UTF-8: "@ + cause,
        EchFault::NotBase64(cause) => "decode ECHConfigList base64: "@ + cause,
    }
}

impl EchError {
    /// The message for the user.
    pub fn message(&self) -> (m: String)
        ensures
            m@ == ech_fault_text(self@),
    {
        match self {
            EchError::EmptyName => "ECH public_name must be non-empty".to_owned(),
            EchError::KeyLength { len } => {
                let mut m = "unexpected HPKE private key length: ".to_owned();
                m.append(decimal_string(*len).as_str());
                m
            },
            EchError::NulInName { position } => {
                let mut m = "public_name has NUL byte: ".to_owned();
                m.append("nul byte found in provided data at position: ");
                m.append(decimal_string(*position).as_str());
                m
            },
            EchError::MarshalFailed => "SSL_marshal_ech_config failed".to_owned(),
            EchError::ConfigTooLarge => {
                let mut m = "ECHConfig too large for u16 length prefix: ".to_owned();
                m.append("out of range integral type conversion attempted");
                m
            },
            EchError::NameTooLong => {
                let mut m = "public_name too long: ".to_owned();
                m.append("out of range integral type conversion attempted");
                m
            },
            EchError::FileTooShort { len } => {
                let mut m = "ECH key file too short (got ".to_owned();
                m.append(decimal_string(*len).as_str());
                m.append(" bytes)");
                m
            },
            EchError::FileLength { len, expected, name_len } => {
                let mut m = "ECH key file length mismatch: got ".to_owned();
                m.append(decimal_string(*len).as_str());
                m.append(" bytes, expected ");
                m.append(decimal_string(*expected).as_str());
                m.append(" (nlen=");
                m.append(decimal_string(*name_len).as_str());
                m.append(")");
                m
            },
            EchError::NotUtf8 { cause } => {
                let mut m = "public_name not valid UTF-8: ".to_owned();
                m.append(cause.as_str());
                m
            },
            EchError::NotBase64 { cause } => {
                let mut m = "decode ECHConfigList base64: ".to_owned();
                m.append(cause.as_str());
                m
            },
        }
    }
}

// ---------------------------------------------------------------------------
// The key and its file
// ---------------------------------------------------------------------------

/// The contents of a key's file.
pub open spec fn key_file(k: EchKey) -> Seq<u8> {
    seq![k.config_id] + wire::vector(encode_utf8(k.public_name), 2) + k.private_key
}

/// The key in a file.
pub open spec fn key_in_file(file: Seq<u8>) -> Result<EchKey, EchFault> {
    let name_len = wire::big_endian(file.subrange(1, 3)) as int;
    let expected = 1 + 2 + name_len + X25519_PRIVATE_KEY_LEN;
    let name = file.subrange(3, 3 + name_len);
    if file.len() < 3 {
        Err(EchFault::FileTooShort(file.len()))
    } else if file.len() != expected {
        Err(EchFault::FileLength(file.len(), expected as nat, name_len as nat))
    } else if !valid_utf8(name) {
        Err(EchFault::NotUtf8(text::utf8_fault_text(name)))
    } else {
        Ok(
            EchKey {
                config_id: file[0],
                public_name: decode_utf8(name),
                private_key: file.skip(3 + name_len),
            },
        )
    }
}

/// Whether `k` is a key with this name and these key bytes.
pub open spec fn is_key_with(k: EchKey, public_name: Seq<char>, private_key: Seq<u8>) -> bool {
    k.public_name == public_name && k.private_key == private_key
}

/// Why a key with this name and these key bytes is refused.
pub open spec fn key_fault(public_name: Seq<char>, private_key: Seq<u8>) -> Option<EchFault> {
    if public_name.len() == 0 {
        Some(EchFault::EmptyName)
    } else if private_key.len() != X25519_PRIVATE_KEY_LEN {
        Some(EchFault::KeyLength(private_key.len()))
    } else {
        None
    }
}

/// What a log shows of a key.
pub open spec fn redacted_text(config_id: u8, public_name: Seq<char>) -> Seq<char> {
    "EchServerKey { config_id: "@ + text::decimal(config_id as nat) + ", public_name: "@
        + text::debug_quoted(public_name) + ", private_key: \"<32 bytes>\" }"@
}

/// What the TLS stack is asked to marshal.
pub struct MarshalInput {
    pub config_id: u8,
    /// 32 bytes.
    pub private_key: Vec<u8>,
    /// The name with a NUL byte behind it.
    pub public_name: Vec<u8>,
    pub max_name_length: usize,
}

/// Whether `i` is what the TLS stack is handed for the key `k`.
pub open spec fn is_marshal_input(k: EchKey, i: MarshalInput) -> bool {
    &&& i.config_id == k.config_id
    &&& i.private_key@ == k.private_key
    &&& i.public_name@ == encode_utf8(k.public_name).push(0u8)
    &&& i.max_name_length == MAX_NAME_LENGTH
    &&& !encode_utf8(k.public_name).contains(0u8)
}

/// The ECHConfig in the TLS stack's answer, if it has one.
pub open spec fn marshalled(rc: i32, out: Option<Seq<u8>>) -> Option<Seq<u8>> {
    if rc == 1 {
        out
    } else {
        None
    }
}

/// The bytes of a vector that may be missing.
pub open spec fn bytes_of(v: Option<Vec<u8>>) -> Option<Seq<u8>> {
    match v {
        Some(v) => Some(v@),
        None => None,
    }
}

fn key_array(bytes: &[u8]) -> (key: [u8; X25519_PRIVATE_KEY_LEN])
    requires
        bytes@.len() == X25519_PRIVATE_KEY_LEN,
    ensures
        key@ == bytes@,
{
    let mut key: [u8; X25519_PRIVATE_KEY_LEN] = [0u8; X25519_PRIVATE_KEY_LEN];
    for i in 0..X25519_PRIVATE_KEY_LEN
        invariant
            bytes@.len() == X25519_PRIVATE_KEY_LEN,
            key@.len() == X25519_PRIVATE_KEY_LEN,
            forall|j: int| 0 <= j < i ==> key@[j] == bytes@[j],
    {
        key[i] = bytes[i];
    }
    key
}

/// Whether the first NUL byte stands at `i`.
pub open spec fn first_nul_at(bytes: Seq<u8>, i: nat) -> bool {
    &&& i < bytes.len()
    &&& bytes[i as int] == 0
    &&& forall|j: int| 0 <= j < i ==> bytes[j] != 0
}

fn first_nul(bytes: &[u8]) -> (r: Option<usize>)
    ensures
        match r {
            Some(i) => first_nul_at(bytes@, i as nat),
            None => !bytes@.contains(0u8),
        },
{
    for i in 0..bytes.len()
        invariant
            forall|j: int| 0 <= j < i ==> bytes@[j] != 0,
    {
        if bytes[i] == 0 {
            return Some(i);
        }
    }
    None
}

impl Clone for EchServerKey {
    fn clone(&self) -> (k: Self)
        ensures
            k@ == self@,
    {
        let k = EchServerKey {
            config_id: self.config_id,
            public_name: self.public_name.clone(),
            private_key: key_array(self.private_key.as_slice()),
        };
        assert(k@ == self@);
        k
    }
}

impl EchServerKey {
    /// The key with the given parts: `private_key` is what the TLS stack
    /// generated.
    pub fn with_config_id(config_id: u8, public_name: &str, private_key: &[u8]) -> (r: Result<
        Self,
        EchError,
    >)
        ensures
            match r {
                Ok(k) => key_fault(public_name@, private_key@) is None && k@ == (EchKey {
                    config_id,
                    public_name: public_name@,
                    private_key: private_key@,
                }),
                Err(e) => key_fault(public_name@, private_key@) == Some(e@),
            },
            r matches Ok(k) ==> is_key_with(k@, public_name@, private_key@),
    {
        if public_name.is_empty() {
            return Err(EchError::EmptyName);
        }
        if private_key.len() != X25519_PRIVATE_KEY_LEN {
            return Err(EchError::KeyLength { len: private_key.len() });
        }
        Ok(
            EchServerKey {
                config_id,
                public_name: public_name.to_owned(),
                private_key: key_array(private_key),
            },
        )
    }

    /// A fresh key: `private_key` is what the TLS stack generated, the
    /// `config_id` is random.
    pub fn generate(public_name: &str, private_key: &[u8]) -> (r: Result<Self, EchError>)
        ensures
            match r {
                Ok(k) => key_fault(public_name@, private_key@) is None && k@.public_name
                    == public_name@ && k@.private_key == private_key@,
                Err(e) => key_fault(public_name@, private_key@) == Some(e@),
            },
            r matches Ok(k) ==> is_key_with(k@, public_name@, private_key@),
    {
        let config_id: u8 = random_byte();
        EchServerKey::with_config_id(config_id, public_name, private_key)
    }

    /// The key as text for a log, without its secret.
    pub fn redacted(&self) -> (t: String)
        ensures
            t@ == redacted_text(self@.config_id, self@.public_name),
    {
        let mut t = "EchServerKey { config_id: ".to_owned();
        t.append(decimal_string(self.config_id as usize).as_str());
        t.append(", public_name: ");
        t.append(quoted(self.public_name.as_str()).as_str());
        t.append(", private_key: \"<32 bytes>\" }");
        t
    }

    pub fn config_id(&self) -> (id: u8)
        ensures
            id == self@.config_id,
    {
        self.config_id
    }

    pub fn public_name(&self) -> (name: &str)
        ensures
            name@ == self@.public_name,
    {
        self.public_name.as_str()
    }

    /// What the TLS stack is handed to marshal the ECHConfig. A name with a NUL
    /// byte cannot be handed over.
    pub fn marshal_input(&self) -> (r: Result<MarshalInput, EchError>)
        ensures
            match r {
                Ok(i) => {
                    &&& !encode_utf8(self@.public_name).contains(0u8)
                    &&& i.config_id == self@.config_id
                    &&& i.private_key@ == self@.private_key
                    &&& i.private_key@.len() == X25519_PRIVATE_KEY_LEN
                    &&& i.public_name@ == encode_utf8(self@.public_name).push(0u8)
                    &&& i.max_name_length == MAX_NAME_LENGTH
                },
                Err(e) => e@ matches EchFault::NulInName(i) && first_nul_at(
                    encode_utf8(self@.public_name),
                    i,
                ),
            },
            r matches Ok(i) ==> is_marshal_input(self@, i),
    {
        let name = self.public_name.as_str().as_bytes();
        if let Some(position) = first_nul(name) {
            return Err(EchError::NulInName { position });
        }
        let mut public_name: Vec<u8> = Vec::new();
        public_name.extend_from_slice(name);
        public_name.push(0);
        let mut private_key: Vec<u8> = Vec::new();
        private_key.extend_from_slice(self.private_key.as_slice());
        assert(private_key@ =~= self@.private_key);
        assert(public_name@ =~= encode_utf8(self@.public_name).push(0u8));
        let input = MarshalInput {
            config_id: self.config_id,
            private_key,
            public_name,
            max_name_length: MAX_NAME_LENGTH,
        };
        assert(is_marshal_input(self@, input));
        Ok(input)
    }

    /// The ECHConfig out of the TLS stack's answer: it succeeded if and only if
    /// it says 1 and gave bytes.
    pub fn marshal_config(rc: i32, out: Option<Vec<u8>>) -> (r: Result<Vec<u8>, EchError>)
        ensures
            match r {
                Ok(v) => rc == 1 && out == Some(v),
                Err(e) => (rc != 1 || out is None) && e@ == EchFault::MarshalFailed,
            },
            match r {
                Ok(v) => marshalled(rc, bytes_of(out)) == Some(v@),
                Err(_) => marshalled(rc, bytes_of(out)) is None,
            },
    {
        match out {
            Some(v) => if rc == 1 {
                Ok(v)
            } else {
                Err(EchError::MarshalFailed)
            },
            None => Err(EchError::MarshalFailed),
        }
    }

    /// Wraps one ECHConfig into an ECHConfigList: its length in two bytes, then
    /// the ECHConfig.
    pub fn marshal_config_list(config: &[u8]) -> (r: Result<Vec<u8>, EchError>)
        ensures
            match r {
                Ok(list) => config@.len() <= 0xffff && list@ == wire::vector(config@, 2),
                Err(e) => config@.len() > 0xffff && e@ == EchFault::ConfigTooLarge,
            },
    {
        let len: usize = config.len();
        if len > 0xffff {
            return Err(EchError::ConfigTooLarge);
        }
        let mut list: Vec<u8> = Vec::new();
        put_u16(&mut list, len as u16);
        list.extend_from_slice(config);
        assert(list@ == wire::vector(config@, 2));
        Ok(list)
    }

    /// Appends the contents of the key's file to `out`.
    pub fn write_to(&self, out: &mut Vec<u8>) -> (r: Result<(), EchError>)
        ensures
            match r {
                Ok(()) => encode_utf8(self@.public_name).len() <= 0xffff && final(out)@ == old(
                    out,
                )@ + key_file(self@),
                Err(e) => encode_utf8(self@.public_name).len() > 0xffff && final(out)@ == old(
                    out,
                )@ && e@ == EchFault::NameTooLong,
            },
    {
        let name = self.public_name.as_str().as_bytes();
        let len: usize = name.len();
        if len > 0xffff {
            return Err(EchError::NameTooLong);
        }
        out.push(self.config_id);
        put_u16(out, len as u16);
        out.extend_from_slice(name);
        out.extend_from_slice(self.private_key.as_slice());
        assert(out@ == old(out)@ + key_file(self@));
        Ok(())
    }

    /// Reads the contents of a key's file.
    pub fn read_from(file: &[u8]) -> (r: Result<Self, EchError>)
        ensures
            match r {
                Ok(k) => key_in_file(file@) == Ok::<_, EchFault>(k@),
                Err(e) => key_in_file(file@) == Err::<EchKey, _>(e@),
            },
    {
        let len: usize = file.len();
        if len < 3 {
            return Err(EchError::FileTooShort { len });
        }
        let config_id: u8 = file[0];
        let name_len: usize = u16_from(file[1], file[2]) as usize;
        assert(file@.subrange(1, 3) == seq![file@[1], file@[2]]);
        let expected: usize = 1 + 2 + name_len + X25519_PRIVATE_KEY_LEN;
        if len != expected {
            return Err(EchError::FileLength { len, expected, name_len });
        }
        let name_bytes = &file[3..3 + name_len];
        assert(name_bytes@ == file@.subrange(3, 3 + name_len));
        let public_name = match read_utf8(name_bytes) {
            Ok(s) => s.to_owned(),
            Err(cause) => return Err(EchError::NotUtf8 { cause }),
        };
        proof {
            encode_utf8_decode_utf8(public_name@);
        }
        let key_bytes = &file[3 + name_len..len];
        assert(key_bytes@ == file@.skip(3 + name_len));
        let private_key = key_array(key_bytes);
        Ok(EchServerKey { config_id, public_name, private_key })
    }
}

// ---------------------------------------------------------------------------
// The list as text
// ---------------------------------------------------------------------------

/// The character for six bits in the standard alphabet.
pub open spec fn sextet_char(n: nat) -> char
    recommends
        n < 64,
{
    if n < 26 {
        ((65 + n) as u32) as char
    } else if n < 52 {
        ((71 + n) as u32) as char
    } else if n < 62 {
        ((n - 4) as u32) as char
    } else if n == 62 {
        '+'
    } else {
        '/'
    }
}

/// Base64 with the standard alphabet: four characters for three bytes, the last
/// group filled up with `=`.
pub open spec fn base64_text(b: Seq<u8>) -> Seq<char>
    decreases b.len(),
{
    if b.len() == 0 {
        Seq::empty()
    } else if b.len() == 1 {
        seq![sextet_char(b[0] as nat / 4), sextet_char(b[0] as nat % 4 * 16), '=', '=']
    } else if b.len() == 2 {
        seq![
            sextet_char(b[0] as nat / 4),
            sextet_char(b[0] as nat % 4 * 16 + b[1] as nat / 16),
            sextet_char(b[1] as nat % 16 * 4),
            '=',
        ]
    } else {
        seq![
            sextet_char(b[0] as nat / 4),
            sextet_char(b[0] as nat % 4 * 16 + b[1] as nat / 16),
            sextet_char(b[1] as nat % 16 * 4 + b[2] as nat / 64),
            sextet_char(b[2] as nat % 64),
        ] + base64_text(b.skip(3))
    }
}

/// Calls `base64`'s `encode` on the `STANDARD` engine: the standard alphabet,
/// with padding. It panics where the text would be longer than any string.
#[verifier::external_body]
fn base64_encode(bytes: &[u8]) -> (res: String)
    requires
        (bytes@.len() + 2) / 3 * 4 <= isize::MAX,
    ensures
        res@ == base64_text(bytes@),
{
    STANDARD.encode(bytes)
}

/// What the error of `base64`'s `decode` on this text says, as text.
pub uninterp spec fn decode_fault_text(s: Seq<char>) -> Seq<char>;

/// Calls `base64`'s `decode` on the `STANDARD` engine. It takes canonical
/// padding only and refuses stray bits in the last character, so it succeeds
/// exactly on what encoding makes, and gives back what was encoded. Of the error's
/// text the contract only says that it depends on `s` and on nothing else.
#[verifier::external_body]
pub(crate) fn base64_decode(s: &str) -> (res: Result<Vec<u8>, String>)
    ensures
        match res {
            Ok(v) => s@ == base64_text(v@),
            Err(t) => t@ == decode_fault_text(s@) && forall|v: Seq<u8>|
                s@ != #[trigger] base64_text(v),
        },
{
    STANDARD.decode(s).map_err(|e| e.to_string())
}

/// The binary ECHConfigList in a base64 text; space around it is ignored.
pub fn decode_config_list_b64(b64: &str) -> (r: Result<Vec<u8>, EchError>)
    ensures
        match r {
            Ok(list) => text::trimmed(b64@) == base64_text(list@),
            Err(e) => e@ == EchFault::NotBase64(decode_fault_text(text::trimmed(b64@))) && forall|
                v: Seq<u8>,
            |
                text::trimmed(b64@) != #[trigger] base64_text(v),
        },
{
    match base64_decode(trim(b64).as_str()) {
        Ok(list) => Ok(list),
        Err(cause) => Err(EchError::NotBase64 { cause }),
    }
}

/// The bytes as base64 text.
pub fn encode_config_list_b64(bytes: &[u8]) -> (b64: String)
    requires
        (bytes@.len() + 2) / 3 * 4 <= isize::MAX,
    ensures
        b64@ == base64_text(bytes@),
{
    base64_encode(bytes)
}

/// What is printed when a key was made.
pub open spec fn keygen_report_text(
    public_name: Seq<char>,
    key_path: Seq<char>,
    list_path: Seq<char>,
    b64: Seq<char>,
) -> Seq<char> {
    "Wrote "@ + key_path + "\nWrote "@ + list_path + "\n\nECHConfigList (base64):\n"@ + b64
        + "\n\nServer plugin options:\n    ech_public_name="@ + public_name + ";ech_key="@ + key_path
        + "\nClient plugin options:\n    "@ + client_option(b64) + "\n"@
}

/// The option that gives the client the list with this text, ready to be pasted.
pub open spec fn client_option(b64: Seq<char>) -> Seq<char> {
    "ech_config="@ + sip003::escaped(b64)
}

/// The report on a key that was made: where the files are, the list as text, and
/// the options for both sides. In the client's option the padding of the text is
/// escaped.
pub fn keygen_report(public_name: &str, key_path: &str, list_path: &str, b64: &str) -> (r: String)
    ensures
        r@ == keygen_report_text(public_name@, key_path@, list_path@, b64@),
{
    let mut r = "Wrote ".to_owned();
    r.append(key_path);
    r.append("\nWrote ");
    r.append(list_path);
    r.append("\n\nECHConfigList (base64):\n");
    r.append(b64);
    r.append("\n\nServer plugin options:\n    ech_public_name=");
    r.append(public_name);
    r.append(";ech_key=");
    r.append(key_path);
    r.append("\nClient plugin options:\n    ");
    let mut option = "ech_config=".to_owned();
    option.append(escape(b64).as_str());
    r.append(option.as_str());
    r.append("\n");
    r
}

// ---------------------------------------------------------------------------
// Laws
// ---------------------------------------------------------------------------

/// Every key has 32 private bytes.
pub proof fn law_key_has_its_length(k: EchServerKey)
    ensures
        k@.private_key.len() == X25519_PRIVATE_KEY_LEN,
{
}

/// A key that was written is read back as it was.
pub proof fn law_written_key_is_read_back(k: EchKey)
    requires
        encode_utf8(k.public_name).len() <= 0xffff,
        k.private_key.len() == X25519_PRIVATE_KEY_LEN,
    ensures
        key_in_file(key_file(k)) == Ok::<_, EchFault>(k),
{
    let name = encode_utf8(k.public_name);
    let file = key_file(k);
    let n = name.len();
    wire::lemma_be_bytes_len(n, 2);
    wire::lemma_capacity();
    wire::lemma_be_round_trip(n, 2);
    assert(file.subrange(1, 3) == wire::be_bytes(n, 2));
    assert(file.subrange(3, 3 + n as int) == name);
    assert(file.skip(3 + n as int) == k.private_key);
    encode_utf8_valid_utf8(k.public_name);
    encode_utf8_decode_utf8(k.public_name);
}

/// A file that is read is the one that the key would be written to.
pub proof fn law_read_key_is_written_back(file: Seq<u8>, k: EchKey)
    requires
        key_in_file(file) == Ok::<_, EchFault>(k),
    ensures
        key_file(k) == file,
        encode_utf8(k.public_name).len() <= 0xffff,
        k.private_key.len() == X25519_PRIVATE_KEY_LEN,
{
    let prefix = file.subrange(1, 3);
    let n = wire::big_endian(prefix);
    let name = file.subrange(3, 3 + n as int);
    decode_utf8_encode_utf8(name);
    wire::lemma_big_endian_round_trip(prefix);
    wire::lemma_big_endian_short(prefix);
    assert(key_file(k) == file);
}

/// The list holds the ECHConfig behind its length, and nothing else.
pub proof fn law_list_holds_the_config(config: Seq<u8>)
    requires
        config.len() <= 0xffff,
    ensures
        wire::vector(config, 2).len() == 2 + config.len(),
        wire::big_endian(wire::vector(config, 2).take(2)) == config.len(),
        wire::prefixed(wire::vector(config, 2), 2) == Some((config, Seq::<u8>::empty())),
{
    wire::lemma_be_bytes_len(config.len(), 2);
    wire::lemma_capacity();
    wire::lemma_be_round_trip(config.len(), 2);
    wire::lemma_vector_round_trip(config, 2, Seq::empty());
    assert(wire::vector(config, 2).take(2) == wire::be_bytes(config.len(), 2));
    assert(wire::vector(config, 2) + Seq::<u8>::empty() == wire::vector(config, 2));
}

/// The six bits that a character stands for.
spec fn sextet_value(c: char) -> nat {
    if 'A' <= c <= 'Z' {
        (c as nat - 65) as nat
    } else if 'a' <= c <= 'z' {
        (c as nat - 71) as nat
    } else if '0' <= c <= '9' {
        (c as nat + 4) as nat
    } else if c == '+' {
        62
    } else {
        63
    }
}

/// Whether `c` is of the standard alphabet.
pub open spec fn is_base64_char(c: char) -> bool {
    'A' <= c <= 'Z' || 'a' <= c <= 'z' || '0' <= c <= '9' || c == '+' || c == '/'
}

proof fn lemma_sextet(n: nat)
    requires
        n < 64,
    ensures
        sextet_value(sextet_char(n)) == n,
        is_base64_char(sextet_char(n)),
{
}

pub proof fn lemma_base64_shape(b: Seq<u8>)
    ensures
        base64_text(b).len() == (b.len() + 2) / 3 * 4,
        forall|i: int|
            0 <= i < base64_text(b).len() ==> is_base64_char(#[trigger] base64_text(b)[i])
                || base64_text(b)[i] == '=',
        b.len() % 3 == 0 ==> forall|i: int|
            0 <= i < base64_text(b).len() ==> is_base64_char(#[trigger] base64_text(b)[i]),
    decreases b.len(),
{
    if b.len() >= 1 {
        lemma_sextet(b[0] as nat / 4);
        lemma_sextet(b[0] as nat % 4 * 16);
    }
    if b.len() >= 2 {
        lemma_sextet(b[0] as nat % 4 * 16 + b[1] as nat / 16);
        lemma_sextet(b[1] as nat % 16 * 4);
    }
    if b.len() >= 3 {
        lemma_sextet(b[1] as nat % 16 * 4 + b[2] as nat / 64);
        lemma_sextet(b[2] as nat % 64);
        lemma_base64_shape(b.skip(3));
        assert forall|i: int| 0 <= i < base64_text(b).len() implies is_base64_char(
            #[trigger] base64_text(b)[i],
        ) || (b.len() % 3 != 0 && base64_text(b)[i] == '=') by {
            if i >= 4 {
                assert(base64_text(b)[i] == base64_text(b.skip(3))[i - 4]);
            }
        }
    }
}

/// Different bytes have different texts.
pub proof fn lemma_base64_injective(a: Seq<u8>, b: Seq<u8>)
    requires
        base64_text(a) == base64_text(b),
    ensures
        a == b,
    decreases a.len(),
{
    lemma_base64_shape(a);
    lemma_base64_shape(b);
    let s = base64_text(a);
    if a.len() == 0 || b.len() == 0 {
        assert(a.len() == 0 && b.len() == 0);
        assert(a == b);
    } else {
        lemma_first_group(a);
        lemma_first_group(b);
        assert(group_len(a) == group_len(b));
        assert(a.take(group_len(a)) == b.take(group_len(b)));
        if group_len(a) == 3 {
            assert(s.skip(4) == base64_text(a.skip(3)));
            assert(s.skip(4) == base64_text(b.skip(3)));
            lemma_base64_injective(a.skip(3), b.skip(3));
            assert(a == a.take(3) + a.skip(3));
            assert(b == b.take(3) + b.skip(3));
        } else {
            assert(a == a.take(group_len(a)));
            assert(b == b.take(group_len(b)));
        }
    }
}

/// The number of bytes in the first group.
spec fn group_len(b: Seq<u8>) -> int {
    if b.len() < 3 {
        b.len() as int
    } else {
        3
    }
}

/// The first four characters determine the first group of bytes.
proof fn lemma_first_group(b: Seq<u8>)
    requires
        b.len() > 0,
    ensures
        base64_text(b).len() >= 4,
        base64_text(b)[2] == '=' <==> group_len(b) == 1,
        base64_text(b)[3] == '=' <==> group_len(b) <= 2,
        b[0] == sextet_value(base64_text(b)[0]) * 4 + sextet_value(base64_text(b)[1]) / 16,
        group_len(b) >= 2 ==> b[1] == sextet_value(base64_text(b)[1]) % 16 * 16 + sextet_value(
            base64_text(b)[2],
        ) / 4,
        group_len(b) >= 3 ==> b[2] == sextet_value(base64_text(b)[2]) % 4 * 64 + sextet_value(
            base64_text(b)[3],
        ),
{
    lemma_base64_shape(b);
    lemma_sextet(b[0] as nat / 4);
    lemma_sextet(b[0] as nat % 4 * 16);
    if b.len() >= 2 {
        lemma_sextet(b[0] as nat % 4 * 16 + b[1] as nat / 16);
        lemma_sextet(b[1] as nat % 16 * 4);
    }
    if b.len() >= 3 {
        lemma_sextet(b[1] as nat % 16 * 4 + b[2] as nat / 64);
        lemma_sextet(b[2] as nat % 64);
    }
}

/// Encoding and decoding are inverse: the text of a list, with or without space
/// around it, decodes to that list and to no other.
pub proof fn law_base64_round_trip(
    list: Seq<u8>,
    other: Seq<u8>,
    before: Seq<char>,
    after: Seq<char>,
)
    requires
        forall|i: int| 0 <= i < before.len() ==> text::is_white_space(#[trigger] before[i]),
        forall|i: int| 0 <= i < after.len() ==> text::is_white_space(#[trigger] after[i]),
    ensures
        text::trimmed(before + base64_text(list) + after) == base64_text(other) <==> list == other,
{
    let t = base64_text(list);
    lemma_base64_shape(list);
    text::lemma_trim_surrounded(before, t, after);
    if t == base64_text(other) {
        lemma_base64_injective(list, other);
    }
}

/// The option that the report gives for the client can be pasted, whatever the
/// list: alone, or behind other options `before` that leave no escape open, it is
/// read as `ech_config` with the text of the list. A list whose length is a
/// multiple of three has a text without padding, which needs no escape.
pub proof fn law_list_can_be_pasted(list: Seq<u8>, before: Seq<char>)
    ensures
        sip003::options_of(client_option(base64_text(list))) == Ok::<_, sip003::OptionsFault>(
            map!["ech_config"@ => base64_text(list)],
        ),
        sip003::balanced(before) ==> (sip003::options_of(before) matches Ok(m)
            ==> sip003::options_of(before + seq![';'] + client_option(base64_text(list))) == Ok::<
            _,
            sip003::OptionsFault,
        >(m.insert("ech_config"@, base64_text(list)))),
        list.len() % 3 == 0 ==> client_option(base64_text(list)) == "ech_config="@ + base64_text(
            list,
        ),
{
    reveal_strlit("ech_config=");
    reveal_strlit("ech_config");
    let t = base64_text(list);
    lemma_base64_shape(list);
    assert("ech_config="@ == "ech_config"@ + seq!['=']);
    sip003::law_escaped_value_is_read(before, "ech_config"@, t);
    if list.len() % 3 == 0 {
        sip003::lemma_plain(t);
    }
}

/// The options that the report gives for the server can be pasted as they are,
/// where name and path hold no `;`, `=` or backslash.
pub proof fn law_server_options_can_be_pasted(public_name: Seq<char>, key_path: Seq<char>)
    requires
        sip003::is_plain(public_name),
        sip003::is_plain(key_path),
    ensures
        sip003::options_of("ech_public_name="@ + public_name + ";ech_key="@ + key_path) == Ok::<
            _,
            sip003::OptionsFault,
        >(map!["ech_public_name"@ => public_name, "ech_key"@ => key_path]),
{
    reveal_strlit("ech_public_name=");
    reveal_strlit("ech_public_name");
    reveal_strlit(";ech_key=");
    reveal_strlit("ech_key");
    let a = "ech_public_name"@ + seq!['='] + public_name;
    let b = "ech_key"@ + seq!['='] + key_path;
    assert("ech_public_name="@ + public_name + ";ech_key="@ + key_path == a + seq![';'] + b);
    sip003::law_plain_values_need_no_escape("ech_public_name"@, public_name);
    sip003::law_plain_values_need_no_escape("ech_key"@, key_path);
    sip003::lemma_plain_is_balanced(a);
    sip003::law_joined_options(a, b);
    assert("ech_public_name"@.len() != "ech_key"@.len());
    assert(map!["ech_public_name"@ => public_name].union_prefer_right(
        map!["ech_key"@ => key_path],
    ) == map!["ech_public_name"@ => public_name, "ech_key"@ => key_path]);
}

/// The layout of a key's file: the config id, the length of the name in two bytes,
/// the name as UTF-8, and the 32 bytes of the private key.
pub proof fn law_key_file_layout(k: EchKey)
    requires
        encode_utf8(k.public_name).len() <= 0xffff,
    ensures
        ({
            let file = key_file(k);
            let name = encode_utf8(k.public_name);
            let n = name.len() as int;
            &&& file.len() == 3 + n + k.private_key.len()
            &&& file[0] == k.config_id
            &&& 256 * file[1] + file[2] == n
            &&& file.subrange(3, 3 + n) == name
            &&& file.skip(3 + n) == k.private_key
        }),
{
    let name = encode_utf8(k.public_name);
    let n = name.len() as int;
    wire::law_numbers_are_big_endian(0, 0, 0, name.len());
    let file = key_file(k);
    assert(file[1] == wire::be_bytes(name.len(), 2)[0]);
    assert(file[2] == wire::be_bytes(name.len(), 2)[1]);
    assert(file.subrange(3, 3 + n) =~= name);
    assert(file.skip(3 + n) =~= k.private_key);
}

/// A file is read if and only if it has exactly the length that it announces and its
/// name is UTF-8; it gives the key that stands in it. Otherwise the fault says which
/// of these is wrong, with the lengths.
pub proof fn law_reading_a_key_file(file: Seq<u8>)
    ensures
        file.len() < 3 ==> key_in_file(file) == Err::<EchKey, _>(
            EchFault::FileTooShort(file.len()),
        ),
        file.len() >= 3 ==> {
            let n = 256 * file[1] + file[2];
            let name = file.subrange(3, 3 + n);
            &&& file.len() != 35 + n ==> key_in_file(file) == Err::<EchKey, _>(
                EchFault::FileLength(file.len(), (35 + n) as nat, n as nat),
            )
            &&& file.len() == 35 + n && !valid_utf8(name) ==> key_in_file(file) == Err::<
                EchKey,
                _,
            >(EchFault::NotUtf8(text::utf8_fault_text(name)))
            &&& file.len() == 35 + n && valid_utf8(name) ==> (key_in_file(file) matches Ok(k)
                && k.config_id == file[0] && encode_utf8(k.public_name) == name && k.private_key
                == file.skip(3 + n))
        },
{
    if file.len() >= 3 {
        assert(file.subrange(1, 3) =~= seq![file[1], file[2]]);
        wire::law_numbers_are_big_endian(file[1], file[2], 0, 0);
        let n = 256 * file[1] + file[2];
        let name = file.subrange(3, 3 + n);
        if valid_utf8(name) {
            decode_utf8_encode_utf8(name);
        }
    }
}

/// A key is refused if and only if its name is empty, which is reported first, or its
/// private part has not 32 bytes.
pub proof fn law_refused_keys(name: Seq<char>, key: Seq<u8>)
    ensures
        name.len() == 0 ==> key_fault(name, key) == Some(EchFault::EmptyName),
        name.len() > 0 && key.len() != 32 ==> key_fault(name, key) == Some(
            EchFault::KeyLength(key.len()),
        ),
        name.len() > 0 && key.len() == 32 ==> key_fault(name, key) is None,
{
}

/// The TLS stack is handed the key as it is: its id, its 32 bytes, and its name with
/// one NUL byte, at the end.
pub proof fn law_key_is_handed_over_as_it_is(k: EchKey, i: MarshalInput)
    requires
        is_marshal_input(k, i),
    ensures
        i.config_id == k.config_id,
        i.private_key@ == k.private_key,
        i.public_name@.len() == encode_utf8(k.public_name).len() + 1,
        i.public_name@.last() == 0,
        i.public_name@.drop_last() == encode_utf8(k.public_name),
        forall|j: int|
            0 <= j < i.public_name@.len() - 1 ==> #[trigger] i.public_name@[j] != 0,
        i.max_name_length == 0,
{
    let name = encode_utf8(k.public_name);
    assert(i.public_name@.drop_last() =~= name);
    assert forall|j: int| 0 <= j < i.public_name@.len() - 1 implies #[trigger] i.public_name@[j]
        != 0 by {
        assert(i.public_name@[j] == name[j]);
        assert(name.contains(name[j]));
    }
}

/// An ECHConfig is taken from the TLS stack if and only if it says 1 and gave bytes,
/// and it is those bytes; the list holds its length in two bytes before it.
pub proof fn law_config_is_taken_as_it_is(rc: i32, config: Seq<u8>)
    ensures
        marshalled(1, Some(config)) == Some(config),
        rc != 1 ==> marshalled(rc, Some(config)) is None,
        marshalled(rc, None) is None,
        config.len() <= 0xffff ==> {
            let list = wire::vector(config, 2);
            256 * list[0] + list[1] == config.len() && list.skip(2) == config
        },
{
    if config.len() <= 0xffff {
        wire::law_numbers_are_big_endian(0, 0, 0, config.len());
        let list = wire::vector(config, 2);
        assert(list.skip(2) =~= config);
    }
}

/// The report names both files, shows the list, and ends with the options for either
/// side: for the server the name and the file of the key, for the client the list.
pub proof fn law_report_shows_everything(
    public_name: Seq<char>,
    key_path: Seq<char>,
    list_path: Seq<char>,
    b64: Seq<char>,
)
    ensures
        keygen_report_text(public_name, key_path, list_path, b64) == "Wrote "@ + key_path
            + "\nWrote "@ + list_path + "\n\nECHConfigList (base64):\n"@ + b64
            + "\n\nServer plugin options:\n    ech_public_name="@ + public_name + ";ech_key="@
            + key_path + "\nClient plugin options:\n    "@ + ("ech_config="@ + sip003::escaped(b64))
            + "\n"@,
{
}

/// A log shows the id and the name of a key, and of its secret only the length.
pub proof fn law_log_hides_the_secret(id: u8, name: Seq<char>)
    ensures
        redacted_text(id, name) == "EchServerKey { config_id: "@ + text::decimal(id as nat)
            + ", public_name: "@ + text::debug_quoted(name) + ", private_key: \"<32 bytes>\" }"@,
{
}

/// Messages hold the lengths, the position and the cause that they are about.
pub proof fn law_messages_hold_their_cause(a: nat, b: nat, c: nat, cause: Seq<char>)
    ensures
        ech_fault_text(EchFault::KeyLength(a)) == "unexpected HPKE private key length: "@
            + text::decimal(a),
        ech_fault_text(EchFault::FileTooShort(a)) == "ECH key file too short (got "@
            + text::decimal(a) + " bytes)"@,
        ech_fault_text(EchFault::FileLength(a, b, c)) == "ECH key file length mismatch: got "@
            + text::decimal(a) + " bytes, expected "@ + text::decimal(b) + " (nlen="@
            + text::decimal(c) + ")"@,
        ech_fault_text(EchFault::NotUtf8(cause)) == "public_name not valid UTF-8: "@ + cause,
        ech_fault_text(EchFault::NotBase64(cause)) == "decode ECHConfigList base64: "@ + cause,
{
}

/// A key that is made holds the name and the bytes that it is made of, as they are,
/// and its file gives both back.
pub proof fn law_key_holds_what_it_is_made_of(k: EchKey, name: Seq<char>, key: Seq<u8>)
    requires
        is_key_with(k, name, key),
        key_fault(name, key) is None,
        encode_utf8(name).len() <= 0xffff,
    ensures
        k.public_name == name,
        k.private_key == key,
        key_in_file(key_file(k)) matches Ok(read) && read.public_name == name && read.private_key
            == key,
{
    law_written_key_is_read_back(k);
}

} // verus!
