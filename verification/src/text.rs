//! Characters and strings: the small operations on text that the parsers and
//! the configuration rules are built from.

use vstd::prelude::*;
use vstd::utf8::*;

verus! {

/// `String::push` appends one character to the end of the string.
pub assume_specification[ String::push ](s: &mut String, c: char)
    ensures
        final(s)@ == old(s)@.push(c),
;

/// What the error of `str::from_utf8` on these bytes says, as text.
pub uninterp spec fn utf8_fault_text(bytes: Seq<u8>) -> Seq<char>;

/// Calls `str::from_utf8`, which reads bytes as a string: it succeeds on
/// well-formed UTF-8 and on nothing else, and the string it gives encodes to
/// those bytes. Of the error's text the contract only says that it depends on the
/// bytes and on nothing else.
#[verifier::external_body]
pub(crate) fn read_utf8(v: &[u8]) -> (res: Result<&str, String>)
    ensures
        res is Ok <==> valid_utf8(v@),
        res matches Ok(s) ==> encode_utf8(s@) == v@,
        res matches Err(t) ==> t@ == utf8_fault_text(v@),
{
    core::str::from_utf8(v).map_err(|e| e.to_string())
}

/// What `{:?}` makes of a string: the text in double quotes, with escapes.
pub uninterp spec fn debug_quoted(s: Seq<char>) -> Seq<char>;

/// Formats `s` with the `Debug` impl of `str`; the contract only says that the
/// outcome depends on the text of `s` and on nothing else.
#[verifier::external_body]
pub(crate) fn quoted(s: &str) -> (res: String)
    ensures
        res@ == debug_quoted(s@),
{
    format!("{s:?}")
}

/// The characters of `s`, in order.
pub fn chars_of(s: &str) -> (out: Vec<char>)
    ensures
        out@ == s@,
{
    let mut out: Vec<char> = Vec::new();
    for c in it: s.chars()
        invariant
            out@ == s@.take(it.index()),
            it.seq() == s@,
    {
        out.push(c);
    }
    out
}

/// The string made of `chars`.
pub fn string_of(chars: &[char]) -> (out: String)
    ensures
        out@ == chars@,
{
    let mut out = String::new();
    for i in 0..chars.len()
        invariant
            out@ == chars@.take(i as int),
    {
        out.push(chars[i]);
    }
    assert(chars@.take(chars@.len() as int) == chars@);
    out
}

/// Whether the two byte strings are the same.
pub fn bytes_eq(a: &[u8], b: &[u8]) -> (r: bool)
    ensures
        r == (a@ == b@),
{
    if a.len() != b.len() {
        return false;
    }
    for i in 0..a.len()
        invariant
            a@.len() == b@.len(),
            a@.take(i as int) == b@.take(i as int),
    {
        if a[i] != b[i] {
            return false;
        }
        assert(a@.take(i + 1) == a@.take(i as int).push(a@[i as int]));
        assert(b@.take(i + 1) == b@.take(i as int).push(b@[i as int]));
    }
    assert(a@.take(a@.len() as int) == a@);
    assert(b@.take(b@.len() as int) == b@);
    true
}

/// Whether the two strings hold the same characters.
pub fn str_eq(a: &str, b: &str) -> (r: bool)
    ensures
        r == (a@ == b@),
{
    proof {
        encode_utf8_decode_utf8(a@);
        encode_utf8_decode_utf8(b@);
    }
    bytes_eq(a.as_bytes(), b.as_bytes())
}

/// The first character of `s`, if it has one.
pub fn first_char(s: &str) -> (r: Option<char>)
    ensures
        r == (if s@.len() > 0 {
            Some(s@[0])
        } else {
            None
        }),
{
    let mut it = s.chars();
    it.next()
}

/// A copy of the bytes in `s`.
pub fn copy_bytes(s: &[u8]) -> (out: Vec<u8>)
    ensures
        out@ == s@,
{
    let mut out: Vec<u8> = Vec::new();
    out.extend_from_slice(s);
    assert(out@ == s@);
    out
}

// ---------------------------------------------------------------------------
// White space
// ---------------------------------------------------------------------------

/// The characters with the Unicode property `White_Space`.
pub open spec fn is_white_space(c: char) -> bool {
    ||| '\u{9}' <= c <= '\u{d}'
    ||| c == ' '
    ||| c == '\u{85}'
    ||| c == '\u{a0}'
    ||| c == '\u{1680}'
    ||| '\u{2000}' <= c <= '\u{200a}'
    ||| c == '\u{2028}'
    ||| c == '\u{2029}'
    ||| c == '\u{202f}'
    ||| c == '\u{205f}'
    ||| c == '\u{3000}'
}

/// Whether `c` is white space.
pub fn white_space(c: char) -> (r: bool)
    ensures
        r == is_white_space(c),
{
    ('\u{9}' <= c && c <= '\u{d}') || c == ' ' || c == '\u{85}' || c == '\u{a0}' || c == '\u{1680}'
        || ('\u{2000}' <= c && c <= '\u{200a}') || c == '\u{2028}' || c == '\u{2029}' || c
        == '\u{202f}' || c == '\u{205f}' || c == '\u{3000}'
}

/// `s` without the white space at its front.
pub open spec fn trimmed_front(s: Seq<char>) -> Seq<char>
    decreases s.len(),
{
    if s.len() > 0 && is_white_space(s[0]) {
        trimmed_front(s.drop_first())
    } else {
        s
    }
}

/// `s` without the white space at its end.
pub open spec fn trimmed_back(s: Seq<char>) -> Seq<char>
    decreases s.len(),
{
    if s.len() > 0 && is_white_space(s.last()) {
        trimmed_back(s.drop_last())
    } else {
        s
    }
}

/// `s` without the white space at either end.
pub open spec fn trimmed(s: Seq<char>) -> Seq<char> {
    trimmed_back(trimmed_front(s))
}

/// Trimming takes white space off both ends and leaves what is between.
pub proof fn lemma_trim_surrounded(before: Seq<char>, t: Seq<char>, after: Seq<char>)
    requires
        forall|i: int| 0 <= i < before.len() ==> is_white_space(#[trigger] before[i]),
        forall|i: int| 0 <= i < after.len() ==> is_white_space(#[trigger] after[i]),
        t.len() > 0 ==> !is_white_space(t[0]) && !is_white_space(t.last()),
    ensures
        trimmed(before + t + after) == t,
    decreases before.len() + after.len(),
{
    let s = before + t + after;
    if before.len() > 0 {
        assert(s[0] == before[0]);
        assert(s.drop_first() == before.drop_first() + t + after);
        assert(forall|i: int|
            0 <= i < before.drop_first().len() ==> before.drop_first()[i] == before[i + 1]);
        lemma_trim_surrounded(before.drop_first(), t, after);
    } else if t.len() == 0 && after.len() > 0 {
        assert(s == after);
        assert(s.drop_first() == before + t + after.drop_first());
        assert(forall|i: int|
            0 <= i < after.drop_first().len() ==> after.drop_first()[i] == after[i + 1]);
        lemma_trim_surrounded(before, t, after.drop_first());
    } else if after.len() > 0 {
        assert(s[0] == t[0]);
        assert(trimmed_front(s) == s);
        assert(s.last() == after.last());
        assert(s.drop_last() == before + t + after.drop_last());
        lemma_trim_surrounded(before, t, after.drop_last());
        assert(trimmed_front(s.drop_last()) == s.drop_last());
    } else {
        assert(s == t);
    }
}

/// Removes the white space at both ends of `chars`.
pub fn trim_chars(chars: &[char]) -> (out: String)
    ensures
        out@ == trimmed(chars@),
{
    let n: usize = chars.len();
    let mut from: usize = 0;
    assert(chars@.skip(0) == chars@);
    while from < n && white_space(chars[from])
        invariant
            from <= n == chars@.len(),
            trimmed_front(chars@.skip(from as int)) == trimmed_front(chars@),
        decreases n - from,
    {
        assert(chars@.skip(from as int).drop_first() == chars@.skip(from + 1));
        from = from + 1;
    }
    let ghost front = chars@.skip(from as int);
    let mut to: usize = n;
    assert(chars@.subrange(from as int, to as int) == front);
    while from < to && white_space(chars[to - 1])
        invariant
            from <= to <= n == chars@.len(),
            trimmed_back(chars@.subrange(from as int, to as int)) == trimmed_back(front),
        decreases to - from,
    {
        assert(chars@.subrange(from as int, to as int).drop_last() == chars@.subrange(
            from as int,
            to - 1,
        ));
        to = to - 1;
    }
    string_of(&chars[from..to])
}

/// Removes the white space at both ends of `s`.
pub fn trim(s: &str) -> (out: String)
    ensures
        out@ == trimmed(s@),
{
    let chars = chars_of(s);
    trim_chars(chars.as_slice())
}

// ---------------------------------------------------------------------------
// ASCII case
// ---------------------------------------------------------------------------

/// `c` with an upper-case ASCII letter replaced by its lower-case form.
pub open spec fn lower(c: char) -> char {
    if 'A' <= c <= 'Z' {
        ((c as u32 + 32) as u32) as char
    } else {
        c
    }
}

/// `s` with its upper-case ASCII letters in lower case.
pub open spec fn lowered(s: Seq<char>) -> Seq<char> {
    s.map_values(|c: char| lower(c))
}

/// The lower-case form of `c`, where `c` is an ASCII letter.
pub fn lower_char(c: char) -> (r: char)
    ensures
        r == lower(c),
{
    if 'A' <= c && c <= 'Z' {
        (c as u8 + 32) as char
    } else {
        c
    }
}

/// Puts the ASCII letters of `s` in lower case.
pub fn ascii_lowercase(s: &str) -> (out: String)
    ensures
        out@ == lowered(s@),
{
    let chars = chars_of(s);
    let mut out = String::new();
    for i in 0..chars.len()
        invariant
            chars@ == s@,
            out@ == lowered(s@.take(i as int)),
    {
        out.push(lower_char(chars[i]));
        assert(lowered(s@.take(i + 1)) == lowered(s@.take(i as int)).push(lower(s@[i as int])));
    }
    assert(s@.take(s@.len() as int) == s@);
    out
}

/// Whether the two strings are the same up to the case of ASCII letters.
pub fn same_ignoring_case(a: &str, b: &str) -> (r: bool)
    ensures
        r == (lowered(a@) == lowered(b@)),
{
    let x = ascii_lowercase(a);
    let y = ascii_lowercase(b);
    str_eq(x.as_str(), y.as_str())
}

// ---------------------------------------------------------------------------
// Lists separated by commas
// ---------------------------------------------------------------------------

/// Whether `s[i..j]` is one of the parts of `s` between its commas.
pub open spec fn is_comma_part(s: Seq<char>, i: int, j: int) -> bool {
    &&& 0 <= i <= j <= s.len()
    &&& i == 0 || s[i - 1] == ','
    &&& j == s.len() || s[j] == ','
    &&& forall|k: int| i <= k < j ==> s[k] != ','
}

/// Whether some part of `s` between its commas is `token`, up to white space
/// around it and the case of ASCII letters.
pub open spec fn lists_token(s: Seq<char>, token: Seq<char>) -> bool {
    exists|i: int, j: int| #[trigger]
        is_comma_part(s, i, j) && lowered(trimmed(s.subrange(i, j))) == lowered(token)
}

/// Looks for `token` among the parts of `s` between its commas.
pub fn has_token(s: &str, token: &str) -> (r: bool)
    ensures
        r == lists_token(s@, token@),
{
    let chars = chars_of(s);
    let n: usize = chars.len();
    let mut from: usize = 0;
    let mut to: usize = 0;
    loop
        invariant
            chars@ == s@,
            n == s@.len(),
            from <= to <= n,
            from == 0 || s@[from - 1] == ',',
            forall|k: int| from <= k < to ==> s@[k] != ',',
            forall|i: int, j: int| #[trigger]
                is_comma_part(s@, i, j) && i < from ==> lowered(trimmed(s@.subrange(i, j)))
                    != lowered(token@),
        decreases n + 1 - to, n - from,
    {
        if to == n || chars[to] == ',' {
            assert(is_comma_part(s@, from as int, to as int));
            let part = trim_chars(&chars[from..to]);
            if same_ignoring_case(part.as_str(), token) {
                return true;
            }
            assert forall|i: int, j: int| #[trigger]
                is_comma_part(s@, i, j) && i < to + 1 implies lowered(trimmed(s@.subrange(i, j)))
                != lowered(token@) by {
                if i >= from {
                    if i > from {
                        assert(s@[i - 1] != ',');
                    }
                    if j < to {
                        assert(s@[j] != ',');
                    }
                    assert(j == to);
                }
            }
            if to == n {
                return false;
            }
            to = to + 1;
            from = to;
        } else {
            to = to + 1;
        }
    }
}

// ---------------------------------------------------------------------------
// Decimal numbers
// ---------------------------------------------------------------------------

/// The decimal digit for `n`.
pub open spec fn digit_char(n: nat) -> char
    recommends
        n < 10,
{
    ((n + 48) as u32) as char
}

/// `n` in decimal, without leading zeros.
pub open spec fn decimal(n: nat) -> Seq<char>
    decreases n,
{
    if n < 10 {
        seq![digit_char(n)]
    } else {
        decimal(n / 10).push(digit_char(n % 10))
    }
}

/// `n` in decimal.
pub fn decimal_string(n: usize) -> (out: String)
    ensures
        out@ == decimal(n as nat),
    decreases n,
{
    let d = (48 + (n % 10) as u8) as char;
    let mut out = if n < 10 {
        String::new()
    } else {
        decimal_string(n / 10)
    };
    out.push(d);
    assert(n < 10 ==> out@ == seq![d]);
    out
}

/// Whether `c` is a decimal digit.
pub open spec fn is_digit(c: char) -> bool {
    '0' <= c <= '9'
}

/// The number that the decimal digits `s` stand for.
pub open spec fn digits_value(s: Seq<char>) -> nat
    decreases s.len(),
{
    if s.len() == 0 {
        0
    } else {
        10 * digits_value(s.drop_last()) + (s.last() as nat - 48) as nat
    }
}

/// Whether `s` is made of decimal digits only.
pub open spec fn all_digits(s: Seq<char>) -> bool {
    forall|i: int| 0 <= i < s.len() ==> is_digit(#[trigger] s[i])
}

/// `s` without the `+` that a number may start with.
pub open spec fn without_plus(s: Seq<char>) -> Seq<char> {
    if s.len() > 0 && s[0] == '+' {
        s.skip(1)
    } else {
        s
    }
}

/// The port number that `s` stands for: an optional `+`, then one or more
/// decimal digits whose value fits in sixteen bits.
pub open spec fn port_number(s: Seq<char>) -> Option<u16> {
    let digits = without_plus(s);
    if digits.len() > 0 && all_digits(digits) && digits_value(digits) <= 0xffff {
        Some(digits_value(digits) as u16)
    } else {
        None
    }
}

/// What is wrong with a text that stands for no port number.
#[derive(Debug, Clone, Copy, PartialEq, Eq, Structural)]
pub enum PortFault {
    /// There is nothing to read.
    Empty,
    /// A character is not a digit, or there is no digit.
    InvalidDigit,
    /// The digits make a number that does not fit, whatever follows them.
    TooLarge,
}

/// What is wrong with `s`, which stands for no port number: whichever comes
/// first, a number that is too large or a character that is not a digit.
pub open spec fn port_fault(s: Seq<char>) -> PortFault {
    let digits = without_plus(s);
    if s.len() == 0 {
        PortFault::Empty
    } else if exists|i: int|
        0 <= i <= digits.len() && all_digits(#[trigger] digits.take(i)) && digits_value(
            digits.take(i),
        ) > 0xffff {
        PortFault::TooLarge
    } else {
        PortFault::InvalidDigit
    }
}

/// The text that tells a user what is wrong with a port number.
pub open spec fn port_fault_text(f: PortFault) -> Seq<char> {
    match f {
        PortFault::Empty => "cannot parse integer from empty string"@,
        PortFault::InvalidDigit => "invalid digit found in string"@,
        PortFault::TooLarge => "number too large to fit in target type"@,
    }
}

impl PortFault {
    /// The message for the user.
    pub fn message(self) -> (m: &'static str)
        ensures
            m@ == port_fault_text(self),
    {
        match self {
            PortFault::Empty => "cannot parse integer from empty string",
            PortFault::InvalidDigit => "invalid digit found in string",
            PortFault::TooLarge => "number too large to fit in target type",
        }
    }
}

proof fn lemma_digits_value_grows(s: Seq<char>, i: int)
    requires
        0 <= i <= s.len(),
    ensures
        digits_value(s.take(i)) <= digits_value(s),
    decreases s.len(),
{
    if i < s.len() {
        lemma_digits_value_grows(s.drop_last(), i);
        assert(s.drop_last().take(i) == s.take(i));
    } else {
        assert(s.take(i) == s);
    }
}

/// Reads a port number.
pub fn parse_port(s: &str) -> (r: Result<u16, PortFault>)
    ensures
        match r {
            Ok(p) => port_number(s@) == Some(p),
            Err(f) => port_number(s@) is None && f == port_fault(s@),
        },
{
    let chars = chars_of(s);
    let from: usize = if chars.len() > 0 && chars[0] == '+' {
        1
    } else {
        0
    };
    let ghost digits = s@.skip(from as int);
    assert(digits == without_plus(s@));
    if from == chars.len() {
        return Err(
            if from == 0 {
                PortFault::Empty
            } else {
                PortFault::InvalidDigit
            },
        );
    }
    let mut value: u32 = 0;
    for i in from..chars.len()
        invariant
            chars@ == s@,
            digits == s@.skip(from as int),
            digits == without_plus(s@),
            from <= s@.len(),
            value == digits_value(digits.take(i - from)),
            value <= 0xffff,
            forall|k: int| 0 <= k < i - from ==> is_digit(#[trigger] digits[k]),
    {
        let c = chars[i];
        assert(digits[i - from] == c);
        if c < '0' || '9' < c {
            proof {
                let read = digits.take(i - from);
                assert forall|k: int|
                    0 <= k <= digits.len() && all_digits(#[trigger] digits.take(k)) implies
                    digits_value(digits.take(k)) <= 0xffff by {
                    if k > i - from {
                        assert(digits.take(k)[i - from] == c);
                    } else {
                        assert(read.take(k) == digits.take(k));
                        lemma_digits_value_grows(read, k);
                    }
                }
            }
            return Err(PortFault::InvalidDigit);
        }
        assert(digits.take(i - from + 1).drop_last() == digits.take(i - from));
        value = 10 * value + (c as u32 - 48);
        if value > 0xffff {
            proof {
                lemma_digits_value_grows(digits, i - from + 1);
                assert(all_digits(digits.take(i - from + 1)));
            }
            return Err(PortFault::TooLarge);
        }
    }
    assert(digits.take(digits.len() as int) == digits);
    Ok(value as u16)
}

proof fn lemma_decimal_digits(n: nat)
    ensures
        decimal(n).len() > 0,
        all_digits(decimal(n)),
        digits_value(decimal(n)) == n,
    decreases n,
{
    if n < 10 {
        let s = seq![digit_char(n)];
        assert(s.drop_last() == Seq::<char>::empty());
        assert(digits_value(s.drop_last()) == 0);
        assert(s.last() as nat == n + 48);
    } else {
        lemma_decimal_digits(n / 10);
        let s = decimal(n);
        assert(s.drop_last() == decimal(n / 10));
        assert(s.last() == digit_char(n % 10));
    }
}

/// A port number written in decimal is read back as itself.
pub proof fn law_port_round_trip(port: u16)
    ensures
        port_number(decimal(port as nat)) == Some(port),
{
    lemma_decimal_digits(port as nat);
    assert(is_digit(decimal(port as nat)[0]));
}

/// White space is what Unicode calls so: these code points and no others.
pub proof fn law_white_space(c: char)
    ensures
        is_white_space(c) <==> {
            let n = c as u32;
            9 <= n <= 13 || n == 32 || n == 0x85 || n == 0xa0 || n == 0x1680 || 0x2000 <= n
                <= 0x200a || n == 0x2028 || n == 0x2029 || n == 0x202f || n == 0x205f || n
                == 0x3000
        },
{
}

/// What is left of a text by trimming stands between two runs of white space that
/// make up the rest of it, and begins and ends with something else.
pub proof fn law_trim_takes_white_space_only(s: Seq<char>)
    ensures
        exists|i: int, j: int|
            0 <= i <= j <= s.len() && trimmed(s) == #[trigger] s.subrange(i, j) && (forall|k: int|
                0 <= k < i || j <= k < s.len() ==> is_white_space(#[trigger] s[k])) && (i < j
                ==> !is_white_space(s[i]) && !is_white_space(s[j - 1])),
{
    let (i, j) = lemma_trim_bounds(s);
    assert(trimmed(s) == s.subrange(i, j));
}

proof fn lemma_trim_bounds(s: Seq<char>) -> (b: (int, int))
    ensures
        0 <= b.0 <= b.1 <= s.len(),
        trimmed(s) == s.subrange(b.0, b.1),
        forall|k: int| 0 <= k < b.0 || b.1 <= k < s.len() ==> is_white_space(#[trigger] s[k]),
        b.0 < b.1 ==> !is_white_space(s[b.0]) && !is_white_space(s[b.1 - 1]),
    decreases s.len(),
{
    if s.len() == 0 {
        assert(trimmed(s) == s.subrange(0, 0));
        (0, 0)
    } else if is_white_space(s[0]) {
        let t = s.drop_first();
        let (i, j) = lemma_trim_bounds(t);
        assert(t.subrange(i, j) == s.subrange(i + 1, j + 1));
        assert forall|k: int| 0 <= k < i + 1 || j + 1 <= k < s.len() implies is_white_space(
            #[trigger] s[k],
        ) by {
            if k > 0 {
                assert(s[k] == t[k - 1]);
            }
        }
        (i + 1, j + 1)
    } else if is_white_space(s.last()) {
        let t = s.drop_last();
        let (i, j) = lemma_trim_bounds(t);
        assert(t[0] == s[0]);
        assert(trimmed_front(t) == t && trimmed_front(s) == s);
        assert(t.subrange(i, j) == s.subrange(i, j));
        assert forall|k: int| 0 <= k < i || j <= k < s.len() implies is_white_space(
            #[trigger] s[k],
        ) by {
            if k < t.len() {
                assert(s[k] == t[k]);
            }
        }
        (i, j)
    } else {
        assert(s.subrange(0, s.len() as int) == s);
        (0, s.len() as int)
    }
}

/// Lower case differs from a text in its upper-case ASCII letters only, each of
/// which is thirty-two code points further on.
pub proof fn law_lower_case(s: Seq<char>, i: int)
    requires
        0 <= i < s.len(),
    ensures
        lowered(s).len() == s.len(),
        'A' <= s[i] <= 'Z' ==> lowered(s)[i] as u32 == s[i] as u32 + 32,
        !('A' <= s[i] <= 'Z') ==> lowered(s)[i] == s[i],
{
}

/// A list has a token if and only if a part before or behind one of its commas
/// has it; a list of one part has it if and only if the part is that token, up to
/// case and the white space around it.
pub proof fn law_tokens_stand_between_commas(a: Seq<char>, b: Seq<char>, token: Seq<char>)
    ensures
        lists_token(a + seq![','] + b, token) <==> lists_token(a, token) || lists_token(b, token),
        !a.contains(',') ==> (lists_token(a, token) <==> lowered(trimmed(a)) == lowered(token)),
{
    let s = a + seq![','] + b;
    let n = a.len() as int;
    assert(s[n] == ',');
    if lists_token(s, token) {
        let (i, j) = choose|i: int, j: int| #[trigger]
            is_comma_part(s, i, j) && lowered(trimmed(s.subrange(i, j))) == lowered(token);
        if i <= n {
            if j > n {
                assert(s[n] != ',');
            }
            assert(is_comma_part(a, i, j)) by {
                if j < n {
                    assert(a[j] == s[j]);
                }
                if i > 0 {
                    assert(a[i - 1] == s[i - 1]);
                }
                assert forall|k: int| i <= k < j implies a[k] != ',' by {
                    assert(a[k] == s[k]);
                }
            }
            assert(a.subrange(i, j) == s.subrange(i, j));
        } else {
            let (p, q) = (i - n - 1, j - n - 1);
            assert(is_comma_part(b, p, q)) by {
                if q < b.len() {
                    assert(b[q] == s[j]);
                }
                if p > 0 {
                    assert(b[p - 1] == s[i - 1]);
                }
                assert forall|k: int| p <= k < q implies b[k] != ',' by {
                    assert(b[k] == s[k + n + 1]);
                }
            }
            assert(b.subrange(p, q) == s.subrange(i, j));
        }
    }
    if lists_token(a, token) {
        let (i, j) = choose|i: int, j: int| #[trigger]
            is_comma_part(a, i, j) && lowered(trimmed(a.subrange(i, j))) == lowered(token);
        assert(is_comma_part(s, i, j)) by {
            assert forall|k: int| i <= k < j implies s[k] != ',' by {
                assert(a[k] == s[k]);
            }
        }
        assert(a.subrange(i, j) == s.subrange(i, j));
    }
    if lists_token(b, token) {
        let (p, q) = choose|i: int, j: int| #[trigger]
            is_comma_part(b, i, j) && lowered(trimmed(b.subrange(i, j))) == lowered(token);
        let (i, j) = (p + n + 1, q + n + 1);
        assert(is_comma_part(s, i, j)) by {
            if p > 0 {
                assert(s[i - 1] == b[p - 1]);
            }
            if q < b.len() {
                assert(s[j] == b[q]);
            }
            assert forall|k: int| i <= k < j implies s[k] != ',' by {
                assert(s[k] == b[k - n - 1]);
            }
        }
        assert(b.subrange(p, q) == s.subrange(i, j));
    }
    if !a.contains(',') {
        assert(is_comma_part(a, 0, n));
        assert(a.subrange(0, n) == a);
        assert forall|i: int, j: int| #[trigger] is_comma_part(a, i, j) implies i == 0 && j
            == n by {
            if i > 0 {
                assert(a[i - 1] == ',');
            }
            if j < n {
                assert(a[j] == ',');
            }
        }
    }
}

/// The value of digits: each is worth ten times as much as the next one.
pub proof fn law_value_of_digits(s: Seq<char>, c: char)
    requires
        '0' <= c <= '9',
    ensures
        digits_value(Seq::<char>::empty()) == 0,
        digits_value(s.push(c)) == 10 * digits_value(s) + (c as nat - 48),
{
    assert(s.push(c).drop_last() == s);
}

/// A number in decimal is written in digits, without a leading zero, and has the
/// value of those digits.
pub proof fn law_decimal_is_the_number(n: nat)
    ensures
        decimal(n).len() > 0,
        forall|i: int|
            0 <= i < decimal(n).len() ==> '0' <= #[trigger] decimal(n)[i] <= '9',
        n > 0 ==> decimal(n)[0] != '0',
        digits_value(decimal(n)) == n,
    decreases n,
{
    if n >= 10 {
        law_decimal_is_the_number(n / 10);
        let front = decimal(n / 10);
        assert(decimal(n) == front.push(digit_char(n % 10)));
        law_value_of_digits(front, digit_char(n % 10));
        assert(decimal(n)[0] == front[0]);
        assert forall|i: int| 0 <= i < decimal(n).len() implies '0' <= #[trigger] decimal(n)[i] <= '9' by {
            if i < front.len() {
                assert(decimal(n)[i] == front[i]);
            }
        }
    } else {
        law_value_of_digits(Seq::empty(), digit_char(n));
        assert(decimal(n) == Seq::<char>::empty().push(digit_char(n)));
    }
}

/// A text is a port number if and only if it is one or more digits, a `+` before
/// them or not, with a value of at most 65535; it stands for that value.
pub proof fn law_port_is_read_as_its_value(s: Seq<char>, port: u16)
    ensures
        port_number(seq!['+'] + s) == Some(port) <==> s.len() > 0 && (forall|i: int|
            0 <= i < s.len() ==> '0' <= #[trigger] s[i] <= '9') && digits_value(s) == port,
        s.len() > 0 && s[0] != '+' ==> port_number(s) == port_number(seq!['+'] + s),
        s.len() == 0 ==> port_number(s) is None,
{
    let t = seq!['+'] + s;
    assert(t.skip(1) == s);
    if forall|i: int| 0 <= i < s.len() ==> '0' <= #[trigger] s[i] <= '9' {
        assert(all_digits(s));
    }
    if all_digits(s) {
        assert(forall|i: int| 0 <= i < s.len() ==> is_digit(#[trigger] s[i]));
    }
}

/// What is said to be wrong with a port number is wrong with it: it is empty, it
/// begins with digits that make more than 65535, or, if neither, it holds
/// something that is not a digit or has no digit.
pub proof fn law_port_fault_is_the_first(s: Seq<char>, digits: Seq<char>, rest: Seq<char>)
    requires
        forall|i: int| 0 <= i < digits.len() ==> '0' <= #[trigger] digits[i] <= '9',
    ensures
        port_fault(s) == PortFault::Empty <==> s.len() == 0,
        digits_value(digits) > 65535 ==> port_fault(digits + rest) == PortFault::TooLarge,
        digits_value(digits) > 65535 ==> port_fault(seq!['+'] + digits + rest)
            == PortFault::TooLarge,
        digits_value(digits) <= 65535 && digits.len() > 0 && (rest.len() > 0 && !('0' <= rest[0] <= '9')) ==> port_fault(digits + rest) == PortFault::InvalidDigit,
        rest.len() > 0 && rest[0] != '+' && !('0' <= rest[0] <= '9') ==> port_fault(rest)
            == PortFault::InvalidDigit,
{
    let n = digits.len() as int;
    let t = digits + rest;
    assert(t.take(n) == digits);
    assert(all_digits(digits));
    if digits_value(digits) > 65535 {
        assert(n > 0);
        assert(is_digit(digits[0]));
        assert(t[0] == digits[0]);
        assert(without_plus(t) == t);
        let p = seq!['+'] + digits + rest;
        assert(p[0] == '+');
        assert(p.skip(1) == t);
        assert(without_plus(p) == t);
        assert(all_digits(t.take(n)));
    }
    if rest.len() > 0 && !('0' <= rest[0] <= '9') {
        if n > 0 && digits_value(digits) <= 65535 {
            assert(is_digit(digits[0]));
            assert(t[0] == digits[0]);
            assert(without_plus(t) == t);
            assert forall|k: int|
                0 <= k <= t.len() && all_digits(#[trigger] t.take(k)) implies digits_value(
                t.take(k),
            ) <= 0xffff by {
                if k > n {
                    assert(t.take(k)[n] == rest[0]);
                } else {
                    assert(digits.take(k) == t.take(k));
                    lemma_digits_value_grows(digits, k);
                }
            }
        }
        if rest[0] != '+' {
            assert(without_plus(rest) == rest);
            assert forall|k: int|
                0 <= k <= rest.len() && all_digits(#[trigger] rest.take(k)) implies digits_value(
                rest.take(k),
            ) <= 0xffff by {
                if k > 0 {
                    assert(rest.take(k)[0] == rest[0]);
                } else {
                    assert(rest.take(k).len() == 0);
                }
            }
        }
    }
}

} // verus!
