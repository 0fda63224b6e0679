//! The SIP003 plugin protocol: address variables and plugin options.
//!
//! `ssserver` and `sslocal` start the plugin with four required variables and
//! an optional fifth:
//!
//! | name                | meaning                                     |
//! |---------------------|---------------------------------------------|
//! | `SS_REMOTE_HOST`    | public address (ss-server) or upstream peer |
//! | `SS_REMOTE_PORT`    | its port                                    |
//! | `SS_LOCAL_HOST`     | loopback host where shadowsocks talks       |
//! | `SS_LOCAL_PORT`     | its port                                    |
//! | `SS_PLUGIN_OPTIONS` | `key=val;key=val`                           |
//!
//! Which side the plugin is on is told by the option `mode=server|client`.

use vstd::prelude::*;

use crate::namemap;
use crate::namemap::NameMap;
use crate::text;
use crate::text::{chars_of, decimal_string, parse_port, quoted, str_eq, string_of, PortFault};

verus! {

pub const SS_REMOTE_HOST: &'static str = "SS_REMOTE_HOST";

pub const SS_REMOTE_PORT: &'static str = "SS_REMOTE_PORT";

pub const SS_LOCAL_HOST: &'static str = "SS_LOCAL_HOST";

pub const SS_LOCAL_PORT: &'static str = "SS_LOCAL_PORT";

pub const SS_PLUGIN_OPTIONS: &'static str = "SS_PLUGIN_OPTIONS";

/// The side that the plugin stands on.
#[derive(Debug, Clone, Copy, PartialEq, Eq, Structural)]
pub enum Mode {
    /// In front of `ssserver`.
    Server,
    /// In front of `sslocal`.
    Client,
}

// ---------------------------------------------------------------------------
// The option string
// ---------------------------------------------------------------------------

/// `parts` with `p` put in front of the first of them.
pub open spec fn prepend(p: Seq<char>, parts: Seq<Seq<char>>) -> Seq<Seq<char>> {
    parts.update(0, p + parts[0])
}

/// The parts of `s` between the occurrences of `delim` that no backslash
/// escapes. A backslash and the character behind it stay together, as they are.
pub open spec fn split(s: Seq<char>, delim: char) -> Seq<Seq<char>>
    decreases s.len(),
{
    if s.len() == 0 {
        seq![Seq::empty()]
    } else if s[0] == '\\' {
        if s.len() == 1 {
            seq![s]
        } else {
            prepend(s.take(2), split(s.skip(2), delim))
        }
    } else if s[0] == delim {
        seq![Seq::empty()] + split(s.skip(1), delim)
    } else {
        prepend(s.take(1), split(s.skip(1), delim))
    }
}

/// `s` with every escape replaced by the character that it stands for; a
/// backslash at the very end stands for nothing.
pub open spec fn unescaped(s: Seq<char>) -> Seq<char>
    decreases s.len(),
{
    if s.len() == 0 {
        Seq::empty()
    } else if s[0] == '\\' {
        if s.len() == 1 {
            Seq::empty()
        } else {
            seq![s[1]] + unescaped(s.skip(2))
        }
    } else {
        seq![s[0]] + unescaped(s.skip(1))
    }
}

/// Why an option string is refused.
pub enum OptionsFault {
    /// An option without a key; holds the whole option string.
    EmptyKey(Seq<char>),
    /// An option with a second unescaped `=`; holds its key.
    ExtraEquals(Seq<char>),
}

/// The key and the value of one option. An option without `=` has the empty
/// value.
pub open spec fn option_of(raw: Seq<char>, input: Seq<char>) -> Result<
    (Seq<char>, Seq<char>),
    OptionsFault,
> {
    let pieces = split(raw, '=');
    let key = unescaped(pieces[0]);
    if pieces.len() > 2 {
        Err(OptionsFault::ExtraEquals(key))
    } else if key.len() == 0 {
        Err(OptionsFault::EmptyKey(input))
    } else if pieces.len() == 2 {
        Ok((key, unescaped(pieces[1])))
    } else {
        Ok((key, Seq::empty()))
    }
}

/// The options in `parts`, read from left to right: empty parts count for
/// nothing, a later value replaces an earlier one, the first fault decides.
pub open spec fn options_in(parts: Seq<Seq<char>>, input: Seq<char>) -> Result<
    Map<Seq<char>, Seq<char>>,
    OptionsFault,
>
    decreases parts.len(),
{
    if parts.len() == 0 {
        Ok(Map::empty())
    } else {
        match options_in(parts.drop_last(), input) {
            Err(e) => Err(e),
            Ok(m) => if parts.last().len() == 0 {
                Ok(m)
            } else {
                match option_of(parts.last(), input) {
                    Err(e) => Err(e),
                    Ok((key, value)) => Ok(m.insert(key, value)),
                }
            },
        }
    }
}

/// The options that the string `s` holds.
pub open spec fn options_of(s: Seq<char>) -> Result<Map<Seq<char>, Seq<char>>, OptionsFault> {
    options_in(split(s, ';'), s)
}

/// Why an option string was refused.
#[derive(Debug)]
pub enum OptionsError {
    EmptyKey { input: String },
    ExtraEquals { key: String },
}

impl View for OptionsError {
    type V = OptionsFault;

    open spec fn view(&self) -> OptionsFault {
        match self {
            OptionsError::EmptyKey { input } => OptionsFault::EmptyKey(input@),
            OptionsError::ExtraEquals { key } => OptionsFault::ExtraEquals(key@),
        }
    }
}

/// The text that tells a user about a fault in the option string.
pub open spec fn options_fault_text(f: OptionsFault) -> Seq<char> {
    match f {
        OptionsFault::EmptyKey(input) => "empty key in plugin options: "@ + text::debug_quoted(
            input,
        ),
        OptionsFault::ExtraEquals(key) => "plugin option "@ + text::debug_quoted(key)
            + " has more than one unescaped `=`"@,
    }
}

impl OptionsError {
    /// The message for the user.
    pub fn message(&self) -> (m: String)
        ensures
            m@ == options_fault_text(self@),
    {
        match self {
            OptionsError::EmptyKey { input } => {
                let mut m = "empty key in plugin options: ".to_owned();
                m.append(quoted(input.as_str()).as_str());
                m
            },
            OptionsError::ExtraEquals { key } => {
                let mut m = "plugin option ".to_owned();
                m.append(quoted(key.as_str()).as_str());
                m.append(" has more than one unescaped `=`");
                m
            },
        }
    }
}

/// Lists of characters as sequences of sequences.
spec fn deep(v: Seq<Vec<char>>) -> Seq<Seq<char>> {
    v.map_values(|x: Vec<char>| x@)
}

/// `done`, then `current` grown together with the first of `rest`, then the
/// others of `rest`.
spec fn glued(done: Seq<Seq<char>>, current: Seq<char>, rest: Seq<Seq<char>>) -> Seq<Seq<char>> {
    done + prepend(current, rest)
}

proof fn lemma_split_nonempty(s: Seq<char>, delim: char)
    ensures
        split(s, delim).len() > 0,
    decreases s.len(),
{
    if s.len() > 0 {
        if s[0] == '\\' {
            if s.len() > 1 {
                lemma_split_nonempty(s.skip(2), delim);
            }
        } else {
            lemma_split_nonempty(s.skip(1), delim);
        }
    }
}

/// Splits at every unescaped occurrence of `delim`. Escapes stay as they are.
fn split_unescaped(s: &[char], delim: char) -> (out: Vec<Vec<char>>)
    requires
        delim != '\\',
    ensures
        deep(out@) == split(s@, delim),
{
    let mut out: Vec<Vec<char>> = Vec::new();
    let mut current: Vec<char> = Vec::new();
    let n: usize = s.len();
    let mut i: usize = 0;
    proof {
        assert(s@.skip(0) == s@);
        lemma_split_nonempty(s@, delim);
        assert(split(s@, delim) == glued(deep(out@), current@, split(s@, delim))) by {
            assert(current@ + split(s@, delim)[0] == split(s@, delim)[0]);
        }
    }
    while i < n
        invariant
            n == s@.len(),
            i <= n,
            delim != '\\',
            split(s@, delim) == glued(deep(out@), current@, split(s@.skip(i as int), delim)),
        decreases n - i,
    {
        let c = s[i];
        let ghost rest = s@.skip(i as int);
        let ghost done = deep(out@);
        let ghost cur = current@;
        if c == '\\' {
            current.push(c);
            if i + 1 < n {
                current.push(s[i + 1]);
                proof {
                    let later = split(rest.skip(2), delim);
                    lemma_split_nonempty(rest.skip(2), delim);
                    assert(rest.skip(2) == s@.skip(i + 2));
                    assert(current@ == cur + rest.take(2));
                    assert(prepend(cur, prepend(rest.take(2), later)) == prepend(current@, later))
                        by {
                        assert(cur + (rest.take(2) + later[0]) == current@ + later[0]);
                    }
                }
                i = i + 2;
            } else {
                proof {
                    assert(rest.len() == 1);
                    assert(rest == seq!['\\']);
                    assert(s@.skip(i + 1) == Seq::<char>::empty());
                    let later = seq![Seq::<char>::empty()];
                    assert(prepend(cur, seq![rest]) == prepend(current@, later)) by {
                        assert(cur + rest == current@ + Seq::<char>::empty());
                    }
                }
                i = i + 1;
            }
        } else if c == delim {
            let mut piece: Vec<char> = Vec::new();
            std::mem::swap(&mut piece, &mut current);
            out.push(piece);
            proof {
                let later = split(rest.skip(1), delim);
                lemma_split_nonempty(rest.skip(1), delim);
                assert(rest.skip(1) == s@.skip(i + 1));
                let empty = Seq::<char>::empty();
                assert(cur + empty == cur);
                assert(prepend(cur, seq![empty] + later) == seq![cur] + later);
                assert(deep(out@) == done.push(cur));
                assert(prepend(empty, later) == later) by {
                    assert(empty + later[0] == later[0]);
                }
                assert(done + (seq![cur] + later) == done.push(cur) + later);
            }
            i = i + 1;
        } else {
            current.push(c);
            proof {
                let later = split(rest.skip(1), delim);
                lemma_split_nonempty(rest.skip(1), delim);
                assert(rest.skip(1) == s@.skip(i + 1));
                assert(current@ == cur + rest.take(1));
                assert(prepend(cur, prepend(rest.take(1), later)) == prepend(current@, later)) by {
                    assert(cur + (rest.take(1) + later[0]) == current@ + later[0]);
                }
            }
            i = i + 1;
        }
    }
    proof {
        let empty = Seq::<char>::empty();
        assert(s@.skip(i as int) == empty);
        assert(current@ + empty == current@);
        assert(glued(deep(out@), current@, seq![empty]) == deep(out@).push(current@));
    }
    let ghost before = out@;
    out.push(current);
    assert(deep(out@) == deep(before).push(current@));
    out
}

/// Resolves the escapes in `s`: a backslash stands for the character behind it.
pub fn unescape(s: String) -> (out: String)
    ensures
        out@ == unescaped(s@),
{
    let chars = chars_of(s.as_str());
    let mut out = String::new();
    let n: usize = chars.len();
    let mut i: usize = 0;
    assert(s@.skip(0) == s@);
    assert(out@ + unescaped(s@) == unescaped(s@));
    while i < n
        invariant
            chars@ == s@,
            n == s@.len(),
            i <= n,
            unescaped(s@) == out@ + unescaped(s@.skip(i as int)),
        decreases n - i,
    {
        let c = chars[i];
        let ghost rest = s@.skip(i as int);
        let ghost so_far = out@;
        if c == '\\' {
            if i + 1 < n {
                out.push(chars[i + 1]);
                assert(rest.skip(2) == s@.skip(i + 2));
                assert(so_far + (seq![rest[1]] + unescaped(rest.skip(2))) == out@ + unescaped(
                    rest.skip(2),
                ));
                i = i + 2;
            } else {
                assert(s@.skip(i + 1) == Seq::<char>::empty());
                i = i + 1;
            }
        } else {
            out.push(c);
            assert(rest.skip(1) == s@.skip(i + 1));
            assert(so_far + (seq![rest[0]] + unescaped(rest.skip(1))) == out@ + unescaped(
                rest.skip(1),
            ));
            i = i + 1;
        }
    }
    assert(s@.skip(i as int) == Seq::<char>::empty());
    assert(out@ + Seq::<char>::empty() == out@);
    out
}

/// Puts a backslash before every `;`, `=` and backslash, so that `s` can stand
/// in an option string.
pub fn escape(s: &str) -> (out: String)
    ensures
        out@ == escaped(s@),
{
    let chars = chars_of(s);
    let mut out = String::new();
    assert(s@.skip(0) == s@);
    assert(out@ + escaped(s@) == escaped(s@));
    for i in 0..chars.len()
        invariant
            chars@ == s@,
            escaped(s@) == out@ + escaped(s@.skip(i as int)),
    {
        let c = chars[i];
        let ghost so_far = out@;
        let ghost rest = s@.skip(i as int);
        assert(rest.skip(1) == s@.skip(i + 1));
        if c == ';' || c == '=' || c == '\\' {
            out.push('\\');
            out.push(c);
            assert(so_far + (seq!['\\', c] + escaped(rest.skip(1))) == out@ + escaped(
                rest.skip(1),
            ));
        } else {
            out.push(c);
            assert(so_far + (seq![c] + escaped(rest.skip(1))) == out@ + escaped(rest.skip(1)));
        }
    }
    assert(s@.skip(s@.len() as int) == Seq::<char>::empty());
    assert(out@ + Seq::<char>::empty() == out@);
    out
}

/// Reads one option.
fn parse_option(raw: &[char], input: &str) -> (r: Result<(String, String), OptionsError>)
    ensures
        match r {
            Ok(kv) => option_of(raw@, input@) == Ok::<_, OptionsFault>((kv.0@, kv.1@)),
            Err(e) => option_of(raw@, input@) == Err::<(Seq<char>, Seq<char>), _>(e@),
        },
{
    let pieces = split_unescaped(raw, '=');
    proof {
        lemma_split_nonempty(raw@, '=');
        assert(forall|i: int|
            0 <= i < pieces@.len() ==> (#[trigger] pieces@[i])@ == split(raw@, '=')[i]);
        assert(pieces@.len() == split(raw@, '=').len());
    }
    let key = unescape(string_of(pieces[0].as_slice()));
    if pieces.len() > 2 {
        return Err(OptionsError::ExtraEquals { key });
    }
    if key.as_str().is_empty() {
        return Err(OptionsError::EmptyKey { input: input.to_owned() });
    }
    let value = if pieces.len() == 2 {
        unescape(string_of(pieces[1].as_slice()))
    } else {
        String::new()
    };
    Ok((key, value))
}

/// `SS_PLUGIN_OPTIONS` as a map from keys to values.
#[derive(Debug)]
pub struct PluginOptions(NameMap<String>);

impl Clone for PluginOptions {
    fn clone(&self) -> (o: Self)
        ensures
            o@ == self@,
    {
        let o = PluginOptions(self.0.clone());
        assert(o@ == self@);
        o
    }
}

/// The texts of a map's values.
pub open spec fn text_map(m: Map<Seq<char>, String>) -> Map<Seq<char>, Seq<char>> {
    m.map_values(|v: String| v@)
}

impl View for PluginOptions {
    type V = Map<Seq<char>, Seq<char>>;

    closed spec fn view(&self) -> Map<Seq<char>, Seq<char>> {
        text_map(self.0@)
    }
}

impl Default for PluginOptions {
    fn default() -> (o: Self)
        ensures
            o@ == Map::<Seq<char>, Seq<char>>::empty(),
    {
        let o = PluginOptions(NameMap::new());
        assert(o@ == Map::<Seq<char>, Seq<char>>::empty());
        o
    }
}

/// The mode that the options ask for.
pub enum ModeFault {
    Missing,
    Unknown(Seq<char>),
}

/// The mode that the options `m` ask for.
pub open spec fn mode_of(m: Map<Seq<char>, Seq<char>>) -> Result<Mode, ModeFault> {
    if !m.contains_key("mode"@) {
        Err(ModeFault::Missing)
    } else if m["mode"@] == "server"@ {
        Ok(Mode::Server)
    } else if m["mode"@] == "client"@ {
        Ok(Mode::Client)
    } else {
        Err(ModeFault::Unknown(m["mode"@]))
    }
}

/// Why the options tell no mode.
#[derive(Debug)]
pub enum ModeError {
    Missing,
    Unknown { value: String },
}

impl View for ModeError {
    type V = ModeFault;

    open spec fn view(&self) -> ModeFault {
        match self {
            ModeError::Missing => ModeFault::Missing,
            ModeError::Unknown { value } => ModeFault::Unknown(value@),
        }
    }
}

/// The text that tells a user about a fault in the mode.
pub open spec fn mode_fault_text(f: ModeFault) -> Seq<char> {
    match f {
        ModeFault::Missing => "plugin option `mode` is required (set via SS_PLUGIN_OPTIONS)"@,
        ModeFault::Unknown(v) => "plugin option `mode` must be `server` or `client`, got "@
            + text::debug_quoted(v),
    }
}

impl ModeError {
    /// The message for the user.
    pub fn message(&self) -> (m: String)
        ensures
            m@ == mode_fault_text(self@),
    {
        match self {
            ModeError::Missing =>
                "plugin option `mode` is required (set via SS_PLUGIN_OPTIONS)".to_owned(),
            ModeError::Unknown { value } => {
                let mut m = "plugin option `mode` must be `server` or `client`, got ".to_owned();
                m.append(quoted(value.as_str()).as_str());
                m
            },
        }
    }
}

impl PluginOptions {
    /// Reads a SIP003 option string.
    ///
    /// - options are separated by `;`
    /// - each option is `key=value` or just `key`, with the empty value
    /// - the escapes `\;`, `\=` and `\\` allow those characters inside keys
    ///   and values
    pub fn parse(s: &str) -> (r: Result<Self, OptionsError>)
        ensures
            match r {
                Ok(o) => options_of(s@) == Ok::<_, OptionsFault>(o@),
                Err(e) => options_of(s@) == Err::<Map<Seq<char>, Seq<char>>, _>(e@),
            },
    {
        let chars = chars_of(s);
        let parts = split_unescaped(chars.as_slice(), ';');
        let mut map: NameMap<String> = NameMap::new();
        let ghost all = split(s@, ';');
        assert(text_map(map@) == Map::<Seq<char>, Seq<char>>::empty());
        for i in 0..parts.len()
            invariant
                all == split(s@, ';'),
                deep(parts@) == all,
                options_in(all.take(i as int), s@) == Ok::<_, OptionsFault>(text_map(map@)),
        {
            let raw = parts[i].as_slice();
            assert(raw@ == all[i as int]);
            assert(all.take(i + 1).drop_last() == all.take(i as int));
            if raw.len() > 0 {
                match parse_option(raw, s) {
                    Ok((key, value)) => {
                        let ghost before = map@;
                        map.insert(key, value);
                        assert(text_map(map@) == text_map(before).insert(key@, value@));
                    },
                    Err(e) => {
                        proof {
                            lemma_fault_stays(all, i + 1, s@);
                        }
                        return Err(e);
                    },
                }
            }
        }
        assert(all.take(all.len() as int) == all);
        Ok(PluginOptions(map))
    }

    /// The value of `key`.
    pub fn get(&self, key: &str) -> (r: Option<&str>)
        ensures
            match r {
                Some(v) => self@.contains_key(key@) && v@ == self@[key@],
                None => !self@.contains_key(key@),
            },
            match r {
                Some(v) => namemap::value_of(self@, key@) == Some(v@),
                None => namemap::value_of(self@, key@) is None,
            },
    {
        match self.0.get(key) {
            Some(v) => Some(v.as_str()),
            None => None,
        }
    }

    /// Whether `key` was given.
    pub fn contains_key(&self, key: &str) -> (r: bool)
        ensures
            r == self@.contains_key(key@),
            r == namemap::value_of(self@, key@) is Some,
    {
        self.0.contains_key(key)
    }

    /// The number of keys.
    pub fn len(&self) -> (n: usize)
        ensures
            n == self@.len(),
    {
        assert(self@.dom() == self.0@.dom());
        self.0.len()
    }

    /// Whether no option was given.
    pub fn is_empty(&self) -> (r: bool)
        ensures
            r == (self@ == Map::<Seq<char>, Seq<char>>::empty()),
    {
        proof {
            assert(self@.dom() == self.0@.dom());
            if self@ == Map::<Seq<char>, Seq<char>>::empty() {
                assert(self.0@.dom() =~= Set::<Seq<char>>::empty());
                assert(self.0@ =~= Map::<Seq<char>, String>::empty());
            } else if self.0@ == Map::<Seq<char>, String>::empty() {
                assert(self@ =~= Map::<Seq<char>, Seq<char>>::empty());
            }
        }
        self.0.is_empty()
    }

    /// Reads `mode=server|client`.
    pub fn mode(&self) -> (r: Result<Mode, ModeError>)
        ensures
            match r {
                Ok(m) => mode_of(self@) == Ok::<_, ModeFault>(m),
                Err(e) => mode_of(self@) == Err::<Mode, _>(e@),
            },
    {
        match self.get("mode") {
            Some(v) => if str_eq(v, "server") {
                Ok(Mode::Server)
            } else if str_eq(v, "client") {
                Ok(Mode::Client)
            } else {
                Err(ModeError::Unknown { value: v.to_owned() })
            },
            None => Err(ModeError::Missing),
        }
    }
}

proof fn lemma_fault_stays(parts: Seq<Seq<char>>, n: int, input: Seq<char>)
    requires
        0 <= n <= parts.len(),
        options_in(parts.take(n), input) is Err,
    ensures
        options_in(parts, input) == options_in(parts.take(n), input),
    decreases parts.len(),
{
    if n < parts.len() {
        assert(parts.drop_last().take(n) == parts.take(n));
        lemma_fault_stays(parts.drop_last(), n, input);
    } else {
        assert(parts.take(n) == parts);
    }
}

/// The four address variables and the plugin options.
#[derive(Debug)]
pub struct SipEnv {
    pub remote_host: String,
    pub remote_port: u16,
    pub local_host: String,
    pub local_port: u16,
    pub options: PluginOptions,
}

impl Clone for SipEnv {
    fn clone(&self) -> (s: Self)
        ensures
            s@ == self@,
    {
        SipEnv {
            remote_host: self.remote_host.clone(),
            remote_port: self.remote_port,
            local_host: self.local_host.clone(),
            local_port: self.local_port,
            options: self.options.clone(),
        }
    }
}

/// What the variables say.
#[verifier::ext_equal]
pub struct SipSettings {
    pub remote_host: Seq<char>,
    pub remote_port: u16,
    pub local_host: Seq<char>,
    pub local_port: u16,
    pub options: Map<Seq<char>, Seq<char>>,
}

impl View for SipEnv {
    type V = SipSettings;

    open spec fn view(&self) -> SipSettings {
        SipSettings {
            remote_host: self.remote_host@,
            remote_port: self.remote_port,
            local_host: self.local_host@,
            local_port: self.local_port,
            options: self.options@,
        }
    }
}

/// Why the variables are refused.
pub enum SipFault {
    /// A required variable is not set.
    Missing(Seq<char>),
    /// The variable holds no port number; this is what is wrong with it.
    BadPort(Seq<char>, PortFault),
    /// `SS_PLUGIN_OPTIONS` is malformed.
    BadOptions(OptionsFault),
}

/// The options that `SS_PLUGIN_OPTIONS` holds; none where it is not set.
pub open spec fn options_in_env(env: Map<Seq<char>, Seq<char>>) -> Result<
    Map<Seq<char>, Seq<char>>,
    OptionsFault,
> {
    if env.contains_key(SS_PLUGIN_OPTIONS@) {
        options_of(env[SS_PLUGIN_OPTIONS@])
    } else {
        Ok(Map::empty())
    }
}

/// The first thing wrong with the variables, in the order host, port, host,
/// port, options.
pub open spec fn env_fault(env: Map<Seq<char>, Seq<char>>) -> Option<SipFault> {
    if !env.contains_key(SS_REMOTE_HOST@) {
        Some(SipFault::Missing(SS_REMOTE_HOST@))
    } else if !env.contains_key(SS_REMOTE_PORT@) {
        Some(SipFault::Missing(SS_REMOTE_PORT@))
    } else if text::port_number(env[SS_REMOTE_PORT@]) is None {
        Some(SipFault::BadPort(SS_REMOTE_PORT@, text::port_fault(env[SS_REMOTE_PORT@])))
    } else if !env.contains_key(SS_LOCAL_HOST@) {
        Some(SipFault::Missing(SS_LOCAL_HOST@))
    } else if !env.contains_key(SS_LOCAL_PORT@) {
        Some(SipFault::Missing(SS_LOCAL_PORT@))
    } else if text::port_number(env[SS_LOCAL_PORT@]) is None {
        Some(SipFault::BadPort(SS_LOCAL_PORT@, text::port_fault(env[SS_LOCAL_PORT@])))
    } else {
        match options_in_env(env) {
            Err(f) => Some(SipFault::BadOptions(f)),
            Ok(_) => None,
        }
    }
}

/// Whether `s` is what the variables `env` say.
pub open spec fn env_says(env: Map<Seq<char>, Seq<char>>, s: SipSettings) -> bool {
    &&& s.remote_host == env[SS_REMOTE_HOST@]
    &&& text::port_number(env[SS_REMOTE_PORT@]) == Some(s.remote_port)
    &&& s.local_host == env[SS_LOCAL_HOST@]
    &&& text::port_number(env[SS_LOCAL_PORT@]) == Some(s.local_port)
    &&& options_in_env(env) == Ok::<_, OptionsFault>(s.options)
}

/// Why the variables were refused.
#[derive(Debug)]
pub enum SipError {
    Missing { name: &'static str },
    BadPort { name: &'static str, fault: PortFault },
    BadOptions { error: OptionsError },
}

impl View for SipError {
    type V = SipFault;

    open spec fn view(&self) -> SipFault {
        match self {
            SipError::Missing { name } => SipFault::Missing(name@),
            SipError::BadPort { name, fault } => SipFault::BadPort(name@, *fault),
            SipError::BadOptions { error } => SipFault::BadOptions(error@),
        }
    }
}

/// The text that tells a user about a fault in the variables.
pub open spec fn env_fault_text(f: SipFault) -> Seq<char> {
    match f {
        SipFault::Missing(name) => "missing required env var "@ + name,
        SipFault::BadPort(name, fault) => name + " must be a u16: "@ + text::port_fault_text(fault),
        SipFault::BadOptions(f) => "parse SS_PLUGIN_OPTIONS: "@ + options_fault_text(f),
    }
}

impl SipError {
    /// The message for the user.
    pub fn message(&self) -> (m: String)
        ensures
            m@ == env_fault_text(self@),
    {
        match self {
            SipError::Missing { name } => {
                let mut m = "missing required env var ".to_owned();
                m.append(name);
                m
            },
            SipError::BadPort { name, fault } => {
                let mut m = String::new();
                m.append(name);
                m.append(" must be a u16: ");
                m.append(fault.message());
                m
            },
            SipError::BadOptions { error } => {
                let mut m = "parse SS_PLUGIN_OPTIONS: ".to_owned();
                m.append(error.message().as_str());
                m
            },
        }
    }
}

fn required(env: &NameMap<String>, name: &'static str) -> (r: Result<String, SipError>)
    ensures
        match r {
            Ok(v) => env@.contains_key(name@) && v@ == text_map(env@)[name@],
            Err(e) => !env@.contains_key(name@) && e@ == SipFault::Missing(name@),
        },
{
    match env.get(name) {
        Some(v) => Ok(v.clone()),
        None => Err(SipError::Missing { name }),
    }
}

fn required_port(env: &NameMap<String>, name: &'static str) -> (r: Result<u16, SipError>)
    ensures
        match r {
            Ok(p) => env@.contains_key(name@) && text::port_number(text_map(env@)[name@]) == Some(p),
            Err(e) => if !env@.contains_key(name@) {
                e@ == SipFault::Missing(name@)
            } else {
                text::port_number(text_map(env@)[name@]) is None && e@ == SipFault::BadPort(
                    name@,
                    text::port_fault(text_map(env@)[name@]),
                )
            },
        },
{
    let v = required(env, name)?;
    match parse_port(v.as_str()) {
        Ok(p) => Ok(p),
        Err(fault) => Err(SipError::BadPort { name, fault }),
    }
}

impl SipEnv {
    /// Reads the variables out of a map from names to values.
    pub fn from_map(env: &NameMap<String>) -> (r: Result<Self, SipError>)
        ensures
            match r {
                Ok(s) => env_fault(text_map(env@)) is None && env_says(text_map(env@), s@),
                Err(e) => env_fault(text_map(env@)) == Some(e@),
            },
    {
        let remote_host = required(env, SS_REMOTE_HOST)?;
        let remote_port = required_port(env, SS_REMOTE_PORT)?;
        let local_host = required(env, SS_LOCAL_HOST)?;
        let local_port = required_port(env, SS_LOCAL_PORT)?;
        let options = match env.get(SS_PLUGIN_OPTIONS) {
            Some(s) => match PluginOptions::parse(s.as_str()) {
                Ok(o) => o,
                Err(error) => return Err(SipError::BadOptions { error }),
            },
            None => PluginOptions::default(),
        };
        Ok(SipEnv { remote_host, remote_port, local_host, local_port, options })
    }

    /// The pair of the address to listen on and the address to dial. On the
    /// server side the plugin listens on the remote address and dials the
    /// local one; on the client side it is the other way round.
    pub fn endpoints(&self, mode: Mode) -> (r: (String, String))
        ensures
            (r.0@, r.1@) == endpoints_of(self@, mode),
    {
        let remote = address(self.remote_host.as_str(), self.remote_port);
        let local = address(self.local_host.as_str(), self.local_port);
        match mode {
            Mode::Server => (remote, local),
            Mode::Client => (local, remote),
        }
    }
}

/// `host:port`.
pub open spec fn address_text(host: Seq<char>, port: u16) -> Seq<char> {
    host + ":"@ + text::decimal(port as nat)
}

fn address(host: &str, port: u16) -> (a: String)
    ensures
        a@ == address_text(host@, port),
{
    let mut a = host.to_owned();
    a.append(":");
    a.append(decimal_string(port as usize).as_str());
    a
}

/// The addresses that a plugin in `mode` listens on and dials.
pub open spec fn endpoints_of(s: SipSettings, mode: Mode) -> (Seq<char>, Seq<char>) {
    let remote = address_text(s.remote_host, s.remote_port);
    let local = address_text(s.local_host, s.local_port);
    match mode {
        Mode::Server => (remote, local),
        Mode::Client => (local, remote),
    }
}

// ---------------------------------------------------------------------------
// Laws
// ---------------------------------------------------------------------------

/// `s` with a backslash before every `;`, `=` and backslash.
pub open spec fn escaped(s: Seq<char>) -> Seq<char>
    decreases s.len(),
{
    if s.len() == 0 {
        Seq::empty()
    } else if s[0] == ';' || s[0] == '=' || s[0] == '\\' {
        seq!['\\', s[0]] + escaped(s.skip(1))
    } else {
        seq![s[0]] + escaped(s.skip(1))
    }
}

/// Whether no escape is left open at the end of `s`.
pub open spec fn balanced(s: Seq<char>) -> bool
    decreases s.len(),
{
    if s.len() == 0 {
        true
    } else if s[0] == '\\' {
        s.len() > 1 && balanced(s.skip(2))
    } else {
        balanced(s.skip(1))
    }
}

/// Whether `delim` stands in `s` only behind a backslash.
pub open spec fn shielded(s: Seq<char>, delim: char) -> bool
    decreases s.len(),
{
    if s.len() == 0 {
        true
    } else if s[0] == '\\' {
        s.len() == 1 || shielded(s.skip(2), delim)
    } else {
        s[0] != delim && shielded(s.skip(1), delim)
    }
}

/// A balanced text in front goes to the first part, split or not.
proof fn lemma_split_concat(a: Seq<char>, b: Seq<char>, delim: char)
    requires
        balanced(a),
        delim != '\\',
    ensures
        split(a + b, delim) == split(a, delim).drop_last() + prepend(
            split(a, delim).last(),
            split(b, delim),
        ),
    decreases a.len(),
{
    lemma_split_nonempty(a, delim);
    lemma_split_nonempty(b, delim);
    let s = a + b;
    if a.len() == 0 {
        assert(s == b);
        assert(prepend(Seq::empty(), split(b, delim)) == split(b, delim)) by {
            assert(Seq::<char>::empty() + split(b, delim)[0] == split(b, delim)[0]);
        }
        assert(split(a, delim) == seq![Seq::<char>::empty()]);
        assert(seq![Seq::<char>::empty()].drop_last() + split(b, delim) == split(b, delim));
    } else {
        let n: int = if a[0] == '\\' {
            2
        } else {
            1
        };
        assert(s.skip(n) == a.skip(n) + b);
        assert(s.take(n) == a.take(n));
        lemma_split_concat(a.skip(n), b, delim);
        lemma_split_nonempty(a.skip(n), delim);
        let pa = split(a.skip(n), delim);
        let pb = split(b, delim);
        let rest = split(s.skip(n), delim);
        assert(rest == pa.drop_last() + prepend(pa.last(), pb));
        if a[0] == delim {
            assert(split(a, delim) == seq![Seq::<char>::empty()] + pa);
            assert((seq![Seq::<char>::empty()] + pa).drop_last() == seq![Seq::<char>::empty()]
                + pa.drop_last());
            assert(split(s, delim) == seq![Seq::<char>::empty()] + rest);
            assert((seq![Seq::<char>::empty()] + pa).last() == pa.last());
            assert(seq![Seq::<char>::empty()] + (pa.drop_last() + prepend(pa.last(), pb)) == (seq![
                Seq::<char>::empty(),
            ] + pa.drop_last()) + prepend(pa.last(), pb));
        } else {
            let head = a.take(n);
            assert(split(a, delim) == prepend(head, pa));
            assert(split(s, delim) == prepend(head, rest));
            if pa.len() == 1 {
                assert(pa.drop_last() == Seq::<Seq<char>>::empty());
                assert(rest == prepend(pa[0], pb));
                assert(prepend(head, pa).drop_last() == Seq::<Seq<char>>::empty());
                assert(head + (pa[0] + pb[0]) == (head + pa[0]) + pb[0]);
                assert(prepend(head, rest) == prepend(head + pa[0], pb));
            } else {
                assert(prepend(head, pa).drop_last() == prepend(head, pa.drop_last()));
                assert(prepend(head, pa).last() == pa.last());
                assert(prepend(head, rest) == prepend(head, pa.drop_last()) + prepend(
                    pa.last(),
                    pb,
                ));
            }
        }
    }
}

proof fn lemma_shielded_split(s: Seq<char>, delim: char)
    requires
        shielded(s, delim),
        delim != '\\',
    ensures
        split(s, delim) == seq![s],
    decreases s.len(),
{
    if s.len() == 0 {
        assert(s == Seq::<char>::empty());
    } else if s[0] == '\\' && s.len() == 1 {
    } else {
        let n: int = if s[0] == '\\' {
            2
        } else {
            1
        };
        lemma_shielded_split(s.skip(n), delim);
        assert(s.take(n) + s.skip(n) == s);
        assert(prepend(s.take(n), seq![s.skip(n)]) == seq![s]);
    }
}

/// A balanced text, an unescaped delimiter and another text: the parts of the
/// one, then the parts of the other.
proof fn lemma_split_at_delim(a: Seq<char>, b: Seq<char>, delim: char)
    requires
        balanced(a),
        delim != '\\',
    ensures
        split(a + seq![delim] + b, delim) == split(a, delim) + split(b, delim),
{
    let tail = seq![delim] + b;
    lemma_split_nonempty(a, delim);
    lemma_split_concat(a, tail, delim);
    assert(a + tail == a + seq![delim] + b);
    assert(tail.skip(1) == b);
    assert(split(tail, delim) == seq![Seq::<char>::empty()] + split(b, delim));
    let last = split(a, delim).last();
    assert(last + Seq::<char>::empty() == last);
    assert(prepend(last, split(tail, delim)) == seq![last] + split(b, delim));
    assert(split(a, delim).drop_last() + (seq![last] + split(b, delim)) == split(a, delim) + split(
        b,
        delim,
    ));
}

proof fn lemma_escaped(s: Seq<char>)
    ensures
        balanced(escaped(s)),
        shielded(escaped(s), ';'),
        shielded(escaped(s), '='),
        unescaped(escaped(s)) == s,
    decreases s.len(),
{
    if s.len() > 0 {
        let rest = escaped(s.skip(1));
        lemma_escaped(s.skip(1));
        assert(seq![s[0]] + s.skip(1) == s);
        if s[0] == ';' || s[0] == '=' || s[0] == '\\' {
            assert(escaped(s).skip(2) == rest);
        } else {
            assert(escaped(s).skip(1) == rest);
        }
    } else {
        assert(s == Seq::<char>::empty());
    }
}

proof fn lemma_balanced_concat(a: Seq<char>, b: Seq<char>)
    requires
        balanced(a),
        balanced(b),
    ensures
        balanced(a + b),
    decreases a.len(),
{
    if a.len() == 0 {
        assert(a + b == b);
    } else {
        let n: int = if a[0] == '\\' {
            2
        } else {
            1
        };
        assert((a + b).skip(n) == a.skip(n) + b);
        lemma_balanced_concat(a.skip(n), b);
    }
}

proof fn lemma_shielded_concat(a: Seq<char>, b: Seq<char>, delim: char)
    requires
        balanced(a),
        shielded(a, delim),
        shielded(b, delim),
    ensures
        shielded(a + b, delim),
    decreases a.len(),
{
    if a.len() == 0 {
        assert(a + b == b);
    } else {
        let n: int = if a[0] == '\\' {
            2
        } else {
            1
        };
        assert((a + b).skip(n) == a.skip(n) + b);
        lemma_shielded_concat(a.skip(n), b, delim);
    }
}

proof fn lemma_single(c: char, delim: char)
    requires
        c != '\\',
        c != delim,
    ensures
        balanced(seq![c]),
        shielded(seq![c], delim),
{
    reveal_with_fuel(balanced, 2);
    reveal_with_fuel(shielded, 2);
}

proof fn lemma_only_part(s: Seq<char>, input: Seq<char>)
    ensures
        s.len() == 0 ==> options_in(seq![s], input) == Ok::<_, OptionsFault>(
            Map::<Seq<char>, Seq<char>>::empty(),
        ),
        s.len() > 0 ==> options_in(seq![s], input) == match option_of(s, input) {
            Ok((key, value)) => Ok(map![key => value]),
            Err(f) => Err(f),
        },
{
    let none = Seq::<Seq<char>>::empty();
    assert(seq![s].drop_last() == none);
    assert(options_in(none, input) == Ok::<_, OptionsFault>(Map::<Seq<char>, Seq<char>>::empty()));
    if let Ok((key, value)) = option_of(s, input) {
        assert(Map::<Seq<char>, Seq<char>>::empty().insert(key, value) == map![key => value]);
    }
}

/// Resolving escapes undoes escaping: every text can be a key or a value.
pub proof fn law_escape_round_trip(s: Seq<char>)
    ensures
        unescaped(escaped(s)) == s,
{
    lemma_escaped(s);
}

/// Unescaping goes piece by piece: where `a` leaves no escape open, `a` and what
/// follows it are unescaped each for itself. A text without backslash is left as
/// it is, an escaped character stands for itself, and a lone backslash for
/// nothing.
pub proof fn law_unescape_piece_by_piece(a: Seq<char>, b: Seq<char>, c: char)
    ensures
        balanced(a) ==> unescaped(a + b) == unescaped(a) + unescaped(b),
        (forall|i: int| 0 <= i < a.len() ==> a[i] != '\\') ==> unescaped(a) == a,
        unescaped(seq!['\\', c]) == seq![c],
        unescaped(seq!['\\']) == Seq::<char>::empty(),
{
    if balanced(a) {
        lemma_unescape_concat(a, b);
    }
    if forall|i: int| 0 <= i < a.len() ==> a[i] != '\\' {
        lemma_unescape_plain(a);
    }
    let one = seq!['\\', c];
    assert(one.skip(2) == Seq::<char>::empty());
    assert(unescaped(one.skip(2)) == Seq::<char>::empty());
    assert(seq![c] + Seq::<char>::empty() == seq![c]);
}

proof fn lemma_unescape_concat(a: Seq<char>, b: Seq<char>)
    requires
        balanced(a),
    ensures
        unescaped(a + b) == unescaped(a) + unescaped(b),
    decreases a.len(),
{
    if a.len() == 0 {
        assert(a + b == b);
        assert(unescaped(a) + unescaped(b) == unescaped(b));
    } else {
        let n: int = if a[0] == '\\' {
            2
        } else {
            1
        };
        assert((a + b).skip(n) == a.skip(n) + b);
        lemma_unescape_concat(a.skip(n), b);
        let head = seq![a[n - 1]];
        assert(head + (unescaped(a.skip(n)) + unescaped(b)) == head + unescaped(a.skip(n))
            + unescaped(b));
    }
}

proof fn lemma_unescape_plain(s: Seq<char>)
    requires
        forall|i: int| 0 <= i < s.len() ==> s[i] != '\\',
    ensures
        unescaped(s) == s,
    decreases s.len(),
{
    if s.len() > 0 {
        assert(forall|i: int| 0 <= i < s.skip(1).len() ==> s.skip(1)[i] == s[i + 1]);
        lemma_unescape_plain(s.skip(1));
        assert(seq![s[0]] + s.skip(1) == s);
    } else {
        assert(unescaped(s) == s);
    }
}

/// One option as a user writes it.
pub open spec fn rendered_option(key: Seq<char>, value: Seq<char>) -> Seq<char> {
    escaped(key) + seq!['='] + escaped(value)
}

/// A list of options as a user writes it, each ended by a `;`.
pub open spec fn rendered(list: Seq<(Seq<char>, Seq<char>)>) -> Seq<char>
    decreases list.len(),
{
    if list.len() == 0 {
        Seq::empty()
    } else {
        rendered(list.drop_last()) + rendered_option(list.last().0, list.last().1) + seq![';']
    }
}

/// A list of options as a map, in which the last value of a key counts.
pub open spec fn as_map(list: Seq<(Seq<char>, Seq<char>)>) -> Map<Seq<char>, Seq<char>>
    decreases list.len(),
{
    if list.len() == 0 {
        Map::empty()
    } else {
        as_map(list.drop_last()).insert(list.last().0, list.last().1)
    }
}

proof fn lemma_rendered_option(key: Seq<char>, value: Seq<char>, input: Seq<char>)
    requires
        key.len() > 0,
    ensures
        balanced(rendered_option(key, value)),
        shielded(rendered_option(key, value), ';'),
        option_of(rendered_option(key, value), input) == Ok::<_, OptionsFault>((key, value)),
        rendered_option(key, value).len() > 0,
{
    lemma_escaped(key);
    lemma_escaped(value);
    let head = escaped(key) + seq!['='];
    lemma_single('=', ';');
    lemma_balanced_concat(escaped(key), seq!['=']);
    lemma_shielded_concat(escaped(key), seq!['='], ';');
    lemma_balanced_concat(head, escaped(value));
    lemma_shielded_concat(head, escaped(value), ';');
    lemma_split_at_delim(escaped(key), escaped(value), '=');
    lemma_shielded_split(escaped(key), '=');
    lemma_shielded_split(escaped(value), '=');
    assert(split(rendered_option(key, value), '=') == seq![escaped(key), escaped(value)]);
}

proof fn lemma_rendered(list: Seq<(Seq<char>, Seq<char>)>, input: Seq<char>)
    requires
        forall|i: int| 0 <= i < list.len() ==> (#[trigger] list[i]).0.len() > 0,
    ensures
        balanced(rendered(list)),
        options_in(split(rendered(list), ';'), input) == Ok::<_, OptionsFault>(as_map(list)),
    decreases list.len(),
{
    let empty = Seq::<char>::empty();
    if list.len() == 0 {
        assert(split(rendered(list), ';') == seq![empty]);
        lemma_only_part(empty, input);
    } else {
        let front = rendered(list.drop_last());
        let one = rendered_option(list.last().0, list.last().1);
        assert(list.last() == list[list.len() - 1]);
        assert forall|i: int| 0 <= i < list.drop_last().len() implies (
        #[trigger] list.drop_last()[i]).0.len() > 0 by {
            assert(list.drop_last()[i] == list[i]);
        }
        lemma_rendered(list.drop_last(), input);
        lemma_rendered_option(list.last().0, list.last().1, input);
        lemma_single(';', '=');
        lemma_balanced_concat(one, seq![';']);
        lemma_balanced_concat(front, one + seq![';']);
        assert(front + (one + seq![';']) == rendered(list));
        lemma_split_at_delim(one, empty, ';');
        assert(one + seq![';'] + empty == one + seq![';']);
        lemma_shielded_split(one, ';');
        assert(split(one + seq![';'], ';') == seq![one, empty]);
        lemma_front_is_closed(list.drop_last());
        lemma_split_nonempty(front, ';');
        lemma_split_concat(front, one + seq![';'], ';');
        let parts = split(front, ';');
        let all = split(rendered(list), ';');
        assert(parts.last() == empty);
        assert(empty + one == one);
        assert(prepend(empty, seq![one, empty]) == seq![one, empty]);
        assert(all == parts.drop_last() + seq![one, empty]);
        assert(all.drop_last() == parts.drop_last().push(one));
        assert(all.drop_last().drop_last() == parts.drop_last());
        assert(all.last() == empty);
        assert(all.drop_last().last() == one);
        assert(options_in(all.drop_last(), input) == Ok::<_, OptionsFault>(as_map(list)));
    }
}

proof fn lemma_front_is_closed(list: Seq<(Seq<char>, Seq<char>)>)
    requires
        forall|i: int| 0 <= i < list.len() ==> (#[trigger] list[i]).0.len() > 0,
    ensures
        balanced(rendered(list)),
        split(rendered(list), ';').last() == Seq::<char>::empty(),
    decreases list.len(),
{
    let empty = Seq::<char>::empty();
    if list.len() == 0 {
        assert(split(rendered(list), ';') == seq![empty]);
    } else {
        let front = rendered(list.drop_last());
        let one = rendered_option(list.last().0, list.last().1);
        assert(list.last() == list[list.len() - 1]);
        assert forall|i: int| 0 <= i < list.drop_last().len() implies (
        #[trigger] list.drop_last()[i]).0.len() > 0 by {
            assert(list.drop_last()[i] == list[i]);
        }
        lemma_front_is_closed(list.drop_last());
        lemma_rendered_option(list.last().0, list.last().1, empty);
        lemma_balanced_concat(front, one);
        lemma_single(';', '=');
        lemma_balanced_concat(front + one, seq![';']);
        lemma_split_at_delim(front + one, empty, ';');
        assert(front + one + seq![';'] + empty == rendered(list));
        assert(split(empty, ';') == seq![empty]);
    }
}

/// What is written is read back: any list of options with non-empty keys,
/// whatever characters its keys and values hold, is read as the map that it
/// stands for.
pub proof fn law_options_round_trip(list: Seq<(Seq<char>, Seq<char>)>)
    requires
        forall|i: int| 0 <= i < list.len() ==> (#[trigger] list[i]).0.len() > 0,
    ensures
        options_of(rendered(list)) == Ok::<_, OptionsFault>(as_map(list)),
{
    lemma_rendered(list, rendered(list));
}

proof fn lemma_options_in_concat(a: Seq<Seq<char>>, b: Seq<Seq<char>>, input: Seq<char>)
    ensures
        match (options_in(a, input), options_in(b, input)) {
            (Ok(m), Ok(n)) => options_in(a + b, input) == Ok::<_, OptionsFault>(
                m.union_prefer_right(n),
            ),
            (Err(f), _) => options_in(a + b, input) == Err::<Map<Seq<char>, Seq<char>>, _>(f),
            (Ok(_), Err(f)) => options_in(a + b, input) == Err::<Map<Seq<char>, Seq<char>>, _>(f),
        },
    decreases b.len(),
{
    if b.len() == 0 {
        assert(a + b == a);
        if let Ok(m) = options_in(a, input) {
            assert(m.union_prefer_right(Map::empty()) == m);
        }
    } else {
        lemma_options_in_concat(a, b.drop_last(), input);
        assert((a + b).drop_last() == a + b.drop_last());
        assert((a + b).last() == b.last());
        if let (Ok(m), Ok(n)) = (options_in(a, input), options_in(b.drop_last(), input)) {
            if let Ok((k, v)) = option_of(b.last(), input) {
                assert(m.union_prefer_right(n).insert(k, v) == m.union_prefer_right(
                    n.insert(k, v),
                ));
            }
        }
    }
}

/// The whole text is only repeated in messages: whether options are read, and
/// which, does not depend on it.
proof fn lemma_input_is_only_named(parts: Seq<Seq<char>>, a: Seq<char>, b: Seq<char>)
    ensures
        options_in(parts, a) is Ok ==> options_in(parts, b) == options_in(parts, a),
    decreases parts.len(),
{
    if parts.len() > 0 {
        lemma_input_is_only_named(parts.drop_last(), a, b);
    }
}

/// Two option strings joined by `;` are read as both together, the second
/// taking precedence; so a trailing `;` changes nothing. The first must not
/// end in an open escape, which would swallow the `;`.
pub proof fn law_joined_options(a: Seq<char>, b: Seq<char>)
    requires
        balanced(a),
    ensures
        match (options_of(a), options_of(b)) {
            (Ok(m), Ok(n)) => options_of(a + seq![';'] + b) == Ok::<_, OptionsFault>(
                m.union_prefer_right(n),
            ),
            _ => options_of(a + seq![';'] + b) is Err,
        },
        options_of(a) is Ok ==> options_of(a + seq![';']) == options_of(a),
{
    let empty = Seq::<char>::empty();
    let s = a + seq![';'] + b;
    lemma_split_at_delim(a, b, ';');
    lemma_options_in_concat(split(a, ';'), split(b, ';'), s);
    lemma_input_is_only_named(split(a, ';'), a, s);
    lemma_input_is_only_named(split(b, ';'), b, s);
    lemma_input_is_only_named(split(a, ';'), s, a);
    lemma_input_is_only_named(split(b, ';'), s, b);
    let t = a + seq![';'];
    lemma_split_at_delim(a, empty, ';');
    assert(t + empty == t);
    assert(split(empty, ';') == seq![empty]);
    assert(split(t, ';') == split(a, ';').push(empty));
    assert(split(t, ';').drop_last() == split(a, ';'));
    lemma_input_is_only_named(split(a, ';'), a, t);
}

/// The two sides mirror each other: what the one listens on, the other dials.
pub proof fn law_sides_mirror(s: SipSettings)
    ensures
        endpoints_of(s, Mode::Server).0 == endpoints_of(s, Mode::Client).1,
        endpoints_of(s, Mode::Server).1 == endpoints_of(s, Mode::Client).0,
{
}

/// Whether `s` holds no `;`, no `=` and no backslash.
pub open spec fn is_plain(s: Seq<char>) -> bool {
    forall|i: int| 0 <= i < s.len() ==> s[i] != ';' && s[i] != '=' && s[i] != '\\'
}

/// A text without `;`, `=` and backslash is its own escaped form.
pub proof fn lemma_plain(s: Seq<char>)
    requires
        is_plain(s),
    ensures
        escaped(s) == s,
    decreases s.len(),
{
    if s.len() > 0 {
        assert(forall|i: int| 0 <= i < s.skip(1).len() ==> s.skip(1)[i] == s[i + 1]);
        lemma_plain(s.skip(1));
        assert(seq![s[0]] + s.skip(1) == s);
    } else {
        assert(escaped(s) == s);
    }
}

/// A text without backslash leaves no escape open.
pub proof fn lemma_plain_is_balanced(s: Seq<char>)
    requires
        forall|i: int| 0 <= i < s.len() ==> s[i] != '\\',
    ensures
        balanced(s),
    decreases s.len(),
{
    if s.len() > 0 {
        assert(forall|i: int| 0 <= i < s.skip(1).len() ==> s.skip(1)[i] == s[i + 1]);
        lemma_plain_is_balanced(s.skip(1));
    }
}

/// A value without `;`, `=` and backslash can be pasted as it is.
pub proof fn law_plain_values_need_no_escape(key: Seq<char>, value: Seq<char>)
    requires
        key.len() > 0,
        is_plain(key),
        is_plain(value),
    ensures
        options_of(key + seq!['='] + value) == Ok::<_, OptionsFault>(map![key => value]),
{
    let s = key + seq!['='] + value;
    lemma_plain(key);
    lemma_plain(value);
    lemma_rendered_option(key, value, s);
    lemma_shielded_split(s, ';');
    lemma_only_part(s, s);
}

/// Any value can be given when it is escaped, alone or behind an option string
/// `before` that leaves no escape open.
pub proof fn law_escaped_value_is_read(before: Seq<char>, key: Seq<char>, value: Seq<char>)
    requires
        key.len() > 0,
        is_plain(key),
    ensures
        options_of(key + seq!['='] + escaped(value)) == Ok::<_, OptionsFault>(map![key => value]),
        balanced(before) ==> (options_of(before) matches Ok(m) ==> options_of(
            before + seq![';'] + (key + seq!['='] + escaped(value)),
        ) == Ok::<_, OptionsFault>(m.insert(key, value))),
{
    let s = key + seq!['='] + escaped(value);
    lemma_plain(key);
    lemma_rendered_option(key, value, s);
    lemma_shielded_split(s, ';');
    lemma_only_part(s, s);
    if balanced(before) {
        law_joined_options(before, s);
        if let Ok(m) = options_of(before) {
            assert(m.union_prefer_right(map![key => value]) == m.insert(key, value));
        }
    }
}

/// A second unescaped `=` is refused, with the key in the message.
pub proof fn law_second_equals_is_refused(key: Seq<char>, value: Seq<char>, more: Seq<char>)
    requires
        is_plain(key),
        is_plain(value),
        is_plain(more),
    ensures
        options_of(key + seq!['='] + value + seq!['='] + more) == Err::<
            Map<Seq<char>, Seq<char>>,
            _,
        >(OptionsFault::ExtraEquals(key)),
{
    let head = key + seq!['='] + value;
    let s = head + seq!['='] + more;
    lemma_plain(key);
    lemma_plain(value);
    lemma_plain(more);
    lemma_escaped(key);
    lemma_escaped(value);
    lemma_escaped(more);
    lemma_single('=', ';');
    lemma_balanced_concat(key, seq!['=']);
    lemma_balanced_concat(key + seq!['='], value);
    lemma_balanced_concat(head, seq!['=']);
    lemma_shielded_concat(key, seq!['='], ';');
    lemma_shielded_concat(key + seq!['='], value, ';');
    lemma_shielded_concat(head, seq!['='], ';');
    lemma_shielded_concat(head + seq!['='], more, ';');
    lemma_shielded_split(s, ';');
    lemma_split_at_delim(key, value, '=');
    lemma_split_at_delim(head, more, '=');
    lemma_shielded_split(key, '=');
    lemma_shielded_split(value, '=');
    lemma_shielded_split(more, '=');
    assert(split(s, '=') == seq![key, value, more]);
    lemma_only_part(s, s);
}

/// Escaping goes character by character: a `;`, a `=` and a backslash get a backslash
/// before them, any other character is left alone.
pub proof fn law_escape_character_by_character(a: Seq<char>, b: Seq<char>, c: char)
    ensures
        escaped(Seq::empty()) == Seq::<char>::empty(),
        escaped(a + b) == escaped(a) + escaped(b),
        c == ';' || c == '=' || c == '\\' ==> escaped(seq![c]) == seq!['\\', c],
        c != ';' && c != '=' && c != '\\' ==> escaped(seq![c]) == seq![c],
    decreases a.len(),
{
    if a.len() == 0 {
        assert(a + b =~= b);
        assert(escaped(a) + escaped(b) =~= escaped(b));
    } else {
        law_escape_character_by_character(a.skip(1), b, c);
        assert((a + b).skip(1) =~= a.skip(1) + b);
        assert((a + b)[0] == a[0]);
        assert(escaped(a + b) =~= escaped(a) + escaped(b));
    }
    assert(seq![c].skip(1) =~= Seq::<char>::empty());
    assert(escaped(seq![c].skip(1)) == Seq::<char>::empty());
    if c == ';' || c == '=' || c == '\\' {
        assert(escaped(seq![c]) =~= seq!['\\', c]);
    } else {
        assert(escaped(seq![c]) =~= seq![c]);
    }
}

/// An option as it is written, with escapes of any kind: the part before its `=` is
/// the key and the part behind it the value, each with its escapes resolved. Without
/// a `=` the value is empty.
pub proof fn law_raw_option_is_unescaped(a: Seq<char>, b: Seq<char>)
    requires
        balanced(a),
        shielded(a, '='),
        shielded(a, ';'),
        shielded(b, '='),
        shielded(b, ';'),
        unescaped(a).len() > 0,
    ensures
        options_of(a + seq!['='] + b) == Ok::<_, OptionsFault>(map![unescaped(a) => unescaped(b)]),
        options_of(a) == Ok::<_, OptionsFault>(map![unescaped(a) => Seq::<char>::empty()]),
{
    let s = a + seq!['='] + b;
    lemma_single('=', ';');
    lemma_balanced_concat(a, seq!['=']);
    lemma_shielded_concat(a, seq!['='], ';');
    lemma_shielded_concat(a + seq!['='], b, ';');
    lemma_shielded_split(s, ';');
    lemma_shielded_split(a, ';');
    lemma_split_at_delim(a, b, '=');
    lemma_shielded_split(a, '=');
    lemma_shielded_split(b, '=');
    assert(split(s, '=') =~= seq![a, b]);
    if a.len() == 0 {
        assert(unescaped(a).len() == 0);
    }
    lemma_only_part(s, s);
    lemma_only_part(a, a);
}

/// An option without a key is refused, and the message shows the whole option
/// string.
pub proof fn law_empty_key_is_refused(b: Seq<char>)
    requires
        shielded(b, '='),
        shielded(b, ';'),
    ensures
        options_of(seq!['='] + b) == Err::<Map<Seq<char>, Seq<char>>, _>(
            OptionsFault::EmptyKey(seq!['='] + b),
        ),
{
    let empty = Seq::<char>::empty();
    let s = seq!['='] + b;
    assert(empty + seq!['='] + b =~= s);
    lemma_single('=', ';');
    lemma_shielded_concat(seq!['='], b, ';');
    lemma_shielded_split(s, ';');
    lemma_split_at_delim(empty, b, '=');
    lemma_shielded_split(b, '=');
    assert(split(empty, '=') =~= seq![empty]);
    assert(split(s, '=') =~= seq![empty, b]);
    lemma_only_part(s, s);
}

/// Of the whole text a fault holds nothing but, for an empty key, the text itself.
proof fn lemma_fault_of_input(parts: Seq<Seq<char>>, a: Seq<char>, b: Seq<char>)
    ensures
        match options_in(parts, a) {
            Ok(m) => options_in(parts, b) == Ok::<_, OptionsFault>(m),
            Err(OptionsFault::ExtraEquals(key)) => options_in(parts, b) == Err::<
                Map<Seq<char>, Seq<char>>,
                _,
            >(OptionsFault::ExtraEquals(key)),
            Err(OptionsFault::EmptyKey(t)) => t == a && options_in(parts, b) == Err::<
                Map<Seq<char>, Seq<char>>,
                _,
            >(OptionsFault::EmptyKey(b)),
        },
    decreases parts.len(),
{
    if parts.len() > 0 {
        lemma_fault_of_input(parts.drop_last(), a, b);
    }
}

/// The first fault from the left is reported.
pub proof fn law_leftmost_fault_is_reported(a: Seq<char>, b: Seq<char>)
    requires
        balanced(a),
    ensures
        ({
            let s = a + seq![';'] + b;
            let first = if options_of(a) is Err {
                options_of(a)
            } else {
                options_of(b)
            };
            match first {
                Ok(_) => options_of(s) is Ok,
                Err(OptionsFault::ExtraEquals(key)) => options_of(s) == Err::<
                    Map<Seq<char>, Seq<char>>,
                    _,
                >(OptionsFault::ExtraEquals(key)),
                Err(OptionsFault::EmptyKey(_)) => options_of(s) == Err::<
                    Map<Seq<char>, Seq<char>>,
                    _,
                >(OptionsFault::EmptyKey(s)),
            }
        }),
{
    let s = a + seq![';'] + b;
    lemma_split_at_delim(a, b, ';');
    lemma_options_in_concat(split(a, ';'), split(b, ';'), s);
    lemma_fault_of_input(split(a, ';'), a, s);
    lemma_fault_of_input(split(b, ';'), b, s);
}

/// The mode is the value of `mode`, which is one of two words.
pub proof fn law_modes(m: Map<Seq<char>, Seq<char>>)
    ensures
        mode_of(m) == Ok::<_, ModeFault>(Mode::Server) <==> m.contains_key("mode"@) && m["mode"@]
            == "server"@,
        mode_of(m) == Ok::<_, ModeFault>(Mode::Client) <==> m.contains_key("mode"@) && m["mode"@]
            == "client"@,
        mode_of(m) == Err::<Mode, _>(ModeFault::Missing) <==> !m.contains_key("mode"@),
        mode_of(m) matches Err(ModeFault::Unknown(v)) ==> v == m["mode"@],
{
    reveal_strlit("server");
    reveal_strlit("client");
    assert("server"@[0] == 's');
    assert("client"@[0] == 'c');
}

/// What is read out of the variables: both hosts as they are, both ports by value,
/// and the options, of which there are none where the variable is not set.
pub proof fn law_variables_are_read(env: Map<Seq<char>, Seq<char>>, s: SipEnv)
    requires
        env_says(env, s@),
        env_fault(env) is None,
    ensures
        s.remote_host@ == env["SS_REMOTE_HOST"@],
        s.local_host@ == env["SS_LOCAL_HOST"@],
        text::port_number(env["SS_REMOTE_PORT"@]) == Some(s.remote_port),
        text::port_number(env["SS_LOCAL_PORT"@]) == Some(s.local_port),
        env.contains_key("SS_PLUGIN_OPTIONS"@) ==> options_of(env["SS_PLUGIN_OPTIONS"@]) == Ok::<
            _,
            OptionsFault,
        >(s.options@),
        !env.contains_key("SS_PLUGIN_OPTIONS"@) ==> s.options@ == Map::<
            Seq<char>,
            Seq<char>,
        >::empty(),
{
}

/// The variables are accepted if and only if the four of the addresses are there,
/// both ports are port numbers and the options, if there are any, are well-formed;
/// a fault says which variable is missing or wrong.
pub proof fn law_accepted_variables(env: Map<Seq<char>, Seq<char>>)
    ensures
        env_fault(env) is None <==> {
            &&& env.contains_key("SS_REMOTE_HOST"@)
            &&& env.contains_key("SS_REMOTE_PORT"@)
            &&& env.contains_key("SS_LOCAL_HOST"@)
            &&& env.contains_key("SS_LOCAL_PORT"@)
            &&& text::port_number(env["SS_REMOTE_PORT"@]) is Some
            &&& text::port_number(env["SS_LOCAL_PORT"@]) is Some
            &&& env.contains_key("SS_PLUGIN_OPTIONS"@) ==> options_of(env["SS_PLUGIN_OPTIONS"@]) is Ok
        },
        env_fault(env) matches Some(SipFault::Missing(name)) ==> !env.contains_key(name) && (name
            == "SS_REMOTE_HOST"@ || name == "SS_REMOTE_PORT"@ || name == "SS_LOCAL_HOST"@ || name
            == "SS_LOCAL_PORT"@),
        env_fault(env) matches Some(SipFault::BadPort(name, fault)) ==> env.contains_key(name)
            && text::port_number(env[name]) is None && fault == text::port_fault(env[name]) && (name
            == "SS_REMOTE_PORT"@ || name == "SS_LOCAL_PORT"@),
        env_fault(env) matches Some(SipFault::BadOptions(f)) ==> env.contains_key(
            "SS_PLUGIN_OPTIONS"@,
        ) && options_of(env["SS_PLUGIN_OPTIONS"@]) == Err::<Map<Seq<char>, Seq<char>>, _>(f),
        !env.contains_key("SS_REMOTE_HOST"@) ==> env_fault(env) == Some(
            SipFault::Missing("SS_REMOTE_HOST"@),
        ),
        env_fault(env) matches Some(SipFault::BadOptions(_)) ==> env.contains_key(
            "SS_REMOTE_HOST"@,
        ) && env.contains_key("SS_LOCAL_HOST"@) && text::port_number(env["SS_REMOTE_PORT"@]) is Some
            && text::port_number(env["SS_LOCAL_PORT"@]) is Some,
{
}

/// A server listens on the remote address and dials the local one, a client the
/// other way round; an address is the host as it is, a colon, and the port in
/// decimal.
pub proof fn law_addresses(s: SipEnv)
    ensures
        endpoints_of(s@, Mode::Server).0 == s.remote_host@ + seq![':'] + text::decimal(
            s.remote_port as nat,
        ),
        endpoints_of(s@, Mode::Server).1 == s.local_host@ + seq![':'] + text::decimal(
            s.local_port as nat,
        ),
        endpoints_of(s@, Mode::Client).0 == s.local_host@ + seq![':'] + text::decimal(
            s.local_port as nat,
        ),
        endpoints_of(s@, Mode::Client).1 == s.remote_host@ + seq![':'] + text::decimal(
            s.remote_port as nat,
        ),
{
    reveal_strlit(":");
    assert(":"@ =~= seq![':']);
}

/// The messages name the variable or the option that they are about.
pub proof fn law_messages_name_the_variable(name: Seq<char>, fault: PortFault)
    ensures
        env_fault_text(SipFault::Missing(name)) == "missing required env var "@ + name,
        env_fault_text(SipFault::BadPort(name, fault)) == name + " must be a u16: "@
            + text::port_fault_text(fault),
        options_fault_text(OptionsFault::ExtraEquals(name)) == "plugin option "@
            + text::debug_quoted(name) + " has more than one unescaped `=`"@,
        options_fault_text(OptionsFault::EmptyKey(name)) == "empty key in plugin options: "@
            + text::debug_quoted(name),
        mode_fault_text(ModeFault::Unknown(name))
            == "plugin option `mode` must be `server` or `client`, got "@ + text::debug_quoted(name),
{
}

/// The variables are looked at in order: the remote host and port, then the local
/// host and port; the first that is missing or wrong is reported.
pub proof fn law_variables_are_checked_in_order(env: Map<Seq<char>, Seq<char>>)
    requires
        env.contains_key("SS_REMOTE_HOST"@),
    ensures
        !env.contains_key("SS_REMOTE_PORT"@) ==> env_fault(env) == Some(
            SipFault::Missing("SS_REMOTE_PORT"@),
        ),
        env.contains_key("SS_REMOTE_PORT"@) && text::port_number(env["SS_REMOTE_PORT"@]) is None
            ==> env_fault(env) == Some(
            SipFault::BadPort("SS_REMOTE_PORT"@, text::port_fault(env["SS_REMOTE_PORT"@])),
        ),
        env.contains_key("SS_REMOTE_PORT"@) && text::port_number(env["SS_REMOTE_PORT"@]) is Some
            && !env.contains_key("SS_LOCAL_HOST"@) ==> env_fault(env) == Some(
            SipFault::Missing("SS_LOCAL_HOST"@),
        ),
        env.contains_key("SS_REMOTE_PORT"@) && text::port_number(env["SS_REMOTE_PORT"@]) is Some
            && env.contains_key("SS_LOCAL_HOST"@) && !env.contains_key("SS_LOCAL_PORT"@)
            ==> env_fault(env) == Some(SipFault::Missing("SS_LOCAL_PORT"@)),
        env.contains_key("SS_REMOTE_PORT"@) && text::port_number(env["SS_REMOTE_PORT"@]) is Some
            && env.contains_key("SS_LOCAL_HOST"@) && env.contains_key("SS_LOCAL_PORT"@)
            && text::port_number(env["SS_LOCAL_PORT"@]) is None ==> env_fault(env) == Some(
            SipFault::BadPort("SS_LOCAL_PORT"@, text::port_fault(env["SS_LOCAL_PORT"@])),
        ),
{
}

/// An option with a second `=` that no backslash escapes is refused, whatever follows
/// it, and the message names its key. The empty option string holds no options.
pub proof fn law_raw_second_equals_is_refused(a: Seq<char>, b: Seq<char>, c: Seq<char>)
    requires
        balanced(a),
        balanced(b),
        shielded(a, '='),
        shielded(b, '='),
        shielded(a, ';'),
        shielded(b, ';'),
        shielded(c, ';'),
    ensures
        options_of(a + seq!['='] + b + seq!['='] + c) == Err::<Map<Seq<char>, Seq<char>>, _>(
            OptionsFault::ExtraEquals(unescaped(a)),
        ),
        options_of(Seq::empty()) == Ok::<_, OptionsFault>(Map::<Seq<char>, Seq<char>>::empty()),
{
    let head = a + seq!['='] + b;
    let s = head + seq!['='] + c;
    lemma_single('=', ';');
    lemma_balanced_concat(a, seq!['=']);
    lemma_balanced_concat(a + seq!['='], b);
    lemma_balanced_concat(head, seq!['=']);
    lemma_shielded_concat(a, seq!['='], ';');
    lemma_shielded_concat(a + seq!['='], b, ';');
    lemma_shielded_concat(head, seq!['='], ';');
    lemma_shielded_concat(head + seq!['='], c, ';');
    lemma_shielded_split(s, ';');
    lemma_split_at_delim(a, b, '=');
    lemma_split_at_delim(head, c, '=');
    lemma_shielded_split(a, '=');
    lemma_shielded_split(b, '=');
    lemma_split_nonempty(c, '=');
    assert(split(head, '=') =~= seq![a, b]);
    assert(split(s, '=')[0] == a);
    lemma_only_part(s, s);
    let empty = Seq::<char>::empty();
    assert(split(empty, ';') =~= seq![empty]);
    lemma_only_part(empty, empty);
}

} // verus!
