//! Configuration: built-in defaults, the INI settings that override them,
//! and the value parsers for booleans, session modes and counts.

use vstd::prelude::*;
use vstd::string::*;
use crate::text::{
    all_ascii, ascii_lower, ascii_lower_chars, chars_eq, chars_of, find_char, find_index,
    lemma_find_index, rfind_char, rfind_index, sub_chars, trim, trim_chars,
};
use ini::configparser::ini::Ini;

verus! {

/// How a session child is run.
#[derive(Debug, Clone, Copy, PartialEq, Eq, Structural)]
pub enum SessionMode {
    /// Mode `none`: the template runs as a notification hook whose
    /// lifecycle is not managed.
    Unmanaged,
    /// The child starts in a new session (`setsid`), as a login getty.
    Getty,
    /// The child starts without `setsid` and is managed.
    Exec,
}

#[derive(Debug, Clone)]
pub struct BluezConfig {
    pub profile_path: String,
    pub profile_uuid: String,
    pub profile_name: String,
    pub require_authentication: bool,
    pub require_authorization: bool,
}

#[derive(Debug, Clone)]
pub struct SessionConfig {
    pub mode: SessionMode,
    pub subcommand_template: String,
    pub hup_fallback: bool,
    /// Maximum number of active sessions; 0 means unlimited.
    pub max_sessions: usize,
    /// Milliseconds between SIGHUP and SIGTERM when a managed child is stopped.
    pub hup_to_term_delay_ms: u64,
    /// Milliseconds to wait for sessions to close before escalating to SIGKILL.
    pub process_group_term_timeout_ms: u64,
}

#[derive(Debug, Clone)]
pub struct Config {
    pub bluez: BluezConfig,
    pub session: SessionConfig,
}

pub struct BluezConfigView {
    pub profile_path: Seq<char>,
    pub profile_uuid: Seq<char>,
    pub profile_name: Seq<char>,
    pub require_authentication: bool,
    pub require_authorization: bool,
}

pub struct SessionConfigView {
    pub mode: SessionMode,
    pub subcommand_template: Seq<char>,
    pub hup_fallback: bool,
    pub max_sessions: usize,
    pub hup_to_term_delay_ms: u64,
    pub process_group_term_timeout_ms: u64,
}

pub struct ConfigView {
    pub bluez: BluezConfigView,
    pub session: SessionConfigView,
}

impl View for BluezConfig {
    type V = BluezConfigView;

    open spec fn view(&self) -> BluezConfigView {
        BluezConfigView {
            profile_path: self.profile_path@,
            profile_uuid: self.profile_uuid@,
            profile_name: self.profile_name@,
            require_authentication: self.require_authentication,
            require_authorization: self.require_authorization,
        }
    }
}

impl View for SessionConfig {
    type V = SessionConfigView;

    open spec fn view(&self) -> SessionConfigView {
        SessionConfigView {
            mode: self.mode,
            subcommand_template: self.subcommand_template@,
            hup_fallback: self.hup_fallback,
            max_sessions: self.max_sessions,
            hup_to_term_delay_ms: self.hup_to_term_delay_ms,
            process_group_term_timeout_ms: self.process_group_term_timeout_ms,
        }
    }
}

impl View for Config {
    type V = ConfigView;

    open spec fn view(&self) -> ConfigView {
        ConfigView { bluez: self.bluez@, session: self.session@ }
    }
}

/// The built-in configuration used where no file or setting overrides it.
pub open spec fn default_config() -> ConfigView {
    ConfigView {
        bluez: BluezConfigView {
            profile_path: "/com/bluetty/spp_profile"@,
            profile_uuid: "00001101-0000-1000-8000-00805f9b34fb"@,
            profile_name: "SPP Getty"@,
            require_authentication: false,
            require_authorization: false,
        },
        session: SessionConfigView {
            mode: SessionMode::Getty,
            subcommand_template:
                "/sbin/agetty -8 -s -L --noclear -H {host} --login-program /bin/login {tty} xterm-256color"@,
            hup_fallback: false,
            max_sessions: 0,
            hup_to_term_delay_ms: 0,
            process_group_term_timeout_ms: 2000,
        },
    }
}

impl Default for Config {
    fn default() -> (r: Config)
        ensures
            r@ == default_config(),
    {
        Config {
            bluez: BluezConfig {
                profile_path: String::from_str("/com/bluetty/spp_profile"),
                profile_uuid: String::from_str("00001101-0000-1000-8000-00805f9b34fb"),
                profile_name: String::from_str("SPP Getty"),
                require_authentication: false,
                require_authorization: false,
            },
            session: SessionConfig {
                mode: SessionMode::Getty,
                subcommand_template: String::from_str(
                    "/sbin/agetty -8 -s -L --noclear -H {host} --login-program /bin/login {tty} xterm-256color",
                ),
                hup_fallback: false,
                max_sessions: 0,
                hup_to_term_delay_ms: 0,
                process_group_term_timeout_ms: 2000,
            },
        }
    }
}


/// Why a configuration was refused; each carries the offending text.
#[derive(Debug)]
pub enum ConfigError {
    /// The INI text could not be parsed; the parser's message.
    Syntax(String),
    /// A boolean setting that is none of 1/true/yes/on/0/false/no/off.
    InvalidBool(String),
    /// `session.Mode` that is none of none/getty/exec.
    InvalidMode(String),
    /// `session.MaxSessions` that is not an unsigned integer.
    InvalidMaxSessions(String),
    /// `session.HupToTermDelay` that is not an unsigned integer.
    InvalidHupToTermDelay(String),
    /// `session.ProcessGroupTermTimeout` that is not an unsigned integer.
    InvalidProcessGroupTermTimeout(String),
}

pub enum ConfigErrorView {
    Syntax(Seq<char>),
    InvalidBool(Seq<char>),
    InvalidMode(Seq<char>),
    InvalidMaxSessions(Seq<char>),
    InvalidHupToTermDelay(Seq<char>),
    InvalidProcessGroupTermTimeout(Seq<char>),
}

impl View for ConfigError {
    type V = ConfigErrorView;

    open spec fn view(&self) -> ConfigErrorView {
        match self {
            ConfigError::Syntax(s) => ConfigErrorView::Syntax(s@),
            ConfigError::InvalidBool(s) => ConfigErrorView::InvalidBool(s@),
            ConfigError::InvalidMode(s) => ConfigErrorView::InvalidMode(s@),
            ConfigError::InvalidMaxSessions(s) => ConfigErrorView::InvalidMaxSessions(s@),
            ConfigError::InvalidHupToTermDelay(s) => ConfigErrorView::InvalidHupToTermDelay(s@),
            ConfigError::InvalidProcessGroupTermTimeout(s) => ConfigErrorView::InvalidProcessGroupTermTimeout(s@),
        }
    }
}

/// A setting's text as the value parsers compare it: trimmed, ASCII lower case.
pub open spec fn normalized(v: Seq<char>) -> Seq<char> {
    ascii_lower(trim(v))
}

/// The boolean that a normalized word spells, if any.
pub open spec fn bool_word(w: Seq<char>) -> Option<bool> {
    if w == seq!['1'] || w == seq!['t', 'r', 'u', 'e'] || w == seq!['y', 'e', 's'] || w == seq![
        'o',
        'n',
    ] {
        Some(true)
    } else if w == seq!['0'] || w == seq!['f', 'a', 'l', 's', 'e'] || w == seq!['n', 'o'] || w
        == seq!['o', 'f', 'f'] {
        Some(false)
    } else {
        None
    }
}

/// The session mode that a normalized word names, if any.
pub open spec fn mode_word(w: Seq<char>) -> Option<SessionMode> {
    if w == seq!['n', 'o', 'n', 'e'] {
        Some(SessionMode::Unmanaged)
    } else if w == seq!['g', 'e', 't', 't', 'y'] {
        Some(SessionMode::Getty)
    } else if w == seq!['e', 'x', 'e', 'c'] {
        Some(SessionMode::Exec)
    } else {
        None
    }
}

pub open spec fn is_digit(c: char) -> bool {
    '0' <= c <= '9'
}

pub open spec fn digit_value(c: char) -> nat {
    ((c as u32) - ('0' as u32)) as nat
}

/// The number that a string of decimal digits spells.
pub open spec fn digits_value(s: Seq<char>) -> nat
    decreases s.len(),
{
    if s.len() == 0 {
        0
    } else {
        digits_value(s.drop_last()) * 10 + digit_value(s.last())
    }
}

pub open spec fn all_digits(d: Seq<char>) -> bool {
    forall|i: int| 0 <= i < d.len() ==> is_digit(#[trigger] d[i])
}

/// `s` without one leading `+`, if it has one.
pub open spec fn sign_stripped(s: Seq<char>) -> Seq<char> {
    if s.len() > 0 && s[0] == '+' {
        s.drop_first()
    } else {
        s
    }
}

/// The number that `s` spells as `str::parse` reads an unsigned integer: an
/// optional `+`, then one or more ASCII digits, nothing else.
pub open spec fn unsigned_text(s: Seq<char>) -> Option<nat> {
    let d = sign_stripped(s);
    if d.len() > 0 && all_digits(d) {
        Some(digits_value(d))
    } else {
        None
    }
}

proof fn lemma_digits_value_prefix(s: Seq<char>, j: int)
    requires
        0 <= j <= s.len(),
    ensures
        digits_value(s.take(j)) <= digits_value(s),
    decreases s.len(),
{
    if j < s.len() {
        assert(s.drop_last().take(j) =~= s.take(j));
        lemma_digits_value_prefix(s.drop_last(), j);
    } else {
        assert(s.take(j) =~= s);
    }
}

/// `u64::from_str`: the value, or `None` where the text is not an unsigned
/// integer or the value exceeds `u64::MAX`.
pub fn parse_u64(s: &str) -> (r: Option<u64>)
    ensures
        r == (match unsigned_text(s@) {
            Some(n) => if n <= u64::MAX {
                Some(n as u64)
            } else {
                None
            },
            None => None,
        }),
{
    let cs = chars_of(s);
    let start: usize = if cs.len() > 0 && cs[0] == '+' {
        1
    } else {
        0
    };
    let ghost d = sign_stripped(s@);
    assert(d =~= cs@.skip(start as int));
    if cs.len() == start {
        return None;
    }
    let mut value: u64 = 0;
    let mut i: usize = start;
    while i < cs.len()
        invariant
            start <= i <= cs.len(),
            cs@ == s@,
            d == sign_stripped(s@),
            d =~= cs@.skip(start as int),
            d.len() > 0,
            forall|k: int| 0 <= k < i - start ==> is_digit(#[trigger] d[k]),
            value == digits_value(d.take(i - start)),
        decreases cs.len() - i,
    {
        let c = cs[i];
        if !('0' <= c && c <= '9') {
            assert(!is_digit(d[i - start]));
            return None;
        }
        let dv: u64 = (c as u32 - '0' as u32) as u64;
        assert(d.take(i - start + 1).drop_last() =~= d.take(i - start));
        assert(digits_value(d.take(i - start + 1)) == value * 10 + dv);
        if value > (u64::MAX - dv) / 10 {
            proof {
                lemma_digits_value_prefix(d, i - start + 1);
                assert(value * 10 + dv > u64::MAX) by (nonlinear_arith)
                    requires
                        value > (u64::MAX - dv) / 10,
                        dv <= 9,
                ;
            }
            return None;
        }
        assert(value * 10 + dv <= u64::MAX) by (nonlinear_arith)
            requires
                value <= (u64::MAX - dv) / 10,
                dv <= 9,
        ;
        value = value * 10 + dv;
        i = i + 1;
    }
    assert(d.take(i - start) =~= d);
    Some(value)
}


/// `usize::from_str`: the value, or `None` where the text is not an unsigned
/// integer or the value exceeds `usize::MAX`.
pub fn parse_usize(s: &str) -> (r: Option<usize>)
    ensures
        r == (match unsigned_text(s@) {
            Some(n) => if n <= usize::MAX {
                Some(n as usize)
            } else {
                None
            },
            None => None,
        }),
{
    match parse_u64(s) {
        Some(n) => {
            if n <= usize::MAX as u64 {
                Some(n as usize)
            } else {
                None
            }
        },
        None => None,
    }
}

/// The text of a setting, trimmed and in ASCII lower case.
fn normalize(v: &str) -> (r: Vec<char>)
    ensures
        r@ == normalized(v@),
{
    ascii_lower_chars(&trim_chars(&chars_of(v)))
}

/// Whether `w` spells exactly the characters of `word`.
fn is_word(w: &Vec<char>, word: Vec<char>) -> (r: bool)
    ensures
        r == (w@ == word@),
{
    chars_eq(w, &word)
}

fn bool_word_of(w: &Vec<char>) -> (r: Option<bool>)
    ensures
        r == bool_word(w@),
{
    let one = vec!['1'];
    assert(one@ =~= seq!['1']);
    let tru = vec!['t', 'r', 'u', 'e'];
    assert(tru@ =~= seq!['t', 'r', 'u', 'e']);
    let yes = vec!['y', 'e', 's'];
    assert(yes@ =~= seq!['y', 'e', 's']);
    let on = vec!['o', 'n'];
    assert(on@ =~= seq!['o', 'n']);
    if is_word(w, one) || is_word(w, tru) || is_word(w, yes) || is_word(w, on) {
        return Some(true);
    }
    let zero = vec!['0'];
    assert(zero@ =~= seq!['0']);
    let fal = vec!['f', 'a', 'l', 's', 'e'];
    assert(fal@ =~= seq!['f', 'a', 'l', 's', 'e']);
    let no = vec!['n', 'o'];
    assert(no@ =~= seq!['n', 'o']);
    let off = vec!['o', 'f', 'f'];
    assert(off@ =~= seq!['o', 'f', 'f']);
    if is_word(w, zero) || is_word(w, fal) || is_word(w, no) || is_word(w, off) {
        Some(false)
    } else {
        None
    }
}

/// Reads a boolean setting: after trimming and ASCII lower-casing,
/// `1`, `true`, `yes`, `on` are true and `0`, `false`, `no`, `off` are false.
pub fn parse_bool(v: &str) -> (r: Result<bool, ConfigError>)
    ensures
        match bool_word(normalized(v@)) {
            Some(b) => r matches Ok(x) && x == b,
            None => r matches Err(e) && e@ == ConfigErrorView::InvalidBool(v@),
        },
{
    let w = normalize(v);
    match bool_word_of(&w) {
        Some(b) => Ok(b),
        None => Err(ConfigError::InvalidBool(String::from_str(v))),
    }
}

/// Reads `session.Mode`: after trimming and ASCII lower-casing, `none`,
/// `getty` or `exec`.
pub fn parse_session_mode(v: &str) -> (r: Result<SessionMode, ConfigError>)
    ensures
        match mode_word(normalized(v@)) {
            Some(m) => r matches Ok(x) && x == m,
            None => r matches Err(e) && e@ == ConfigErrorView::InvalidMode(v@),
        },
{
    let w = normalize(v);
    if chars_eq(&w, &vec!['n', 'o', 'n', 'e']) {
        Ok(SessionMode::Unmanaged)
    } else if chars_eq(&w, &vec!['g', 'e', 't', 't', 'y']) {
        Ok(SessionMode::Getty)
    } else if chars_eq(&w, &vec!['e', 'x', 'e', 'c']) {
        Ok(SessionMode::Exec)
    } else {
        Err(ConfigError::InvalidMode(String::from_str(v)))
    }
}


/// How `Ini::read` treats one line of its text.
#[derive(Debug, Clone, Copy, PartialEq, Eq, Structural)]
pub enum IniLineKind {
    /// The line is a comment, a section header, or a key with or without value.
    Accepted,
    /// The line makes the parse fail: a `[` with no `]`, or an empty key before `=`.
    Rejected,
    /// The parser panics on the line: its last `]` comes before its first `[`.
    Panics,
}

/// A line as the INI parser looks at it: cut at the first `;` or `#`, trimmed.
pub open spec fn ini_line_body(l: Seq<char>) -> Seq<char> {
    let semi = find_index(l, ';');
    let hash = find_index(l, '#');
    trim(l.take(if semi <= hash { semi } else { hash }))
}

/// How the INI parser treats a line: a line holding `[` is a section header,
/// rejected without a `]` and a panic where the last `]` precedes the first
/// `[`; a line without `[` is rejected where it has `=` with nothing but white
/// space before it.
pub open spec fn ini_line_kind(l: Seq<char>) -> IniLineKind {
    let t = ini_line_body(l);
    let open = find_index(t, '[');
    let close = rfind_index(t, ']');
    if open < t.len() {
        if close == -1 {
            IniLineKind::Rejected
        } else if close < open {
            IniLineKind::Panics
        } else {
            IniLineKind::Accepted
        }
    } else if find_index(t, '=') < t.len() && trim(t.take(find_index(t, '='))).len() == 0 {
        IniLineKind::Rejected
    } else {
        IniLineKind::Accepted
    }
}

/// Whether `Ini::read` panics on a text: reading its lines in order, it meets
/// a line it panics on before any line it rejects.
pub open spec fn ini_text_panics(s: Seq<char>) -> bool
    decreases s.len(),
{
    let i = find_index(s, '\n');
    let kind = ini_line_kind(s.take(i));
    if kind == IniLineKind::Rejected {
        false
    } else if kind == IniLineKind::Panics {
        true
    } else if 0 <= i < s.len() {
        ini_text_panics(s.skip(i + 1))
    } else {
        false
    }
}

fn ini_line_kind_of(l: &Vec<char>) -> (r: IniLineKind)
    ensures
        r == ini_line_kind(l@),
{
    let semi = find_char(l, ';');
    let hash = find_char(l, '#');
    let cut = if semi <= hash {
        semi
    } else {
        hash
    };
    proof {
        crate::text::lemma_find_index_bounds(l@, ';');
        crate::text::lemma_find_index_bounds(l@, '#');
    }
    let t = trim_chars(&sub_chars(l, 0, cut));
    assert(l@.subrange(0, cut as int) =~= l@.take(cut as int));
    let open = find_char(&t, '[');
    if open < t.len() {
        match rfind_char(&t, ']') {
            None => IniLineKind::Rejected,
            Some(close) => {
                if close < open {
                    IniLineKind::Panics
                } else {
                    IniLineKind::Accepted
                }
            },
        }
    } else {
        let eq = find_char(&t, '=');
        if eq < t.len() {
            let key = trim_chars(&sub_chars(&t, 0, eq));
            assert(t@.subrange(0, eq as int) =~= t@.take(eq as int));
            if key.len() == 0 {
                IniLineKind::Rejected
            } else {
                IniLineKind::Accepted
            }
        } else {
            IniLineKind::Accepted
        }
    }
}

/// Whether `Ini::read` can be given the text: it does not panic on it.
pub fn ini_text_is_safe(text: &str) -> (r: bool)
    ensures
        r == !ini_text_panics(text@),
{
    let cs = chars_of(text);
    let mut start: usize = 0;
    assert(cs@.skip(0) =~= cs@);
    loop
        invariant
            start <= cs.len(),
            cs@ == text@,
            ini_text_panics(cs@) == ini_text_panics(cs@.skip(start as int)),
        decreases cs.len() - start,
    {
        let mut j: usize = start;
        while j < cs.len() && cs[j] != '\n'
            invariant
                start <= j <= cs.len(),
                forall|k: int| start <= k < j ==> cs@[k] != '\n',
            decreases cs.len() - j,
        {
            j = j + 1;
        }
        let ghost rest = cs@.skip(start as int);
        proof {
            assert forall|k: int| 0 <= k < j - start implies rest[k] != '\n' by {
                assert(rest[k] == cs@[start + k]);
            }
            if j < cs.len() {
                assert(rest[j - start] == cs@[j as int]);
            }
            lemma_find_index(rest, '\n', j - start);
        }
        let line = sub_chars(&cs, start, j);
        assert(line@ =~= rest.take(j - start));
        match ini_line_kind_of(&line) {
            IniLineKind::Rejected => {
                return true;
            },
            IniLineKind::Panics => {
                return false;
            },
            IniLineKind::Accepted => {
                if j == cs.len() {
                    return true;
                }
                assert(rest.skip(j - start + 1) =~= cs@.skip(j + 1));
                start = j + 1;
            },
        }
    }
}

#[verifier::external_type_specification]
#[verifier::external_body]
pub struct ExIni(Ini);

/// What an `Ini` holds: section name to key to optional value.
pub uninterp spec fn ini_contents(ini: Ini) -> Map<Seq<char>, Map<Seq<char>, Option<Seq<char>>>>;

/// What `Ini::read` makes of a text on a fresh `Ini::new()`: the sections and
/// keys it found (both lower-cased, values trimmed), or its error message.
pub uninterp spec fn ini_parse(text: Seq<char>) -> Result<Map<Seq<char>, Map<Seq<char>, Option<Seq<char>>>>, Seq<char>>;

/// `Ini::new()` then `Ini::read(text)`. What `read` makes of a text depends
/// on the comment symbols and default section that `Ini::new` sets, so the two
/// calls go together. The contract claims that a parse that succeeds yields an
/// `Ini` holding exactly the named parse result of the text, and that a failed
/// one yields the named error message. The parse itself (comment stripping,
/// section headers, `=` splitting, trimming and lower-casing) is not restated.
/// `read` slices a section header from its first `[` to its last `]`, which
/// panics where the `]` comes first; such texts are left out.
#[verifier::external_body]
fn ini_from_text(text: &str) -> (r: Result<Ini, String>)
    requires
        !ini_text_panics(text@),
    ensures
        match ini_parse(text@) {
            Ok(m) => r matches Ok(ini) && ini_contents(ini) == m,
            Err(e) => r matches Err(msg) && msg@ == e,
        },
{
    let mut ini = Ini::new();
    match ini.read(text.to_string()) {
        Ok(_) => Ok(ini),
        Err(e) => Err(e),
    }
}

/// The value stored under a section and key, `None` where either is absent or
/// the key has no value.
pub open spec fn ini_lookup(
    m: Map<Seq<char>, Map<Seq<char>, Option<Seq<char>>>>,
    section: Seq<char>,
    key: Seq<char>,
) -> Option<Seq<char>> {
    if m.dom().contains(section) && m[section].dom().contains(key) {
        m[section][key]
    } else {
        None
    }
}

/// `Ini::get`, which lower-cases the section and key and looks them up. The
/// contract claims the lookup for ASCII section and key names, where
/// `str::to_lowercase` is ASCII lower-casing; for other names it claims nothing.
#[verifier::external_body]
fn ini_get(ini: &Ini, section: &str, key: &str) -> (r: Option<String>)
    ensures
        all_ascii(section@) && all_ascii(key@) ==> r.deep_view() == ini_lookup(
            ini_contents(*ini),
            ascii_lower(section@),
            ascii_lower(key@),
        ),
{
    ini.get(section, key)
}

/// The value of a setting in parsed INI contents; section and key names
/// match without regard to ASCII case.
pub open spec fn setting(
    m: Map<Seq<char>, Map<Seq<char>, Option<Seq<char>>>>,
    section: Seq<char>,
    key: Seq<char>,
) -> Option<Seq<char>> {
    ini_lookup(m, ascii_lower(section), ascii_lower(key))
}

/// The raw text of every setting that the configuration reads, `None` where
/// the file does not give it.
pub struct ConfigSettings {
    pub profile_path: Option<String>,
    pub uuid: Option<String>,
    pub name: Option<String>,
    pub require_authentication: Option<String>,
    pub require_authorization: Option<String>,
    pub mode: Option<String>,
    pub subcommand_template: Option<String>,
    pub hup_fallback: Option<String>,
    pub max_sessions: Option<String>,
    pub hup_to_term_delay: Option<String>,
    pub process_group_term_timeout: Option<String>,
}

pub struct ConfigSettingsView {
    pub profile_path: Option<Seq<char>>,
    pub uuid: Option<Seq<char>>,
    pub name: Option<Seq<char>>,
    pub require_authentication: Option<Seq<char>>,
    pub require_authorization: Option<Seq<char>>,
    pub mode: Option<Seq<char>>,
    pub subcommand_template: Option<Seq<char>>,
    pub hup_fallback: Option<Seq<char>>,
    pub max_sessions: Option<Seq<char>>,
    pub hup_to_term_delay: Option<Seq<char>>,
    pub process_group_term_timeout: Option<Seq<char>>,
}

impl View for ConfigSettings {
    type V = ConfigSettingsView;

    open spec fn view(&self) -> ConfigSettingsView {
        ConfigSettingsView {
            profile_path: self.profile_path.deep_view(),
            uuid: self.uuid.deep_view(),
            name: self.name.deep_view(),
            require_authentication: self.require_authentication.deep_view(),
            require_authorization: self.require_authorization.deep_view(),
            mode: self.mode.deep_view(),
            subcommand_template: self.subcommand_template.deep_view(),
            hup_fallback: self.hup_fallback.deep_view(),
            max_sessions: self.max_sessions.deep_view(),
            hup_to_term_delay: self.hup_to_term_delay.deep_view(),
            process_group_term_timeout: self.process_group_term_timeout.deep_view(),
        }
    }
}

/// The settings that INI contents give, under the documented names.
pub open spec fn settings_of(m: Map<Seq<char>, Map<Seq<char>, Option<Seq<char>>>>) -> ConfigSettingsView {
    ConfigSettingsView {
        profile_path: setting(m, "bluez"@, "ProfilePath"@),
        uuid: setting(m, "bluez"@, "Uuid"@),
        name: setting(m, "bluez"@, "Name"@),
        require_authentication: setting(m, "bluez"@, "RequireAuthentication"@),
        require_authorization: setting(m, "bluez"@, "RequireAuthorization"@),
        mode: setting(m, "session"@, "Mode"@),
        subcommand_template: setting(m, "session"@, "SubcommandTemplate"@),
        hup_fallback: setting(m, "session"@, "HupFallback"@),
        max_sessions: setting(m, "session"@, "MaxSessions"@),
        hup_to_term_delay: setting(m, "session"@, "HupToTermDelay"@),
        process_group_term_timeout: setting(m, "session"@, "ProcessGroupTermTimeout"@),
    }
}

/// One setting of an `Ini`, by section and key.
fn get_setting(ini: &Ini, section: &str, key: &str) -> (r: Option<String>)
    requires
        all_ascii(section@),
        all_ascii(key@),
    ensures
        r.deep_view() == setting(ini_contents(*ini), section@, key@),
{
    ini_get(ini, section, key)
}

impl ConfigSettings {
    /// Reads every setting that the configuration uses out of an `Ini`.
    pub fn from_ini(ini: &Ini) -> (r: ConfigSettings)
        ensures
            r@ == settings_of(ini_contents(*ini)),
    {
        proof {
            reveal_strlit("bluez");
            reveal_strlit("session");
            reveal_strlit("ProfilePath");
            reveal_strlit("Uuid");
            reveal_strlit("Name");
            reveal_strlit("RequireAuthentication");
            reveal_strlit("RequireAuthorization");
            reveal_strlit("Mode");
            reveal_strlit("SubcommandTemplate");
            reveal_strlit("HupFallback");
            reveal_strlit("MaxSessions");
            reveal_strlit("HupToTermDelay");
            reveal_strlit("ProcessGroupTermTimeout");
        }
        ConfigSettings {
            profile_path: get_setting(ini, "bluez", "ProfilePath"),
            uuid: get_setting(ini, "bluez", "Uuid"),
            name: get_setting(ini, "bluez", "Name"),
            require_authentication: get_setting(ini, "bluez", "RequireAuthentication"),
            require_authorization: get_setting(ini, "bluez", "RequireAuthorization"),
            mode: get_setting(ini, "session", "Mode"),
            subcommand_template: get_setting(ini, "session", "SubcommandTemplate"),
            hup_fallback: get_setting(ini, "session", "HupFallback"),
            max_sessions: get_setting(ini, "session", "MaxSessions"),
            hup_to_term_delay: get_setting(ini, "session", "HupToTermDelay"),
            process_group_term_timeout: get_setting(ini, "session", "ProcessGroupTermTimeout"),
        }
    }
}


/// A loaded configuration or its error, by view.
pub open spec fn config_result_view(r: Result<Config, ConfigError>) -> Result<ConfigView, ConfigErrorView> {
    match r {
        Ok(c) => Ok(c@),
        Err(e) => Err(e@),
    }
}

pub open spec fn usize_of(v: Seq<char>) -> Option<usize> {
    match unsigned_text(v) {
        Some(n) => if n <= usize::MAX {
            Some(n as usize)
        } else {
            None
        },
        None => None,
    }
}

pub open spec fn u64_of(v: Seq<char>) -> Option<u64> {
    match unsigned_text(v) {
        Some(n) => if n <= u64::MAX {
            Some(n as u64)
        } else {
            None
        },
        None => None,
    }
}

/// A text setting, or its default where absent.
pub open spec fn text_setting(o: Option<Seq<char>>, d: Seq<char>) -> Seq<char> {
    match o {
        Some(v) => v,
        None => d,
    }
}

/// A boolean setting, its default where absent, or the error for its text.
pub open spec fn bool_setting(o: Option<Seq<char>>, d: bool) -> Result<bool, ConfigErrorView> {
    match o {
        Some(v) => match bool_word(normalized(v)) {
            Some(b) => Ok(b),
            None => Err(ConfigErrorView::InvalidBool(v)),
        },
        None => Ok(d),
    }
}

/// The mode setting, its default where absent, or the error for its text.
pub open spec fn mode_setting(o: Option<Seq<char>>, d: SessionMode) -> Result<SessionMode, ConfigErrorView> {
    match o {
        Some(v) => match mode_word(normalized(v)) {
            Some(m) => Ok(m),
            None => Err(ConfigErrorView::InvalidMode(v)),
        },
        None => Ok(d),
    }
}

/// A count setting, its default where absent, or its text where invalid.
pub open spec fn usize_setting(o: Option<Seq<char>>, d: usize) -> Result<usize, Seq<char>> {
    match o {
        Some(v) => match usize_of(v) {
            Some(n) => Ok(n),
            None => Err(v),
        },
        None => Ok(d),
    }
}

/// A millisecond setting, its default where absent, or its text where invalid.
pub open spec fn u64_setting(o: Option<Seq<char>>, d: u64) -> Result<u64, Seq<char>> {
    match o {
        Some(v) => match u64_of(v) {
            Some(n) => Ok(n),
            None => Err(v),
        },
        None => Ok(d),
    }
}

/// The configuration that the given settings make of the defaults: each
/// setting present replaces its default; the first setting whose text is not
/// valid, in the order `RequireAuthentication`, `RequireAuthorization`,
/// `Mode`, `HupFallback`, `MaxSessions`, `HupToTermDelay`,
/// `ProcessGroupTermTimeout`, is the error.
pub open spec fn config_from(s: ConfigSettingsView) -> Result<ConfigView, ConfigErrorView> {
    let d = default_config();
    let auth = bool_setting(s.require_authentication, d.bluez.require_authentication);
    let authz = bool_setting(s.require_authorization, d.bluez.require_authorization);
    let mode = mode_setting(s.mode, d.session.mode);
    let hup = bool_setting(s.hup_fallback, d.session.hup_fallback);
    let max = usize_setting(s.max_sessions, d.session.max_sessions);
    let delay = u64_setting(s.hup_to_term_delay, d.session.hup_to_term_delay_ms);
    let timeout = u64_setting(s.process_group_term_timeout, d.session.process_group_term_timeout_ms);
    if auth is Err {
        Err(auth->Err_0)
    } else if authz is Err {
        Err(authz->Err_0)
    } else if mode is Err {
        Err(mode->Err_0)
    } else if hup is Err {
        Err(hup->Err_0)
    } else if max is Err {
        Err(ConfigErrorView::InvalidMaxSessions(max->Err_0))
    } else if delay is Err {
        Err(ConfigErrorView::InvalidHupToTermDelay(delay->Err_0))
    } else if timeout is Err {
        Err(ConfigErrorView::InvalidProcessGroupTermTimeout(timeout->Err_0))
    } else {
        Ok(
            ConfigView {
                bluez: BluezConfigView {
                    profile_path: text_setting(s.profile_path, d.bluez.profile_path),
                    profile_uuid: text_setting(s.uuid, d.bluez.profile_uuid),
                    profile_name: text_setting(s.name, d.bluez.profile_name),
                    require_authentication: auth->Ok_0,
                    require_authorization: authz->Ok_0,
                },
                session: SessionConfigView {
                    mode: mode->Ok_0,
                    subcommand_template: text_setting(
                        s.subcommand_template,
                        d.session.subcommand_template,
                    ),
                    hup_fallback: hup->Ok_0,
                    max_sessions: max->Ok_0,
                    hup_to_term_delay_ms: delay->Ok_0,
                    process_group_term_timeout_ms: timeout->Ok_0,
                },
            },
        )
    }
}

fn text_from(o: Option<String>, d: String) -> (r: String)
    ensures
        r@ == text_setting(o.deep_view(), d@),
{
    match o {
        Some(v) => v,
        None => d,
    }
}

fn bool_from(o: Option<String>, d: bool) -> (r: Result<bool, ConfigError>)
    ensures
        match bool_setting(o.deep_view(), d) {
            Ok(b) => r matches Ok(x) && x == b,
            Err(e) => r matches Err(x) && x@ == e,
        },
{
    match o {
        Some(v) => parse_bool(v.as_str()),
        None => Ok(d),
    }
}

fn mode_from(o: Option<String>, d: SessionMode) -> (r: Result<SessionMode, ConfigError>)
    ensures
        match mode_setting(o.deep_view(), d) {
            Ok(m) => r matches Ok(x) && x == m,
            Err(e) => r matches Err(x) && x@ == e,
        },
{
    match o {
        Some(v) => parse_session_mode(v.as_str()),
        None => Ok(d),
    }
}

fn usize_from(o: Option<String>, d: usize) -> (r: Result<usize, String>)
    ensures
        match usize_setting(o.deep_view(), d) {
            Ok(n) => r matches Ok(x) && x == n,
            Err(e) => r matches Err(x) && x@ == e,
        },
{
    match o {
        Some(v) => match parse_usize(v.as_str()) {
            Some(n) => Ok(n),
            None => Err(v),
        },
        None => Ok(d),
    }
}

fn u64_from(o: Option<String>, d: u64) -> (r: Result<u64, String>)
    ensures
        match u64_setting(o.deep_view(), d) {
            Ok(n) => r matches Ok(x) && x == n,
            Err(e) => r matches Err(x) && x@ == e,
        },
{
    match o {
        Some(v) => match parse_u64(v.as_str()) {
            Some(n) => Ok(n),
            None => Err(v),
        },
        None => Ok(d),
    }
}

/// The configuration that an INI text gives, or why it gives none.
pub open spec fn config_from_text(text: Seq<char>) -> Result<ConfigView, ConfigErrorView> {
    match ini_parse(text) {
        Ok(m) => config_from(settings_of(m)),
        Err(e) => Err(ConfigErrorView::Syntax(e)),
    }
}

impl Config {
    /// Applies the given settings over the built-in defaults.
    pub fn from_settings(s: ConfigSettings) -> (r: Result<Config, ConfigError>)
        ensures
            config_result_view(r) == config_from(s@),
    {
        let ghost sv = s@;
        let d = Config::default();
        let auth = bool_from(s.require_authentication, d.bluez.require_authentication);
        let authz = bool_from(s.require_authorization, d.bluez.require_authorization);
        let mode = mode_from(s.mode, d.session.mode);
        let hup = bool_from(s.hup_fallback, d.session.hup_fallback);
        let max = usize_from(s.max_sessions, d.session.max_sessions);
        let delay = u64_from(s.hup_to_term_delay, d.session.hup_to_term_delay_ms);
        let timeout = u64_from(
            s.process_group_term_timeout,
            d.session.process_group_term_timeout_ms,
        );
        let auth = match auth {
            Ok(b) => b,
            Err(e) => return Err(e),
        };
        let authz = match authz {
            Ok(b) => b,
            Err(e) => return Err(e),
        };
        let mode = match mode {
            Ok(m) => m,
            Err(e) => return Err(e),
        };
        let hup = match hup {
            Ok(b) => b,
            Err(e) => return Err(e),
        };
        let max = match max {
            Ok(n) => n,
            Err(v) => return Err(ConfigError::InvalidMaxSessions(v)),
        };
        let delay = match delay {
            Ok(n) => n,
            Err(v) => return Err(ConfigError::InvalidHupToTermDelay(v)),
        };
        let timeout = match timeout {
            Ok(n) => n,
            Err(v) => return Err(ConfigError::InvalidProcessGroupTermTimeout(v)),
        };
        Ok(
            Config {
                bluez: BluezConfig {
                    profile_path: text_from(s.profile_path, d.bluez.profile_path),
                    profile_uuid: text_from(s.uuid, d.bluez.profile_uuid),
                    profile_name: text_from(s.name, d.bluez.profile_name),
                    require_authentication: auth,
                    require_authorization: authz,
                },
                session: SessionConfig {
                    mode,
                    subcommand_template: text_from(
                        s.subcommand_template,
                        d.session.subcommand_template,
                    ),
                    hup_fallback: hup,
                    max_sessions: max,
                    hup_to_term_delay_ms: delay,
                    process_group_term_timeout_ms: timeout,
                },
            },
        )
    }

    /// Parses an INI text and applies its settings over the built-in defaults.
    /// The INI parser panics on a section header whose last `]` precedes its
    /// first `[`; such texts are left out (see `ini_text_is_safe`).
    pub fn parse(text: &str) -> (r: Result<Config, ConfigError>)
        requires
            !ini_text_panics(text@),
        ensures
            config_result_view(r) == config_from_text(text@),
    {
        match ini_from_text(text) {
            Ok(ini) => Config::from_settings(ConfigSettings::from_ini(&ini)),
            Err(e) => Err(ConfigError::Syntax(e)),
        }
    }
}


/// INI contents without a `bluez` or `session` section leave every setting
/// at its built-in default.
pub proof fn law_no_settings_gives_defaults(m: Map<Seq<char>, Map<Seq<char>, Option<Seq<char>>>>)
    requires
        !m.dom().contains("bluez"@),
        !m.dom().contains("session"@),
    ensures
        config_from(settings_of(m)) == Ok::<ConfigView, ConfigErrorView>(default_config()),
{
    reveal_strlit("bluez");
    reveal_strlit("session");
    assert(ascii_lower("bluez"@) =~= "bluez"@);
    assert(ascii_lower("session"@) =~= "session"@);
}


/// Whether a boolean setting is absent or one of the accepted words.
pub open spec fn bool_ok(o: Option<Seq<char>>) -> bool {
    o matches Some(v) ==> bool_word(normalized(v)) is Some
}

/// Whether a count setting is absent or a number that fits in `usize`.
pub open spec fn usize_ok(o: Option<Seq<char>>) -> bool {
    o matches Some(v) ==> (unsigned_text(v) matches Some(n) && n <= usize::MAX)
}

/// Whether a millisecond setting is absent or a number that fits in `u64`.
pub open spec fn u64_ok(o: Option<Seq<char>>) -> bool {
    o matches Some(v) ==> (unsigned_text(v) matches Some(n) && n <= u64::MAX)
}

/// Every setting that the file gives lands in the configuration: a text
/// setting as written, a boolean, mode or number as the word or digits it
/// spells; every setting it leaves out keeps its built-in default. Loading
/// succeeds exactly when every boolean, mode and number setting given is
/// valid.
pub proof fn law_settings_land_in_config(s: ConfigSettingsView)
    ensures
        config_from(s) is Ok <==> (bool_ok(s.require_authentication) && bool_ok(
            s.require_authorization,
        ) && (s.mode matches Some(v) ==> mode_word(normalized(v)) is Some) && bool_ok(
            s.hup_fallback,
        ) && usize_ok(s.max_sessions) && u64_ok(s.hup_to_term_delay) && u64_ok(
            s.process_group_term_timeout,
        )),
        config_from(s) matches Ok(c) ==> {
            let d = default_config();
            &&& c.bluez.profile_path == (match s.profile_path {
                Some(v) => v,
                None => d.bluez.profile_path,
            })
            &&& c.bluez.profile_uuid == (match s.uuid {
                Some(v) => v,
                None => d.bluez.profile_uuid,
            })
            &&& c.bluez.profile_name == (match s.name {
                Some(v) => v,
                None => d.bluez.profile_name,
            })
            &&& c.session.subcommand_template == (match s.subcommand_template {
                Some(v) => v,
                None => d.session.subcommand_template,
            })
            &&& (s.require_authentication matches Some(v) ==> Some(c.bluez.require_authentication)
                == bool_word(normalized(v)))
            &&& (s.require_authentication is None ==> c.bluez.require_authentication
                == d.bluez.require_authentication)
            &&& (s.require_authorization matches Some(v) ==> Some(c.bluez.require_authorization)
                == bool_word(normalized(v)))
            &&& (s.require_authorization is None ==> c.bluez.require_authorization
                == d.bluez.require_authorization)
            &&& (s.mode matches Some(v) ==> Some(c.session.mode) == mode_word(normalized(v)))
            &&& (s.mode is None ==> c.session.mode == d.session.mode)
            &&& (s.hup_fallback matches Some(v) ==> Some(c.session.hup_fallback) == bool_word(
                normalized(v),
            ))
            &&& (s.hup_fallback is None ==> c.session.hup_fallback == d.session.hup_fallback)
            &&& (s.max_sessions matches Some(v) ==> Some(c.session.max_sessions as nat)
                == unsigned_text(v))
            &&& (s.max_sessions is None ==> c.session.max_sessions == d.session.max_sessions)
            &&& (s.hup_to_term_delay matches Some(v) ==> Some(c.session.hup_to_term_delay_ms as nat)
                == unsigned_text(v))
            &&& (s.hup_to_term_delay is None ==> c.session.hup_to_term_delay_ms
                == d.session.hup_to_term_delay_ms)
            &&& (s.process_group_term_timeout matches Some(v) ==> Some(
                c.session.process_group_term_timeout_ms as nat,
            ) == unsigned_text(v))
            &&& (s.process_group_term_timeout is None ==> c.session.process_group_term_timeout_ms
                == d.session.process_group_term_timeout_ms)
        },
{
}

} // verus!
