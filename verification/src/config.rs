//! The `lmapiconf.txt` settings file: `KEY=value` lines, integer fields read
//! as `str::parse` reads them, and the checks each command applies.
use vstd::prelude::*;
use crate::chunking::views;
use crate::text::{
    decimal, decimal_chars, find_from, first_occurrence, from_chars, join_chars, join_sep,
    lemma_first_occurrence, lines, lines_of, push_all, push_str, signed_decimal,
    signed_decimal_chars, slice_chars, starts_with, starts_with_str, to_chars, trim, trim_chars,
};

verus! {

/// The `KEY=value` pair on one line: lines are trimmed; blank lines, lines
/// starting with `#` and lines without `=` hold none; key and value are
/// trimmed and split at the first `=`.
pub open spec fn config_entry(line: Seq<char>) -> Option<(Seq<char>, Seq<char>)> {
    let l = trim(line);
    if l.len() == 0 || l[0] == '#' {
        None
    } else {
        match first_occurrence(l, seq!['='], 0) {
            Some(e) => if 0 <= e < l.len() {
                Some((trim(l.take(e)), trim(l.skip(e + 1))))
            } else {
                None
            },
            None => None,
        }
    }
}

/// The pairs of the given lines, in order.
pub open spec fn entries_of_lines(ls: Seq<Seq<char>>) -> Seq<(Seq<char>, Seq<char>)>
    decreases ls.len(),
{
    if ls.len() == 0 {
        Seq::empty()
    } else {
        let r = entries_of_lines(ls.drop_last());
        match config_entry(ls.last()) {
            Some(e) => r.push(e),
            None => r,
        }
    }
}

/// The pairs of a settings file, in file order.
pub open spec fn config_entries(content: Seq<char>) -> Seq<(Seq<char>, Seq<char>)> {
    entries_of_lines(lines_of(content))
}

/// The value of `key`: that of its last line, as later inserts into a map
/// replace earlier ones.
pub open spec fn lookup(entries: Seq<(Seq<char>, Seq<char>)>, key: Seq<char>) -> Option<Seq<char>>
    decreases entries.len(),
{
    if entries.len() == 0 {
        None
    } else if entries.last().0 == key {
        Some(entries.last().1)
    } else {
        lookup(entries.drop_last(), key)
    }
}

/// The settings of a parsed file.
pub struct ConfigMap {
    entries: Vec<(String, String)>,
}

impl View for ConfigMap {
    type V = Seq<(Seq<char>, Seq<char>)>;

    closed spec fn view(&self) -> Seq<(Seq<char>, Seq<char>)> {
        Seq::new(self.entries@.len(), |i: int| (self.entries@[i].0@, self.entries@[i].1@))
    }
}

/// Whether two strings hold the same characters.
pub fn same_text(a: &String, b: &String) -> (r: bool)
    ensures
        r == (a@ == b@),
{
    let x = to_chars(a.as_str());
    let y = to_chars(b.as_str());
    crate::cleaning::eq_chars(x.as_slice(), y.as_slice())
}

impl ConfigMap {
    /// The value of `key`, from the last line that sets it.
    pub fn get(&self, key: &str) -> (r: Option<String>)
        ensures
            match r {
                Some(v) => lookup(self@, key@) == Some(v@),
                None => lookup(self@, key@) is None,
            },
    {
        let k = String::from_str(key);
        let mut i: usize = self.entries.len();
        assert(self@.take(self@.len() as int) =~= self@);
        while i > 0
            invariant
                i <= self.entries@.len(),
                k@ == key@,
                lookup(self@, key@) == lookup(self@.take(i as int), key@),
            decreases i,
        {
            assert(self@.take(i as int).drop_last() =~= self@.take(i - 1));
            if same_text(&self.entries[i - 1].0, &k) {
                return Some(self.entries[i - 1].1.clone());
            }
            i = i - 1;
        }
        None
    }

    /// Whether some line sets `key`.
    pub fn contains_key(&self, key: &str) -> (r: bool)
        ensures
            r == (lookup(self@, key@) is Some),
    {
        self.get(key).is_some()
    }
}

/// `content` without a leading byte-order mark.
pub open spec fn without_bom(content: Seq<char>) -> Seq<char> {
    if content.len() > 0 && content[0] == '\u{feff}' {
        content.drop_first()
    } else {
        content
    }
}

/// Removes a leading byte-order mark.
pub fn strip_bom(content: &str) -> (r: String)
    ensures
        r@ == without_bom(content@),
{
    let chars = to_chars(content);
    if chars.len() > 0 && chars[0] == '\u{feff}' {
        let rest = slice_chars(chars.as_slice(), 1, chars.len());
        assert(rest@ =~= content@.drop_first());
        from_chars(rest.as_slice())
    } else {
        String::from_str(content)
    }
}

/// Reads the `KEY=value` pairs of a settings file.
pub fn parse_config(content: &str) -> (m: ConfigMap)
    ensures
        m@ == config_entries(content@),
{
    let chars = to_chars(content);
    let ls = lines(chars.as_slice());
    let ghost sl = lines_of(content@);
    let mut entries: Vec<(String, String)> = Vec::new();
    let mut i: usize = 0;
    while i < ls.len()
        invariant
            i <= ls@.len(),
            sl == lines_of(content@),
            ls@.len() == sl.len(),
            forall|k: int| 0 <= k < ls@.len() ==> (#[trigger] ls@[k])@ == sl[k],
            (ConfigMap { entries })@ == entries_of_lines(sl.take(i as int)),
        decreases ls@.len() - i,
    {
        assert(sl.take(i + 1).drop_last() =~= sl.take(i as int));
        assert(sl.take(i + 1).last() == ls@[i as int]@);
        let l = trim_chars(ls[i].as_slice());
        if l.len() > 0 && l[0] != '#' {
            let eq = ['='];
            assert(eq@ =~= seq!['=']);
            match find_from(l.as_slice(), &eq, 0) {
                Some(e) => {
                    proof {
                        lemma_first_occurrence(l@, seq!['='], 0);
                    }
                    let key_part = slice_chars(l.as_slice(), 0, e);
                    let value_part = slice_chars(l.as_slice(), e + 1, l.len());
                    let key = trim_chars(key_part.as_slice());
                    let value = trim_chars(value_part.as_slice());
                    assert(key_part@ =~= l@.take(e as int));
                    assert(value_part@ =~= l@.skip(e + 1));
                    let ghost before = (ConfigMap { entries })@;
                    entries.push((from_chars(key.as_slice()), from_chars(value.as_slice())));
                    assert((ConfigMap { entries })@ =~= before.push((key@, value@)));
                },
                None => {},
            }
        }
        i = i + 1;
    }
    assert(sl.take(ls@.len() as int) =~= sl);
    ConfigMap { entries }
}

pub open spec fn is_digit(c: char) -> bool {
    '0' <= c && c <= '9'
}

pub open spec fn all_digits(d: Seq<char>) -> bool {
    forall|i: int| 0 <= i < d.len() ==> is_digit(#[trigger] d[i])
}

/// The value of a run of decimal digits.
pub open spec fn digits_value(d: Seq<char>) -> nat
    decreases d.len(),
{
    if d.len() == 0 {
        0
    } else {
        digits_value(d.drop_last()) * 10 + ((d.last() as u32) - ('0' as u32)) as nat
    }
}

/// What `str::parse` reads as an integer before its range check: an
/// optional sign (`-` only where `signed`) and one or more ASCII digits.
pub open spec fn integer_text(s: Seq<char>, signed: bool) -> Option<int> {
    if signed && s.len() > 0 && s[0] == '-' {
        let b = s.drop_first();
        if b.len() > 0 && all_digits(b) {
            Some(-(digits_value(b) as int))
        } else {
            None
        }
    } else {
        let b = if s.len() > 0 && s[0] == '+' {
            s.drop_first()
        } else {
            s
        };
        if b.len() > 0 && all_digits(b) {
            Some(digits_value(b) as int)
        } else {
            None
        }
    }
}

/// What `str::parse` gives for an integer type with range `[lo, hi]`.
pub open spec fn parse_integer(s: Seq<char>, signed: bool, lo: int, hi: int) -> Option<int> {
    match integer_text(s, signed) {
        Some(v) => if lo <= v <= hi {
            Some(v)
        } else {
            None
        },
        None => None,
    }
}

pub open spec fn magnitude_cap() -> nat {
    0x1_0000_0000_0000_0000
}

/// The digits of `d`, their value capped at `2^64`; `None` unless `d` is a
/// non-empty run of digits.
fn digits_capped(d: &[char]) -> (r: Option<u128>)
    ensures
        match r {
            Some(v) => d@.len() > 0 && all_digits(d@) && v == (if digits_value(d@)
                < magnitude_cap() {
                digits_value(d@)
            } else {
                magnitude_cap()
            }),
            None => !(d@.len() > 0 && all_digits(d@)),
        },
{
    if d.len() == 0 {
        return None;
    }
    let cap: u128 = 0x1_0000_0000_0000_0000;
    let mut v: u128 = 0;
    let mut i: usize = 0;
    while i < d.len()
        invariant
            i <= d@.len(),
            cap == magnitude_cap(),
            all_digits(d@.take(i as int)),
            v == (if digits_value(d@.take(i as int)) < cap {
                digits_value(d@.take(i as int))
            } else {
                cap as nat
            }),
        decreases d@.len() - i,
    {
        let c = d[i];
        if !('0' <= c && c <= '9') {
            assert(!is_digit(d@[i as int]));
            return None;
        }
        let digit = (c as u32 - '0' as u32) as u128;
        let ghost t = d@.take(i + 1);
        assert(t.drop_last() =~= d@.take(i as int));
        assert(t.last() == c);
        assert forall|j: int| 0 <= j < t.len() implies is_digit(#[trigger] t[j]) by {
            if j < i {
                assert(t[j] == d@.take(i as int)[j]);
            }
        }
        let next = v * 10 + digit;
        v = if next < cap {
            next
        } else {
            cap
        };
        i = i + 1;
    }
    assert(d@.take(d@.len() as int) =~= d@);
    Some(v)
}

/// `str::parse::<u64>`.
pub fn parse_u64(s: &str) -> (r: Option<u64>)
    ensures
        match r {
            Some(v) => parse_integer(s@, false, 0, u64::MAX as int) == Some(v as int),
            None => parse_integer(s@, false, 0, u64::MAX as int) is None,
        },
{
    let c = to_chars(s);
    let start: usize = if c.len() > 0 && c[0] == '+' {
        1
    } else {
        0
    };
    let body = slice_chars(c.as_slice(), start, c.len());
    if start == 1 {
        assert(body@ =~= s@.drop_first());
    } else {
        assert(body@ =~= s@);
    }
    match digits_capped(body.as_slice()) {
        Some(v) => if v <= u64::MAX as u128 {
            Some(v as u64)
        } else {
            None
        },
        None => None,
    }
}

/// `str::parse::<usize>`.
pub fn parse_usize(s: &str) -> (r: Option<usize>)
    ensures
        match r {
            Some(v) => parse_integer(s@, false, 0, usize::MAX as int) == Some(v as int),
            None => parse_integer(s@, false, 0, usize::MAX as int) is None,
        },
{
    match parse_u64(s) {
        Some(v) => if v as u128 <= usize::MAX as u128 {
            Some(v as usize)
        } else {
            None
        },
        None => None,
    }
}

/// `str::parse::<i64>`.
pub fn parse_i64(s: &str) -> (r: Option<i64>)
    ensures
        match r {
            Some(v) => parse_integer(s@, true, i64::MIN as int, i64::MAX as int) == Some(v as int),
            None => parse_integer(s@, true, i64::MIN as int, i64::MAX as int) is None,
        },
{
    let c = to_chars(s);
    if c.len() > 0 && c[0] == '-' {
        let body = slice_chars(c.as_slice(), 1, c.len());
        assert(body@ =~= s@.drop_first());
        match digits_capped(body.as_slice()) {
            Some(m) => if m <= 0x8000_0000_0000_0000u128 {
                Some((0i128 - m as i128) as i64)
            } else {
                None
            },
            None => None,
        }
    } else {
        let start: usize = if c.len() > 0 && c[0] == '+' {
            1
        } else {
            0
        };
        let body = slice_chars(c.as_slice(), start, c.len());
        if start == 1 {
            assert(body@ =~= s@.drop_first());
        } else {
            assert(body@ =~= s@);
        }
        match digits_capped(body.as_slice()) {
            Some(m) => if m <= i64::MAX as u128 {
                Some(m as i64)
            } else {
                None
            },
            None => None,
        }
    }
}

/// `str::parse::<i32>`.
pub fn parse_i32(s: &str) -> (r: Option<i32>)
    ensures
        match r {
            Some(v) => parse_integer(s@, true, i32::MIN as int, i32::MAX as int) == Some(v as int),
            None => parse_integer(s@, true, i32::MIN as int, i32::MAX as int) is None,
        },
{
    match parse_i64(s) {
        Some(v) => if i32::MIN as i64 <= v && v <= i32::MAX as i64 {
            Some(v as i32)
        } else {
            None
        },
        None => {
            None
        },
    }
}

/// The settings a command runs with.  The temperature is kept as written;
/// its floating-point reading happens outside this library.
pub struct LmSettings {
    pub base_url: String,
    pub timeout: u64,
    pub default_model: String,
    pub default_reason_model: String,
    pub default_summarization_model: String,
    pub default_ranking_model: String,
    pub default_temperature_text: String,
    pub default_max_tokens: i32,
    pub max_discord_message_length: usize,
    pub response_format_padding: usize,
    pub default_vision_model: String,
    pub default_seed: Option<i64>,
}

/// How the temperature text read as a floating-point number.
pub enum TemperatureCheck {
    /// A number between 0.0 and 2.0.
    Valid,
    /// Not a number.
    NotNumber,
    /// A number outside 0.0 to 2.0, as it is displayed.
    OutOfRange(String),
}

/// The keys that every full settings file must hold, in the order they are
/// reported.
pub open spec fn required_keys() -> Seq<Seq<char>> {
    seq![
        "LM_STUDIO_BASE_URL"@,
        "LM_STUDIO_TIMEOUT"@,
        "DEFAULT_MODEL"@,
        "DEFAULT_REASON_MODEL"@,
        "DEFAULT_SUMMARIZATION_MODEL"@,
        "DEFAULT_RANKING_MODEL"@,
        "DEFAULT_TEMPERATURE"@,
        "DEFAULT_MAX_TOKENS"@,
        "MAX_DISCORD_MESSAGE_LENGTH"@,
        "RESPONSE_FORMAT_PADDING"@,
        "DEFAULT_VISION_MODEL"@,
    ]
}

/// The keys that the agent's settings file must hold.
pub open spec fn agent_required_keys() -> Seq<Seq<char>> {
    seq![
        "LM_STUDIO_BASE_URL"@,
        "LM_STUDIO_TIMEOUT"@,
        "DEFAULT_REASON_MODEL"@,
        "DEFAULT_TEMPERATURE"@,
        "DEFAULT_MAX_TOKENS"@,
        "MAX_DISCORD_MESSAGE_LENGTH"@,
        "RESPONSE_FORMAT_PADDING"@,
    ]
}

fn required_key_list() -> (keys: Vec<&'static str>)
    ensures
        keys@.len() == required_keys().len(),
        forall|k: int| 0 <= k < keys@.len() ==> (#[trigger] keys@[k])@ == required_keys()[k],
{
    vec![
        "LM_STUDIO_BASE_URL",
        "LM_STUDIO_TIMEOUT",
        "DEFAULT_MODEL",
        "DEFAULT_REASON_MODEL",
        "DEFAULT_SUMMARIZATION_MODEL",
        "DEFAULT_RANKING_MODEL",
        "DEFAULT_TEMPERATURE",
        "DEFAULT_MAX_TOKENS",
        "MAX_DISCORD_MESSAGE_LENGTH",
        "RESPONSE_FORMAT_PADDING",
        "DEFAULT_VISION_MODEL",
    ]
}

fn agent_required_key_list() -> (keys: Vec<&'static str>)
    ensures
        keys@.len() == agent_required_keys().len(),
        forall|k: int| 0 <= k < keys@.len() ==> (#[trigger] keys@[k])@ == agent_required_keys()[k],
{
    vec![
        "LM_STUDIO_BASE_URL",
        "LM_STUDIO_TIMEOUT",
        "DEFAULT_REASON_MODEL",
        "DEFAULT_TEMPERATURE",
        "DEFAULT_MAX_TOKENS",
        "MAX_DISCORD_MESSAGE_LENGTH",
        "RESPONSE_FORMAT_PADDING",
    ]
}

/// The keys among `keys` that no line sets, in order.
pub open spec fn missing_keys(m: Seq<(Seq<char>, Seq<char>)>, keys: Seq<Seq<char>>) -> Seq<
    Seq<char>,
>
    decreases keys.len(),
{
    if keys.len() == 0 {
        Seq::empty()
    } else {
        let r = missing_keys(m, keys.drop_last());
        if lookup(m, keys.last()) is None {
            r.push(keys.last())
        } else {
            r
        }
    }
}

fn missing_of(m: &ConfigMap, keys: &Vec<&'static str>) -> (r: Vec<String>)
    ensures
        views(r@) == missing_keys(m@, Seq::new(keys@.len(), |k: int| keys@[k]@)),
{
    let ghost ks = Seq::new(keys@.len(), |k: int| keys@[k]@);
    let mut r: Vec<String> = Vec::new();
    let mut i: usize = 0;
    while i < keys.len()
        invariant
            i <= keys@.len(),
            ks == Seq::new(keys@.len(), |k: int| keys@[k]@),
            views(r@) == missing_keys(m@, ks.take(i as int)),
        decreases keys@.len() - i,
    {
        assert(ks.take(i + 1).drop_last() =~= ks.take(i as int));
        assert(ks.take(i + 1).last() == keys@[i as int]@);
        if !m.contains_key(keys[i]) {
            let ghost before = views(r@);
            r.push(String::from_str(keys[i]));
            assert(views(r@) =~= before.push(keys@[i as int]@));
        }
        i = i + 1;
    }
    assert(ks.take(keys@.len() as int) =~= ks);
    r
}

/// The value that a line sets for `key` (meaningful when one does).
pub open spec fn value_of(m: Seq<(Seq<char>, Seq<char>)>, key: Seq<char>) -> Seq<char> {
    lookup(m, key)->0
}

/// Why the full settings check refused a file.
pub enum ConfigError {
    MissingKeys(Vec<String>),
    InvalidBaseUrl(String),
    TimeoutNotNumber,
    TimeoutOutOfRange(u64),
    EmptyDefaultModel,
    TemperatureNotNumber,
    TemperatureOutOfRange(String),
    MaxTokensNotNumber,
    MaxTokensOutOfRange(i32),
    MessageLengthNotNumber,
    PaddingNotNumber,
    SeedNotInteger,
}

/// The kinds of `ConfigError`, without their data.
#[derive(PartialEq, Eq, Structural, Clone, Copy)]
pub enum ConfigErrorKind {
    MissingKeys,
    InvalidBaseUrl,
    TimeoutNotNumber,
    TimeoutOutOfRange,
    EmptyDefaultModel,
    TemperatureNotNumber,
    TemperatureOutOfRange,
    MaxTokensNotNumber,
    MaxTokensOutOfRange,
    MessageLengthNotNumber,
    PaddingNotNumber,
    SeedNotInteger,
}

pub open spec fn kind_of(e: ConfigError) -> ConfigErrorKind {
    match e {
        ConfigError::MissingKeys(_) => ConfigErrorKind::MissingKeys,
        ConfigError::InvalidBaseUrl(_) => ConfigErrorKind::InvalidBaseUrl,
        ConfigError::TimeoutNotNumber => ConfigErrorKind::TimeoutNotNumber,
        ConfigError::TimeoutOutOfRange(_) => ConfigErrorKind::TimeoutOutOfRange,
        ConfigError::EmptyDefaultModel => ConfigErrorKind::EmptyDefaultModel,
        ConfigError::TemperatureNotNumber => ConfigErrorKind::TemperatureNotNumber,
        ConfigError::TemperatureOutOfRange(_) => ConfigErrorKind::TemperatureOutOfRange,
        ConfigError::MaxTokensNotNumber => ConfigErrorKind::MaxTokensNotNumber,
        ConfigError::MaxTokensOutOfRange(_) => ConfigErrorKind::MaxTokensOutOfRange,
        ConfigError::MessageLengthNotNumber => ConfigErrorKind::MessageLengthNotNumber,
        ConfigError::PaddingNotNumber => ConfigErrorKind::PaddingNotNumber,
        ConfigError::SeedNotInteger => ConfigErrorKind::SeedNotInteger,
    }
}

pub open spec fn timeout_of(m: Seq<(Seq<char>, Seq<char>)>) -> Option<int> {
    parse_integer(value_of(m, "LM_STUDIO_TIMEOUT"@), false, 0, u64::MAX as int)
}

pub open spec fn max_tokens_of(m: Seq<(Seq<char>, Seq<char>)>) -> Option<int> {
    parse_integer(value_of(m, "DEFAULT_MAX_TOKENS"@), true, i32::MIN as int, i32::MAX as int)
}

pub open spec fn usize_setting(m: Seq<(Seq<char>, Seq<char>)>, key: Seq<char>) -> Option<int> {
    parse_integer(value_of(m, key), false, 0, usize::MAX as int)
}

/// The optional seed: absent or blank means none; otherwise an `i64`.
pub open spec fn seed_of(m: Seq<(Seq<char>, Seq<char>)>, blank_is_none: bool) -> Option<
    Option<int>,
> {
    match lookup(m, "DEFAULT_SEED"@) {
        None => Some(None),
        Some(v) => if blank_is_none && trim(v).len() == 0 {
            Some(None)
        } else {
            match parse_integer(v, true, i64::MIN as int, i64::MAX as int) {
                Some(x) => Some(Some(x)),
                None => None,
            }
        },
    }
}

/// The first check of the full settings check that fails, in the order the
/// checks run: every key present, the base URL an http(s) URL, the timeout a
/// number from 1 to 600, the model named, the temperature a number from 0.0 to
/// 2.0, the token limit a number from 1 to 32768, the message length and
/// padding numbers, the seed an integer when given.
pub open spec fn full_check_error(m: Seq<(Seq<char>, Seq<char>)>, temp: TemperatureCheck) -> Option<
    ConfigErrorKind,
> {
    let url = value_of(m, "LM_STUDIO_BASE_URL"@);
    if missing_keys(m, required_keys()).len() > 0 {
        Some(ConfigErrorKind::MissingKeys)
    } else if !starts_with(url, "http://"@) && !starts_with(url, "https://"@) {
        Some(ConfigErrorKind::InvalidBaseUrl)
    } else if timeout_of(m) is None {
        Some(ConfigErrorKind::TimeoutNotNumber)
    } else if timeout_of(m)->0 == 0 || timeout_of(m)->0 > 600 {
        Some(ConfigErrorKind::TimeoutOutOfRange)
    } else if trim(value_of(m, "DEFAULT_MODEL"@)).len() == 0 {
        Some(ConfigErrorKind::EmptyDefaultModel)
    } else if temp is NotNumber {
        Some(ConfigErrorKind::TemperatureNotNumber)
    } else if temp is OutOfRange {
        Some(ConfigErrorKind::TemperatureOutOfRange)
    } else if max_tokens_of(m) is None {
        Some(ConfigErrorKind::MaxTokensNotNumber)
    } else if max_tokens_of(m)->0 <= 0 || max_tokens_of(m)->0 > 32768 {
        Some(ConfigErrorKind::MaxTokensOutOfRange)
    } else if usize_setting(m, "MAX_DISCORD_MESSAGE_LENGTH"@) is None {
        Some(ConfigErrorKind::MessageLengthNotNumber)
    } else if usize_setting(m, "RESPONSE_FORMAT_PADDING"@) is None {
        Some(ConfigErrorKind::PaddingNotNumber)
    } else if seed_of(m, true) is None {
        Some(ConfigErrorKind::SeedNotInteger)
    } else {
        None
    }
}

/// The settings hold what the file says, field by field.
pub open spec fn settings_from(
    m: Seq<(Seq<char>, Seq<char>)>,
    s: LmSettings,
    model_key: Seq<char>,
    blank_seed_is_none: bool,
) -> bool {
    &&& s.base_url@ == value_of(m, "LM_STUDIO_BASE_URL"@)
    &&& timeout_of(m) == Some(s.timeout as int)
    &&& s.default_model@ == value_of(m, model_key)
    &&& s.default_temperature_text@ == value_of(m, "DEFAULT_TEMPERATURE"@)
    &&& max_tokens_of(m) == Some(s.default_max_tokens as int)
    &&& usize_setting(m, "MAX_DISCORD_MESSAGE_LENGTH"@) == Some(
        s.max_discord_message_length as int,
    )
    &&& usize_setting(m, "RESPONSE_FORMAT_PADDING"@) == Some(s.response_format_padding as int)
    &&& seed_of(m, blank_seed_is_none) == Some(
        match s.default_seed {
            Some(x) => Some(x as int),
            None => None,
        },
    )
}

/// The model names of a full settings file.
pub open spec fn model_names_from(m: Seq<(Seq<char>, Seq<char>)>, s: LmSettings) -> bool {
    &&& s.default_reason_model@ == value_of(m, "DEFAULT_REASON_MODEL"@)
    &&& s.default_summarization_model@ == value_of(m, "DEFAULT_SUMMARIZATION_MODEL"@)
    &&& s.default_ranking_model@ == value_of(m, "DEFAULT_RANKING_MODEL"@)
    &&& s.default_vision_model@ == value_of(m, "DEFAULT_VISION_MODEL"@)
}

fn value(m: &ConfigMap, key: &str) -> (v: String)
    requires
        lookup(m@, key@) is Some,
    ensures
        v@ == value_of(m@, key@),
{
    match m.get(key) {
        Some(v) => v,
        None => String::new(),
    }
}

fn read_seed(m: &ConfigMap, blank_is_none: bool) -> (r: Option<Option<i64>>)
    ensures
        match r {
            Some(Some(x)) => seed_of(m@, blank_is_none) == Some(Some(x as int)),
            Some(None) => seed_of(m@, blank_is_none) == Some(None::<int>),
            None => seed_of(m@, blank_is_none) is None,
        },
{
    match m.get("DEFAULT_SEED") {
        None => Some(None),
        Some(v) => {
            let c = to_chars(v.as_str());
            if blank_is_none && trim_chars(c.as_slice()).len() == 0 {
                Some(None)
            } else {
                match parse_i64(v.as_str()) {
                    Some(x) => Some(Some(x)),
                    None => None,
                }
            }
        },
    }
}

/// The full settings check that the chat, search and summary commands run.
pub fn validate_lm_config(m: &ConfigMap, temp: TemperatureCheck) -> (r: Result<
    LmSettings,
    ConfigError,
>)
    ensures
        match r {
            Ok(s) => full_check_error(m@, temp) is None && settings_from(
                m@,
                s,
                "DEFAULT_MODEL"@,
                true,
            ) && model_names_from(m@, s) && 1 <= s.timeout <= 600 && 1 <= s.default_max_tokens
                <= 32768,
            Err(e) => full_check_error(m@, temp) == Some(kind_of(e)) && match e {
                ConfigError::MissingKeys(ks) => views(ks@) == missing_keys(m@, required_keys()),
                ConfigError::InvalidBaseUrl(u) => u@ == value_of(m@, "LM_STUDIO_BASE_URL"@),
                ConfigError::TimeoutOutOfRange(t) => timeout_of(m@) == Some(t as int),
                ConfigError::TemperatureOutOfRange(t) => temp == TemperatureCheck::OutOfRange(t),
                ConfigError::MaxTokensOutOfRange(t) => max_tokens_of(m@) == Some(t as int),
                _ => true,
            },
        },
{
    let keys = required_key_list();
    assert(Seq::new(keys@.len(), |k: int| keys@[k]@) =~= required_keys());
    let missing = missing_of(m, &keys);
    if missing.len() > 0 {
        return Err(ConfigError::MissingKeys(missing));
    }
    proof {
        assert forall|k: int| 0 <= k < required_keys().len() implies lookup(
            m@,
            #[trigger] required_keys()[k],
        ) is Some by {
            lemma_missing_keys_complete(m@, required_keys(), k);
        }
        assert(lookup(m@, required_keys()[0]) is Some);
        assert(lookup(m@, required_keys()[1]) is Some);
        assert(lookup(m@, required_keys()[2]) is Some);
        assert(lookup(m@, required_keys()[3]) is Some);
        assert(lookup(m@, required_keys()[4]) is Some);
        assert(lookup(m@, required_keys()[5]) is Some);
        assert(lookup(m@, required_keys()[6]) is Some);
        assert(lookup(m@, required_keys()[7]) is Some);
        assert(lookup(m@, required_keys()[8]) is Some);
        assert(lookup(m@, required_keys()[9]) is Some);
        assert(lookup(m@, required_keys()[10]) is Some);
    }
    let base_url = value(m, "LM_STUDIO_BASE_URL");
    if !starts_with_str(base_url.as_str(), "http://") && !starts_with_str(
        base_url.as_str(),
        "https://",
    ) {
        return Err(ConfigError::InvalidBaseUrl(base_url));
    }
    let timeout_text = value(m, "LM_STUDIO_TIMEOUT");
    let timeout = match parse_u64(timeout_text.as_str()) {
        Some(t) => t,
        None => {
            return Err(ConfigError::TimeoutNotNumber);
        },
    };
    if timeout == 0 || timeout > 600 {
        return Err(ConfigError::TimeoutOutOfRange(timeout));
    }
    let default_model = value(m, "DEFAULT_MODEL");
    let dm = to_chars(default_model.as_str());
    if trim_chars(dm.as_slice()).len() == 0 {
        return Err(ConfigError::EmptyDefaultModel);
    }
    let default_reason_model = value(m, "DEFAULT_REASON_MODEL");
    let default_summarization_model = value(m, "DEFAULT_SUMMARIZATION_MODEL");
    let default_ranking_model = value(m, "DEFAULT_RANKING_MODEL");
    let default_vision_model = value(m, "DEFAULT_VISION_MODEL");
    let default_temperature_text = value(m, "DEFAULT_TEMPERATURE");
    match temp {
        TemperatureCheck::Valid => {},
        TemperatureCheck::NotNumber => {
            return Err(ConfigError::TemperatureNotNumber);
        },
        TemperatureCheck::OutOfRange(t) => {
            return Err(ConfigError::TemperatureOutOfRange(t));
        },
    }
    let tokens_text = value(m, "DEFAULT_MAX_TOKENS");
    let default_max_tokens = match parse_i32(tokens_text.as_str()) {
        Some(t) => t,
        None => {
            return Err(ConfigError::MaxTokensNotNumber);
        },
    };
    if default_max_tokens <= 0 || default_max_tokens > 32768 {
        return Err(ConfigError::MaxTokensOutOfRange(default_max_tokens));
    }
    let length_text = value(m, "MAX_DISCORD_MESSAGE_LENGTH");
    let max_discord_message_length = match parse_usize(length_text.as_str()) {
        Some(v) => v,
        None => {
            return Err(ConfigError::MessageLengthNotNumber);
        },
    };
    let padding_text = value(m, "RESPONSE_FORMAT_PADDING");
    let response_format_padding = match parse_usize(padding_text.as_str()) {
        Some(v) => v,
        None => {
            return Err(ConfigError::PaddingNotNumber);
        },
    };
    let default_seed = match read_seed(m, true) {
        Some(s) => s,
        None => {
            return Err(ConfigError::SeedNotInteger);
        },
    };
    Ok(
        LmSettings {
            base_url,
            timeout,
            default_model,
            default_reason_model,
            default_summarization_model,
            default_ranking_model,
            default_temperature_text,
            default_max_tokens,
            max_discord_message_length,
            response_format_padding,
            default_vision_model,
            default_seed,
        },
    )
}

/// A key that `missing_keys` does not report is set by some line.
pub proof fn lemma_missing_keys_complete(
    m: Seq<(Seq<char>, Seq<char>)>,
    keys: Seq<Seq<char>>,
    k: int,
)
    requires
        0 <= k < keys.len(),
        missing_keys(m, keys).len() == 0,
    ensures
        lookup(m, keys[k]) is Some,
    decreases keys.len(),
{
    if lookup(m, keys.last()) is None {
        assert(missing_keys(m, keys).len() > 0);
    }
    if k < keys.len() - 1 {
        assert(keys.drop_last()[k] == keys[k]);
        lemma_missing_keys_complete(m, keys.drop_last(), k);
    }
}


/// The bulleted list of missing keys, one per line.
pub open spec fn key_bullets(keys: Seq<Seq<char>>) -> Seq<char> {
    join_sep(Seq::new(keys.len(), |i: int| "• "@ + keys[i]), "\n"@)
}

/// The text of a refusal by the full settings check, for the file at `source`.
pub open spec fn config_error_text(e: ConfigError, source: Seq<char>) -> Seq<char> {
    match e {
        ConfigError::MissingKeys(ks) => "❌ **Missing Configuration Keys**\n\nThe following required keys are missing from `"@
            + source + "`:\n"@ + key_bullets(views(ks@))
            + "\n\n**Solution:** Add these keys to your lmapiconf.txt file. See example_lmapiconf.txt for reference."@,
        ConfigError::InvalidBaseUrl(u) => "❌ **Invalid Base URL**\n\nLM_STUDIO_BASE_URL must start with http:// or https://\nCurrent value: `"@
            + u@
            + "`\n\n**Examples:**\n• http://localhost:1234 (LM Studio)\n• http://localhost:11434 (Ollama)\n• http://127.0.0.1:1234 (Local IP)"@,
        ConfigError::TimeoutNotNumber => "LM_STUDIO_TIMEOUT must be a valid number (seconds)"@,
        ConfigError::TimeoutOutOfRange(t) => "❌ **Invalid Timeout Value**\n\nLM_STUDIO_TIMEOUT must be between 1 and 600 seconds\nCurrent value: "@
            + decimal(t as nat) + " seconds\n\n**Recommended:** 30-120 seconds"@,
        ConfigError::EmptyDefaultModel => "❌ DEFAULT_MODEL cannot be empty. Specify the model name loaded in LM Studio."@,
        ConfigError::TemperatureNotNumber => "DEFAULT_TEMPERATURE must be a valid number"@,
        ConfigError::TemperatureOutOfRange(t) => "❌ **Invalid Temperature Value**\n\nDEFAULT_TEMPERATURE must be between 0.0 and 2.0\nCurrent value: "@
            + t@ + "\n\n**Recommended:** 0.1-1.0 (0.7-0.8 is typical)"@,
        ConfigError::MaxTokensNotNumber => "DEFAULT_MAX_TOKENS must be a valid number"@,
        ConfigError::MaxTokensOutOfRange(t) => "❌ **Invalid Max Tokens Value**\n\nDEFAULT_MAX_TOKENS must be between 1 and 32768\nCurrent value: "@
            + signed_decimal(t as int) + "\n\n**Recommended:** 1000-8000 for most use cases"@,
        ConfigError::MessageLengthNotNumber => "MAX_DISCORD_MESSAGE_LENGTH must be a valid number"@,
        ConfigError::PaddingNotNumber => "RESPONSE_FORMAT_PADDING must be a valid number"@,
        ConfigError::SeedNotInteger => "DEFAULT_SEED must be a valid integer if specified"@,
    }
}

fn key_bullet_list(keys: &Vec<String>) -> (r: Vec<char>)
    ensures
        r@ == key_bullets(views(keys@)),
{
    let mut parts: Vec<Vec<char>> = Vec::new();
    let mut i: usize = 0;
    while i < keys.len()
        invariant
            i <= keys@.len(),
            parts@.len() == i,
            forall|k: int| 0 <= k < i ==> (#[trigger] parts@[k])@ == "• "@ + keys@[k]@,
        decreases keys@.len() - i,
    {
        let mut b = to_chars("• ");
        push_str(&mut b, keys[i].as_str());
        parts.push(b);
        i = i + 1;
    }
    let nl = to_chars("\n");
    let ghost vs = views(keys@);
    assert(Seq::new(parts@.len(), |k: int| parts@[k]@) =~= Seq::new(
        vs.len(),
        |k: int| "• "@ + vs[k],
    ));
    join_chars(&parts, nl.as_slice())
}

impl ConfigError {
    /// The text shown for the refusal, naming the settings file read.
    pub fn message(&self, source: &str) -> (m: String)
        ensures
            m@ == config_error_text(*self, source@),
    {
        match self {
            ConfigError::MissingKeys(ks) => {
                let mut out = to_chars("❌ **Missing Configuration Keys**\n\nThe following required keys are missing from `");
                push_str(&mut out, source);
                push_str(&mut out, "`:\n");
                let b = key_bullet_list(ks);
                push_all(&mut out, b.as_slice());
                push_str(&mut out, "\n\n**Solution:** Add these keys to your lmapiconf.txt file. See example_lmapiconf.txt for reference.");
                from_chars(out.as_slice())
            },
            ConfigError::InvalidBaseUrl(u) => {
                let mut out = to_chars("❌ **Invalid Base URL**\n\nLM_STUDIO_BASE_URL must start with http:// or https://\nCurrent value: `");
                push_str(&mut out, u.as_str());
                push_str(&mut out, "`\n\n**Examples:**\n• http://localhost:1234 (LM Studio)\n• http://localhost:11434 (Ollama)\n• http://127.0.0.1:1234 (Local IP)");
                from_chars(out.as_slice())
            },
            ConfigError::TimeoutNotNumber => String::from_str("LM_STUDIO_TIMEOUT must be a valid number (seconds)"),
            ConfigError::TimeoutOutOfRange(t) => {
                let mut out = to_chars("❌ **Invalid Timeout Value**\n\nLM_STUDIO_TIMEOUT must be between 1 and 600 seconds\nCurrent value: ");
                let d = decimal_chars(*t as u128);
                push_all(&mut out, d.as_slice());
                push_str(&mut out, " seconds\n\n**Recommended:** 30-120 seconds");
                from_chars(out.as_slice())
            },
            ConfigError::EmptyDefaultModel => String::from_str("❌ DEFAULT_MODEL cannot be empty. Specify the model name loaded in LM Studio."),
            ConfigError::TemperatureNotNumber => String::from_str("DEFAULT_TEMPERATURE must be a valid number"),
            ConfigError::TemperatureOutOfRange(t) => {
                let mut out = to_chars("❌ **Invalid Temperature Value**\n\nDEFAULT_TEMPERATURE must be between 0.0 and 2.0\nCurrent value: ");
                push_str(&mut out, t.as_str());
                push_str(&mut out, "\n\n**Recommended:** 0.1-1.0 (0.7-0.8 is typical)");
                from_chars(out.as_slice())
            },
            ConfigError::MaxTokensNotNumber => String::from_str("DEFAULT_MAX_TOKENS must be a valid number"),
            ConfigError::MaxTokensOutOfRange(t) => {
                let mut out = to_chars("❌ **Invalid Max Tokens Value**\n\nDEFAULT_MAX_TOKENS must be between 1 and 32768\nCurrent value: ");
                let d = signed_decimal_chars(*t as i64);
                push_all(&mut out, d.as_slice());
                push_str(&mut out, "\n\n**Recommended:** 1000-8000 for most use cases");
                from_chars(out.as_slice())
            },
            ConfigError::MessageLengthNotNumber => String::from_str("MAX_DISCORD_MESSAGE_LENGTH must be a valid number"),
            ConfigError::PaddingNotNumber => String::from_str("RESPONSE_FORMAT_PADDING must be a valid number"),
            ConfigError::SeedNotInteger => String::from_str("DEFAULT_SEED must be a valid integer if specified"),
        }
    }
}

/// The commands whose settings loaders check only that keys are present and
/// values parse.
#[derive(PartialEq, Eq, Structural, Clone, Copy)]
pub enum LoaderKind {
    /// The ranking command: the full key list, and a timeout from 1 to 600.
    Ranking,
    /// The reasoning command: the full key list.
    Reasoning,
    /// The agent: a shorter key list; its model is the reasoning model.
    Agent,
}

/// The keys a loader needs.
pub open spec fn loader_keys(kind: LoaderKind) -> Seq<Seq<char>> {
    if kind == LoaderKind::Agent {
        agent_required_keys()
    } else {
        required_keys()
    }
}

/// The key that names the model a loader runs with.
pub open spec fn loader_model_key(kind: LoaderKind) -> Seq<char> {
    if kind == LoaderKind::Agent {
        "DEFAULT_REASON_MODEL"@
    } else {
        "DEFAULT_MODEL"@
    }
}

/// How a loader names itself in the missing-key message.
pub open spec fn loader_label(kind: LoaderKind) -> Seq<char> {
    match kind {
        LoaderKind::Ranking => " (ranking command)"@,
        LoaderKind::Reasoning => " (reasoning command)"@,
        LoaderKind::Agent => " (agent)"@,
    }
}

/// The first check of a lenient loader that fails, with its message: the
/// first missing key, then the values in the order the settings are built.
pub open spec fn lenient_error(
    m: Seq<(Seq<char>, Seq<char>)>,
    kind: LoaderKind,
    source: Seq<char>,
    temp: TemperatureCheck,
) -> Option<Seq<char>> {
    let missing = missing_keys(m, loader_keys(kind));
    if missing.len() > 0 {
        Some("Required setting '"@ + missing[0] + "' not found in "@ + source + loader_label(kind))
    } else if timeout_of(m) is None {
        Some(
            if kind == LoaderKind::Ranking {
                "LM_STUDIO_TIMEOUT must be a valid number (seconds)"@
            } else {
                "Invalid LM_STUDIO_TIMEOUT value"@
            },
        )
    } else if kind == LoaderKind::Ranking && (timeout_of(m)->0 == 0 || timeout_of(m)->0 > 600) {
        Some(
            "❌ **Invalid Timeout Value**\n\nLM_STUDIO_TIMEOUT must be between 1 and 600 seconds\nCurrent value: "@
                + decimal(timeout_of(m)->0 as nat)
                + " seconds\nRecommended: 300 seconds for complex ranking operations"@,
        )
    } else if temp is NotNumber {
        Some("Invalid DEFAULT_TEMPERATURE value"@)
    } else if max_tokens_of(m) is None {
        Some("Invalid DEFAULT_MAX_TOKENS value"@)
    } else if usize_setting(m, "MAX_DISCORD_MESSAGE_LENGTH"@) is None {
        Some("Invalid MAX_DISCORD_MESSAGE_LENGTH value"@)
    } else if usize_setting(m, "RESPONSE_FORMAT_PADDING"@) is None {
        Some("Invalid RESPONSE_FORMAT_PADDING value"@)
    } else if seed_of(m, false) is None {
        Some("DEFAULT_SEED must be a valid integer if specified"@)
    } else {
        None
    }
}

fn err_text(s: &str) -> (r: Result<LmSettings, String>)
    ensures
        r matches Err(e) && e@ == s@,
{
    Err(String::from_str(s))
}

/// The settings check of the ranking, reasoning and agent commands, for the
/// file at `source`: a refusal carries the text the command reports.  The
/// agent's settings hold no other model names (they are left empty).
pub fn load_command_config(
    m: &ConfigMap,
    kind: LoaderKind,
    source: &str,
    temp: TemperatureCheck,
) -> (r: Result<LmSettings, String>)
    ensures
        match r {
            Ok(s) => lenient_error(m@, kind, source@, temp) is None
                && settings_from(m@, s, loader_model_key(kind), false)
                && (kind != LoaderKind::Agent ==> model_names_from(m@, s))
                && (kind == LoaderKind::Agent ==> s.default_reason_model@.len() == 0
                    && s.default_summarization_model@.len() == 0
                    && s.default_ranking_model@.len() == 0
                    && s.default_vision_model@.len() == 0)
                && (kind == LoaderKind::Ranking ==> 1 <= s.timeout <= 600),
            Err(e) => lenient_error(m@, kind, source@, temp) == Some(e@),
        },
{
    let keys = if kind == LoaderKind::Agent {
        agent_required_key_list()
    } else {
        required_key_list()
    };
    let ghost ks = Seq::new(keys@.len(), |k: int| keys@[k]@);
    assert(ks =~= loader_keys(kind));
    let missing = missing_of(m, &keys);
    if missing.len() > 0 {
        let mut out = to_chars("Required setting '");
        push_str(&mut out, missing[0].as_str());
        push_str(&mut out, "' not found in ");
        push_str(&mut out, source);
        match kind {
            LoaderKind::Ranking => push_str(&mut out, " (ranking command)"),
            LoaderKind::Reasoning => push_str(&mut out, " (reasoning command)"),
            LoaderKind::Agent => push_str(&mut out, " (agent)"),
        }
        assert(views(missing@)[0] == missing@[0]@);
        return Err(from_chars(out.as_slice()));
    }
    proof {
        assert forall|k: int| 0 <= k < loader_keys(kind).len() implies lookup(
            m@,
            #[trigger] loader_keys(kind)[k],
        ) is Some by {
            lemma_missing_keys_complete(m@, loader_keys(kind), k);
        }
        assert(lookup(m@, loader_keys(kind)[0]) is Some);
        assert(lookup(m@, loader_keys(kind)[1]) is Some);
        assert(lookup(m@, loader_keys(kind)[2]) is Some);
        assert(lookup(m@, loader_keys(kind)[3]) is Some);
        assert(lookup(m@, loader_keys(kind)[4]) is Some);
        assert(lookup(m@, loader_keys(kind)[5]) is Some);
        assert(lookup(m@, loader_keys(kind)[6]) is Some);
        if kind != LoaderKind::Agent {
            assert(lookup(m@, required_keys()[7]) is Some);
            assert(lookup(m@, required_keys()[8]) is Some);
            assert(lookup(m@, required_keys()[9]) is Some);
            assert(lookup(m@, required_keys()[10]) is Some);
        }
    }
    let base_url = value(m, "LM_STUDIO_BASE_URL");
    let timeout_text = value(m, "LM_STUDIO_TIMEOUT");
    let timeout = match parse_u64(timeout_text.as_str()) {
        Some(t) => t,
        None => {
            return if kind == LoaderKind::Ranking {
                err_text("LM_STUDIO_TIMEOUT must be a valid number (seconds)")
            } else {
                err_text("Invalid LM_STUDIO_TIMEOUT value")
            };
        },
    };
    if kind == LoaderKind::Ranking && (timeout == 0 || timeout > 600) {
        let mut out = to_chars("❌ **Invalid Timeout Value**\n\nLM_STUDIO_TIMEOUT must be between 1 and 600 seconds\nCurrent value: ");
        let d = decimal_chars(timeout as u128);
        push_all(&mut out, d.as_slice());
        push_str(&mut out, " seconds\nRecommended: 300 seconds for complex ranking operations");
        return Err(from_chars(out.as_slice()));
    }
    let (default_model, default_reason_model, default_summarization_model, default_ranking_model) =
        if kind == LoaderKind::Agent {
        (value(m, "DEFAULT_REASON_MODEL"), String::new(), String::new(), String::new())
    } else {
        (
            value(m, "DEFAULT_MODEL"),
            value(m, "DEFAULT_REASON_MODEL"),
            value(m, "DEFAULT_SUMMARIZATION_MODEL"),
            value(m, "DEFAULT_RANKING_MODEL"),
        )
    };
    let default_temperature_text = value(m, "DEFAULT_TEMPERATURE");
    if let TemperatureCheck::NotNumber = temp {
        return err_text("Invalid DEFAULT_TEMPERATURE value");
    }
    let tokens_text = value(m, "DEFAULT_MAX_TOKENS");
    let default_max_tokens = match parse_i32(tokens_text.as_str()) {
        Some(t) => t,
        None => {
            return err_text("Invalid DEFAULT_MAX_TOKENS value");
        },
    };
    let length_text = value(m, "MAX_DISCORD_MESSAGE_LENGTH");
    let max_discord_message_length = match parse_usize(length_text.as_str()) {
        Some(v) => v,
        None => {
            return err_text("Invalid MAX_DISCORD_MESSAGE_LENGTH value");
        },
    };
    let padding_text = value(m, "RESPONSE_FORMAT_PADDING");
    let response_format_padding = match parse_usize(padding_text.as_str()) {
        Some(v) => v,
        None => {
            return err_text("Invalid RESPONSE_FORMAT_PADDING value");
        },
    };
    let default_vision_model = if kind == LoaderKind::Agent {
        String::new()
    } else {
        value(m, "DEFAULT_VISION_MODEL")
    };
    let default_seed = match read_seed(m, false) {
        Some(s) => s,
        None => {
            return err_text("DEFAULT_SEED must be a valid integer if specified");
        },
    };
    Ok(
        LmSettings {
            base_url,
            timeout,
            default_model,
            default_reason_model,
            default_summarization_model,
            default_ranking_model,
            default_temperature_text,
            default_max_tokens,
            max_discord_message_length,
            response_format_padding,
            default_vision_model,
            default_seed,
        },
    )
}

/// The error when no settings file is found in any of the places searched:
/// `None` stands for the full check of chat, search and summaries.
pub fn config_file_missing(kind: Option<LoaderKind>) -> (m: String)
    ensures
        m@ == match kind {
            None => "❌ **Configuration File Not Found**\n\nCould not find `lmapiconf.txt` in any of these locations:\n• ./lmapiconf.txt\n• ../lmapiconf.txt\n• ../../lmapiconf.txt\n• src/lmapiconf.txt\n\n**Solution:** Copy `example_lmapiconf.txt` to `lmapiconf.txt` and configure it for your setup."@,
            Some(LoaderKind::Ranking) => "lmapiconf.txt file not found in any expected location (., .., ../.., src/) for ranking command"@,
            Some(LoaderKind::Reasoning) => "lmapiconf.txt file not found in any expected location (., .., ../.., src/) for reasoning command"@,
            Some(LoaderKind::Agent) => "lmapiconf.txt file not found in any expected location for agent"@,
        },
{
    match kind {
        None => String::from_str("❌ **Configuration File Not Found**\n\nCould not find `lmapiconf.txt` in any of these locations:\n• ./lmapiconf.txt\n• ../lmapiconf.txt\n• ../../lmapiconf.txt\n• src/lmapiconf.txt\n\n**Solution:** Copy `example_lmapiconf.txt` to `lmapiconf.txt` and configure it for your setup."),
        Some(LoaderKind::Ranking) => String::from_str("lmapiconf.txt file not found in any expected location (., .., ../.., src/) for ranking command"),
        Some(LoaderKind::Reasoning) => String::from_str("lmapiconf.txt file not found in any expected location (., .., ../.., src/) for reasoning command"),
        Some(LoaderKind::Agent) => String::from_str("lmapiconf.txt file not found in any expected location for agent"),
    }
}

} // verus!
