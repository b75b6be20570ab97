//! The settings of a survey.

use vstd::prelude::*;
use vstd::string::{StrSliceExecFns, StringExecFns};

verus! {

/// The depth to which a survey goes where none is given.
pub const DEFAULT_MAX_DEPTH: usize = 1;

/// Whether a survey skips hidden entries where nothing is said.
pub const DEFAULT_SKIP_HIDDEN: bool = true;

/// The settings of one survey.
#[derive(Debug)]
pub struct ScanConfig {
    /// The directory at which the survey starts.
    pub root: String,
    /// How far below the root the survey goes; 0 is the root alone.
    pub max_depth: usize,
    /// Whether hidden entries, and all below them, are left out.
    pub skip_hidden: bool,
}

/// What the settings hold, as plain values.
pub struct ConfigView {
    pub root: Seq<char>,
    pub max_depth: usize,
    pub skip_hidden: bool,
}

impl View for ScanConfig {
    type V = ConfigView;

    open spec fn view(&self) -> ConfigView {
        ConfigView { root: self.root@, max_depth: self.max_depth, skip_hidden: self.skip_hidden }
    }
}

impl ScanConfig {
    /// The settings of a survey of `root` with nothing else said: one level
    /// deep, hidden entries skipped.
    pub fn new(root: String) -> (config: ScanConfig)
        ensures
            config@ == (ConfigView {
                root: root@,
                max_depth: DEFAULT_MAX_DEPTH,
                skip_hidden: DEFAULT_SKIP_HIDDEN,
            }),
    {
        ScanConfig { root, max_depth: DEFAULT_MAX_DEPTH, skip_hidden: DEFAULT_SKIP_HIDDEN }
    }

    /// The same settings with another depth limit.
    pub fn with_max_depth(self, max_depth: usize) -> (config: ScanConfig)
        ensures
            config@ == (ConfigView { max_depth, ..self@ }),
    {
        ScanConfig { root: self.root, max_depth, skip_hidden: self.skip_hidden }
    }

    /// The same settings with another choice on hidden entries.
    pub fn with_skip_hidden(self, skip_hidden: bool) -> (config: ScanConfig)
        ensures
            config@ == (ConfigView { skip_hidden, ..self@ }),
    {
        ScanConfig { root: self.root, max_depth: self.max_depth, skip_hidden }
    }
}

/// Why settings could not be read from their texts.
#[derive(Clone, Copy, Debug, PartialEq, Eq, Structural)]
pub enum ConfigError {
    /// The depth limit is no unsigned number that fits the machine.
    InvalidMaxDepth,
    /// The choice on hidden entries is none of the accepted words.
    InvalidSkipHidden,
}

/// What is said to the user of each error.
pub open spec fn message_model(error: ConfigError) -> Seq<char> {
    match error {
        ConfigError::InvalidMaxDepth => "can't parse max_depth into a valid unsigned int"@,
        ConfigError::InvalidSkipHidden => "skip_hidden is none of 0, 1, f, t, false, true"@,
    }
}

impl ConfigError {
    /// What is said to the user of this error.
    pub fn message(&self) -> (text: &'static str)
        ensures
            text@ == message_model(*self),
    {
        match self {
            ConfigError::InvalidMaxDepth => "can't parse max_depth into a valid unsigned int",
            ConfigError::InvalidSkipHidden => "skip_hidden is none of 0, 1, f, t, false, true",
        }
    }
}

/// Whether a character is a decimal digit.
pub open spec fn is_digit(c: char) -> bool {
    '0' <= c && c <= '9'
}

/// The number that a decimal digit stands for.
pub open spec fn digit_value(c: char) -> nat {
    (c as u32 - '0' as u32) as nat
}

/// Whether a text holds decimal digits only.
pub open spec fn all_digits(digits: Seq<char>) -> bool {
    forall|i: int| 0 <= i < digits.len() ==> is_digit(#[trigger] digits[i])
}

/// The number that a run of decimal digits writes.
pub open spec fn decimal_value(digits: Seq<char>) -> nat
    decreases digits.len(),
{
    if digits.len() == 0 {
        0
    } else {
        decimal_value(digits.drop_last()) * 10 + digit_value(digits.last())
    }
}

/// A text without the plus sign that may lead it.
pub open spec fn unsigned_part(text: Seq<char>) -> Seq<char> {
    if text.len() > 0 && text[0] == '+' {
        text.subrange(1, text.len() as int)
    } else {
        text
    }
}

/// The depth limit that a text gives: the number it writes, where it is one
/// or more decimal digits, with or without a plus sign before them, and the
/// number fits the machine; else none.
pub open spec fn max_depth_model(text: Seq<char>) -> Option<usize> {
    let digits = unsigned_part(text);
    if digits.len() > 0 && all_digits(digits) && decimal_value(digits) <= usize::MAX {
        Some(decimal_value(digits) as usize)
    } else {
        None
    }
}

/// The choice on hidden entries that a text gives: `0`, `f` and `false` say
/// no, `1`, `t` and `true` say yes, and no other text says anything.
pub open spec fn skip_hidden_model(text: Seq<char>) -> Option<bool> {
    if text == seq!['0'] || text == seq!['f'] || text == seq!['f', 'a', 'l', 's', 'e'] {
        Some(false)
    } else if text == seq!['1'] || text == seq!['t'] || text == seq!['t', 'r', 'u', 'e'] {
        Some(true)
    } else {
        None
    }
}

/// What a text that may be absent holds.
pub open spec fn text_model(text: Option<&str>) -> Option<Seq<char>> {
    match text {
        Some(t) => Some(t@),
        None => None,
    }
}

/// The settings that three texts give, or what is wrong with them. A text
/// that is absent leaves the setting as it is where nothing is said. A depth
/// limit that cannot be read is reported before a choice that cannot.
pub open spec fn settings_model(
    root: Seq<char>,
    max_depth: Option<Seq<char>>,
    skip_hidden: Option<Seq<char>>,
) -> Result<ConfigView, ConfigError> {
    let depth = match max_depth {
        Some(text) => max_depth_model(text),
        None => Some(DEFAULT_MAX_DEPTH),
    };
    let skip = match skip_hidden {
        Some(text) => skip_hidden_model(text),
        None => Some(DEFAULT_SKIP_HIDDEN),
    };
    if depth is None {
        Err(ConfigError::InvalidMaxDepth)
    } else if skip is None {
        Err(ConfigError::InvalidSkipHidden)
    } else {
        Ok(ConfigView { root, max_depth: depth->0, skip_hidden: skip->0 })
    }
}

/// A run of digits writes no smaller a number than any run it starts with.
proof fn lemma_decimal_prefix(digits: Seq<char>, k: int)
    requires
        0 <= k <= digits.len(),
    ensures
        decimal_value(digits.subrange(0, k)) <= decimal_value(digits),
    decreases digits.len(),
{
    if k == digits.len() {
        assert(digits.subrange(0, k) =~= digits);
    } else {
        lemma_decimal_prefix(digits.drop_last(), k);
        assert(digits.drop_last().subrange(0, k) =~= digits.subrange(0, k));
    }
}

/// Whether two texts are the same.
pub fn same_text(a: &str, b: &str) -> (same: bool)
    ensures
        same == (a@ == b@),
{
    let n = a.unicode_len();
    if b.unicode_len() != n {
        return false;
    }
    let mut i: usize = 0;
    while i < n
        invariant
            i <= n,
            n == a@.len(),
            n == b@.len(),
            forall|k: int| 0 <= k < i ==> a@[k] == b@[k],
        decreases n - i,
    {
        if a.get_char(i) != b.get_char(i) {
            return false;
        }
        i += 1;
    }
    assert(a@ =~= b@);
    true
}

/// Reads a depth limit from a text.
pub fn parse_max_depth(text: &str) -> (depth: Option<usize>)
    ensures
        depth == max_depth_model(text@),
{
    let n = text.unicode_len();
    let start: usize = if n > 0 && text.get_char(0) == '+' {
        1
    } else {
        0
    };
    if start == n {
        return None;
    }
    let ghost digits = unsigned_part(text@);
    let mut value: usize = 0;
    let mut i: usize = start;
    while i < n
        invariant
            start <= i <= n,
            n == text@.len(),
            digits == unsigned_part(text@),
            digits =~= text@.subrange(start as int, n as int),
            all_digits(digits.subrange(0, i - start)),
            value == decimal_value(digits.subrange(0, i - start)),
        decreases n - i,
    {
        let c = text.get_char(i);
        let ghost read = digits.subrange(0, i - start + 1);
        proof {
            assert(digits[i - start] == c);
            assert(read.drop_last() =~= digits.subrange(0, i - start));
            assert(read.last() == c);
        }
        if !(c >= '0' && c <= '9') {
            assert(!is_digit(digits[i - start]));
            return None;
        }
        let digit: usize = (c as u32 - '0' as u32) as usize;
        if value > (usize::MAX - digit) / 10 {
            proof {
                assert(decimal_value(read) == value * 10 + digit);
                lemma_decimal_prefix(digits, i - start + 1);
            }
            return None;
        }
        value = value * 10 + digit;
        i += 1;
    }
    proof {
        assert(digits.subrange(0, n - start) =~= digits);
    }
    Some(value)
}

/// Reads a choice on hidden entries from a text.
pub fn parse_skip_hidden(text: &str) -> (choice: Option<bool>)
    ensures
        choice == skip_hidden_model(text@),
{
    proof {
        reveal_strlit("0");
        reveal_strlit("f");
        reveal_strlit("false");
        reveal_strlit("1");
        reveal_strlit("t");
        reveal_strlit("true");
        assert("0"@ =~= seq!['0']);
        assert("f"@ =~= seq!['f']);
        assert("false"@ =~= seq!['f', 'a', 'l', 's', 'e']);
        assert("1"@ =~= seq!['1']);
        assert("t"@ =~= seq!['t']);
        assert("true"@ =~= seq!['t', 'r', 'u', 'e']);
    }
    if same_text(text, "0") || same_text(text, "f") || same_text(text, "false") {
        Some(false)
    } else if same_text(text, "1") || same_text(text, "t") || same_text(text, "true") {
        Some(true)
    } else {
        None
    }
}

impl ScanConfig {
    /// The settings of a survey of `root`, with the depth limit and the choice
    /// on hidden entries read from their texts where these are given.
    pub fn from_args(root: &str, max_depth: Option<&str>, skip_hidden: Option<&str>) -> (parsed:
        Result<ScanConfig, ConfigError>)
        ensures
            settings_model(root@, text_model(max_depth), text_model(skip_hidden)) == match parsed {
                Ok(config) => Ok::<ConfigView, ConfigError>(config@),
                Err(error) => Err(error),
            },
    {
        let depth = match max_depth {
            Some(text) => parse_max_depth(text),
            None => Some(DEFAULT_MAX_DEPTH),
        };
        let skip = match skip_hidden {
            Some(text) => parse_skip_hidden(text),
            None => Some(DEFAULT_SKIP_HIDDEN),
        };
        match (depth, skip) {
            (None, _) => Err(ConfigError::InvalidMaxDepth),
            (Some(_), None) => Err(ConfigError::InvalidSkipHidden),
            (Some(depth), Some(skip)) => Ok(
                ScanConfig { root: String::from_str(root), max_depth: depth, skip_hidden: skip },
            ),
        }
    }
}

} // verus!
