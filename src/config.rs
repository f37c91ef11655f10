//! The bots' configuration, as plain values, and the rules read from it.
use vstd::prelude::*;

use crate::euro_to_mark::is_digit;
use crate::text::{chars_of, eq_ignore_ascii_case, same_ignoring_ascii_case};

verus! {

/// The bots of this project.
#[derive(Clone, Copy, Debug, PartialEq, Eq, Structural)]
pub enum Bots {
    /// The bot that comments on chat messages.
    Autokommentator,
    /// The kangaroo that converts euros to Mark.
    KaenguruKnecht,
}

/// A canned reply: it is given when a message holds one of the triggers, and
/// is drawn from the pool.
#[derive(Clone, Debug)]
pub struct Response {
    /// Texts that call for this reply when a message contains one of them.
    pub trigger: Vec<String>,
    /// The texts to reply with; one of them is chosen at random.
    pub response_pool: Vec<String>,
}

/// The kangaroo's part of the configuration.
#[derive(Debug)]
pub struct Kaenguru {
    /// The token that logs the bot in, if one is configured.
    pub token: Option<String>,
    /// The canned replies of this bot.
    pub responses: Vec<Response>,
}

/// The commenting bot's part of the configuration.
#[derive(Debug)]
pub struct Autokommentator {
    /// The token that logs the bot in, if one is configured.
    pub token: Option<String>,
    /// The canned replies of this bot.
    pub responses: Vec<Response>,
}

/// The configuration of all bots.
#[derive(Debug)]
pub struct Config {
    /// The version of the configuration format, `major.minor`.
    pub version: String,
    pub autokommentator: Autokommentator,
    pub kaenguru: Kaenguru,
}

impl Config {
    pub open spec fn spec_responses(&self, bot: Bots) -> Seq<Response> {
        match bot {
            Bots::Autokommentator => self.autokommentator.responses@,
            Bots::KaenguruKnecht => self.kaenguru.responses@,
        }
    }

    pub open spec fn spec_token(&self, bot: Bots) -> Option<String> {
        match bot {
            Bots::Autokommentator => self.autokommentator.token,
            Bots::KaenguruKnecht => self.kaenguru.token,
        }
    }

    /// The canned replies of `bot`.
    pub fn responses(&self, bot: Bots) -> (r: &Vec<Response>)
        ensures
            r@ == self.spec_responses(bot),
    {
        match bot {
            Bots::Autokommentator => &self.autokommentator.responses,
            Bots::KaenguruKnecht => &self.kaenguru.responses,
        }
    }

    /// The token that `bot` logs in with: the one given from outside (the
    /// environment) if there is one, else the configured one.
    pub fn token(&self, bot: Bots, given: Option<String>) -> (r: Option<String>)
        ensures
            given is Some ==> r == given,
            given is None ==> r == self.spec_token(bot),
    {
        match given {
            Some(t) => Some(t),
            None => match bot {
                Bots::Autokommentator => self.autokommentator.token.clone(),
                Bots::KaenguruKnecht => self.kaenguru.token.clone(),
            },
        }
    }
}

/// The first index from `i` on, up to `end`, that does not hold a space.
pub open spec fn skip_spaces(s: Seq<char>, i: int, end: int) -> int
    decreases end - i,
{
    if 0 <= i < end && i < s.len() && s[i] == ' ' {
        skip_spaces(s, i + 1, end)
    } else {
        i
    }
}

/// The first index from `i` on, up to `end`, that does not hold an ASCII digit
/// (`0` to `9`).
pub open spec fn skip_digits(s: Seq<char>, i: int, end: int) -> int
    decreases end - i,
{
    if 0 <= i < end && i < s.len() && is_digit(s[i]) {
        skip_digits(s, i + 1, end)
    } else {
        i
    }
}

/// The line of `s` that starts at `start` ends at the returned index (a line
/// break, or the end of the text).
pub open spec fn line_end(s: Seq<char>, start: int) -> int
    decreases s.len() - start,
{
    if 0 <= start < s.len() && s[start] != '\n' {
        line_end(s, start + 1)
    } else {
        start
    }
}

/// The version that the line `s[start..end]` sets, if it is of the form
/// `version = "<digits>.<digits>"`: any number of spaces may stand around the
/// `=` and after the closing quote, and a comment starting with `#` may end
/// the line. The digits are ASCII `0` to `9`; decimal digits of other scripts
/// do not make a version.
pub open spec fn line_version(s: Seq<char>, start: int, end: int) -> Option<Seq<char>> {
    let key = "version"@;
    if !(start + key.len() <= end && s.subrange(start, start + key.len()) == key) {
        None
    } else {
        let a = skip_spaces(s, start + key.len(), end);
        let b = skip_spaces(s, a + 1, end);
        let c = skip_digits(s, b + 1, end);
        let d = skip_digits(s, c + 1, end);
        let e = skip_spaces(s, d + 1, end);
        if a < end && s[a] == '=' && b < end && s[b] == '"' && c < end && s[c] == '.' && d < end
            && s[d] == '"' && (e == end || s[e] == '#') {
            Some(s.subrange(b + 1, d))
        } else {
            None
        }
    }
}

/// The version that the first line setting one, from the line at `start`
/// on, sets.
pub open spec fn version_from(s: Seq<char>, start: int) -> Option<Seq<char>>
    decreases s.len() - start,
{
    if start < 0 || start > s.len() {
        None
    } else {
        let end = line_end(s, start);
        match line_version(s, start, end) {
            Some(v) => Some(v),
            None => if start <= end < s.len() {
                version_from(s, end + 1)
            } else {
                None
            },
        }
    }
}

/// The version that a configuration text declares: that of its first line of
/// the form `version = "<major>.<minor>"`.
pub open spec fn config_version(s: Seq<char>) -> Option<Seq<char>> {
    version_from(s, 0)
}

/// A configuration of version `v` can be read by a program of version
/// `program`: the two are the same, or `v` is one of the older formats that
/// are still read.
pub open spec fn is_compatible(v: Seq<char>, program: Seq<char>) -> bool {
    same_ignoring_ascii_case(program, v) || same_ignoring_ascii_case("0.2"@, v)
        || same_ignoring_ascii_case("0.3"@, v)
}

fn skip_spaces_from(s: &Vec<char>, i: usize, end: usize) -> (r: usize)
    requires
        i <= end <= s@.len(),
    ensures
        r == skip_spaces(s@, i as int, end as int),
        i <= r <= end,
{
    let mut k = i;
    while k < end && s[k] == ' '
        invariant
            i <= k <= end <= s@.len(),
            skip_spaces(s@, k as int, end as int) == skip_spaces(s@, i as int, end as int),
        decreases end - k,
    {
        k = k + 1;
    }
    k
}

fn skip_digits_from(s: &Vec<char>, i: usize, end: usize) -> (r: usize)
    requires
        i <= end <= s@.len(),
    ensures
        r == skip_digits(s@, i as int, end as int),
        i <= r <= end,
{
    let mut k = i;
    while k < end && '0' <= s[k] && s[k] <= '9'
        invariant
            i <= k <= end <= s@.len(),
            skip_digits(s@, k as int, end as int) == skip_digits(s@, i as int, end as int),
        decreases end - k,
    {
        k = k + 1;
    }
    k
}

fn line_end_from(s: &Vec<char>, start: usize) -> (r: usize)
    requires
        start <= s@.len(),
    ensures
        r == line_end(s@, start as int),
        start <= r <= s@.len(),
{
    let mut k = start;
    while k < s.len() && s[k] != '\n'
        invariant
            start <= k <= s@.len(),
            line_end(s@, k as int) == line_end(s@, start as int),
        decreases s@.len() - k,
    {
        k = k + 1;
    }
    k
}

fn starts_with_key(s: &Vec<char>, key: &Vec<char>, start: usize, end: usize) -> (r: bool)
    requires
        start <= end <= s@.len(),
    ensures
        r == (start + key@.len() <= end && s@.subrange(start as int, start + key@.len()) == key@),
{
    if key.len() > end - start {
        return false;
    }
    let mut k: usize = 0;
    while k < key.len()
        invariant
            start + key@.len() <= end <= s@.len(),
            k <= key@.len(),
            forall|j: int| 0 <= j < k ==> s@[start + j] == #[trigger] key@[j],
        decreases key@.len() - k,
    {
        if s[start + k] != key[k] {
            assert(s@.subrange(start as int, start + key@.len())[k as int] != key@[k as int]);
            return false;
        }
        k = k + 1;
    }
    assert(s@.subrange(start as int, start + key@.len()) =~= key@);
    true
}

/// The span of the version that the line `s[start..end]` sets, if any.
fn line_version_span(s: &Vec<char>, key: &Vec<char>, start: usize, end: usize) -> (r: Option<
    (usize, usize),
>)
    requires
        start <= end <= s@.len(),
        key@ == "version"@,
    ensures
        match r {
            Some((b, d)) => b <= d <= s@.len() && line_version(s@, start as int, end as int) == Some(
                s@.subrange(b as int, d as int),
            ),
            None => line_version(s@, start as int, end as int) is None,
        },
{
    if !starts_with_key(s, key, start, end) {
        return None;
    }
    let a = skip_spaces_from(s, start + key.len(), end);
    if !(a < end && s[a] == '=') {
        return None;
    }
    let b = skip_spaces_from(s, a + 1, end);
    if !(b < end && s[b] == '"') {
        return None;
    }
    let c = skip_digits_from(s, b + 1, end);
    if !(c < end && s[c] == '.') {
        return None;
    }
    let d = skip_digits_from(s, c + 1, end);
    if !(d < end && s[d] == '"') {
        return None;
    }
    let e = skip_spaces_from(s, d + 1, end);
    if e == end || s[e] == '#' {
        Some((b + 1, d))
    } else {
        None
    }
}

/// Checks the version that the configuration text `config_content` declares
/// against the program's version `program` (`major.minor`).
///
/// `None` when no line declares a version; else whether that version can be
/// read, with the version itself. Only ASCII digits are read in a version
/// (see [`line_version`]).
pub fn check_version(config_content: &str, program: &str) -> (r: Option<(bool, String)>)
    ensures
        match config_version(config_content@) {
            None => r is None,
            Some(v) => r matches Some((ok, found)) && found@ == v && ok == is_compatible(
                v,
                program@,
            ),
        },
{
    let s = chars_of(config_content);
    let key = chars_of("version");
    let mut start: usize = 0;
    loop
        invariant
            s@ == config_content@,
            key@ == "version"@,
            start <= s@.len(),
            version_from(s@, start as int) == config_version(s@),
        decreases s@.len() - start,
    {
        let end = line_end_from(&s, start);
        match line_version_span(&s, &key, start, end) {
            Some((b, d)) => {
                let found = String::from_str(config_content.substring_char(b, d));
                let ok = eq_ignore_ascii_case(program, found.as_str()) || eq_ignore_ascii_case(
                    "0.2",
                    found.as_str(),
                ) || eq_ignore_ascii_case("0.3", found.as_str());
                return Some((ok, found));
            },
            None => {
                if end < s.len() {
                    start = end + 1;
                } else {
                    return None;
                }
            },
        }
    }
}

} // verus!
