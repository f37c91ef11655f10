//! Finding the last euro amount in a line of chat text.
//!
//! The text is read from its end towards its start. A small state machine
//! recognises a currency marker (`€`, or the letters `eur` in any case, read
//! backwards). Once a marker is confirmed the digits to its left are collected
//! into a number: one space may stand between them, `.` separates thousands and
//! is skipped, and `,` is the decimal separator, so everything collected before
//! it (the fraction, read first) is thrown away.
use vstd::prelude::*;

use crate::text::chars_of;

verus! {

/// The largest amount that is reported as a number; anything above is an
/// overflow.
pub const CEILING: u64 = 100_000;

/// Why no amount could be taken from a text.
#[derive(Clone, Copy, Debug, PartialEq, Eq, Structural)]
pub enum Error {
    /// The text holds no currency marker with a number next to it.
    NoCurrencyMarker,
    /// The number next to the last marker is larger than [`CEILING`].
    Overflow,
}

/// How much of the marker `eur` has been seen, reading backwards.
#[derive(Clone, Copy, Debug, PartialEq, Eq, Structural)]
pub enum MarkerState {
    /// Nothing of a marker yet.
    Idle,
    /// An `r` has been read.
    SawR,
    /// `ur` has been read.
    SawRU,
    /// A whole marker has been read.
    Confirmed,
}

pub open spec fn is_e(c: char) -> bool {
    c == 'e' || c == 'E'
}

pub open spec fn is_u(c: char) -> bool {
    c == 'u' || c == 'U'
}

pub open spec fn is_r(c: char) -> bool {
    c == 'r' || c == 'R'
}

pub open spec fn is_digit(c: char) -> bool {
    '0' <= c <= '9'
}

pub open spec fn digit_value(c: char) -> nat
    recommends
        is_digit(c),
{
    (c as int - '0' as int) as nat
}

pub open spec fn pow10(k: nat) -> nat
    decreases k,
{
    if k == 0 {
        1
    } else {
        10 * pow10((k - 1) as nat)
    }
}

/// The marker machine's move on reading `c`. A `€` is a marker on its own; any
/// letter that breaks `r`, `u`, `e` sends the machine back to the start.
pub open spec fn spec_step(state: MarkerState, c: char) -> MarkerState {
    if c == '€' {
        MarkerState::Confirmed
    } else {
        match state {
            MarkerState::Idle => if is_r(c) {
                MarkerState::SawR
            } else {
                MarkerState::Idle
            },
            MarkerState::SawR => if is_u(c) {
                MarkerState::SawRU
            } else {
                MarkerState::Idle
            },
            MarkerState::SawRU => if is_e(c) {
                MarkerState::Confirmed
            } else {
                MarkerState::Idle
            },
            MarkerState::Confirmed => MarkerState::Confirmed,
        }
    }
}

/// Reading `s[..i]` backwards while looking for a marker.
pub open spec fn search(s: Seq<char>, i: int, m: MarkerState) -> Result<nat, Error>
    decreases i, 0int,
{
    if i <= 0 {
        Err(Error::NoCurrencyMarker)
    } else {
        let next = spec_step(m, s[i - 1]);
        if next == MarkerState::Confirmed {
            numeral(s, i - 1, false, 0, 0)
        } else {
            search(s, i - 1, next)
        }
    }
}

/// Reading `s[..i]` backwards while collecting the number left of a marker:
/// `spaced` tells whether the one space allowed has been used, `value` is the
/// number collected so far and `digits` the number of digits in it.
pub open spec fn numeral(s: Seq<char>, i: int, spaced: bool, value: nat, digits: nat) -> Result<
    nat,
    Error,
>
    decreases i, 1int,
{
    if i <= 0 {
        if digits > 0 {
            Ok(value)
        } else {
            Err(Error::NoCurrencyMarker)
        }
    } else {
        let c = s[i - 1];
        if is_digit(c) {
            let v = value + digit_value(c) * pow10(digits);
            if v > CEILING {
                Err(Error::Overflow)
            } else {
                numeral(s, i - 1, spaced, v, digits + 1)
            }
        } else if c == '.' {
            numeral(s, i - 1, spaced, value, digits)
        } else if c == ',' {
            numeral(s, i - 1, spaced, 0, 0)
        } else if c == ' ' && !spaced {
            numeral(s, i - 1, true, value, digits)
        } else if digits > 0 {
            Ok(value)
        } else {
            // A marker with no number beside it: look for the next one, starting
            // with this very character.
            search(s, i, MarkerState::Idle)
        }
    }
}

/// The amount that the text `s` names last, as the backward scan finds it.
pub open spec fn euro_of(s: Seq<char>) -> Result<nat, Error> {
    search(s, s.len() as int, MarkerState::Idle)
}

/// The amount as the library returns it.
pub open spec fn euro_result(s: Seq<char>) -> Result<u64, Error> {
    match euro_of(s) {
        Ok(v) => Ok(v as u64),
        Err(e) => Err(e),
    }
}

/// The marker machine's move on reading `c`.
pub fn step(state: MarkerState, c: char) -> (r: MarkerState)
    ensures
        r == spec_step(state, c),
{
    if c == '€' {
        MarkerState::Confirmed
    } else {
        match state {
            MarkerState::Idle => if c == 'r' || c == 'R' {
                MarkerState::SawR
            } else {
                MarkerState::Idle
            },
            MarkerState::SawR => if c == 'u' || c == 'U' {
                MarkerState::SawRU
            } else {
                MarkerState::Idle
            },
            MarkerState::SawRU => if c == 'e' || c == 'E' {
                MarkerState::Confirmed
            } else {
                MarkerState::Idle
            },
            MarkerState::Confirmed => MarkerState::Confirmed,
        }
    }
}

/// The weight of the next digit as the scan keeps it: the power of ten, no
/// longer raised once it is past [`CEILING`] (any digit but zero then
/// overflows).
pub open spec fn capped_weight(digits: nat) -> nat
    decreases digits,
{
    if digits == 0 {
        1
    } else {
        let w = capped_weight((digits - 1) as nat);
        if w <= CEILING {
            10 * w
        } else {
            w
        }
    }
}

proof fn lemma_capped_weight(digits: nat)
    ensures
        1 <= capped_weight(digits) <= 1_000_000,
        capped_weight(digits) <= pow10(digits),
        capped_weight(digits) < pow10(digits) ==> capped_weight(digits) > CEILING,
    decreases digits,
{
    if digits > 0 {
        lemma_capped_weight((digits - 1) as nat);
    }
}

/// Extracts the last euro amount from `message`.
///
/// The marker is recognised in any case, so the text need not be lowered
/// first. `NoCurrencyMarker` comes when no marker has a number beside it,
/// `Overflow` when the number beside the last such marker is above
/// [`CEILING`].
pub fn get_euro(message: &str) -> (r: Result<u64, Error>)
    ensures
        r == euro_result(message@),
        r matches Ok(v) ==> v <= CEILING,
{
    let s = chars_of(message);
    let ghost gs = s@;
    let mut i: usize = s.len();
    let mut searching: bool = true;
    let mut marker: MarkerState = MarkerState::Idle;
    let mut spaced: bool = false;
    let mut value: u64 = 0;
    let mut weight: u64 = 1;
    let mut any_digit: bool = false;
    let ghost mut digits: nat = 0;
    while i > 0
        invariant
            gs == message@,
            s@ == gs,
            i <= s.len(),
            value <= CEILING,
            weight == capped_weight(digits),
            any_digit == (digits > 0),
            searching ==> search(gs, i as int, marker) == euro_of(gs),
            !searching ==> numeral(gs, i as int, spaced, value as nat, digits) == euro_of(gs),
        decreases 2 * i + if searching {
            0int
        } else {
            1int
        },
    {
        let c = s[i - 1];
        if searching {
            let next = step(marker, c);
            if next == MarkerState::Confirmed {
                searching = false;
                spaced = false;
                value = 0;
                weight = 1;
                any_digit = false;
                proof {
                    digits = 0;
                }
            } else {
                marker = next;
            }
            i = i - 1;
        } else if '0' <= c && c <= '9' {
            proof {
                lemma_capped_weight(digits);
            }
            let d = (c as u32 - '0' as u32) as u64;
            assert(d * weight <= 9_000_000) by (nonlinear_arith)
                requires
                    d <= 9,
                    weight <= 1_000_000,
            ;
            let v = value + d * weight;
            proof {
                let p = pow10(digits);
                assert(d as nat == digit_value(c));
                if weight == p {
                    assert(d * weight == d * p);
                } else if d == 0 {
                    assert(d * weight == 0 && d * p == 0) by (nonlinear_arith)
                        requires
                            d == 0,
                    ;
                } else {
                    // The weight has stopped growing past the ceiling: a digit
                    // other than zero overflows either way.
                    assert(d * weight >= weight) by (nonlinear_arith)
                        requires
                            d >= 1,
                            weight >= 1,
                    ;
                    assert(d * p >= p) by (nonlinear_arith)
                        requires
                            d >= 1,
                    ;
                }
                assert(numeral(gs, i as int, spaced, value as nat, digits) == if value + d * p
                    > CEILING {
                    Err(Error::Overflow)
                } else {
                    numeral(gs, i - 1, spaced, (value + d * p) as nat, digits + 1)
                });
                assert((value + d * p > CEILING) == (v > CEILING));
                assert(v <= CEILING ==> value + d * p == v);
            }
            if v > CEILING {
                return Err(Error::Overflow);
            }
            value = v;
            if weight <= CEILING {
                weight = weight * 10;
            }
            any_digit = true;
            proof {
                digits = digits + 1;
            }
            i = i - 1;
        } else if c == '.' {
            i = i - 1;
        } else if c == ',' {
            value = 0;
            weight = 1;
            any_digit = false;
            proof {
                digits = 0;
            }
            i = i - 1;
        } else if c == ' ' && !spaced {
            spaced = true;
            i = i - 1;
        } else if any_digit {
            return Ok(value);
        } else {
            searching = true;
            marker = MarkerState::Idle;
        }
    }
    if searching || !any_digit {
        Err(Error::NoCurrencyMarker)
    } else {
        Ok(value)
    }
}

} // verus!

verus! {

/// The number that the digits of `t` spell, read left to right; any other
/// character (a thousands separator) is skipped.
pub open spec fn digits_value(t: Seq<char>) -> nat
    decreases t.len(),
{
    if t.len() == 0 {
        0
    } else if is_digit(t.last()) {
        digits_value(t.drop_last()) * 10 + digit_value(t.last())
    } else {
        digits_value(t.drop_last())
    }
}

/// How many digits `t` holds.
pub open spec fn digit_count(t: Seq<char>) -> nat
    decreases t.len(),
{
    if t.len() == 0 {
        0
    } else if is_digit(t.last()) {
        digit_count(t.drop_last()) + 1
    } else {
        digit_count(t.drop_last())
    }
}

/// `t` holds nothing but digits and `.`.
pub open spec fn is_dotted_digits(t: Seq<char>) -> bool {
    forall|k: int| 0 <= k < t.len() ==> is_digit(#[trigger] t[k]) || t[k] == '.'
}

/// `t` is a non-empty run of digits.
pub open spec fn is_plain_digits(t: Seq<char>) -> bool {
    t.len() > 0 && forall|k: int| 0 <= k < t.len() ==> is_digit(#[trigger] t[k])
}

/// `m` is a currency marker that may follow a number directly: `€` or `eur`
/// in any case, with or without one space before it.
pub open spec fn is_marker_suffix(m: Seq<char>) -> bool {
    ||| m == seq!['€']
    ||| m == seq![' ', '€']
    ||| (m.len() == 3 && is_e(m[0]) && is_u(m[1]) && is_r(m[2]))
    ||| (m.len() == 4 && m[0] == ' ' && is_e(m[1]) && is_u(m[2]) && is_r(m[3]))
}

/// `s` holds a `€`, or the letters `eur` in any case, somewhere.
pub open spec fn contains_marker(s: Seq<char>) -> bool {
    exists|i: int|
        0 <= i < s.len() && (#[trigger] s[i] == '€' || (i + 2 < s.len() && is_e(s[i]) && is_u(
            s[i + 1],
        ) && is_r(s[i + 2])))
}

proof fn lemma_search_without_marker(s: Seq<char>, i: int, m: MarkerState)
    requires
        !contains_marker(s),
        0 <= i <= s.len(),
        m != MarkerState::Confirmed,
        m == MarkerState::SawR ==> i < s.len() && is_r(s[i]),
        m == MarkerState::SawRU ==> i + 1 < s.len() && is_u(s[i]) && is_r(s[i + 1]),
    ensures
        search(s, i, m) == Err::<nat, Error>(Error::NoCurrencyMarker),
    decreases i,
{
    if i > 0 {
        let c = s[i - 1];
        assert(!(s[i - 1] == '€' || (i - 1 + 2 < s.len() && is_e(s[i - 1]) && is_u(s[i - 1 + 1])
            && is_r(s[i - 1 + 2]))));
        let next = spec_step(m, c);
        lemma_search_without_marker(s, i - 1, next);
    }
}

/// Scanning a run of digits and dots `s[j..i]` adds its value to what has been
/// collected, or overflows if the sum passes the ceiling.
proof fn lemma_numeral_run(s: Seq<char>, j: int, i: int, spaced: bool, value: nat, digits: nat)
    requires
        0 <= j <= i <= s.len(),
        is_dotted_digits(s.subrange(j, i)),
        value <= CEILING,
    ensures
        numeral(s, i, spaced, value, digits) == ({
            let total = value + digits_value(s.subrange(j, i)) * pow10(digits);
            if total > CEILING {
                Err(Error::Overflow)
            } else {
                numeral(s, j, spaced, total, digits + digit_count(s.subrange(j, i)))
            }
        }),
    decreases i - j,
{
    let t = s.subrange(j, i);
    if i == j {
        assert(t.len() == 0);
        assert(digits_value(t) == 0 && digit_count(t) == 0);
        assert(0 * pow10(digits) == 0);
    } else {
        let c = s[i - 1];
        let rest = s.subrange(j, i - 1);
        assert(t.drop_last() == rest);
        assert(t.last() == c);
        assert(is_dotted_digits(rest)) by {
            assert forall|k: int| 0 <= k < rest.len() implies is_digit(#[trigger] rest[k])
                || rest[k] == '.' by {
                assert(rest[k] == t[k]);
            }
        }
        assert(is_digit(t[t.len() - 1]) || t[t.len() - 1] == '.');
        let p = pow10(digits);
        if is_digit(c) {
            let v = value + digit_value(c) * p;
            let r = digits_value(rest);
            assert(pow10(digits + 1) == 10 * p);
            let dc = digit_value(c);
            assert(value + (r * 10 + dc) * p == v + r * (10 * p)) by (nonlinear_arith)
                requires
                    v == value + dc * p,
            ;
            assert(r * (10 * p) >= 0) by (nonlinear_arith);
            if v <= CEILING {
                lemma_numeral_run(s, j, i - 1, spaced, v, digits + 1);
            }
        } else {
            lemma_numeral_run(s, j, i - 1, spaced, value, digits);
        }
    }
}

/// Reading a marker suffix backwards leads straight into collecting the number
/// left of it, with the one space already used if the marker had one.
proof fn lemma_marker_suffix(p: Seq<char>, m: Seq<char>)
    requires
        is_marker_suffix(m),
    ensures
        euro_of(p + m) == numeral(p + m, p.len() as int, m[0] == ' ', 0, 0),
{
    let s = p + m;
    let n = p.len() as int;
    assert forall|k: int| 0 <= k < m.len() implies s[n + k] == m[k] by {}
    if m.len() == 1 {
        assert(search(s, n + 1, MarkerState::Idle) == numeral(s, n, false, 0, 0));
    } else if m.len() == 2 {
        assert(search(s, n + 2, MarkerState::Idle) == numeral(s, n + 1, false, 0, 0));
        assert(numeral(s, n + 1, false, 0, 0) == numeral(s, n, true, 0, 0));
    } else if m.len() == 3 {
        assert(is_e(m[0]));
        assert(search(s, n + 3, MarkerState::Idle) == search(s, n + 2, MarkerState::SawR));
        assert(search(s, n + 2, MarkerState::SawR) == search(s, n + 1, MarkerState::SawRU));
        assert(search(s, n + 1, MarkerState::SawRU) == numeral(s, n, false, 0, 0));
    } else {
        assert(search(s, n + 4, MarkerState::Idle) == search(s, n + 3, MarkerState::SawR));
        assert(search(s, n + 3, MarkerState::SawR) == search(s, n + 2, MarkerState::SawRU));
        assert(search(s, n + 2, MarkerState::SawRU) == numeral(s, n + 1, false, 0, 0));
        assert(numeral(s, n + 1, false, 0, 0) == numeral(s, n, true, 0, 0));
    }
}

/// What the scan makes of a run of digits and dots followed by a marker.
proof fn lemma_marked_run(t: Seq<char>, m: Seq<char>)
    requires
        is_dotted_digits(t),
        is_marker_suffix(m),
    ensures
        euro_of(t + m) == if digits_value(t) > CEILING {
            Err(Error::Overflow)
        } else if digit_count(t) > 0 {
            Ok(digits_value(t))
        } else {
            Err(Error::NoCurrencyMarker)
        },
{
    let s = t + m;
    let n = t.len() as int;
    assert(s.subrange(0, n) == t);
    let spaced = m[0] == ' ';
    lemma_marker_suffix(t, m);
    lemma_pow10_one();
    lemma_numeral_run(s, 0, n, spaced, 0, 0);
}

proof fn lemma_pow10_one()
    ensures
        pow10(0) == 1,
{
}

/// A text without any currency marker names no amount.
pub proof fn lemma_no_marker(s: Seq<char>)
    requires
        !contains_marker(s),
    ensures
        euro_result(s) == Err::<u64, Error>(Error::NoCurrencyMarker),
{
    lemma_search_without_marker(s, s.len() as int, MarkerState::Idle);
}

/// A run of digits directly followed by a marker (with at most one space
/// between) is read as the number it spells, up to the ceiling.
pub proof fn lemma_plain_amount(d: Seq<char>, m: Seq<char>)
    requires
        is_plain_digits(d),
        is_marker_suffix(m),
        digits_value(d) <= CEILING,
    ensures
        euro_result(d + m) == Ok::<u64, Error>(digits_value(d) as u64),
{
    lemma_digits_are_counted(d);
    lemma_marked_run(d, m);
}

proof fn lemma_digits_are_counted(d: Seq<char>)
    requires
        is_plain_digits(d),
    ensures
        is_dotted_digits(d),
        digit_count(d) > 0,
{
    assert(is_digit(d.last()));
}

/// Dots between the digits are thousands separators: the amount is the number
/// that the digits spell without them.
pub proof fn lemma_thousands_separators(t: Seq<char>, m: Seq<char>)
    requires
        is_dotted_digits(t),
        digit_count(t) > 0,
        is_marker_suffix(m),
        digits_value(t) <= CEILING,
    ensures
        euro_result(t + m) == Ok::<u64, Error>(digits_value(t) as u64),
{
    lemma_marked_run(t, m);
}

/// A number above the ceiling next to a marker is an overflow, never a
/// smaller amount.
pub proof fn lemma_overflow(t: Seq<char>, m: Seq<char>)
    requires
        is_dotted_digits(t),
        is_marker_suffix(m),
        digits_value(t) > CEILING,
    ensures
        euro_result(t + m) == Err::<u64, Error>(Error::Overflow),
{
    lemma_marked_run(t, m);
}

/// With `,` as decimal separator only the integer part counts: the fraction
/// is dropped, provided the fraction's own digits do not pass the ceiling.
pub proof fn lemma_decimal_comma(a: Seq<char>, b: Seq<char>, m: Seq<char>)
    requires
        is_dotted_digits(a),
        digit_count(a) > 0,
        is_dotted_digits(b),
        digits_value(b) <= CEILING,
        is_marker_suffix(m),
    ensures
        euro_result(a + seq![','] + b + m) == if digits_value(a) > CEILING {
            Err::<u64, Error>(Error::Overflow)
        } else {
            Ok::<u64, Error>(digits_value(a) as u64)
        },
{
    let s = a + seq![','] + b + m;
    let n = a.len() as int + 1;
    assert(s.subrange(n, n + b.len()) == b);
    assert(s.subrange(0, a.len() as int) == a);
    assert(s[a.len() as int] == ',');
    let spaced = m[0] == ' ';
    let nb = n + b.len();
    assert((a + seq![','] + b).len() == nb);
    lemma_marker_suffix(a + seq![','] + b, m);
    lemma_pow10_one();
    lemma_numeral_run(s, n, nb, spaced, 0, 0);
    let vb = digits_value(b);
    let cb = digit_count(b);
    assert(numeral(s, n, spaced, vb, cb) == numeral(s, n - 1, spaced, 0, 0));
    lemma_numeral_run(s, 0, n - 1, spaced, 0, 0);
}

/// Extraction depends on the text alone: the same text always gives the same
/// result.
pub proof fn lemma_extraction_is_pure(a: Seq<char>, b: Seq<char>)
    requires
        a == b,
    ensures
        euro_result(a) == euro_result(b),
{
}

} // verus!
