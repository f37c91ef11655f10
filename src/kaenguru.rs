//! The calculating kangaroo's answer to an amount of euros: the amount in
//! Mark, in East German Mark, and on the black market.
use vstd::prelude::*;

use crate::euro_to_mark::{euro_result, get_euro, is_digit, Error, CEILING};

verus! {

/// How loudly a reply is shown.
#[derive(Clone, Copy, Debug, PartialEq, Eq, Structural)]
pub enum Severity {
    Normal,
    High,
}

/// The band of an amount that picks the reply's wording.
#[derive(Clone, Copy, Debug, PartialEq, Eq, Structural)]
pub enum ResponseTier {
    /// Past the ceiling, or an overflow: the alarmed reply.
    Escalated,
    /// From ten up to the ceiling: the conversion.
    Normal,
    /// Below ten: the conversion with a remark.
    Small,
}

/// A reply to a message that names an amount.
#[derive(Debug)]
pub struct Reply {
    /// The text of the reply.
    pub body: String,
    /// `High` for the alarmed reply to an amount past the ceiling.
    pub severity: Severity,
    /// Whether the amount was past the ceiling.
    pub escalated: bool,
}

pub open spec fn digit_char(d: nat) -> char
    recommends
        d < 10,
{
    (('0' as nat) + d) as char
}

/// The decimal digits of `n`, most significant first, without leading zeros.
pub open spec fn decimal(n: nat) -> Seq<char>
    decreases n,
{
    if n < 10 {
        seq![digit_char(n)]
    } else {
        decimal(n / 10).push(digit_char(n % 10))
    }
}

pub open spec fn alarm_text() -> Seq<char> {
    "Huiuiui! So viele Schulden kann die DDR doch nicht haben!"@
}

pub open spec fn small_amount_remark() -> Seq<char> {
    "\n\nKleinvieh macht auch Mist!"@
}

/// The reply's text for an amount within the ceiling: the amount, then twice,
/// four and eight times it; below ten a remark follows.
pub open spec fn conversion_text(n: nat) -> Seq<char> {
    decimal(n) + " Euro? Das, das sind ja "@ + decimal(2 * n) + " Mark! "@ + decimal(4 * n)
        + " Ostmark! "@ + decimal(8 * n) + " Ostmark aufm Schwarzmarkt!"@ + if n < 10 {
        small_amount_remark()
    } else {
        Seq::empty()
    }
}

/// The caption under every reply.
pub open spec fn footer_text() -> Seq<char> {
    "War ich ein guter Rechenknecht?"@
}

fn digit_str(d: u64) -> (r: &'static str)
    requires
        d < 10,
    ensures
        r@ == seq![digit_char(d as nat)],
{
    proof {
        reveal_strlit("0");
        reveal_strlit("1");
        reveal_strlit("2");
        reveal_strlit("3");
        reveal_strlit("4");
        reveal_strlit("5");
        reveal_strlit("6");
        reveal_strlit("7");
        reveal_strlit("8");
        reveal_strlit("9");
    }
    match d {
        0 => "0",
        1 => "1",
        2 => "2",
        3 => "3",
        4 => "4",
        5 => "5",
        6 => "6",
        7 => "7",
        8 => "8",
        _ => "9",
    }
}

/// `n` written in decimal.
pub fn decimal_string(n: u64) -> (r: String)
    ensures
        r@ == decimal(n as nat),
    decreases n,
{
    if n < 10 {
        String::from_str(digit_str(n))
    } else {
        let mut s = decimal_string(n / 10);
        s.append(digit_str(n % 10));
        s
    }
}

/// The caption under every reply.
pub fn footer() -> (r: &'static str)
    ensures
        r@ == footer_text(),
{
    "War ich ein guter Rechenknecht?"
}

/// The band that `result` falls in.
pub open spec fn tier_of(result: Result<u64, Error>) -> ResponseTier {
    match result {
        Ok(n) => if n > CEILING {
            ResponseTier::Escalated
        } else if n < 10 {
            ResponseTier::Small
        } else {
            ResponseTier::Normal
        },
        Err(_) => ResponseTier::Escalated,
    }
}

/// Whether `result` calls for the alarmed reply.
pub open spec fn is_escalated(result: Result<u64, Error>) -> bool {
    tier_of(result) == ResponseTier::Escalated
}

/// The band that `result` falls in: an overflow, or an amount past the
/// ceiling, is escalated; an amount below ten is small; any other is normal.
pub fn response_tier(result: Result<u64, Error>) -> (r: ResponseTier)
    ensures
        r == tier_of(result),
{
    match result {
        Ok(n) => if n > CEILING {
            ResponseTier::Escalated
        } else if n < 10 {
            ResponseTier::Small
        } else {
            ResponseTier::Normal
        },
        Err(_) => ResponseTier::Escalated,
    }
}

/// The text of the reply to `result`.
pub open spec fn reply_text(result: Result<u64, Error>) -> Seq<char> {
    match result {
        Ok(n) if n <= CEILING => conversion_text(n as nat),
        _ => alarm_text(),
    }
}

/// `r` is the reply to `result`.
pub open spec fn is_reply_to(r: Reply, result: Result<u64, Error>) -> bool {
    &&& r.escalated == is_escalated(result)
    &&& r.severity == if is_escalated(result) {
        Severity::High
    } else {
        Severity::Normal
    }
    &&& r.body@ == reply_text(result)
}

/// The alarmed reply holds no digit.
pub proof fn lemma_alarm_has_no_digits()
    ensures
        forall|i: int| 0 <= i < alarm_text().len() ==> !is_digit(#[trigger] alarm_text()[i]),
{
    reveal_strlit("Huiuiui! So viele Schulden kann die DDR doch nicht haben!");
    assert forall|i: int| 0 <= i < alarm_text().len() implies !is_digit(
        #[trigger] alarm_text()[i],
    ) by {
        assert(alarm_text() =~= seq![
            'H', 'u', 'i', 'u', 'i', 'u', 'i', '!', ' ', 'S', 'o', ' ', 'v', 'i', 'e', 'l', 'e', ' ',
            'S', 'c', 'h', 'u', 'l', 'd', 'e', 'n', ' ', 'k', 'a', 'n', 'n', ' ', 'd', 'i', 'e', ' ',
            'D', 'D', 'R', ' ', 'd', 'o', 'c', 'h', ' ', 'n', 'i', 'c', 'h', 't', ' ', 'h', 'a', 'b',
            'e', 'n', '!',
        ]);
    }
}

/// Turns an extracted amount, or an overflow, into a reply.
///
/// An overflow, or an amount past [`CEILING`], gives the alarmed reply with no
/// number in it; any other amount gives the conversion, with a remark added
/// below ten.
pub fn format_response(result: Result<u64, Error>) -> (r: Reply)
    requires
        result != Err::<u64, Error>(Error::NoCurrencyMarker),
    ensures
        is_reply_to(r, result),
        r.escalated ==> forall|i: int| 0 <= i < r.body@.len() ==> !is_digit(#[trigger] r.body@[i]),
{
    let tier = response_tier(result);
    match result {
        Ok(n) if tier != ResponseTier::Escalated => {
            let mut body = decimal_string(n);
            body.append(" Euro? Das, das sind ja ");
            let doubled = decimal_string(n * 2);
            body.append(doubled.as_str());
            body.append(" Mark! ");
            let quadrupled = decimal_string(n * 4);
            body.append(quadrupled.as_str());
            body.append(" Ostmark! ");
            let octupled = decimal_string(n * 8);
            body.append(octupled.as_str());
            body.append(" Ostmark aufm Schwarzmarkt!");
            if tier == ResponseTier::Small {
                body.append("\n\nKleinvieh macht auch Mist!");
            }
            assert(body@ == conversion_text(n as nat));
            Reply { body, severity: Severity::Normal, escalated: false }
        },
        _ => {
            let body = String::from_str(
                "Huiuiui! So viele Schulden kann die DDR doch nicht haben!",
            );
            proof {
                lemma_alarm_has_no_digits();
                assert(body@ == alarm_text());
                assert forall|i: int| 0 <= i < body@.len() implies !is_digit(
                    #[trigger] body@[i],
                ) by {
                    assert(body@[i] == alarm_text()[i]);
                }
            }
            Reply { body, severity: Severity::High, escalated: true }
        },
    }
}

/// The kangaroo's reply to a chat message, if any.
///
/// A message that names no amount gets no reply; an amount up to the ceiling
/// (zero included) gets the conversion, and an overflow the alarmed reply.
pub fn euro_reply(message: &str) -> (r: Option<Reply>)
    ensures
        match euro_result(message@) {
            Err(Error::NoCurrencyMarker) => r is None,
            result => r is Some && is_reply_to(r->0, result),
        },
{
    match get_euro(message) {
        Err(Error::NoCurrencyMarker) => None,
        result => Some(format_response(result)),
    }
}

} // verus!
