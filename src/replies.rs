//! Choosing a canned reply to a chat message.
use vstd::prelude::*;

use crate::config::Response;

verus! {

/// The text `s` in lower case, as `str::to_lowercase` gives it.
pub uninterp spec fn lower_of(s: Seq<char>) -> Seq<char>;

/// Relies on `str::to_lowercase`: the result depends on the characters alone.
#[verifier::external_body]
fn lowercase(s: &str) -> (r: String)
    ensures
        r@ == lower_of(s@),
{
    s.to_lowercase()
}

/// `needle` stands somewhere in `hay`, as a run of consecutive characters.
pub open spec fn is_substring(needle: Seq<char>, hay: Seq<char>) -> bool {
    exists|i: int|
        0 <= i && i + needle.len() <= hay.len() && #[trigger] hay.subrange(i, i + needle.len())
            == needle
}

/// Relies on `str::contains` with a `&str` pattern: true exactly when the
/// pattern is a sub-slice of the text.
#[verifier::external_body]
fn contains(hay: &str, needle: &str) -> (r: bool)
    ensures
        r == is_substring(needle@, hay@),
{
    hay.contains(needle)
}

/// Relies on rand's `thread_rng` and `Rng::gen_range`: a value of the range
/// `0..len`, which must not be empty (`gen_range` panics on an empty range).
#[verifier::external_body]
fn random_index(len: usize) -> (r: usize)
    requires
        len > 0,
    ensures
        r < len,
{
    rand::Rng::gen_range(&mut rand::thread_rng(), 0..len)
}

/// One of `response`'s triggers stands in `lowered`, both taken in lower case.
pub open spec fn is_triggered(response: Response, lowered: Seq<char>) -> bool {
    exists|k: int|
        0 <= k < response.trigger@.len() && is_substring(
            lower_of(#[trigger] response.trigger@[k]@),
            lowered,
        )
}

/// `i` is the first of `responses` that `message` triggers.
pub open spec fn is_first_triggered(responses: Seq<Response>, message: Seq<char>, i: int) -> bool {
    &&& 0 <= i < responses.len()
    &&& is_triggered(responses[i], lower_of(message))
    &&& forall|j: int| 0 <= j < i ==> !is_triggered(#[trigger] responses[j], lower_of(message))
}

/// The first response that `message` triggers, if any, has something to reply
/// with.
pub open spec fn first_pool_filled(responses: Seq<Response>, message: Seq<char>) -> bool {
    forall|i: int|
        #[trigger] is_first_triggered(responses, message, i) ==> responses[i].response_pool@.len()
            > 0
}

fn is_triggered_by(response: &Response, lowered: &String) -> (r: bool)
    ensures
        r == is_triggered(*response, lowered@),
{
    let mut k: usize = 0;
    while k < response.trigger.len()
        invariant
            k <= response.trigger@.len(),
            forall|j: int|
                0 <= j < k ==> !is_substring(lower_of(#[trigger] response.trigger@[j]@), lowered@),
        decreases response.trigger@.len() - k,
    {
        let t = lowercase(response.trigger[k].as_str());
        if contains(lowered.as_str(), t.as_str()) {
            return true;
        }
        k = k + 1;
    }
    false
}

/// The first of `responses` that `message` triggers: one of its triggers
/// stands in the message, case aside.
pub fn find_response(message: &str, responses: &Vec<Response>) -> (r: Option<usize>)
    ensures
        match r {
            Some(i) => is_first_triggered(responses@, message@, i as int),
            None => forall|j: int|
                0 <= j < responses@.len() ==> !is_triggered(
                    #[trigger] responses@[j],
                    lower_of(message@),
                ),
        },
{
    let lowered = lowercase(message);
    let mut i: usize = 0;
    while i < responses.len()
        invariant
            i <= responses@.len(),
            lowered@ == lower_of(message@),
            forall|j: int| 0 <= j < i ==> !is_triggered(#[trigger] responses@[j], lowered@),
        decreases responses@.len() - i,
    {
        if is_triggered_by(&responses[i], &lowered) {
            return Some(i);
        }
        i = i + 1;
    }
    None
}

/// A reply to `message` from `responses`: a text drawn at random from the pool
/// of the first response that the message triggers, or none if it triggers
/// none.
pub fn choose_reply(message: &str, responses: &Vec<Response>) -> (r: Option<String>)
    requires
        first_pool_filled(responses@, message@),
    ensures
        r is None <==> forall|j: int|
            0 <= j < responses@.len() ==> !is_triggered(
                #[trigger] responses@[j],
                lower_of(message@),
            ),
        r matches Some(text) ==> exists|i: int, k: int|
            is_first_triggered(responses@, message@, i) && 0 <= k
                < responses@[i].response_pool@.len() && text == #[trigger] responses@[i].response_pool@[k],
{
    match find_response(message, responses) {
        None => None,
        Some(i) => {
            let pool = &responses[i].response_pool;
            assert(is_first_triggered(responses@, message@, i as int));
            let k = random_index(pool.len());
            let text = pool[k].clone();
            Some(text)
        },
    }
}

proof fn lemma_first_is_unique(responses: Seq<Response>, message: Seq<char>, i: int, j: int)
    requires
        is_first_triggered(responses, message, i),
        is_first_triggered(responses, message, j),
    ensures
        i == j,
{
    if i < j {
        assert(!is_triggered(responses[i], lower_of(message)));
    } else if j < i {
        assert(!is_triggered(responses[j], lower_of(message)));
    }
}

/// A reply as [`choose_reply`] draws it, or, where the first response that the
/// message triggers has nothing to reply with, the index of that response.
pub fn choose_reply_checked(message: &str, responses: &Vec<Response>) -> (r: Result<
    Option<String>,
    usize,
>)
    ensures
        match r {
            Err(i) => is_first_triggered(responses@, message@, i as int)
                && responses@[i as int].response_pool@.len() == 0,
            Ok(reply) => first_pool_filled(responses@, message@) && (reply is None <==> forall|
                j: int,
            |
                0 <= j < responses@.len() ==> !is_triggered(
                    #[trigger] responses@[j],
                    lower_of(message@),
                )) && (reply matches Some(text) ==> exists|i: int, k: int|
                is_first_triggered(responses@, message@, i) && 0 <= k
                    < responses@[i].response_pool@.len() && text
                    == #[trigger] responses@[i].response_pool@[k]),
        },
{
    match find_response(message, responses) {
        Some(i) => {
            if responses[i].response_pool.len() == 0 {
                return Err(i);
            }
            assert forall|j: int| #[trigger]
                is_first_triggered(responses@, message@, j) implies responses@[j].response_pool@.len()
                > 0 by {
                lemma_first_is_unique(responses@, message@, i as int, j);
            }
        },
        None => {},
    }
    Ok(choose_reply(message, responses))
}

} // verus!
