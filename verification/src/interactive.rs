//! What the user's answers mean.

use vstd::prelude::*;
use crate::execute::Decision;
use crate::text::text_eq;

verus! {

/// `text` without the white space that it begins and ends with, as the
/// standard library's `str::trim` sees white space.
pub uninterp spec fn trimmed(text: Seq<char>) -> Seq<char>;

/// `text` in lower case, as the standard library's `str::to_lowercase`
/// maps it.
pub uninterp spec fn lowercased(text: Seq<char>) -> Seq<char>;

/// Calls `str::trim`. The contract only gives the result its name: it
/// claims that the result depends on nothing but the text.
#[verifier::external_body]
fn trim(text: &str) -> (out: &str)
    ensures
        out@ == trimmed(text@),
{
    text.trim()
}

/// Calls `str::to_lowercase`. The contract only gives the result its name:
/// it claims that the result depends on nothing but the text.
#[verifier::external_body]
fn to_lowercase(text: &str) -> (out: String)
    ensures
        out@ == lowercased(text@),
{
    text.to_lowercase()
}

/// What a trimmed, lower-case answer to the question about one item
/// means: `y` and `yes` proceed, `a` and `all` accept all that follows,
/// `q` and `quit` abort, anything else skips the item.
pub open spec fn answer_decision(answer: Seq<char>) -> Decision {
    if answer == "y"@ || answer == "yes"@ {
        Decision::Proceed
    } else if answer == "a"@ || answer == "all"@ {
        Decision::AcceptAll
    } else if answer == "q"@ || answer == "quit"@ {
        Decision::Abort
    } else {
        Decision::Skip
    }
}

/// Whether a trimmed, lower-case answer says yes: `y` and `yes` do.
pub open spec fn answer_confirms(answer: Seq<char>) -> bool {
    answer == "y"@ || answer == "yes"@
}

impl Decision {
    /// The decision that a trimmed, lower-case answer stands for.
    pub fn from_answer(answer: &str) -> (decision: Decision)
        ensures
            decision == answer_decision(answer@),
    {
        if text_eq(answer, "y") || text_eq(answer, "yes") {
            Decision::Proceed
        } else if text_eq(answer, "a") || text_eq(answer, "all") {
            Decision::AcceptAll
        } else if text_eq(answer, "q") || text_eq(answer, "quit") {
            Decision::Abort
        } else {
            Decision::Skip
        }
    }
}

/// Whether a trimmed, lower-case answer says yes.
pub fn is_yes(answer: &str) -> (yes: bool)
    ensures
        yes == answer_confirms(answer@),
{
    text_eq(answer, "y") || text_eq(answer, "yes")
}

/// Decides on one item from the line that the user typed.
pub fn confirm_item_deletion(line: &str) -> (decision: Decision)
    ensures
        decision == answer_decision(lowercased(trimmed(line@))),
{
    let answer = to_lowercase(trim(line));
    Decision::from_answer(answer.as_str())
}

/// Decides on the whole run from the line that the user typed: only a yes
/// lets it proceed.
pub fn confirm_deletion(line: &str) -> (proceed: bool)
    ensures
        proceed == answer_confirms(lowercased(trimmed(line@))),
{
    let answer = to_lowercase(trim(line));
    is_yes(answer.as_str())
}

} // verus!
