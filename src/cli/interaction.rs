//! Reading the operator's answer to a confirmation prompt.
use vstd::prelude::*;

verus! {

/// An answer to a confirmation prompt.
#[derive(Clone, Copy, Debug, PartialEq, Eq, Structural)]
pub enum PromptChoice {
    Yes,
    No,
    Explain,
}

/// The lowercase form of `s`, as Rust's `str::to_lowercase` computes it.
pub uninterp spec fn lower_of(s: Seq<char>) -> Seq<char>;

/// Relies on `str::to_lowercase`: the lowercase form depends on the text alone.
#[verifier::external_body]
fn lowercase(s: &str) -> (r: String)
    ensures
        r@ == lower_of(s@),
{
    s.to_lowercase()
}

/// The choice an already lowercased answer `folded` stands for: `y`/`yes`,
/// `n`/`no`, `e`/`explain`, the default for an empty answer, and `No` for
/// anything else.
pub open spec fn choice_for(folded: Seq<char>, default: PromptChoice) -> PromptChoice {
    if folded == "y"@ || folded == "yes"@ {
        PromptChoice::Yes
    } else if folded == "n"@ || folded == "no"@ {
        PromptChoice::No
    } else if folded == "e"@ || folded == "explain"@ {
        PromptChoice::Explain
    } else if folded.len() == 0 {
        default
    } else {
        PromptChoice::No
    }
}

fn text_is(s: &String, lit: &str) -> (r: bool)
    ensures
        r == (s@ == lit@),
{
    *s == lit.to_string()
}

/// The choice an already lowercased answer stands for.
pub fn choice_for_folded(folded: &String, default: PromptChoice) -> (r: PromptChoice)
    ensures
        r == choice_for(folded@, default),
{
    proof {
        reveal_strlit("y");
        reveal_strlit("yes");
        reveal_strlit("n");
        reveal_strlit("no");
        reveal_strlit("e");
        reveal_strlit("explain");
    }
    if text_is(folded, "y") || text_is(folded, "yes") {
        PromptChoice::Yes
    } else if text_is(folded, "n") || text_is(folded, "no") {
        PromptChoice::No
    } else if text_is(folded, "e") || text_is(folded, "explain") {
        PromptChoice::Explain
    } else if folded.as_str().is_empty() {
        default
    } else {
        PromptChoice::No
    }
}

/// The choice an answer stands for, read without regard to case.
pub fn choice_for_answer(input: &str, default: PromptChoice) -> (r: PromptChoice)
    ensures
        r == choice_for(lower_of(input@), default),
{
    let folded = lowercase(input);
    choice_for_folded(&folded, default)
}

} // verus!
