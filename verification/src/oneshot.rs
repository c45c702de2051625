//! One-shot conversion: a whole key sequence is typed at once and the text
//! it converts to is printed, or the candidates are listed for picking.

use vstd::prelude::*;
use crate::engine::{opt_view, Menu};
use crate::text::{decimal, decimal_chars, string_of};

verus! {

/// What one-shot conversion does once the pending commits are collected.
#[derive(Clone, Copy, Debug, PartialEq, Eq, Structural)]
pub enum ConvertStep {
    /// Nothing is being composed any more: print what was committed.
    Print,
    /// Still composing and picking was asked for: list the candidates and stop.
    ShowCandidates,
    /// Still composing: press space to take the first candidate, then look again.
    PressSpace,
}

/// The step after collecting commits.
pub open spec fn convert_step_spec(composing: bool, pick: bool) -> ConvertStep {
    if !composing {
        ConvertStep::Print
    } else if pick {
        ConvertStep::ShowCandidates
    } else {
        ConvertStep::PressSpace
    }
}

/// Decides the next step of one-shot conversion.
pub fn convert_step(composing: bool, pick: bool) -> (r: ConvertStep)
    ensures
        r == convert_step_spec(composing, pick),
{
    if !composing {
        ConvertStep::Print
    } else if pick {
        ConvertStep::ShowCandidates
    } else {
        ConvertStep::PressSpace
    }
}

/// The listing line of the `i`-th candidate: its number counted from 1, a
/// dot, a space, its text and its comment (if any).
pub open spec fn listing_entry(i: nat, text: Seq<char>, comment: Option<Seq<char>>) -> Seq<char> {
    decimal(i + 1) + ". "@ + text + match comment {
        Some(c) => c,
        None => Seq::<char>::empty(),
    }
}

/// The listing lines of the candidates of a menu.
pub fn candidate_listing(menu: &Menu) -> (r: Vec<String>)
    ensures
        r@.len() == menu.candidates@.len(),
        forall|i: int|
            0 <= i < r@.len() ==> #[trigger] r@[i]@ == listing_entry(
                i as nat,
                menu.candidates@[i].text@,
                opt_view(menu.candidates@[i].comment),
            ),
{
    let mut r: Vec<String> = Vec::new();
    let mut i: usize = 0;
    while i < menu.candidates.len()
        invariant
            i <= menu.candidates@.len(),
            r@.len() == i,
            forall|k: int|
                0 <= k < i ==> #[trigger] r@[k]@ == listing_entry(
                    k as nat,
                    menu.candidates@[k].text@,
                    opt_view(menu.candidates@[k].comment),
                ),
        decreases menu.candidates.len() - i,
    {
        let c = &menu.candidates[i];
        let number = decimal_chars((i + 1) as u64);
        let line = string_of(&number).concat(". ").concat(c.text.as_str());
        let line = match &c.comment {
            Some(comment) => line.concat(comment.as_str()),
            None => line,
        };
        r.push(line);
        i = i + 1;
    }
    r
}

} // verus!
