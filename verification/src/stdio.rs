//! The stdio protocol for editor integration: one key per input line in Vim
//! notation, one response per processed key.

use vstd::prelude::*;
use crate::engine::{candidates_view, clone_candidates, opt_view, Candidate, Context};
use crate::keys::{
    law_key_notation_ignores_surrounding_white_space, parse_vim_key, vim_key_code, KeyEvent, KEY_ESCAPE,
};
use crate::text::{string_of, trim_str};

verus! {

/// The key code that an input line asks for: none for a blank line or a key
/// that the notation does not know.
pub fn stdio_key_code(line: &str) -> (r: Option<i32>)
    ensures
        r == vim_key_code(line@),
{
    proof {
        law_key_notation_ignores_surrounding_white_space(line@);
    }
    let key = trim_str(line);
    if key.len() == 0 {
        return None;
    }
    let key = string_of(&key);
    parse_vim_key(key.as_str())
}

/// What the stdio loop does with a key.
#[derive(Clone, Copy, Debug, PartialEq, Eq, Structural)]
pub enum StdioAction {
    /// Stop reading input.
    Quit,
    /// Hand the key to the engine and answer with a response.
    Process(KeyEvent),
}

/// The action for a key: Escape while nothing is being composed ends the
/// loop; any other key, and Escape during composition (which cancels it), goes
/// to the engine without modifiers. Whether something is being composed
/// matters only for Escape.
pub open spec fn stdio_action_spec(key_code: i32, composing: bool) -> StdioAction {
    if key_code == KEY_ESCAPE as i32 && !composing {
        StdioAction::Quit
    } else {
        StdioAction::Process(KeyEvent { key_code, modifiers: 0 })
    }
}

/// Only Escape (0xff1b) while nothing is being composed stops the loop;
/// every other key, whether or not something is being composed, and Escape
/// during composition are processed as that key code without modifiers, so
/// each gets an answer.
pub proof fn law_stdio_quits_only_on_idle_escape(key_code: i32, composing: bool)
    ensures
        (stdio_action_spec(key_code, composing) == StdioAction::Quit) <==> (key_code == 0xff1b
            && !composing),
        !(key_code == 0xff1b && !composing) ==> stdio_action_spec(key_code, composing)
            == StdioAction::Process(KeyEvent { key_code, modifiers: 0 }),
{
}

/// Decides what to do with a key.
pub fn stdio_action(key_code: i32, composing: bool) -> (r: StdioAction)
    ensures
        r == stdio_action_spec(key_code, composing),
{
    if key_code == KEY_ESCAPE as i32 && !composing {
        StdioAction::Quit
    } else {
        StdioAction::Process(KeyEvent::new(key_code))
    }
}

/// Whether a context shows a composition under way (a preedit of non-zero length).
pub open spec fn composing_spec(context: Option<Context>) -> bool {
    match context {
        Some(c) => (c.raw_composition().length as usize) > 0,
        None => false,
    }
}

/// Whether something is being composed.
pub fn is_composing(context: &Option<Context>) -> (r: bool)
    ensures
        r == composing_spec(*context),
{
    match context {
        Some(c) => c.composition().length > 0,
        None => false,
    }
}

/// Texts run together, in order.
pub open spec fn concat_all(texts: Seq<Seq<char>>) -> Seq<char>
    decreases texts.len(),
{
    if texts.len() == 0 {
        seq![]
    } else {
        concat_all(texts.drop_last()) + texts.last()
    }
}

/// Running texts together keeps their order: the texts of a first batch
/// come before those of a second, a single text comes through as it is, and
/// the length is the sum of the lengths.
pub proof fn law_commits_run_together_in_order(a: Seq<Seq<char>>, b: Seq<Seq<char>>, t: Seq<char>)
    ensures
        concat_all(a + b) == concat_all(a) + concat_all(b),
        concat_all(seq![t]) == t,
    decreases b.len(),
{
    if b.len() == 0 {
        assert(a + b =~= a);
        assert(concat_all(a) + concat_all(b) =~= concat_all(a));
    } else {
        law_commits_run_together_in_order(a, b.drop_last(), t);
        assert((a + b).drop_last() =~= a + b.drop_last());
        assert((a + b).last() == b.last());
        assert(concat_all(a + b) =~= concat_all(a) + concat_all(b));
    }
    assert(seq![t].drop_last() =~= Seq::<Seq<char>>::empty());
    assert(seq![t].last() == t);
    assert(concat_all(Seq::<Seq<char>>::empty()) =~= Seq::<char>::empty());
    assert(concat_all(seq![t]) =~= Seq::<char>::empty() + t);
}

/// Runs committed texts together, in the order they were committed.
pub fn concat_commits(texts: &Vec<String>) -> (r: String)
    ensures
        r@ == concat_all(texts@.map_values(|s: String| s@)),
{
    let ghost tv = texts@.map_values(|s: String| s@);
    let mut r = String::new();
    let mut i: usize = 0;
    assert(tv.take(0) =~= Seq::<Seq<char>>::empty());
    while i < texts.len()
        invariant
            i <= texts@.len(),
            tv == texts@.map_values(|s: String| s@),
            r@ == concat_all(tv.take(i as int)),
        decreases texts.len() - i,
    {
        r.append(texts[i].as_str());
        assert(tv.take(i + 1).drop_last() =~= tv.take(i as int));
        i = i + 1;
    }
    assert(tv.take(texts.len() as int) =~= tv);
    r
}

/// One response line of the stdio protocol.
#[derive(Debug)]
pub struct StdioResponse {
    /// Text committed by the key, all commits run together.
    pub commit: String,
    /// The preedit after the key (empty when there is none).
    pub preedit: String,
    /// The candidates of the current page.
    pub candidates: Vec<Candidate>,
    /// Index of the highlighted candidate.
    pub highlighted: usize,
}

/// Builds the response to a key from what was committed and the context
/// after it: with a context, its preedit (or nothing), its candidates and the
/// highlighted index; without one, empty fields and index 0.
pub fn stdio_response(commits: &Vec<String>, context: &Option<Context>) -> (r: StdioResponse)
    ensures
        r.commit@ == concat_all(commits@.map_values(|s: String| s@)),
        match context {
            Some(c) => {
                &&& r.preedit@ == (match opt_view(c.raw_composition().preedit) {
                    Some(p) => p,
                    None => Seq::<char>::empty(),
                })
                &&& candidates_view(r.candidates@) == candidates_view(c.raw_menu().candidates@)
                &&& r.highlighted == c.raw_menu().highlighted_candidate_index as usize
            },
            None => r.preedit@.len() == 0 && r.candidates@.len() == 0 && r.highlighted == 0,
        },
{
    let commit = concat_commits(commits);
    match context {
        Some(c) => {
            let comp = c.composition();
            let menu = c.menu();
            let preedit = match comp.preedit {
                Some(p) => p,
                None => String::new(),
            };
            StdioResponse {
                commit,
                preedit,
                candidates: clone_candidates(&menu.candidates),
                highlighted: menu.highlighted_candidate_index,
            }
        },
        None => StdioResponse {
            commit,
            preedit: String::new(),
            candidates: Vec::new(),
            highlighted: 0,
        },
    }
}

} // verus!
