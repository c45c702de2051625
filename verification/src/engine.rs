//! The input engine's session state as plain values: what a context,
//! a commit and a status hold, how deployment is judged from the engine's
//! notifications, and how schemas are listed.

use vstd::prelude::*;
use crate::text::{chars_eq_str, chars_of};

verus! {

/// The characters of an optional string.
pub open spec fn opt_view(o: Option<String>) -> Option<Seq<char>> {
    match o {
        Some(s) => Some(s@),
        None => None,
    }
}

/// A copy of an optional string.
pub fn clone_opt(o: &Option<String>) -> (r: Option<String>)
    ensures
        opt_view(r) == opt_view(*o),
{
    match o {
        Some(s) => Some(s.clone()),
        None => None,
    }
}

// --- Deployment ---

/// Result of a deployment operation.
#[derive(Copy, Clone, PartialEq, Eq, Debug, Structural)]
pub enum DeployResult {
    /// Deployment completed successfully.
    Success,
    /// Deployment failed.
    Failure,
}

/// What a notification tells of the deployment under way: a `deploy`
/// notification whose value is `success` or `failure` records that result;
/// any other notification leaves the record as it was.
pub open spec fn notified_deploy_result(
    recorded: Option<DeployResult>,
    message_type: Seq<char>,
    message_value: Seq<char>,
) -> Option<DeployResult> {
    if message_type == "deploy"@ && message_value == "success"@ {
        Some(DeployResult::Success)
    } else if message_type == "deploy"@ && message_value == "failure"@ {
        Some(DeployResult::Failure)
    } else {
        recorded
    }
}

/// Updates the recorded deployment result from one engine notification.
pub fn record_notification(recorded: &mut Option<DeployResult>, message_type: &str, message_value: &str)
    ensures
        *final(recorded) == notified_deploy_result(*old(recorded), message_type@, message_value@),
{
    let t = chars_of(message_type);
    if chars_eq_str(&t, "deploy") {
        let v = chars_of(message_value);
        if chars_eq_str(&v, "success") {
            *recorded = Some(DeployResult::Success);
        } else if chars_eq_str(&v, "failure") {
            *recorded = Some(DeployResult::Failure);
        }
    }
}

/// The outcome of deploying on workspace changes: a failure unless the
/// maintenance thread started and the last deployment notification recorded
/// while it ran was a success.
pub open spec fn deploy_outcome_spec(started: bool, recorded: Option<DeployResult>) -> DeployResult {
    if started && recorded == Some(DeployResult::Success) {
        DeployResult::Success
    } else {
        DeployResult::Failure
    }
}

/// Judges a deployment from whether maintenance started and what the
/// notifications recorded.
pub fn deploy_outcome(started: bool, recorded: Option<DeployResult>) -> (r: DeployResult)
    ensures
        r == deploy_outcome_spec(started, recorded),
{
    if !started {
        return DeployResult::Failure;
    }
    match recorded {
        Some(DeployResult::Success) => DeployResult::Success,
        _ => DeployResult::Failure,
    }
}

/// A deployment is judged a success exactly when maintenance started and the
/// last `deploy` notification that arrived while it ran said `success`,
/// whatever other notifications came between.
pub proof fn law_deploy_success_needs_success_notification(
    started: bool,
    recorded: Option<DeployResult>,
    message_type: Seq<char>,
    message_value: Seq<char>,
)
    ensures
        message_type == "deploy"@ && message_value == "success"@ ==> deploy_outcome_spec(
            started,
            notified_deploy_result(recorded, message_type, message_value),
        ) == (if started { DeployResult::Success } else { DeployResult::Failure }),
        message_type == "deploy"@ && message_value == "failure"@ ==> deploy_outcome_spec(
            started,
            notified_deploy_result(recorded, message_type, message_value),
        ) == DeployResult::Failure,
        message_type != "deploy"@ ==> notified_deploy_result(recorded, message_type, message_value)
            == recorded,
        deploy_outcome_spec(started, None) == DeployResult::Failure,
{
    reveal_strlit("success");
    reveal_strlit("failure");
    assert("success"@[0] != "failure"@[0]);
}

/// What the notifications `msgs` (type and value of each), delivered in
/// order, leave recorded when `recorded` was the record before them.
pub open spec fn fold_notifications(
    recorded: Option<DeployResult>,
    msgs: Seq<(Seq<char>, Seq<char>)>,
) -> Option<DeployResult>
    decreases msgs.len(),
{
    if msgs.len() == 0 {
        recorded
    } else {
        notified_deploy_result(
            fold_notifications(recorded, msgs.drop_last()),
            msgs.last().0,
            msgs.last().1,
        )
    }
}

/// The result reported by the last of `msgs` that is a `deploy`
/// notification with the value `success` or `failure`, if there is one.
pub open spec fn last_deploy_result(msgs: Seq<(Seq<char>, Seq<char>)>) -> Option<DeployResult>
    decreases msgs.len(),
{
    if msgs.len() == 0 {
        None
    } else if msgs.last().0 == "deploy"@ && msgs.last().1 == "success"@ {
        Some(DeployResult::Success)
    } else if msgs.last().0 == "deploy"@ && msgs.last().1 == "failure"@ {
        Some(DeployResult::Failure)
    } else {
        last_deploy_result(msgs.drop_last())
    }
}

proof fn lemma_fold_notifications(recorded: Option<DeployResult>, msgs: Seq<(Seq<char>, Seq<char>)>)
    ensures
        fold_notifications(recorded, msgs) == match last_deploy_result(msgs) {
            Some(d) => Some(d),
            None => recorded,
        },
    decreases msgs.len(),
{
    if msgs.len() > 0 {
        lemma_fold_notifications(recorded, msgs.drop_last());
    }
}

/// Over a whole deployment: with the record cleared before maintenance
/// starts, the deployment is judged a success exactly when maintenance
/// started and, of the notifications delivered while it ran, the last
/// `deploy` notification that reports a result reports `success`. What was
/// recorded before counts only when no such notification arrives, so a
/// result left over from an earlier deployment never decides a later one.
pub proof fn law_deploy_judged_by_last_result(
    started: bool,
    prior: Option<DeployResult>,
    msgs: Seq<(Seq<char>, Seq<char>)>,
)
    ensures
        (deploy_outcome_spec(started, fold_notifications(None, msgs)) == DeployResult::Success)
            <==> (started && last_deploy_result(msgs) == Some(DeployResult::Success)),
        last_deploy_result(msgs) is Some ==> fold_notifications(prior, msgs) == last_deploy_result(
            msgs,
        ),
        last_deploy_result(msgs) is None ==> fold_notifications(prior, msgs) == prior,
{
    lemma_fold_notifications(None, msgs);
    lemma_fold_notifications(prior, msgs);
}

// --- Schemas ---

/// Information about a RIME input schema.
#[derive(Debug)]
pub struct SchemaInfo {
    /// Schema identifier (e.g., "luna_pinyin").
    pub schema_id: String,
    /// Display name (e.g., "Luna Pinyin").
    pub name: String,
}

impl SchemaInfo {
    /// The line that lists this schema: its identifier, a tab, its name.
    pub fn listing_line(&self) -> (r: String)
        ensures
            r@ == self.schema_id@ + "\t"@ + self.name@,
    {
        let r = self.schema_id.clone();
        let r = r.concat("\t");
        r.concat(self.name.as_str())
    }
}

/// A key-path entry from a config iterator.
#[derive(Debug)]
pub struct ConfigEntry {
    /// Entry key.
    pub key: String,
    /// Full path to the entry.
    pub path: String,
}

// --- Candidates, composition, menu ---

/// What a candidate shows, as characters.
pub struct CandidateView {
    /// Candidate text.
    pub text: Seq<char>,
    /// Optional comment.
    pub comment: Option<Seq<char>>,
}

/// A candidate in the candidate list.
#[derive(Debug)]
pub struct Candidate {
    /// Candidate text.
    pub text: String,
    /// Optional comment (e.g., completion hint).
    pub comment: Option<String>,
}

impl View for Candidate {
    type V = CandidateView;

    open spec fn view(&self) -> CandidateView {
        CandidateView { text: self.text@, comment: opt_view(self.comment) }
    }
}

impl Candidate {
    /// A copy of this candidate.
    pub fn duplicate(&self) -> (r: Candidate)
        ensures
            r@ == self@,
    {
        Candidate { text: self.text.clone(), comment: clone_opt(&self.comment) }
    }
}

/// The views of a list of candidates.
pub open spec fn candidates_view(cs: Seq<Candidate>) -> Seq<CandidateView> {
    cs.map_values(|c: Candidate| c@)
}

/// A copy of a list of candidates.
pub fn clone_candidates(cs: &Vec<Candidate>) -> (r: Vec<Candidate>)
    ensures
        candidates_view(r@) == candidates_view(cs@),
{
    let mut r: Vec<Candidate> = Vec::new();
    let mut i: usize = 0;
    while i < cs.len()
        invariant
            i <= cs@.len(),
            r@.len() == i,
            forall|k: int| 0 <= k < i ==> #[trigger] r@[k]@ == cs@[k]@,
        decreases cs.len() - i,
    {
        r.push(cs[i].duplicate());
        i = i + 1;
    }
    assert(candidates_view(r@) =~= candidates_view(cs@));
    r
}

/// Composition state of the input.
#[derive(Debug)]
pub struct Composition {
    /// Length of the preedit string.
    pub length: usize,
    /// Caret position within the raw input.
    pub cursor_pos: usize,
    /// Start of the selected segment.
    pub sel_start: usize,
    /// End of the selected segment.
    pub sel_end: usize,
    /// Preedit display text.
    pub preedit: Option<String>,
}

/// Candidate menu for the current page.
#[derive(Debug)]
pub struct Menu {
    /// Number of candidates per page.
    pub page_size: usize,
    /// Current page number (0-indexed).
    pub page_no: usize,
    /// Whether this is the last page of candidates.
    pub is_last_page: bool,
    /// Index of the highlighted candidate.
    pub highlighted_candidate_index: usize,
    /// Candidate list for the current page.
    pub candidates: Vec<Candidate>,
    /// Selection key labels (e.g., `"1234567890"`).
    pub select_keys: Option<String>,
}

/// The composition fields of an engine context as the engine reports them.
pub struct RawComposition {
    /// Length of the preedit string.
    pub length: i32,
    /// Caret position.
    pub cursor_pos: i32,
    /// Start of the selected segment.
    pub sel_start: i32,
    /// End of the selected segment.
    pub sel_end: i32,
    /// Preedit text, when there is one.
    pub preedit: Option<String>,
}

/// The menu fields of an engine context as the engine reports them.
pub struct RawMenu {
    /// Number of candidates per page.
    pub page_size: i32,
    /// Current page number.
    pub page_no: i32,
    /// Non-zero on the last page.
    pub is_last_page: i32,
    /// Index of the highlighted candidate.
    pub highlighted_candidate_index: i32,
    /// The candidates of the page.
    pub candidates: Vec<Candidate>,
    /// Selection keys, when there are any.
    pub select_keys: Option<String>,
}

/// Input context for a session, containing composition and candidate menu.
pub struct Context {
    composition: RawComposition,
    menu: RawMenu,
    commit_text_preview: Option<String>,
    select_labels: Option<Vec<Option<String>>>,
}

/// The labels that are present, in order.
pub open spec fn present_labels(labels: Seq<Option<String>>) -> Seq<Seq<char>>
    decreases labels.len(),
{
    if labels.len() == 0 {
        seq![]
    } else {
        let rest = present_labels(labels.drop_last());
        match labels.last() {
            Some(l) => rest.push(l@),
            None => rest,
        }
    }
}

impl Context {
    /// A context holding what the engine reported: the composition, the menu,
    /// the commit preview and the label of each candidate, where it has one.
    pub fn new(
        composition: RawComposition,
        menu: RawMenu,
        commit_text_preview: Option<String>,
        select_labels: Option<Vec<Option<String>>>,
    ) -> (r: Context)
        ensures
            r.raw_composition() == composition,
            r.raw_menu() == menu,
            r.raw_commit_text_preview() == commit_text_preview,
            r.raw_select_labels() == select_labels,
    {
        Context { composition, menu, commit_text_preview, select_labels }
    }

    /// The composition as reported.
    pub closed spec fn raw_composition(&self) -> RawComposition {
        self.composition
    }

    /// The menu as reported.
    pub closed spec fn raw_menu(&self) -> RawMenu {
        self.menu
    }

    /// The commit preview as reported.
    pub closed spec fn raw_commit_text_preview(&self) -> Option<String> {
        self.commit_text_preview
    }

    /// The candidate labels as reported.
    pub closed spec fn raw_select_labels(&self) -> Option<Vec<Option<String>>> {
        self.select_labels
    }

    /// Get the composition (preedit text and cursor info).
    pub fn composition(&self) -> (r: Composition)
        ensures
            r.length == self.raw_composition().length as usize,
            r.cursor_pos == self.raw_composition().cursor_pos as usize,
            r.sel_start == self.raw_composition().sel_start as usize,
            r.sel_end == self.raw_composition().sel_end as usize,
            opt_view(r.preedit) == opt_view(self.raw_composition().preedit),
    {
        let c = &self.composition;
        Composition {
            length: c.length as usize,
            cursor_pos: c.cursor_pos as usize,
            sel_start: c.sel_start as usize,
            sel_end: c.sel_end as usize,
            preedit: clone_opt(&c.preedit),
        }
    }

    /// Get the candidate menu.
    pub fn menu(&self) -> (r: Menu)
        ensures
            r.page_size == self.raw_menu().page_size as usize,
            r.page_no == self.raw_menu().page_no as usize,
            r.is_last_page == (self.raw_menu().is_last_page != 0),
            r.highlighted_candidate_index == self.raw_menu().highlighted_candidate_index as usize,
            candidates_view(r.candidates@) == candidates_view(self.raw_menu().candidates@),
            opt_view(r.select_keys) == opt_view(self.raw_menu().select_keys),
    {
        let m = &self.menu;
        Menu {
            page_size: m.page_size as usize,
            page_no: m.page_no as usize,
            is_last_page: m.is_last_page != 0,
            highlighted_candidate_index: m.highlighted_candidate_index as usize,
            candidates: clone_candidates(&m.candidates),
            select_keys: clone_opt(&m.select_keys),
        }
    }

    /// Get the commit text preview (text that will be committed).
    pub fn commit_text_preview(&self) -> (r: Option<String>)
        ensures
            opt_view(r) == opt_view(self.raw_commit_text_preview()),
    {
        clone_opt(&self.commit_text_preview)
    }

    /// Get the select labels for candidates (e.g., `"1."`, `"2."`), skipping
    /// candidates that have none.
    pub fn select_labels(&self) -> (r: Vec<String>)
        ensures
            r@.map_values(|s: String| s@) == (match self.raw_select_labels() {
                Some(ls) => present_labels(ls@),
                None => Seq::<Seq<char>>::empty(),
            }),
    {
        let mut r: Vec<String> = Vec::new();
        match &self.select_labels {
            None => {
                assert(r@.map_values(|s: String| s@) =~= Seq::<Seq<char>>::empty());
                r
            },
            Some(ls) => {
                let mut i: usize = 0;
                assert(ls@.take(0) =~= Seq::<Option<String>>::empty());
                while i < ls.len()
                    invariant
                        i <= ls@.len(),
                        r@.map_values(|s: String| s@) == present_labels(ls@.take(i as int)),
                    decreases ls.len() - i,
                {
                    let ghost before = r@;
                    assert(ls@.take(i + 1).drop_last() =~= ls@.take(i as int));
                    match &ls[i] {
                        Some(l) => {
                            r.push(l.clone());
                            assert(r@.map_values(|s: String| s@) =~= before.map_values(
                                |s: String| s@,
                            ).push(l@));
                        },
                        None => {},
                    }
                    i = i + 1;
                }
                assert(ls@.take(ls.len() as int) =~= ls@);
                r
            },
        }
    }
}

// --- Commit ---

/// Committed text from the input method.
pub struct Commit {
    text: String,
}

impl Commit {
    /// A commit of the given text.
    pub fn new(text: String) -> (r: Commit)
        ensures
            r.committed() == text@,
    {
        Commit { text }
    }

    /// The committed characters.
    pub closed spec fn committed(&self) -> Seq<char> {
        self.text@
    }

    /// Get the committed text.
    pub fn text(&self) -> (r: String)
        ensures
            r@ == self.committed(),
    {
        self.text.clone()
    }
}

// --- Status ---

/// The status fields as the engine reports them; the flags are non-zero when set.
pub struct RawStatus {
    /// Current schema identifier.
    pub schema_id: String,
    /// Current schema display name.
    pub schema_name: String,
    /// Input method disabled.
    pub is_disabled: i32,
    /// Composing.
    pub is_composing: i32,
    /// ASCII mode.
    pub is_ascii_mode: i32,
    /// Full-shape mode.
    pub is_full_shape: i32,
    /// Simplified output.
    pub is_simplified: i32,
    /// Traditional output.
    pub is_traditional: i32,
    /// ASCII punctuation.
    pub is_ascii_punct: i32,
}

/// Session status information.
pub struct Status {
    inner: RawStatus,
}

impl Status {
    /// A status holding what the engine reported.
    pub fn new(inner: RawStatus) -> (r: Status)
        ensures
            r.raw() == inner,
    {
        Status { inner }
    }

    /// The status as reported.
    pub closed spec fn raw(&self) -> RawStatus {
        self.inner
    }

    /// Get the current schema ID.
    pub fn schema_id(&self) -> (r: String)
        ensures
            r@ == self.raw().schema_id@,
    {
        self.inner.schema_id.clone()
    }

    /// Get the current schema display name.
    pub fn schema_name(&self) -> (r: String)
        ensures
            r@ == self.raw().schema_name@,
    {
        self.inner.schema_name.clone()
    }

    /// Whether the input method is disabled.
    pub fn is_disabled(&self) -> (r: bool)
        ensures
            r == (self.raw().is_disabled != 0),
    {
        self.inner.is_disabled != 0
    }

    /// Whether the user is currently composing (has preedit text).
    pub fn is_composing(&self) -> (r: bool)
        ensures
            r == (self.raw().is_composing != 0),
    {
        self.inner.is_composing != 0
    }

    /// Whether ASCII mode is active (direct Latin input).
    pub fn is_ascii_mode(&self) -> (r: bool)
        ensures
            r == (self.raw().is_ascii_mode != 0),
    {
        self.inner.is_ascii_mode != 0
    }

    /// Whether full-shape mode is active.
    pub fn is_full_shape(&self) -> (r: bool)
        ensures
            r == (self.raw().is_full_shape != 0),
    {
        self.inner.is_full_shape != 0
    }

    /// Whether simplified Chinese output is active.
    pub fn is_simplified(&self) -> (r: bool)
        ensures
            r == (self.raw().is_simplified != 0),
    {
        self.inner.is_simplified != 0
    }

    /// Whether traditional Chinese output is active.
    pub fn is_traditional(&self) -> (r: bool)
        ensures
            r == (self.raw().is_traditional != 0),
    {
        self.inner.is_traditional != 0
    }

    /// Whether ASCII punctuation mode is active.
    pub fn is_ascii_punct(&self) -> (r: bool)
        ensures
            r == (self.raw().is_ascii_punct != 0),
    {
        self.inner.is_ascii_punct != 0
    }
}

} // verus!
