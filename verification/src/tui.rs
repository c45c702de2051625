//! The interactive TUI: the text committed so far with its cursor, what each
//! key does to it, and the two lines that are drawn.

use vstd::prelude::*;
use crate::engine::Menu;
use crate::keys::{KeyEvent, KEY_BACKSPACE, KEY_DOWN, KEY_PAGEDOWN, KEY_PAGEUP, KEY_RETURN, KEY_UP};
use crate::prompt::{
    dim_view, plain_view, skip_chars, skip_str, span_parts, take_chars, take_str, PlainStyle,
    PromptSpan, StyleView,
};
use crate::text::{
    all_digits, count_char, decimal, decimal_chars, digits_value, join, join_strings,
    lemma_count_char_concat, lemma_decimal_digits, string_of,
};

verus! {

/// A key as the TUI reads it.
#[derive(Clone, Copy, Debug, PartialEq, Eq, Structural)]
pub enum TuiKey {
    /// A character key.
    Char(char),
    /// Enter.
    Enter,
    /// Escape.
    Esc,
    /// Backspace.
    Backspace,
    /// Delete.
    Delete,
    /// Left arrow.
    Left,
    /// Right arrow.
    Right,
    /// Up arrow.
    Up,
    /// Down arrow.
    Down,
    /// Tab.
    Tab,
    /// Page Up.
    PageUp,
    /// Page Down.
    PageDown,
    /// Any other key.
    Other,
}

/// What the TUI loop does after a key.
#[derive(Clone, Copy, Debug, PartialEq, Eq, Structural)]
pub enum TuiAction {
    /// Leave the TUI.
    Quit,
    /// Hand a key to the engine.
    Send(KeyEvent),
    /// Go on; the key was handled by editing the committed text, or ignored.
    Continue,
}

/// `s` without the character at `i`.
pub open spec fn remove_at(s: Seq<char>, i: int) -> Seq<char> {
    s.take(i) + s.skip(i + 1)
}

/// `s` with `t` inserted at `i`.
pub open spec fn insert_at(s: Seq<char>, i: int, t: Seq<char>) -> Seq<char> {
    s.take(i) + t + s.skip(i)
}

/// The key sent to the engine for a key code.
pub open spec fn engine_key(code: u32) -> TuiAction {
    TuiAction::Send(KeyEvent { key_code: code as i32, modifiers: 0 })
}

/// What a key does to the committed text `out` with cursor `c`, given
/// whether a preedit is shown: the new text, the new cursor, and the action.
///
/// Ctrl-C and Escape leave; Enter leaves when nothing is being composed and
/// is sent otherwise; while composing, Backspace goes to the engine; without a
/// preedit, Backspace deletes before the cursor, Delete at it, and Left and
/// Right move it within the text; characters and the arrow and page keys go to
/// the engine (Tab as Down).
pub open spec fn tui_step(out: Seq<char>, c: nat, key: TuiKey, ctrl: bool, preedit_empty: bool) -> (
    Seq<char>,
    nat,
    TuiAction,
) {
    if ctrl && key == TuiKey::Char('c') {
        (out, c, TuiAction::Quit)
    } else {
        match key {
            TuiKey::Esc => (out, c, TuiAction::Quit),
            TuiKey::Enter => if preedit_empty {
                (out, c, TuiAction::Quit)
            } else {
                (out, c, engine_key(KEY_RETURN))
            },
            TuiKey::Backspace => if !preedit_empty {
                (out, c, engine_key(KEY_BACKSPACE))
            } else if c > 0 {
                (remove_at(out, c - 1), (c - 1) as nat, TuiAction::Continue)
            } else {
                (out, c, TuiAction::Continue)
            },
            TuiKey::Delete => if preedit_empty && c < out.len() {
                (remove_at(out, c as int), c, TuiAction::Continue)
            } else {
                (out, c, TuiAction::Continue)
            },
            TuiKey::Left => if preedit_empty && c > 0 {
                (out, (c - 1) as nat, TuiAction::Continue)
            } else {
                (out, c, TuiAction::Continue)
            },
            TuiKey::Right => if preedit_empty && c < out.len() {
                (out, c + 1, TuiAction::Continue)
            } else {
                (out, c, TuiAction::Continue)
            },
            TuiKey::Char(ch) => (out, c, TuiAction::Send(KeyEvent { key_code: (ch as u32) as i32, modifiers: 0 })),
            TuiKey::Up => (out, c, engine_key(KEY_UP)),
            TuiKey::Down => (out, c, engine_key(KEY_DOWN)),
            TuiKey::Tab => (out, c, engine_key(KEY_DOWN)),
            TuiKey::PageUp => (out, c, engine_key(KEY_PAGEUP)),
            TuiKey::PageDown => (out, c, engine_key(KEY_PAGEDOWN)),
            TuiKey::Other => (out, c, TuiAction::Continue),
        }
    }
}

/// The text committed in the TUI so far and the cursor in it, counted in
/// characters; the cursor never passes the end of the text.
pub struct TuiBuffer {
    output: String,
    cursor: usize,
}

impl TuiBuffer {
    #[verifier::type_invariant]
    spec fn cursor_within(self) -> bool {
        self.cursor <= self.output@.len()
    }

    /// The committed text.
    pub closed spec fn text(&self) -> Seq<char> {
        self.output@
    }

    /// The cursor position.
    pub closed spec fn cursor_at(&self) -> nat {
        self.cursor as nat
    }

    /// An empty buffer.
    pub fn new() -> (r: TuiBuffer)
        ensures
            r.text().len() == 0,
            r.cursor_at() == 0,
    {
        TuiBuffer { output: String::new(), cursor: 0 }
    }

    /// The committed text.
    pub fn output(&self) -> (r: &str)
        ensures
            r@ == self.text(),
    {
        self.output.as_str()
    }

    /// The cursor position.
    pub fn cursor(&self) -> (r: usize)
        ensures
            r as nat == self.cursor_at(),
            r <= self.text().len(),
    {
        proof {
            use_type_invariant(self);
        }
        self.cursor
    }

    /// The committed text before the cursor.
    pub fn left_of_cursor(&self) -> (r: String)
        ensures
            r@ == self.text().take(self.cursor_at() as int),
    {
        proof {
            use_type_invariant(self);
        }
        String::from_str(self.output.as_str().substring_char(0, self.cursor))
    }

    /// The committed text after the cursor.
    pub fn right_of_cursor(&self) -> (r: String)
        ensures
            r@ == self.text().skip(self.cursor_at() as int),
    {
        proof {
            use_type_invariant(self);
        }
        let n = self.output.unicode_len();
        assert(self.text().subrange(self.cursor as int, n as int) =~= self.text().skip(
            self.cursor as int,
        ));
        String::from_str(self.output.as_str().substring_char(self.cursor, n))
    }

    /// Inserts committed text at the cursor and moves the cursor past it.
    pub fn insert_commit(&mut self, committed: &str)
        ensures
            final(self).text() == insert_at(
                old(self).text(),
                old(self).cursor_at() as int,
                committed@,
            ),
            final(self).cursor_at() == old(self).cursor_at() + committed@.len(),
    {
        proof {
            use_type_invariant(&*self);
        }
        let k = committed.unicode_len();
        if k == 0 {
            assert(insert_at(self.output@, self.cursor as int, committed@) =~= self.output@);
            return;
        }
        let c = self.cursor;
        let n = self.output.unicode_len();
        let left = String::from_str(self.output.as_str().substring_char(0, c));
        let right = self.output.as_str().substring_char(c, n);
        let joined = left.concat(committed).concat(right);
        let total: usize = joined.unicode_len();
        assert(self.output@.subrange(c as int, n as int) =~= self.output@.skip(c as int));
        assert(c + k <= total);
        *self = TuiBuffer { output: joined, cursor: c + k };
    }

    fn without_char_at(s: &String, i: usize) -> (r: String)
        requires
            i < s@.len(),
        ensures
            r@ == remove_at(s@, i as int),
    {
        let n = s.unicode_len();
        let left = String::from_str(s.as_str().substring_char(0, i));
        assert(s@.subrange(i + 1, n as int) =~= s@.skip(i + 1));
        left.concat(s.as_str().substring_char(i + 1, n))
    }

    /// Applies a key (see `tui_step`).
    pub fn handle_key(&mut self, key: TuiKey, ctrl: bool, preedit_empty: bool) -> (r: TuiAction)
        ensures
            (final(self).text(), final(self).cursor_at(), r) == tui_step(
                old(self).text(),
                old(self).cursor_at(),
                key,
                ctrl,
                preedit_empty,
            ),
    {
        proof {
            use_type_invariant(&*self);
        }
        if ctrl {
            if let TuiKey::Char(ch) = key {
                if ch == 'c' {
                    return TuiAction::Quit;
                }
            }
        }
        let n = self.output.unicode_len();
        let c = self.cursor;
        match key {
            TuiKey::Esc => TuiAction::Quit,
            TuiKey::Enter => {
                if preedit_empty {
                    TuiAction::Quit
                } else {
                    TuiAction::Send(KeyEvent::new(KEY_RETURN as i32))
                }
            },
            TuiKey::Backspace => {
                if !preedit_empty {
                    TuiAction::Send(KeyEvent::new(KEY_BACKSPACE as i32))
                } else if c > 0 {
                    let out = Self::without_char_at(&self.output, c - 1);
                    *self = TuiBuffer { output: out, cursor: c - 1 };
                    TuiAction::Continue
                } else {
                    TuiAction::Continue
                }
            },
            TuiKey::Delete => {
                if preedit_empty && c < n {
                    let out = Self::without_char_at(&self.output, c);
                    *self = TuiBuffer { output: out, cursor: c };
                }
                TuiAction::Continue
            },
            TuiKey::Left => {
                if preedit_empty && c > 0 {
                    self.cursor = c - 1;
                }
                TuiAction::Continue
            },
            TuiKey::Right => {
                if preedit_empty && c < n {
                    self.cursor = c + 1;
                }
                TuiAction::Continue
            },
            TuiKey::Char(ch) => TuiAction::Send(KeyEvent::new(ch as u32 as i32)),
            TuiKey::Up => TuiAction::Send(KeyEvent::new(KEY_UP as i32)),
            TuiKey::Down => TuiAction::Send(KeyEvent::new(KEY_DOWN as i32)),
            TuiKey::Tab => TuiAction::Send(KeyEvent::new(KEY_DOWN as i32)),
            TuiKey::PageUp => TuiAction::Send(KeyEvent::new(KEY_PAGEUP as i32)),
            TuiKey::PageDown => TuiAction::Send(KeyEvent::new(KEY_PAGEDOWN as i32)),
            TuiKey::Other => TuiAction::Continue,
        }
    }

    /// Gives up the buffer for its committed text.
    pub fn into_output(self) -> (r: String)
        ensures
            r@ == self.text(),
    {
        self.output
    }
}

/// The text and cursor after pressing Backspace `n` times with no preedit shown.
pub open spec fn after_backspaces(out: Seq<char>, c: nat, n: nat) -> (Seq<char>, nat)
    decreases n,
{
    if n == 0 {
        (out, c)
    } else {
        let (o, k, _a) = tui_step(out, c, TuiKey::Backspace, false, true);
        after_backspaces(o, k, (n - 1) as nat)
    }
}

/// Committing text and then pressing Backspace as many times as it has
/// characters, with no preedit shown, leaves the text and the cursor as they
/// were before the commit.
pub proof fn law_backspace_undoes_commit(out: Seq<char>, c: nat, t: Seq<char>)
    requires
        c <= out.len(),
    ensures
        after_backspaces(insert_at(out, c as int, t), c + t.len(), t.len()) == (out, c),
    decreases t.len(),
{
    if t.len() == 0 {
        assert(insert_at(out, c as int, t) =~= out);
    } else {
        let before = insert_at(out, c as int, t);
        let shorter = t.drop_last();
        assert(remove_at(before, c + t.len() - 1) =~= insert_at(out, c as int, shorter));
        law_backspace_undoes_commit(out, c, shorter);
    }
}

/// Moving left and then right, with no preedit shown and the cursor not at
/// the start, returns the cursor where it was; no edit or move ever takes the
/// cursor past the end of the text.
pub proof fn law_cursor_moves(out: Seq<char>, c: nat, key: TuiKey, ctrl: bool, preedit_empty: bool)
    requires
        c <= out.len(),
    ensures
        0 < c ==> ({
            let (o1, c1, _a1) = tui_step(out, c, TuiKey::Left, false, true);
            let (o2, c2, _a2) = tui_step(o1, c1, TuiKey::Right, false, true);
            o2 == out && c2 == c
        }),
        ({
            let (o, nc, _a) = tui_step(out, c, key, ctrl, preedit_empty);
            nc <= o.len()
        }),
{
}

/// Escape and Ctrl-C always finish the TUI, whatever is committed, wherever
/// the cursor is and whether or not something is being composed; Enter
/// finishes it when nothing is being composed and is handed to the engine as
/// Return otherwise. None of them touches the committed text or the cursor.
pub proof fn law_leaving_keys(out: Seq<char>, c: nat, ctrl: bool, preedit_empty: bool)
    ensures
        tui_step(out, c, TuiKey::Esc, ctrl, preedit_empty) == (out, c, TuiAction::Quit),
        tui_step(out, c, TuiKey::Char('c'), true, preedit_empty) == (out, c, TuiAction::Quit),
        preedit_empty ==> tui_step(out, c, TuiKey::Enter, ctrl, preedit_empty) == (
            out,
            c,
            TuiAction::Quit,
        ),
        !preedit_empty ==> tui_step(out, c, TuiKey::Enter, ctrl, preedit_empty) == (
            out,
            c,
            TuiAction::Send(KeyEvent { key_code: 0xff0d, modifiers: 0 }),
        ),
{
}

/// With nothing being composed, Backspace deletes the character before the
/// cursor and Delete the one at it, and Left and Right move the cursor by one
/// within the text; at the ends of the text they change nothing. None of them
/// reaches the engine or finishes the TUI.
pub proof fn law_editing_keys(out: Seq<char>, c: nat, ctrl: bool)
    requires
        c <= out.len(),
    ensures
        ({
            let (o, k, a) = tui_step(out, c, TuiKey::Backspace, ctrl, true);
            &&& a == TuiAction::Continue
            &&& c > 0 ==> o == out.take(c - 1) + out.skip(c as int) && k == c - 1 && o.len()
                == out.len() - 1
            &&& c == 0 ==> o == out && k == 0
        }),
        ({
            let (o, k, a) = tui_step(out, c, TuiKey::Delete, ctrl, true);
            &&& a == TuiAction::Continue
            &&& k == c
            &&& c < out.len() ==> o == out.take(c as int) + out.skip(c + 1int) && o.len() == out.len()
                - 1
            &&& c == out.len() ==> o == out
        }),
        ({
            let (o, k, a) = tui_step(out, c, TuiKey::Left, ctrl, true);
            &&& a == TuiAction::Continue
            &&& o == out
            &&& k == if c > 0 { c - 1 } else { 0 }
        }),
        ({
            let (o, k, a) = tui_step(out, c, TuiKey::Right, ctrl, true);
            &&& a == TuiAction::Continue
            &&& o == out
            &&& k == if c < out.len() { c + 1 } else { c }
        }),
{
    if c > 0 {
        assert(out.take(c - 1).len() == c - 1);
    }
}

/// While something is being composed, Backspace goes to the engine and the
/// other editing keys do nothing; the committed text and the cursor stay as
/// they are.
pub proof fn law_editing_keys_while_composing(out: Seq<char>, c: nat, ctrl: bool)
    ensures
        tui_step(out, c, TuiKey::Backspace, ctrl, false) == (
            out,
            c,
            TuiAction::Send(KeyEvent { key_code: 0xff08, modifiers: 0 }),
        ),
        tui_step(out, c, TuiKey::Delete, ctrl, false) == (out, c, TuiAction::Continue),
        tui_step(out, c, TuiKey::Left, ctrl, false) == (out, c, TuiAction::Continue),
        tui_step(out, c, TuiKey::Right, ctrl, false) == (out, c, TuiAction::Continue),
{
}

/// A character (other than Ctrl-C) goes to the engine as its code point
/// without modifiers, and the arrow, Tab and page keys go to the engine as
/// their keys (Tab as Down), whether or not something is being composed; the
/// committed text and the cursor stay as they are.
pub proof fn law_engine_keys(out: Seq<char>, c: nat, ch: char, ctrl: bool, preedit_empty: bool)
    ensures
        !(ctrl && ch == 'c') ==> tui_step(out, c, TuiKey::Char(ch), ctrl, preedit_empty) == (
            out,
            c,
            TuiAction::Send(KeyEvent { key_code: ch as u32 as i32, modifiers: 0 }),
        ),
        tui_step(out, c, TuiKey::Up, ctrl, preedit_empty) == (
            out,
            c,
            TuiAction::Send(KeyEvent { key_code: 0xff52, modifiers: 0 }),
        ),
        tui_step(out, c, TuiKey::Down, ctrl, preedit_empty) == (
            out,
            c,
            TuiAction::Send(KeyEvent { key_code: 0xff54, modifiers: 0 }),
        ),
        tui_step(out, c, TuiKey::Tab, ctrl, preedit_empty) == (
            out,
            c,
            TuiAction::Send(KeyEvent { key_code: 0xff54, modifiers: 0 }),
        ),
        tui_step(out, c, TuiKey::PageUp, ctrl, preedit_empty) == (
            out,
            c,
            TuiAction::Send(KeyEvent { key_code: 0xff55, modifiers: 0 }),
        ),
        tui_step(out, c, TuiKey::PageDown, ctrl, preedit_empty) == (
            out,
            c,
            TuiAction::Send(KeyEvent { key_code: 0xff56, modifiers: 0 }),
        ),
        tui_step(out, c, TuiKey::Other, ctrl, preedit_empty) == (out, c, TuiAction::Continue),
{
}

// --- Drawing ---

/// The label of the `i`-th candidate: `>` when it is highlighted, a space
/// otherwise, then its number counted from 1, a dot, and its text.
pub open spec fn candidate_entry(i: nat, highlighted: nat, text: Seq<char>) -> Seq<char> {
    (if i == highlighted { ">"@ } else { " "@ }) + decimal(i + 1) + "."@ + text
}

/// A candidate's label starts with `>` exactly when it is the highlighted
/// one and with a space otherwise, then holds the decimal digits of its
/// number counted from 1, then a dot, and ends with the candidate's text.
pub proof fn law_candidate_entry(i: nat, highlighted: nat, text: Seq<char>)
    ensures
        ({
            let e = candidate_entry(i, highlighted, text);
            let d = decimal(i + 1);
            let m = d.len() as int;
            &&& e.len() == d.len() + text.len() + 2
            &&& (e[0] == '>') == (i == highlighted)
            &&& i != highlighted ==> e[0] == ' '
            &&& all_digits(e.subrange(1, 1 + m))
            &&& digits_value(e.subrange(1, 1 + m)) == i + 1
            &&& e[1 + m] == '.'
            &&& e.skip(2 + m) == text
        }),
{
    reveal_strlit(">");
    reveal_strlit(" ");
    reveal_strlit(".");
    lemma_decimal_digits(i + 1);
    let e = candidate_entry(i, highlighted, text);
    let d = decimal(i + 1);
    let m = d.len() as int;
    assert(e.subrange(1, 1 + m) =~= d);
    assert(e.skip(2 + m) =~= text);
}

/// The labels of the candidates of a menu.
pub fn candidate_entries(menu: &Menu) -> (r: Vec<String>)
    ensures
        r@.len() == menu.candidates@.len(),
        forall|i: int|
            0 <= i < r@.len() ==> #[trigger] r@[i]@ == candidate_entry(
                i as nat,
                menu.highlighted_candidate_index as nat,
                menu.candidates@[i].text@,
            ),
{
    let mut r: Vec<String> = Vec::new();
    let mut i: usize = 0;
    while i < menu.candidates.len()
        invariant
            i <= menu.candidates@.len(),
            r@.len() == i,
            forall|k: int|
                0 <= k < i ==> #[trigger] r@[k]@ == candidate_entry(
                    k as nat,
                    menu.highlighted_candidate_index as nat,
                    menu.candidates@[k].text@,
                ),
        decreases menu.candidates.len() - i,
    {
        let mark = if i == menu.highlighted_candidate_index { ">" } else { " " };
        let number = decimal_chars((i + 1) as u64);
        let number = string_of(&number);
        let entry = String::from_str(mark).concat(number.as_str()).concat(".").concat(
            menu.candidates[i].text.as_str(),
        );
        r.push(entry);
        i = i + 1;
    }
    r
}

/// The candidate line: the labels separated by two spaces.
pub fn candidate_line(menu: &Menu) -> (r: String)
    ensures
        r@ == join(
            Seq::new(
                menu.candidates@.len(),
                |i: int|
                    candidate_entry(
                        i as nat,
                        menu.highlighted_candidate_index as nat,
                        menu.candidates@[i].text@,
                    ),
            ),
            "  "@,
        ),
{
    let entries = candidate_entries(menu);
    let r = join_strings(&entries, "  ");
    assert(entries@.map_values(|s: String| s@) =~= Seq::new(
        menu.candidates@.len(),
        |i: int|
            candidate_entry(
                i as nat,
                menu.highlighted_candidate_index as nat,
                menu.candidates@[i].text@,
            ),
    ));
    r
}

/// The preedit with a `|` at its cursor.
pub open spec fn preedit_with_cursor(preedit: Seq<char>, cursor_pos: nat) -> Seq<char> {
    take_chars(preedit, cursor_pos) + "|"@ + skip_chars(preedit, cursor_pos)
}

/// The first TUI line, which depends on nothing but the committed text, its
/// cursor, the preedit and whether candidates are offered: a dimmed hint
/// while nothing is typed, committed or offered; otherwise `❯ ` and the
/// committed text around the preedit (with `|` at the preedit's cursor), in
/// the default style.
pub open spec fn composition_line_spec(
    out: Seq<char>,
    c: nat,
    preedit: Seq<char>,
    cursor_pos: nat,
    has_candidates: bool,
) -> Seq<(Seq<char>, StyleView)> {
    if preedit.len() == 0 && !has_candidates && out.len() == 0 {
        seq![("❯ Type pinyin, Esc to finish"@, dim_view())]
    } else {
        seq![
            ("❯ "@ + out.take(c as int) + preedit_with_cursor(preedit, cursor_pos) + out.skip(
                c as int,
            ), plain_view()),
        ]
    }
}

fn preedit_cursor_text(preedit: &str, cursor_pos: usize) -> (r: String)
    ensures
        r@ == preedit_with_cursor(preedit@, cursor_pos as nat),
{
    let before = take_str(preedit, cursor_pos);
    let after = skip_str(preedit, cursor_pos);
    before.concat("|").concat(after.as_str())
}

/// Builds the first TUI line (see `composition_line_spec`).
pub fn composition_line(
    buffer: &TuiBuffer,
    preedit: &str,
    cursor_pos: usize,
    has_candidates: bool,
) -> (r: Vec<PromptSpan>)
    ensures
        span_parts(r@) == composition_line_spec(
            buffer.text(),
            buffer.cursor_at(),
            preedit@,
            cursor_pos as nat,
            has_candidates,
        ),
{
    let mut r: Vec<PromptSpan> = Vec::new();
    if preedit.unicode_len() == 0 && !has_candidates && buffer.output().unicode_len() == 0 {
        r.push(
            PromptSpan {
                content: String::from_str("❯ Type pinyin, Esc to finish"),
                style: PlainStyle::dim(),
            },
        );
    } else {
        let out_left = buffer.left_of_cursor();
        let out_right = buffer.right_of_cursor();
        let text = String::from_str("❯ ").concat(out_left.as_str()).concat(
            preedit_cursor_text(preedit, cursor_pos).as_str(),
        ).concat(out_right.as_str());
        r.push(PromptSpan { content: text, style: PlainStyle::plain() });
    }
    assert(span_parts(r@) =~= composition_line_spec(
        buffer.text(),
        buffer.cursor_at(),
        preedit@,
        cursor_pos as nat,
        has_candidates,
    ));
    r
}

/// What the first TUI line shows. While nothing is typed, committed or
/// offered it is the one dimmed hint. Otherwise it is one span in the
/// terminal's default style: `❯ `, the committed text left of the cursor, the
/// preedit up to its cursor (at most its whole length), a `|` for that
/// cursor, the rest of the preedit, and the committed text right of the
/// cursor; so it is three characters longer than the committed text and the
/// preedit together, and holds one `|` more than they do.
pub proof fn law_first_line_shows_preedit_cursor(
    out: Seq<char>,
    c: nat,
    preedit: Seq<char>,
    cursor_pos: nat,
    has_candidates: bool,
)
    requires
        c <= out.len(),
    ensures
        ({
            let line = composition_line_spec(out, c, preedit, cursor_pos, has_candidates);
            let k: int = if cursor_pos <= preedit.len() { cursor_pos as int } else { preedit.len() as int };
            let text = "❯ "@ + out.take(c as int) + preedit.take(k) + "|"@ + preedit.skip(k) + out.skip(
                c as int,
            );
            &&& (preedit.len() == 0 && !has_candidates && out.len() == 0) ==> line == seq![
                ("❯ Type pinyin, Esc to finish"@, StyleView {
                    fg: None,
                    bg: None,
                    underline_color: None,
                    add_modifier: 0x2,
                    sub_modifier: 0,
                }),
            ]
            &&& !(preedit.len() == 0 && !has_candidates && out.len() == 0) ==> {
                &&& line.len() == 1
                &&& line[0].0 == text
                &&& line[0].0.len() == out.len() + preedit.len() + 3
                &&& count_char(line[0].0, '|') == count_char(out, '|') + count_char(preedit, '|')
                    + 1
                &&& line[0].1 == StyleView {
                    fg: None,
                    bg: None,
                    underline_color: None,
                    add_modifier: 0,
                    sub_modifier: 0,
                }
            }
        }),
{
    let k: int = if cursor_pos <= preedit.len() { cursor_pos as int } else { preedit.len() as int };
    reveal_strlit("❯ ");
    reveal_strlit("|");
    assert(preedit.take(k) + preedit.skip(k) =~= preedit);
    assert(out.take(c as int) + out.skip(c as int) =~= out);
    assert(take_chars(preedit, cursor_pos) == preedit.take(k));
    assert(skip_chars(preedit, cursor_pos) =~= preedit.skip(k));
    let a = "❯ "@;
    let l = out.take(c as int);
    let p1 = preedit.take(k);
    let p2 = preedit.skip(k);
    let r = out.skip(c as int);
    lemma_count_char_concat(a, l, '|');
    lemma_count_char_concat(a + l, p1, '|');
    lemma_count_char_concat(a + l + p1, "|"@, '|');
    lemma_count_char_concat(a + l + p1 + "|"@, p2, '|');
    lemma_count_char_concat(a + l + p1 + "|"@ + p2, r, '|');
    lemma_count_char_concat(p1, p2, '|');
    lemma_count_char_concat(l, r, '|');
    assert(count_char(a, '|') == 0) by {
        reveal_with_fuel(count_char, 3);
    }
    assert(count_char("|"@, '|') == 1) by {
        reveal_with_fuel(count_char, 2);
    }
    let line = composition_line_spec(out, c, preedit, cursor_pos, has_candidates);
    if !(preedit.len() == 0 && !has_candidates && out.len() == 0) {
        assert(preedit_with_cursor(preedit, cursor_pos) == p1 + "|"@ + p2);
        assert(line[0].0 =~= a + l + p1 + "|"@ + p2 + r);
        assert(line[0].0.len() == out.len() + preedit.len() + 3);
    }
}

} // verus!
