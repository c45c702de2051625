//! Styles as plain values, the shell prompt rendered as styled spans (with
//! the escapes that the ANSI parser cannot read removed first), and a line
//! that sets the preedit inside a shell's command line.

use ansi_to_tui::IntoText;
use vstd::prelude::*;
use vstd::utf8::{char_u32_cast, encode_scalar, encode_utf8};
use crate::engine::{clone_opt, opt_view};
use crate::text::{
    decimal, is_digit, lemma_decimal_digits,
    chars_of, find_char_from, index_of, lemma_index_of_spec, lines, string_of, strip_cr, sub_chars,
};

verus! {

/// Bit of the dim modifier, as ratatui numbers modifiers.
pub const MODIFIER_DIM_BIT: u16 = 0x2;
/// Bit of the underline modifier, as ratatui numbers modifiers.
pub const MODIFIER_UNDERLINED_BIT: u16 = 0x8;

/// A text style as plain values: colours by the names that ratatui writes
/// for them (`Green`, `#RRGGBB`, or a palette index), and the bits of the
/// modifiers to add and to remove.
#[derive(Debug)]
pub struct PlainStyle {
    /// Foreground colour.
    pub fg: Option<String>,
    /// Background colour.
    pub bg: Option<String>,
    /// Underline colour.
    pub underline_color: Option<String>,
    /// Modifiers added.
    pub add_modifier: u16,
    /// Modifiers removed.
    pub sub_modifier: u16,
}

/// A style as characters and bits.
pub struct StyleView {
    /// Foreground colour name.
    pub fg: Option<Seq<char>>,
    /// Background colour name.
    pub bg: Option<Seq<char>>,
    /// Underline colour name.
    pub underline_color: Option<Seq<char>>,
    /// Modifiers added.
    pub add_modifier: u16,
    /// Modifiers removed.
    pub sub_modifier: u16,
}

impl View for PlainStyle {
    type V = StyleView;

    open spec fn view(&self) -> StyleView {
        StyleView {
            fg: opt_view(self.fg),
            bg: opt_view(self.bg),
            underline_color: opt_view(self.underline_color),
            add_modifier: self.add_modifier,
            sub_modifier: self.sub_modifier,
        }
    }
}

/// The terminal's default style: no colours, no modifiers.
pub open spec fn plain_view() -> StyleView {
    StyleView { fg: None, bg: None, underline_color: None, add_modifier: 0, sub_modifier: 0 }
}

/// The style of uncommitted input: yellow and underlined.
pub open spec fn preedit_view() -> StyleView {
    StyleView {
        fg: Some("Yellow"@),
        bg: None,
        underline_color: None,
        add_modifier: MODIFIER_UNDERLINED_BIT,
        sub_modifier: 0,
    }
}

/// The dimmed style.
pub open spec fn dim_view() -> StyleView {
    StyleView { fg: None, bg: None, underline_color: None, add_modifier: MODIFIER_DIM_BIT, sub_modifier: 0 }
}

impl PlainStyle {
    /// The terminal's default style.
    pub fn plain() -> (r: PlainStyle)
        ensures
            r@ == plain_view(),
    {
        PlainStyle { fg: None, bg: None, underline_color: None, add_modifier: 0, sub_modifier: 0 }
    }

    /// Yellow and underlined, for uncommitted input.
    pub fn preedit() -> (r: PlainStyle)
        ensures
            r@ == preedit_view(),
    {
        PlainStyle {
            fg: Some(String::from_str("Yellow")),
            bg: None,
            underline_color: None,
            add_modifier: MODIFIER_UNDERLINED_BIT,
            sub_modifier: 0,
        }
    }

    /// Dimmed.
    pub fn dim() -> (r: PlainStyle)
        ensures
            r@ == dim_view(),
    {
        PlainStyle { fg: None, bg: None, underline_color: None, add_modifier: MODIFIER_DIM_BIT, sub_modifier: 0 }
    }

    /// A copy of this style.
    pub fn duplicate(&self) -> (r: PlainStyle)
        ensures
            r@ == self@,
    {
        PlainStyle {
            fg: clone_opt(&self.fg),
            bg: clone_opt(&self.bg),
            underline_color: clone_opt(&self.underline_color),
            add_modifier: self.add_modifier,
            sub_modifier: self.sub_modifier,
        }
    }
}

/// A run of text drawn in one style.
#[derive(Debug)]
pub struct PromptSpan {
    /// The text.
    pub content: String,
    /// How it is drawn.
    pub style: PlainStyle,
}

impl View for PromptSpan {
    type V = (Seq<char>, StyleView);

    open spec fn view(&self) -> (Seq<char>, StyleView) {
        (self.content@, self.style@)
    }
}

/// The text and style of each span.
pub open spec fn span_parts(spans: Seq<PromptSpan>) -> Seq<(Seq<char>, StyleView)> {
    spans.map_values(|s: PromptSpan| s@)
}

/// The text and style of each span, line by line.
pub open spec fn lines_parts(lines: Seq<Vec<PromptSpan>>) -> Seq<Seq<(Seq<char>, StyleView)>> {
    lines.map_values(|l: Vec<PromptSpan>| span_parts(l@))
}

// --- Escape sequences that the ANSI parser does not handle ---

/// An intermediate byte of an escape sequence (0x20 to 0x2f).
pub open spec fn is_intermediate(c: char) -> bool {
    0x20 <= c as u32 <= 0x2f
}

/// A final byte of an escape sequence (0x30 to 0x7e).
pub open spec fn is_final(c: char) -> bool {
    0x30 <= c as u32 <= 0x7e
}

/// Whether an escape that is neither CSI (`ESC [`) nor OSC (`ESC ]`) starts at `i`.
pub open spec fn other_escape_at(s: Seq<char>, i: int) -> bool {
    0 <= i && i + 1 < s.len() && s[i] == '\x1b' && s[i + 1] != '[' && s[i + 1] != ']'
}

/// The first position at or after `i` that does not hold an intermediate byte.
pub open spec fn end_of_intermediates(s: Seq<char>, i: int) -> int
    decreases s.len() - i,
{
    if 0 <= i < s.len() && is_intermediate(s[i]) {
        end_of_intermediates(s, i + 1)
    } else {
        i
    }
}

/// The end of a run of intermediate bytes lies between its start and the end of the text.
pub proof fn lemma_end_of_intermediates(s: Seq<char>, i: int)
    ensures
        end_of_intermediates(s, i) >= i,
        0 <= i <= s.len() ==> end_of_intermediates(s, i) <= s.len(),
    decreases s.len() - i,
{
    if 0 <= i < s.len() && is_intermediate(s[i]) {
        lemma_end_of_intermediates(s, i + 1);
    }
}

/// Where scanning goes on after an escape that starts at `i`: past the ESC,
/// its intermediate bytes and one final byte, if there is one.
pub open spec fn after_escape(s: Seq<char>, i: int) -> int {
    let j = end_of_intermediates(s, i + 1);
    if j < s.len() && is_final(s[j]) {
        j + 1
    } else {
        j
    }
}

/// The text from position `i` on with every escape that is neither CSI nor
/// OSC removed (ESC, its intermediate bytes and its final byte), everything
/// else kept.
pub open spec fn strip_escapes_from(s: Seq<char>, i: int) -> Seq<char>
    decreases s.len() - i,
{
    if i < 0 || i >= s.len() {
        seq![]
    } else if other_escape_at(s, i) {
        proof {
            lemma_end_of_intermediates(s, i + 1);
        }
        strip_escapes_from(s, after_escape(s, i))
    } else {
        seq![s[i]] + strip_escapes_from(s, i + 1)
    }
}

/// `s` with the escapes that the ANSI parser cannot handle removed.
pub open spec fn strip_escapes(s: Seq<char>) -> Seq<char> {
    strip_escapes_from(s, 0)
}

proof fn lemma_strip_keeps_from(s: Seq<char>, i: int)
    requires
        0 <= i <= s.len(),
        forall|k: int| !#[trigger] other_escape_at(s, k),
    ensures
        strip_escapes_from(s, i) == s.skip(i),
    decreases s.len() - i,
{
    if i < s.len() {
        assert(!other_escape_at(s, i));
        lemma_strip_keeps_from(s, i + 1);
        assert(seq![s[i]] + s.skip(i + 1) =~= s.skip(i));
    } else {
        assert(s.skip(i) =~= Seq::<char>::empty());
    }
}

/// Text whose escapes are all CSI (`ESC [`) or OSC (`ESC ]`) sequences, such
/// as colour codes, comes through unchanged.
pub proof fn law_strip_keeps_csi_and_osc(s: Seq<char>)
    requires
        forall|k: int| !#[trigger] other_escape_at(s, k),
    ensures
        strip_escapes(s) == s,
{
    lemma_strip_keeps_from(s, 0);
    assert(s.skip(0) =~= s);
}

proof fn lemma_strip_leaves_no_other_escape(s: Seq<char>, i: int)
    ensures
        forall|k: int| !#[trigger] other_escape_at(strip_escapes_from(s, i), k),
    decreases s.len() - i,
{
    if i < 0 || i >= s.len() {
        assert(strip_escapes_from(s, i) =~= Seq::<char>::empty());
    } else if other_escape_at(s, i) {
        lemma_end_of_intermediates(s, i + 1);
        lemma_strip_leaves_no_other_escape(s, after_escape(s, i));
        assert(strip_escapes_from(s, i) == strip_escapes_from(s, after_escape(s, i)));
    } else {
        lemma_strip_leaves_no_other_escape(s, i + 1);
        let r = strip_escapes_from(s, i + 1);
        let t = strip_escapes_from(s, i);
        assert(t == seq![s[i]] + r);
        assert forall|k: int| !#[trigger] other_escape_at(t, k) by {
            if k >= 1 {
                assert(!other_escape_at(r, k - 1));
                if 0 <= k && k + 1 < t.len() {
                    assert(t[k] == r[k - 1]);
                    assert(t[k + 1] == r[k]);
                }
            } else if k == 0 && t.len() > 1 && t[0] == '\x1b' {
                assert(i + 1 < s.len());
                assert(!other_escape_at(s, i + 1));
                assert(r == seq![s[i + 1]] + strip_escapes_from(s, i + 2));
                assert(t[1] == s[i + 1]);
            }
        }
    }
}

/// Removing the unhandled escapes a second time changes nothing: what the
/// first pass leaves holds no escape but CSI and OSC sequences.
pub proof fn law_strip_idempotent(s: Seq<char>)
    ensures
        strip_escapes(strip_escapes(s)) == strip_escapes(s),
{
    lemma_strip_leaves_no_other_escape(s, 0);
    law_strip_keeps_csi_and_osc(strip_escapes(s));
}

/// Removes the escape sequences that the ANSI parser does not understand.
///
/// The parser handles only CSI (`ESC [`) and OSC (`ESC ]`); any other escape
/// (typically fish's charset designation `ESC ( B`) is removed whole: the
/// ESC, its intermediate bytes 0x20 to 0x2f, and one final byte 0x30 to 0x7e.
/// All removed characters are ASCII, so working on characters removes the
/// same text that working on the UTF-8 bytes would
/// (`law_strip_matches_byte_scan`).
pub fn strip_unhandled_escapes(s: &str) -> (r: String)
    ensures
        r@ == strip_escapes(s@),
{
    let v = chars_of(s);
    let n = v.len();
    let mut out: Vec<char> = Vec::new();
    let mut i: usize = 0;
    while i < n
        invariant
            n == v@.len(),
            i <= n,
            out@ + strip_escapes_from(v@, i as int) == strip_escapes(v@),
        decreases n - i,
    {
        let ghost before = out@;
        if v[i] == '\x1b' && i + 1 < n && v[i + 1] != '[' && v[i + 1] != ']' {
            let ghost start = i as int;
            i = i + 1;
            while i < n && 0x20 <= v[i] as u32 && v[i] as u32 <= 0x2f
                invariant
                    n == v@.len(),
                    start + 1 <= i <= n,
                    end_of_intermediates(v@, start + 1) == end_of_intermediates(v@, i as int),
                decreases n - i,
            {
                i = i + 1;
            }
            assert(end_of_intermediates(v@, i as int) == i as int);
            if i < n && 0x30 <= v[i] as u32 && v[i] as u32 <= 0x7e {
                i = i + 1;
            }
            assert(i as int == after_escape(v@, start));
        } else {
            out.push(v[i]);
            assert(out@ + strip_escapes_from(v@, i + 1) =~= before + (seq![v@[i as int]]
                + strip_escapes_from(v@, i + 1)));
            i = i + 1;
        }
    }
    assert(out@ + Seq::<char>::empty() =~= out@);
    string_of(&out)
}

// --- The same scan over UTF-8 bytes ---

/// Whether an escape that is neither CSI (`ESC [`) nor OSC (`ESC ]`) starts
/// at byte `i`.
pub open spec fn other_escape_byte_at(b: Seq<u8>, i: int) -> bool {
    0 <= i && i + 1 < b.len() && b[i] == 0x1b && b[i + 1] != 0x5b && b[i + 1] != 0x5d
}

/// The first byte position at or after `i` that does not hold an
/// intermediate byte (0x20 to 0x2f).
pub open spec fn end_of_intermediate_bytes(b: Seq<u8>, i: int) -> int
    decreases b.len() - i,
{
    if 0 <= i < b.len() && 0x20 <= b[i] <= 0x2f {
        end_of_intermediate_bytes(b, i + 1)
    } else {
        i
    }
}

/// The end of a run of intermediate bytes lies between its start and the end of the bytes.
pub proof fn lemma_end_of_intermediate_bytes(b: Seq<u8>, i: int)
    ensures
        end_of_intermediate_bytes(b, i) >= i,
        0 <= i <= b.len() ==> end_of_intermediate_bytes(b, i) <= b.len(),
    decreases b.len() - i,
{
    if 0 <= i < b.len() && 0x20 <= b[i] <= 0x2f {
        lemma_end_of_intermediate_bytes(b, i + 1);
    }
}

/// Where the byte scan goes on after an escape that starts at byte `i`.
pub open spec fn after_escape_bytes(b: Seq<u8>, i: int) -> int {
    let j = end_of_intermediate_bytes(b, i + 1);
    if j < b.len() && 0x30 <= b[j] <= 0x7e {
        j + 1
    } else {
        j
    }
}

/// The bytes from position `i` on, scanned left to right: an ESC followed
/// by a byte other than `[` and `]` is dropped together with the run of
/// bytes 0x20 to 0x2f after it and then one byte 0x30 to 0x7e, if there is
/// one; every other byte is kept.
pub open spec fn strip_escape_bytes_from(b: Seq<u8>, i: int) -> Seq<u8>
    decreases b.len() - i,
{
    if i < 0 || i >= b.len() {
        seq![]
    } else if other_escape_byte_at(b, i) {
        proof {
            lemma_end_of_intermediate_bytes(b, i + 1);
        }
        strip_escape_bytes_from(b, after_escape_bytes(b, i))
    } else {
        seq![b[i]] + strip_escape_bytes_from(b, i + 1)
    }
}

/// The byte scan over a whole byte string.
pub open spec fn strip_escape_bytes(b: Seq<u8>) -> Seq<u8> {
    strip_escape_bytes_from(b, 0)
}

/// The byte position at which character `i` of `s` starts in its UTF-8
/// encoding.
pub open spec fn byte_pos(s: Seq<char>, i: int) -> int {
    encode_utf8(s.take(i)).len() as int
}

proof fn lemma_encode_concat(a: Seq<char>, b: Seq<char>)
    ensures
        encode_utf8(a + b) == encode_utf8(a) + encode_utf8(b),
    decreases a.len(),
{
    if a.len() == 0 {
        assert(a + b =~= b);
        assert(encode_utf8(a) + encode_utf8(b) =~= encode_utf8(b));
    } else {
        lemma_encode_concat(a.drop_first(), b);
        assert((a + b).drop_first() =~= a.drop_first() + b);
        assert((a + b)[0] == a[0]);
        assert(encode_utf8(a + b) =~= encode_utf8(a) + encode_utf8(b));
    }
}

proof fn lemma_scalar_bytes(c: char)
    ensures
        encode_scalar(c as u32).len() >= 1,
        (c as u32) < 0x80 ==> encode_scalar(c as u32) == seq![c as u32 as u8],
        (c as u32) < 0x80 ==> (c as u32 as u8) as u32 == c as u32,
        (c as u32) >= 0x80 ==> forall|k: int|
            0 <= k < encode_scalar(c as u32).len() ==> #[trigger] encode_scalar(c as u32)[k] >= 0x80,
{
    let v = c as u32;
    if v < 0x80 {
        assert((v & 0x7F) as u8 == v as u8 && (v as u8) as u32 == v) by (bit_vector)
            requires
                v < 0x80,
        ;
    } else {
        assert(0x80 <= (0xC0 | ((v >> 6) & 0x1F) as u8)) by (bit_vector);
        assert(0x80 <= (0xE0 | ((v >> 12) & 0x0F) as u8)) by (bit_vector);
        assert(0x80 <= (0xF0 | ((v >> 18) & 0x7) as u8)) by (bit_vector);
        assert(0x80 <= (0x80 | (v & 0x3F) as u8)) by (bit_vector);
        assert(0x80 <= (0x80 | ((v >> 6) & 0x3F) as u8)) by (bit_vector);
        assert(0x80 <= (0x80 | ((v >> 12) & 0x3F) as u8)) by (bit_vector);
    }
}

proof fn lemma_char_bytes(s: Seq<char>, i: int)
    requires
        0 <= i < s.len(),
    ensures
        byte_pos(s, i + 1) == byte_pos(s, i) + encode_scalar(s[i] as u32).len(),
        byte_pos(s, i + 1) <= encode_utf8(s).len(),
        encode_utf8(s).subrange(byte_pos(s, i), byte_pos(s, i + 1)) == encode_scalar(s[i] as u32),
{
    assert(s.take(i + 1) =~= s.take(i) + seq![s[i]]);
    lemma_encode_concat(s.take(i), seq![s[i]]);
    assert(seq![s[i]].drop_first() =~= Seq::<char>::empty());
    assert(encode_utf8(seq![s[i]]) =~= encode_scalar(s[i] as u32) + encode_utf8(
        Seq::<char>::empty(),
    ));
    assert(encode_utf8(seq![s[i]]) =~= encode_scalar(s[i] as u32));
    assert(s =~= s.take(i + 1) + s.skip(i + 1));
    lemma_encode_concat(s.take(i + 1), s.skip(i + 1));
    let e = encode_utf8(s);
    assert(e.subrange(byte_pos(s, i), byte_pos(s, i + 1)) =~= encode_scalar(s[i] as u32));
}

proof fn lemma_same_code(c: char, d: char)
    ensures
        c as u32 == d as u32 ==> c == d,
{
    if c as u32 == d as u32 {
        char_u32_cast(c, c as u32);
        char_u32_cast(d, d as u32);
    }
}

proof fn lemma_byte_pos_ends(s: Seq<char>)
    ensures
        byte_pos(s, 0) == 0,
        byte_pos(s, s.len() as int) == encode_utf8(s).len(),
{
    assert(s.take(0) =~= Seq::<char>::empty());
    assert(s.take(s.len() as int) =~= s);
}

/// What the byte at the start of character `i` shows of that character:
/// for an ASCII character, the character itself; otherwise a byte of 0x80
/// or more, as are all the bytes of that character.
proof fn lemma_byte_at_char(s: Seq<char>, i: int)
    requires
        0 <= i < s.len(),
    ensures
        byte_pos(s, i) < byte_pos(s, i + 1) <= encode_utf8(s).len(),
        (s[i] as u32) < 0x80 ==> byte_pos(s, i + 1) == byte_pos(s, i) + 1 && encode_utf8(
            s,
        )[byte_pos(s, i)] as u32 == s[i] as u32,
        (s[i] as u32) >= 0x80 ==> forall|k: int|
            byte_pos(s, i) <= k < byte_pos(s, i + 1) ==> #[trigger] encode_utf8(s)[k] >= 0x80,
{
    lemma_char_bytes(s, i);
    lemma_scalar_bytes(s[i]);
    let e = encode_utf8(s);
    let p = byte_pos(s, i);
    let sc = encode_scalar(s[i] as u32);
    if (s[i] as u32) < 0x80 {
        assert(e[p] == e.subrange(p, byte_pos(s, i + 1))[0]);
    } else {
        assert forall|k: int| p <= k < byte_pos(s, i + 1) implies #[trigger] e[k] >= 0x80 by {
            assert(e[k] == e.subrange(p, byte_pos(s, i + 1))[k - p]);
            assert(sc[k - p] >= 0x80);
        }
    }
}

proof fn lemma_intermediates_match(s: Seq<char>, j: int)
    requires
        0 <= j <= s.len(),
    ensures
        j <= end_of_intermediates(s, j) <= s.len(),
        end_of_intermediate_bytes(encode_utf8(s), byte_pos(s, j)) == byte_pos(
            s,
            end_of_intermediates(s, j),
        ),
    decreases s.len() - j,
{
    lemma_byte_pos_ends(s);
    if j < s.len() {
        lemma_byte_at_char(s, j);
        if is_intermediate(s[j]) {
            lemma_intermediates_match(s, j + 1);
        }
    }
}

proof fn lemma_escape_matches(s: Seq<char>, i: int)
    requires
        other_escape_at(s, i),
    ensures
        other_escape_byte_at(encode_utf8(s), byte_pos(s, i)),
        i < after_escape(s, i) <= s.len(),
        after_escape_bytes(encode_utf8(s), byte_pos(s, i)) == byte_pos(s, after_escape(s, i)),
{
    let e = encode_utf8(s);
    lemma_byte_pos_ends(s);
    lemma_byte_at_char(s, i);
    lemma_byte_at_char(s, i + 1);
    assert('\x1b' as u32 == 0x1b && '[' as u32 == 0x5b && ']' as u32 == 0x5d);
    lemma_same_code(s[i + 1], '[');
    lemma_same_code(s[i + 1], ']');
    assert(e[byte_pos(s, i)] == 0x1b);
    assert(e[byte_pos(s, i) + 1] != 0x5b);
    assert(e[byte_pos(s, i) + 1] != 0x5d);
    lemma_intermediates_match(s, i + 1);
    let j = end_of_intermediates(s, i + 1);
    if j < s.len() {
        lemma_byte_at_char(s, j);
    }
}

proof fn lemma_strip_high_bytes(b: Seq<u8>, k: int, e: int)
    requires
        0 <= k <= e <= b.len(),
        forall|m: int| k <= m < e ==> #[trigger] b[m] >= 0x80,
    ensures
        strip_escape_bytes_from(b, k) == b.subrange(k, e) + strip_escape_bytes_from(b, e),
    decreases e - k,
{
    if k < e {
        assert(b[k] >= 0x80);
        lemma_strip_high_bytes(b, k + 1, e);
        assert(b.subrange(k, e) =~= seq![b[k]] + b.subrange(k + 1, e));
    } else {
        assert(b.subrange(k, e) =~= Seq::<u8>::empty());
    }
}

proof fn lemma_strip_matches_bytes_from(s: Seq<char>, i: int)
    requires
        0 <= i <= s.len(),
    ensures
        strip_escape_bytes_from(encode_utf8(s), byte_pos(s, i)) == encode_utf8(
            strip_escapes_from(s, i),
        ),
    decreases s.len() - i,
{
    let e = encode_utf8(s);
    lemma_byte_pos_ends(s);
    if i == s.len() {
        assert(strip_escapes_from(s, i) =~= Seq::<char>::empty());
    } else if other_escape_at(s, i) {
        lemma_escape_matches(s, i);
        lemma_end_of_intermediates(s, i + 1);
        lemma_strip_matches_bytes_from(s, after_escape(s, i));
    } else {
        lemma_strip_matches_bytes_from(s, i + 1);
        lemma_char_bytes(s, i);
        lemma_byte_at_char(s, i);
        let rest = strip_escapes_from(s, i + 1);
        assert(strip_escapes_from(s, i) == seq![s[i]] + rest);
        lemma_encode_concat(seq![s[i]], rest);
        assert(seq![s[i]].drop_first() =~= Seq::<char>::empty());
        assert(encode_utf8(seq![s[i]]) =~= encode_scalar(s[i] as u32) + encode_utf8(
            Seq::<char>::empty(),
        ));
        let p = byte_pos(s, i);
        let q = byte_pos(s, i + 1);
        if (s[i] as u32) < 0x80 {
            if i + 1 < s.len() {
                lemma_byte_at_char(s, i + 1);
            }
            assert('\x1b' as u32 == 0x1b && '[' as u32 == 0x5b && ']' as u32 == 0x5d);
            lemma_same_code(s[i], '\x1b');
            if e[p] == 0x1b && p + 1 < e.len() {
                assert(s[i] == '\x1b');
                assert(i + 1 < s.len());
                assert(s[i + 1] == '[' || s[i + 1] == ']');
            }
            assert(!other_escape_byte_at(e, p));
            assert(e.subrange(p, q) =~= seq![e[p]]);
        } else {
            lemma_strip_high_bytes(e, p, q);
        }
    }
}

/// Working on characters removes exactly what the scan over the UTF-8 bytes
/// removes: everything that either removes is ASCII, and the bytes of a
/// character beyond ASCII are never taken for part of an escape.
pub proof fn law_strip_matches_byte_scan(s: Seq<char>)
    ensures
        encode_utf8(strip_escapes(s)) == strip_escape_bytes(encode_utf8(s)),
{
    lemma_byte_pos_ends(s);
    lemma_strip_matches_bytes_from(s, 0);
}

// --- ANSI prompt parsing ---

/// The spans, line by line, that `ansi_to_tui` reads from a string: each
/// span's text and its style, the colours by the names that ratatui writes
/// for them and the modifiers as bits.
pub uninterp spec fn ansi_parts(input: Seq<char>) -> Seq<Seq<(Seq<char>, StyleView)>>;

/// The name that ratatui writes for the `i`-th of the sixteen basic colours:
/// the eight of SGR codes 30 to 37 and 40 to 47, then the eight bright ones
/// of codes 90 to 97 and 100 to 107.
pub open spec fn basic_colour_name(i: int) -> Seq<char> {
    if i == 0 {
        "Black"@
    } else if i == 1 {
        "Red"@
    } else if i == 2 {
        "Green"@
    } else if i == 3 {
        "Yellow"@
    } else if i == 4 {
        "Blue"@
    } else if i == 5 {
        "Magenta"@
    } else if i == 6 {
        "Cyan"@
    } else if i == 7 {
        "Gray"@
    } else if i == 8 {
        "DarkGray"@
    } else if i == 9 {
        "LightRed"@
    } else if i == 10 {
        "LightGreen"@
    } else if i == 11 {
        "LightYellow"@
    } else if i == 12 {
        "LightBlue"@
    } else if i == 13 {
        "LightMagenta"@
    } else if i == 14 {
        "LightCyan"@
    } else {
        "White"@
    }
}

/// The style that one SGR code naming a basic colour gives text in the
/// default style: a foreground for 30 to 37 and 90 to 97, a background for
/// 40 to 47 and 100 to 107; none for any other code.
pub open spec fn sgr_colour_style(code: nat) -> Option<StyleView> {
    let colour = |name: Seq<char>, foreground: bool|
        StyleView {
            fg: if foreground { Some(name) } else { None },
            bg: if foreground { None } else { Some(name) },
            underline_color: None,
            add_modifier: 0,
            sub_modifier: 0,
        };
    if 30 <= code <= 37 {
        Some(colour(basic_colour_name(code - 30), true))
    } else if 90 <= code <= 97 {
        Some(colour(basic_colour_name(code - 90 + 8), true))
    } else if 40 <= code <= 47 {
        Some(colour(basic_colour_name(code - 40), false))
    } else if 100 <= code <= 107 {
        Some(colour(basic_colour_name(code - 100 + 8), false))
    } else {
        None
    }
}

/// Text `t` after the SGR sequence `ESC [ code m`.
pub open spec fn sgr_run(code: nat, t: Seq<char>) -> Seq<char> {
    "\x1b["@ + decimal(code) + "m"@ + t
}

/// Text of one span on one line: not empty, and without ESC, line feed or
/// carriage return.
pub open spec fn plain_run(t: Seq<char>) -> bool {
    t.len() > 0 && forall|i: int|
        0 <= i < t.len() ==> #[trigger] t[i] != '\x1b' && t[i] != '\n' && t[i] != '\r'
}

/// Parses ANSI-styled text with `ansi_to_tui::IntoText::into_text`.
///
/// The contract claims that parsing never fails (the parser's `text`
/// function always returns `Ok`), and that the text and style of each span,
/// line by line, are what `ansi_parts` names. Each colour is carried as the
/// name that ratatui's `Display` for `Color` writes (which its `FromStr`
/// reads back), each set of modifiers as the bits of `Modifier`.
///
/// It also claims what the parser's source shows for text after a single
/// SGR code that names one of the sixteen basic colours (`AnsiCode::from`
/// maps 30 to 37 and 90 to 97 to a foreground, 40 to 47 and 100 to 107 to a
/// background, and the span's style is the default style patched with it):
/// one line holding one span, that text with that colour and nothing else.
#[verifier::external_body]
fn ansi_lines(input: &str) -> (r: Option<Vec<Vec<PromptSpan>>>)
    ensures
        r is Some,
        lines_parts(r.unwrap()@) == ansi_parts(input@),
        forall|code: nat, t: Seq<char>|
            #![trigger sgr_run(code, t)]
            input@ == sgr_run(code, t) && plain_run(t) && sgr_colour_style(code) is Some
                ==> lines_parts(r.unwrap()@) == seq![seq![(t, sgr_colour_style(code).unwrap())]],
{
    input.into_text().ok().map(|t| t.lines.into_iter().map(|l| l.spans.into_iter().map(|s| PromptSpan {
        content: s.content.into_owned(),
        style: PlainStyle {
            fg: s.style.fg.map(|c| c.to_string()),
            bg: s.style.bg.map(|c| c.to_string()),
            underline_color: s.style.underline_color.map(|c| c.to_string()),
            add_modifier: s.style.add_modifier.bits(),
            sub_modifier: s.style.sub_modifier.bits(),
        },
    }).collect()).collect())
}

/// Whether some span of a line has text.
pub open spec fn has_text(line: Seq<(Seq<char>, StyleView)>) -> bool {
    exists|j: int| 0 <= j < line.len() && #[trigger] line[j].0.len() > 0
}

/// The last line that has some text.
pub open spec fn last_line_with_text(ls: Seq<Seq<(Seq<char>, StyleView)>>) -> Option<int>
    decreases ls.len(),
{
    if ls.len() == 0 {
        None
    } else if has_text(ls.last()) {
        Some(ls.len() - 1)
    } else {
        last_line_with_text(ls.drop_last())
    }
}

/// The last line that is not empty, or the empty string.
pub open spec fn last_nonempty(ls: Seq<Seq<char>>) -> Seq<char>
    decreases ls.len(),
{
    if ls.len() == 0 {
        seq![]
    } else if ls.last().len() > 0 {
        ls.last()
    } else {
        last_nonempty(ls.drop_last())
    }
}

/// The spans (text and style) that a prompt line shows, given what the ANSI
/// parser gave (`None` when it failed) and the prompt text: the last line
/// with some text, as parsed (nothing when there is none), or, when parsing
/// failed, the last non-empty line of the plain text as one span in the
/// default style.
pub open spec fn prompt_line_parts(
    parsed: Option<Seq<Seq<(Seq<char>, StyleView)>>>,
    text: Seq<char>,
) -> Seq<(Seq<char>, StyleView)> {
    match parsed {
        Some(ls) => match last_line_with_text(ls) {
            Some(k) => ls[k],
            None => seq![],
        },
        None => seq![(last_nonempty(lines(text)), plain_view())],
    }
}

/// The lines of a text, as `str::lines` splits it.
pub fn lines_of(v: &[char]) -> (r: Vec<Vec<char>>)
    ensures
        r@.map_values(|l: Vec<char>| l@) == lines(v@),
{
    let n = v.len();
    let mut out: Vec<Vec<char>> = Vec::new();
    let mut i: usize = 0;
    assert(v@.skip(0) =~= v@);
    while i < n
        invariant
            n == v@.len(),
            i <= n,
            out@.map_values(|l: Vec<char>| l@) + lines(v@.skip(i as int)) == lines(v@),
        decreases n - i,
    {
        let ghost before = out@.map_values(|l: Vec<char>| l@);
        let ghost rest = v@.skip(i as int);
        proof {
            lemma_index_of_spec(rest, '\n');
        }
        match find_char_from(v, '\n', i) {
            Some(j) => {
                let mut line = sub_chars(v, i, j);
                if line.len() > 0 && line[line.len() - 1] == '\r' {
                    line.pop();
                }
                assert(rest.take(j - i) =~= v@.subrange(i as int, j as int));
                assert(line@ == strip_cr(rest.take(j - i)));
                assert(rest.skip(j - i + 1) =~= v@.skip(j + 1));
                out.push(line);
                assert(out@.map_values(|l: Vec<char>| l@) =~= before.push(line@));
                assert(out@.map_values(|l: Vec<char>| l@) + lines(v@.skip(j + 1)) =~= before + (
                seq![line@] + lines(rest.skip(j - i + 1))));
                i = j + 1;
            },
            None => {
                let line = sub_chars(v, i, n);
                assert(line@ =~= rest);
                out.push(line);
                assert(out@.map_values(|l: Vec<char>| l@) =~= before.push(line@));
                assert(out@.map_values(|l: Vec<char>| l@) + lines(v@.skip(n as int)) =~= before
                    + seq![rest]);
                i = n;
            },
        }
    }
    assert(v@.skip(n as int) =~= Seq::<char>::empty());
    assert(out@.map_values(|l: Vec<char>| l@) + Seq::<Seq<char>>::empty() =~= out@.map_values(
        |l: Vec<char>| l@,
    ));
    out
}

fn span_has_text(line: &Vec<PromptSpan>) -> (b: bool)
    ensures
        b == has_text(span_parts(line@)),
{
    let mut j: usize = 0;
    while j < line.len()
        invariant
            j <= line@.len(),
            forall|k: int| 0 <= k < j ==> #[trigger] line@[k].content@.len() == 0,
        decreases line.len() - j,
    {
        if line[j].content.unicode_len() > 0 {
            assert(span_parts(line@)[j as int].0.len() > 0);
            return true;
        }
        j = j + 1;
    }
    assert forall|k: int| 0 <= k < span_parts(line@).len() implies #[trigger] span_parts(
        line@,
    )[k].0.len() == 0 by {
        assert(span_parts(line@)[k] == line@[k]@);
    }
    false
}

/// The spans of the prompt line, given what the ANSI parser gave and the
/// prompt text: the last parsed line that has some text, with its spans as
/// parsed; when parsing failed, the last non-empty line of the text as one
/// span in the default style.
pub fn prompt_line_from(parsed: Option<Vec<Vec<PromptSpan>>>, text: &str) -> (r: Vec<PromptSpan>)
    ensures
        span_parts(r@) == prompt_line_parts(
            match parsed {
                Some(ls) => Some(lines_parts(ls@)),
                None => None,
            },
            text@,
        ),
{
    match parsed {
        Some(mut ls) => {
            let ghost orig = ls@;
            let ghost parts = lines_parts(orig);
            let mut k: usize = ls.len();
            assert(parts.take(k as int) =~= parts);
            while k > 0 && !span_has_text(&ls[k - 1])
                invariant
                    k <= ls@.len(),
                    ls@ == orig,
                    parts == lines_parts(orig),
                    last_line_with_text(parts) == last_line_with_text(parts.take(k as int)),
                decreases k,
            {
                assert(parts.take(k as int).last() == parts[k - 1]);
                assert(parts.take(k as int).drop_last() =~= parts.take(k - 1));
                k = k - 1;
            }
            if k == 0 {
                assert(parts.take(0) =~= Seq::<Seq<(Seq<char>, StyleView)>>::empty());
                let r: Vec<PromptSpan> = Vec::new();
                assert(span_parts(r@) =~= Seq::<(Seq<char>, StyleView)>::empty());
                r
            } else {
                assert(parts.take(k as int).last() == parts[k - 1]);
                assert(last_line_with_text(parts) == Some(k - 1));
                let r = ls.remove(k - 1);
                assert(span_parts(r@) == parts[k - 1]);
                r
            }
        },
        None => {
            proof {
                reveal_strlit("");
            }
            let v = chars_of(text);
            let ls = lines_of(&v);
            let ghost lv = ls@.map_values(|l: Vec<char>| l@);
            let mut k: usize = ls.len();
            assert(lv.take(k as int) =~= lv);
            while k > 0 && ls[k - 1].len() == 0
                invariant
                    k <= ls@.len(),
                    lv == ls@.map_values(|l: Vec<char>| l@),
                    last_nonempty(lv) == last_nonempty(lv.take(k as int)),
                decreases k,
            {
                assert(lv.take(k as int).last() == lv[k - 1]);
                assert(lv.take(k as int).drop_last() =~= lv.take(k - 1));
                k = k - 1;
            }
            let last = if k == 0 {
                assert(lv.take(0) =~= Seq::<Seq<char>>::empty());
                String::new()
            } else {
                assert(lv.take(k as int).last() == lv[k - 1]);
                string_of(&ls[k - 1])
            };
            let mut r: Vec<PromptSpan> = Vec::new();
            r.push(PromptSpan { content: last, style: PlainStyle::plain() });
            assert(span_parts(r@) =~= seq![(last_nonempty(lines(text@)), plain_view())]);
            r
        },
    }
}

/// Parses the rendered shell prompt (with ANSI colors) into styled spans of
/// its last line that has some text, each with the text and style that the
/// ANSI parser gave it; a multi-line prompt shows only the line that the
/// cursor is on.
pub fn parse_prompt_spans(prompt: &str) -> (r: Vec<PromptSpan>)
    ensures
        span_parts(r@) == prompt_line_parts(
            Some(ansi_parts(strip_escapes(prompt@))),
            strip_escapes(prompt@),
        ),
        forall|code: nat, t: Seq<char>|
            #![trigger sgr_run(code, t)]
            prompt@ == sgr_run(code, t) && plain_run(t) && sgr_colour_style(code) is Some
                ==> span_parts(r@) == seq![(t, sgr_colour_style(code).unwrap())],
{
    let stripped = strip_unhandled_escapes(prompt);
    proof {
        assert forall|code: nat, t: Seq<char>|
            #![trigger sgr_run(code, t)]
            prompt@ == sgr_run(code, t) && plain_run(t) implies stripped@ == prompt@ by {
            lemma_sgr_run_has_no_other_escape(code, t);
            law_strip_keeps_csi_and_osc(prompt@);
        }
    }
    let parsed = ansi_lines(stripped.as_str());
    let ghost pv = parsed;
    let r = prompt_line_from(parsed, stripped.as_str());
    proof {
        assert forall|code: nat, t: Seq<char>|
            #![trigger sgr_run(code, t)]
            prompt@ == sgr_run(code, t) && plain_run(t) && sgr_colour_style(code) is Some implies span_parts(r@)
                == seq![(t, sgr_colour_style(code).unwrap())] by {
            let ls = seq![seq![(t, sgr_colour_style(code).unwrap())]];
            assert(stripped@ == sgr_run(code, t));
            assert(lines_parts(pv.unwrap()@) == ls);
            assert(ls.last()[0].0.len() > 0);
            assert(has_text(ls.last()));
            assert(last_line_with_text(ls) == Some(0int));
        }
    }
    r
}

/// Text after one SGR sequence holds no escape that stripping removes.
proof fn lemma_sgr_run_has_no_other_escape(code: nat, t: Seq<char>)
    requires
        plain_run(t),
    ensures
        forall|k: int| !#[trigger] other_escape_at(sgr_run(code, t), k),
{
    reveal_strlit("\x1b[");
    reveal_strlit("m");
    lemma_decimal_digits(code);
    let d = decimal(code);
    let s = sgr_run(code, t);
    assert forall|k: int| !#[trigger] other_escape_at(s, k) by {
        if 0 <= k && k + 1 < s.len() && s[k] == '\x1b' {
            if k == 0 {
                assert(s[1] == '[');
            } else if k < 2 + d.len() {
                assert(s[k] == d[k - 2]);
                assert(is_digit(d[k - 2]));
            } else if k == 2 + d.len() {
                assert(s[k] == 'm');
            } else {
                assert(s[k] == t[k - 3 - d.len()]);
            }
        }
    }
}

// --- The shell line ---

/// The first `n` characters of `s` (all of them when it is shorter).
pub open spec fn take_chars(s: Seq<char>, n: nat) -> Seq<char> {
    if n <= s.len() {
        s.take(n as int)
    } else {
        s
    }
}

/// `s` without its first `n` characters (nothing when it is shorter).
pub open spec fn skip_chars(s: Seq<char>, n: nat) -> Seq<char> {
    if n <= s.len() {
        s.skip(n as int)
    } else {
        seq![]
    }
}

/// The first `n` characters of `s`, as `s.chars().take(n)` collects them.
pub fn take_str(s: &str, n: usize) -> (r: String)
    ensures
        r@ == take_chars(s@, n as nat),
{
    let len = s.unicode_len();
    if n <= len {
        String::from_str(s.substring_char(0, n))
    } else {
        String::from_str(s)
    }
}

/// `s` without its first `n` characters, as `s.chars().skip(n)` collects them.
pub fn skip_str(s: &str, n: usize) -> (r: String)
    ensures
        r@ == skip_chars(s@, n as nat),
{
    let len = s.unicode_len();
    if n <= len {
        assert(s@.subrange(n as int, len as int) =~= s@.skip(n as int));
        String::from_str(s.substring_char(n, len))
    } else {
        String::new()
    }
}

/// A line that puts the preedit inside the shell's command line: the
/// prompt's spans, then the command line before its cursor, the committed
/// text before the TUI cursor, the preedit before its cursor, a `|` for that
/// cursor, the rest of the preedit, the committed text after the TUI cursor,
/// and the command line after its cursor. The preedit is drawn yellow and
/// underlined, the rest in the default style; the prompt keeps its styles.
pub open spec fn shell_line_spec(
    prompt: Seq<(Seq<char>, StyleView)>,
    line: Seq<char>,
    point: nat,
    out_left: Seq<char>,
    preedit: Seq<char>,
    cursor_pos: nat,
    out_right: Seq<char>,
) -> Seq<(Seq<char>, StyleView)> {
    prompt + seq![
        (take_chars(line, point), plain_view()),
        (out_left, plain_view()),
        (take_chars(preedit, cursor_pos), preedit_view()),
        ("|"@, plain_view()),
        (skip_chars(preedit, cursor_pos), preedit_view()),
        (out_right, plain_view()),
        (skip_chars(line, point), plain_view()),
    ]
}

/// What a shell line holds: the prompt's spans as given, then seven spans.
/// The first and last of them split the command line at its cursor (at most
/// its length), the third and fifth split the preedit at its cursor (at most
/// its length) and are drawn yellow and underlined, the fourth is the `|`
/// for that cursor, and the second and sixth are the committed text around
/// its cursor; all but the preedit are in the default style.
pub proof fn law_shell_line_parts(
    prompt: Seq<(Seq<char>, StyleView)>,
    line: Seq<char>,
    point: nat,
    out_left: Seq<char>,
    preedit: Seq<char>,
    cursor_pos: nat,
    out_right: Seq<char>,
)
    ensures
        ({
            let r = shell_line_spec(prompt, line, point, out_left, preedit, cursor_pos, out_right);
            let n = prompt.len() as int;
            let plain = StyleView {
                fg: None,
                bg: None,
                underline_color: None,
                add_modifier: 0,
                sub_modifier: 0,
            };
            let marked = StyleView {
                fg: Some("Yellow"@),
                bg: None,
                underline_color: None,
                add_modifier: 0x8,
                sub_modifier: 0,
            };
            &&& r.len() == n + 7
            &&& r.take(n) == prompt
            &&& r[n].0 + r[n + 6].0 == line
            &&& r[n].0.len() == if point <= line.len() { point as int } else { line.len() as int }
            &&& r[n + 1].0 == out_left && r[n + 5].0 == out_right
            &&& r[n + 2].0 + r[n + 4].0 == preedit
            &&& r[n + 2].0.len() == if cursor_pos <= preedit.len() {
                cursor_pos as int
            } else {
                preedit.len() as int
            }
            &&& r[n + 3].0 == "|"@
            &&& r[n + 2].1 == marked && r[n + 4].1 == marked
            &&& r[n].1 == plain && r[n + 1].1 == plain && r[n + 3].1 == plain && r[n + 5].1 == plain
                && r[n + 6].1 == plain
        }),
{
    let r = shell_line_spec(prompt, line, point, out_left, preedit, cursor_pos, out_right);
    let n = prompt.len() as int;
    assert(r.take(n) =~= prompt);
    assert(take_chars(line, point) + skip_chars(line, point) =~= line);
    assert(take_chars(preedit, cursor_pos) + skip_chars(preedit, cursor_pos) =~= preedit);
}

/// A copy of a list of spans.
pub fn clone_spans(spans: &Vec<PromptSpan>) -> (r: Vec<PromptSpan>)
    ensures
        span_parts(r@) == span_parts(spans@),
{
    let mut r: Vec<PromptSpan> = Vec::new();
    let mut i: usize = 0;
    while i < spans.len()
        invariant
            i <= spans@.len(),
            r@.len() == i,
            forall|k: int| 0 <= k < i ==> #[trigger] r@[k]@ == spans@[k]@,
        decreases spans.len() - i,
    {
        let s = &spans[i];
        r.push(PromptSpan { content: s.content.clone(), style: s.style.duplicate() });
        i = i + 1;
    }
    assert(span_parts(r@) =~= span_parts(spans@));
    r
}

/// Assembles a shell line (see `shell_line_spec`).
pub fn build_shell_line(
    prompt_spans: &Vec<PromptSpan>,
    line: &str,
    point: usize,
    out_left: &str,
    preedit: &str,
    cursor_pos: usize,
    out_right: &str,
) -> (r: Vec<PromptSpan>)
    ensures
        span_parts(r@) == shell_line_spec(
            span_parts(prompt_spans@),
            line@,
            point as nat,
            out_left@,
            preedit@,
            cursor_pos as nat,
            out_right@,
        ),
{
    let mut spans = clone_spans(prompt_spans);
    spans.push(PromptSpan { content: take_str(line, point), style: PlainStyle::plain() });
    spans.push(PromptSpan { content: String::from_str(out_left), style: PlainStyle::plain() });
    spans.push(PromptSpan { content: take_str(preedit, cursor_pos), style: PlainStyle::preedit() });
    spans.push(PromptSpan { content: String::from_str("|"), style: PlainStyle::plain() });
    spans.push(PromptSpan { content: skip_str(preedit, cursor_pos), style: PlainStyle::preedit() });
    spans.push(PromptSpan { content: String::from_str(out_right), style: PlainStyle::plain() });
    spans.push(PromptSpan { content: skip_str(line, point), style: PlainStyle::plain() });
    assert(span_parts(spans@) =~= shell_line_spec(
        span_parts(prompt_spans@),
        line@,
        point as nat,
        out_left@,
        preedit@,
        cursor_pos as nat,
        out_right@,
    ));
    spans
}

} // verus!
