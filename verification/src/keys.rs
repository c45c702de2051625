//! Key codes, modifier masks, key events and the Vim-style key notation
//! that the stdio protocol reads.

use vstd::prelude::*;
use crate::text::{
    chars_eq_str, is_white_space, lemma_trim_idempotent, sub_chars, trim, trim_end, trim_start,
    trim_str,
};

verus! {

/// X11 keysym of BackSpace.
pub const KEY_BACKSPACE: u32 = 0xff08;
/// X11 keysym of Tab.
pub const KEY_TAB: u32 = 0xff09;
/// X11 keysym of Return.
pub const KEY_RETURN: u32 = 0xff0d;
/// X11 keysym of Escape.
pub const KEY_ESCAPE: u32 = 0xff1b;
/// X11 keysym of Home.
pub const KEY_HOME: u32 = 0xff50;
/// X11 keysym of Left.
pub const KEY_LEFT: u32 = 0xff51;
/// X11 keysym of Up.
pub const KEY_UP: u32 = 0xff52;
/// X11 keysym of Right.
pub const KEY_RIGHT: u32 = 0xff53;
/// X11 keysym of Down.
pub const KEY_DOWN: u32 = 0xff54;
/// X11 keysym of Page_Up.
pub const KEY_PAGEUP: u32 = 0xff55;
/// X11 keysym of Page_Down.
pub const KEY_PAGEDOWN: u32 = 0xff56;
/// X11 keysym of End.
pub const KEY_END: u32 = 0xff57;
/// X11 keysym of Delete.
pub const KEY_DELETE: u32 = 0xffff;
/// X11 keysym of space.
pub const KEY_SPACE: u32 = 0x0020;

/// Shift modifier bit.
pub const MODIFIER_SHIFT: u32 = 0x1;
/// Caps Lock modifier bit.
pub const MODIFIER_LOCK: u32 = 0x2;
/// Control modifier bit.
pub const MODIFIER_CONTROL: u32 = 0x4;
/// Alt (Mod1) modifier bit.
pub const MODIFIER_ALT: u32 = 0x8;
/// Super modifier bit.
pub const MODIFIER_SUPER: u32 = 0x400_0000;
/// Hyper modifier bit.
pub const MODIFIER_HYPER: u32 = 0x800_0000;
/// Meta modifier bit.
pub const MODIFIER_META: u32 = 0x1000_0000;
/// Key release bit.
pub const MODIFIER_RELEASE: u32 = 0x4000_0000;
/// All modifier bits.
pub const MODIFIER_MASK: u32 = 0x5f00_1fff;

/// A key event with key code and modifier flags.
#[derive(Clone, Copy, Debug, PartialEq, Eq, Structural)]
pub struct KeyEvent {
    /// X11-style key code.
    pub key_code: i32,
    /// Modifier bitmask (see the `MODIFIER_*` constants).
    pub modifiers: i32,
}

impl KeyEvent {
    /// Create a new key event with no modifiers.
    pub fn new(key_code: i32) -> (r: Self)
        ensures
            r.key_code == key_code,
            r.modifiers == 0,
    {
        KeyEvent { key_code, modifiers: 0 }
    }

    /// Create a new key event with specific modifiers.
    pub fn with_modifiers(key_code: i32, modifiers: i32) -> (r: Self)
        ensures
            r.key_code == key_code,
            r.modifiers == modifiers,
    {
        KeyEvent { key_code, modifiers }
    }

    /// Add the shift modifier.
    pub fn shift(self) -> (r: Self)
        ensures
            r.key_code == self.key_code,
            r.modifiers == self.modifiers | MODIFIER_SHIFT as i32,
    {
        KeyEvent { key_code: self.key_code, modifiers: self.modifiers | MODIFIER_SHIFT as i32 }
    }

    /// Add the control modifier.
    pub fn ctrl(self) -> (r: Self)
        ensures
            r.key_code == self.key_code,
            r.modifiers == self.modifiers | MODIFIER_CONTROL as i32,
    {
        KeyEvent { key_code: self.key_code, modifiers: self.modifiers | MODIFIER_CONTROL as i32 }
    }

    /// Add the alt modifier.
    pub fn alt(self) -> (r: Self)
        ensures
            r.key_code == self.key_code,
            r.modifiers == self.modifiers | MODIFIER_ALT as i32,
    {
        KeyEvent { key_code: self.key_code, modifiers: self.modifiers | MODIFIER_ALT as i32 }
    }

    /// Mark as a key release event.
    pub fn release(self) -> (r: Self)
        ensures
            r.key_code == self.key_code,
            r.modifiers == self.modifiers | MODIFIER_RELEASE as i32,
    {
        KeyEvent { key_code: self.key_code, modifiers: self.modifiers | MODIFIER_RELEASE as i32 }
    }
}

/// Adding a modifier bit twice is the same as adding it once, and two
/// modifier bits may be added in either order.
pub proof fn law_modifiers_idempotent_and_commutative(m: i32, a: i32, b: i32)
    ensures
        (m | a) | a == m | a,
        (m | a) | b == (m | b) | a,
{
    assert((m | a) | a == m | a) by (bit_vector);
    assert((m | a) | b == (m | b) | a) by (bit_vector);
}

/// The key code that a `<Name>` of the Vim key notation stands for.
pub open spec fn special_key_code(name: Seq<char>) -> Option<i32> {
    if name == "CR"@ || name == "Return"@ || name == "Enter"@ {
        Some(KEY_RETURN as i32)
    } else if name == "BS"@ || name == "BackSpace"@ {
        Some(KEY_BACKSPACE as i32)
    } else if name == "Space"@ {
        Some(KEY_SPACE as i32)
    } else if name == "Esc"@ || name == "Escape"@ {
        Some(KEY_ESCAPE as i32)
    } else if name == "Up"@ {
        Some(KEY_UP as i32)
    } else if name == "Down"@ {
        Some(KEY_DOWN as i32)
    } else if name == "Left"@ {
        Some(KEY_LEFT as i32)
    } else if name == "Right"@ {
        Some(KEY_RIGHT as i32)
    } else if name == "Tab"@ {
        Some(KEY_TAB as i32)
    } else if name == "Del"@ || name == "Delete"@ {
        Some(KEY_DELETE as i32)
    } else if name == "Home"@ {
        Some(KEY_HOME as i32)
    } else if name == "End"@ {
        Some(KEY_END as i32)
    } else if name == "PageUp"@ {
        Some(KEY_PAGEUP as i32)
    } else if name == "PageDown"@ {
        Some(KEY_PAGEDOWN as i32)
    } else {
        None
    }
}

/// The key code of a line in Vim key notation: white space around it is
/// ignored; `<Name>` is a named key; one character is its own code point.
pub open spec fn vim_key_code(input: Seq<char>) -> Option<i32> {
    let key = trim(input);
    if key.len() == 0 {
        None
    } else if key[0] == '<' && key.last() == '>' {
        special_key_code(key.subrange(1, key.len() - 1))
    } else if key.len() == 1 {
        Some((key[0] as u32) as i32)
    } else {
        None
    }
}

/// White space around a key never changes what it means: a line trimmed
/// beforehand reads as the same key as the line itself.
pub proof fn law_key_notation_ignores_surrounding_white_space(input: Seq<char>)
    ensures
        vim_key_code(trim(input)) == vim_key_code(input),
{
    lemma_trim_idempotent(input);
}

/// How the notation reads keys: any one character other than white space
/// is its own code point, `<Name>` is the named key, and each name reads as
/// its key code (Return, Backspace, Space, Escape, the arrows, Tab, Delete,
/// Home, End and the page keys).
pub proof fn law_vim_key_notation(c: char, name: Seq<char>)
    ensures
        !is_white_space(c) ==> vim_key_code(seq![c]) == Some(c as u32 as i32),
        vim_key_code("<"@ + name + ">"@) == special_key_code(name),
        special_key_code("CR"@) == Some(0xff0di32),
        special_key_code("Return"@) == Some(0xff0di32),
        special_key_code("Enter"@) == Some(0xff0di32),
        special_key_code("BS"@) == Some(0xff08i32),
        special_key_code("BackSpace"@) == Some(0xff08i32),
        special_key_code("Space"@) == Some(0x20i32),
        special_key_code("Esc"@) == Some(0xff1bi32),
        special_key_code("Escape"@) == Some(0xff1bi32),
        special_key_code("Up"@) == Some(0xff52i32),
        special_key_code("Down"@) == Some(0xff54i32),
        special_key_code("Left"@) == Some(0xff51i32),
        special_key_code("Right"@) == Some(0xff53i32),
        special_key_code("Tab"@) == Some(0xff09i32),
        special_key_code("Del"@) == Some(0xffffi32),
        special_key_code("Delete"@) == Some(0xffffi32),
        special_key_code("Home"@) == Some(0xff50i32),
        special_key_code("End"@) == Some(0xff57i32),
        special_key_code("PageUp"@) == Some(0xff55i32),
        special_key_code("PageDown"@) == Some(0xff56i32),
{
    reveal_strlit("<");
    reveal_strlit(">");
    reveal_strlit("CR");
    reveal_strlit("Return");
    reveal_strlit("Enter");
    reveal_strlit("BS");
    reveal_strlit("BackSpace");
    reveal_strlit("Space");
    reveal_strlit("Esc");
    reveal_strlit("Escape");
    reveal_strlit("Up");
    reveal_strlit("Down");
    reveal_strlit("Left");
    reveal_strlit("Right");
    reveal_strlit("Tab");
    reveal_strlit("Del");
    reveal_strlit("Delete");
    reveal_strlit("Home");
    reveal_strlit("End");
    reveal_strlit("PageUp");
    reveal_strlit("PageDown");
    // the names differ pairwise, so each reads as its own key
    assert("CR"@.len() == 2);
    assert("Return"@.len() == 6);
    assert("Enter"@.len() == 5);
    assert("BS"@.len() == 2);
    assert("BackSpace"@.len() == 9);
    assert("Space"@.len() == 5);
    assert("Esc"@.len() == 3);
    assert("Escape"@.len() == 6);
    assert("Up"@.len() == 2);
    assert("Down"@.len() == 4);
    assert("Left"@.len() == 4);
    assert("Right"@.len() == 5);
    assert("Tab"@.len() == 3);
    assert("Del"@.len() == 3);
    assert("Delete"@.len() == 6);
    assert("Home"@.len() == 4);
    assert("End"@.len() == 3);
    assert("PageUp"@.len() == 6);
    assert("PageDown"@.len() == 8);
    assert("BS"@[0] != "CR"@[0]);
    assert("Space"@[0] != "Enter"@[0]);
    assert("Escape"@[0] != "Return"@[0]);
    assert("Up"@[0] != "CR"@[0]);
    assert("Up"@[0] != "BS"@[0]);
    assert("Left"@[0] != "Down"@[0]);
    assert("Right"@[0] != "Enter"@[0]);
    assert("Right"@[0] != "Space"@[0]);
    assert("Tab"@[0] != "Esc"@[0]);
    assert("Del"@[0] != "Esc"@[0]);
    assert("Del"@[0] != "Tab"@[0]);
    assert("Delete"@[0] != "Return"@[0]);
    assert("Delete"@[0] != "Escape"@[0]);
    assert("Home"@[0] != "Down"@[0]);
    assert("Home"@[0] != "Left"@[0]);
    assert("End"@[1] != "Esc"@[1]);
    assert("End"@[0] != "Tab"@[0]);
    assert("End"@[0] != "Del"@[0]);
    assert("PageUp"@[0] != "Return"@[0]);
    assert("PageUp"@[0] != "Escape"@[0]);
    assert("PageUp"@[0] != "Delete"@[0]);
    let s = seq![c];
    assert(s.drop_first() =~= Seq::<char>::empty());
    if !is_white_space(c) {
        assert(trim_start(s) == s);
        assert(trim_end(s) == s);
    }
    let b = "<"@ + name + ">"@;
    assert(b[0] == '<');
    assert(b.last() == '>');
    assert(!is_white_space('<') && !is_white_space('>'));
    assert(trim_start(b) == b);
    assert(trim_end(b) == b);
    assert(b.subrange(1, b.len() - 1) =~= name);
}

fn special_key_code_of(name: &[char]) -> (r: Option<i32>)
    ensures
        r == special_key_code(name@),
{
    if chars_eq_str(name, "CR") || chars_eq_str(name, "Return") || chars_eq_str(name, "Enter") {
        Some(KEY_RETURN as i32)
    } else if chars_eq_str(name, "BS") || chars_eq_str(name, "BackSpace") {
        Some(KEY_BACKSPACE as i32)
    } else if chars_eq_str(name, "Space") {
        Some(KEY_SPACE as i32)
    } else if chars_eq_str(name, "Esc") || chars_eq_str(name, "Escape") {
        Some(KEY_ESCAPE as i32)
    } else if chars_eq_str(name, "Up") {
        Some(KEY_UP as i32)
    } else if chars_eq_str(name, "Down") {
        Some(KEY_DOWN as i32)
    } else if chars_eq_str(name, "Left") {
        Some(KEY_LEFT as i32)
    } else if chars_eq_str(name, "Right") {
        Some(KEY_RIGHT as i32)
    } else if chars_eq_str(name, "Tab") {
        Some(KEY_TAB as i32)
    } else if chars_eq_str(name, "Del") || chars_eq_str(name, "Delete") {
        Some(KEY_DELETE as i32)
    } else if chars_eq_str(name, "Home") {
        Some(KEY_HOME as i32)
    } else if chars_eq_str(name, "End") {
        Some(KEY_END as i32)
    } else if chars_eq_str(name, "PageUp") {
        Some(KEY_PAGEUP as i32)
    } else if chars_eq_str(name, "PageDown") {
        Some(KEY_PAGEDOWN as i32)
    } else {
        None
    }
}

/// Parse Vim-style key notation into a RIME key code.
///
/// `<Esc>` gives the Escape key code; the stdio loop reads it as the exit
/// signal when nothing is being composed.
pub fn parse_vim_key(input: &str) -> (r: Option<i32>)
    ensures
        r == vim_key_code(input@),
{
    let key = trim_str(input);
    let n = key.len();
    if n == 0 {
        return None;
    }
    if key[0] == '<' && key[n - 1] == '>' {
        let inner = sub_chars(&key, 1, n - 1);
        return special_key_code_of(&inner);
    }
    if n == 1 {
        return Some(key[0] as u32 as i32);
    }
    None
}

} // verus!
