//! Shell integration: the shells that completions and key bindings are made
//! for, the key binding scripts, bash version checks, and the command-line
//! context that a shell binding hands over.

use vstd::prelude::*;
use crate::text::{
    after_first, all_digits, before_first, chars_of, decimal, digits_value, index_of, is_digit,
    lemma_decimal_digits, lemma_index_of_absent, lemma_index_of_found, find_char_from, lemma_index_of_spec, parse_unsigned,
    parse_unsigned_chars, replace_all, replace_chars, string_of, sub_chars,
};

verus! {

// --- Bash version ---

/// The number that a version field reads as: its value when it parses as a
/// `u32`, else 0.
pub open spec fn version_field(part: Option<Seq<char>>) -> u32 {
    match part {
        Some(p) => match parse_unsigned(p, u32::MAX as nat) {
            Some(v) => v as u32,
            None => 0,
        },
        None => 0,
    }
}

/// `(major, minor)` of a `major.minor[...]` version string: the fields
/// before the first dot and between the first and the second dot.
pub open spec fn bash_version(ver: Seq<char>) -> (u32, u32) {
    let minor_part = match after_first(ver, '.') {
        Some(rest) => Some(before_first(rest, '.')),
        None => None,
    };
    (version_field(Some(before_first(ver, '.'))), version_field(minor_part))
}

fn field_value(v: &[char], from: usize, to: usize) -> (r: u32)
    requires
        from <= to <= v@.len(),
    ensures
        r == version_field(Some(v@.subrange(from as int, to as int))),
{
    let part = sub_chars(v, from, to);
    match parse_unsigned_chars(&part, 0xffff_ffff) {
        Some(x) => x as u32,
        None => 0,
    }
}

/// Parse a `major.minor` bash version string; a field that is missing or
/// does not parse reads as 0.
pub fn parse_bash_version(ver: &str) -> (r: (u32, u32))
    ensures
        r == bash_version(ver@),
{
    let v = chars_of(ver);
    let n = v.len();
    assert(v@.skip(0) =~= v@);
    proof {
        lemma_index_of_spec(v@, '.');
    }
    match find_char_from(&v, '.', 0) {
        None => {
            assert(v@.subrange(0, n as int) =~= v@);
            (field_value(&v, 0, n), 0)
        },
        Some(i) => {
            assert(v@.subrange(0, i as int) =~= v@.take(i as int));
            let major = field_value(&v, 0, i);
            let ghost rest = v@.skip(i + 1);
            proof {
                lemma_index_of_spec(rest, '.');
            }
            let minor = match find_char_from(&v, '.', i + 1) {
                None => {
                    assert(v@.subrange(i + 1, n as int) =~= rest);
                    field_value(&v, i + 1, n)
                },
                Some(j) => {
                    assert(v@.subrange(i + 1, j as int) =~= rest.take(j - (i + 1)));
                    field_value(&v, i + 1, j)
                },
            };
            (major, minor)
        },
    }
}

proof fn lemma_decimal_reads_back(n: nat, max: nat)
    requires
        n <= max,
    ensures
        parse_unsigned(decimal(n), max) == Some(n),
        index_of(decimal(n), '.') is None,
{
    lemma_decimal_digits(n);
    let d = decimal(n);
    assert(is_digit(d[0]));
    assert forall|k: int| 0 <= k < d.len() implies #[trigger] d[k] != '.' by {
        assert(is_digit(d[k]));
    }
    lemma_index_of_absent(d, '.');
}

/// A version written as `major.minor` reads back as `(major, minor)`.
pub proof fn law_bash_version_round_trip(major: u32, minor: u32)
    ensures
        bash_version(decimal(major as nat) + "."@ + decimal(minor as nat)) == (major, minor),
{
    reveal_strlit(".");
    let a = decimal(major as nat);
    let b = decimal(minor as nat);
    let s = a + "."@ + b;
    lemma_decimal_reads_back(major as nat, u32::MAX as nat);
    lemma_decimal_reads_back(minor as nat, u32::MAX as nat);
    lemma_decimal_digits(major as nat);
    assert forall|k: int| 0 <= k < a.len() implies #[trigger] s[k] != '.' by {
        assert(s[k] == a[k]);
        assert(is_digit(a[k]));
    }
    assert(s[a.len() as int] == '.');
    lemma_index_of_found(s, '.', a.len() as int);
    assert(s.take(a.len() as int) =~= a);
    assert(s.skip(a.len() + 1 as int) =~= b);
}

/// `${PS1@P}` (prompt expansion) needs bash 4.4 or later.
pub fn bash_supports_prompt_expansion(major: u32, minor: u32) -> (r: bool)
    ensures
        r == (major > 4 || (major == 4 && minor >= 4)),
{
    major > 4 || (major == 4 && minor >= 4)
}

// --- Shells ---

/// The shells that completions can be generated for.
#[derive(Clone, Copy, Debug, PartialEq, Eq, Structural)]
pub enum ShellKind {
    /// Bourne Again SHell.
    Bash,
    /// Elvish.
    Elvish,
    /// Friendly Interactive SHell.
    Fish,
    /// PowerShell.
    PowerShell,
    /// Z SHell.
    Zsh,
}

/// The shell that a name denotes: exactly its lower-case name.
pub open spec fn shell_named(name: Seq<char>) -> Option<ShellKind> {
    if name == "bash"@ {
        Some(ShellKind::Bash)
    } else if name == "elvish"@ {
        Some(ShellKind::Elvish)
    } else if name == "fish"@ {
        Some(ShellKind::Fish)
    } else if name == "powershell"@ {
        Some(ShellKind::PowerShell)
    } else if name == "zsh"@ {
        Some(ShellKind::Zsh)
    } else {
        None
    }
}

/// Parses a shell name with `clap_complete::Shell::from_str`.
///
/// The contract claims what its source shows: each shell is matched by its
/// exact name (case matters, there are no aliases), any other string fails.
#[verifier::external_body]
fn parse_shell(name: &str) -> (r: Option<ShellKind>)
    ensures
        r == shell_named(name@),
{
    match name.parse::<clap_complete::Shell>() {
        Ok(clap_complete::Shell::Bash) => Some(ShellKind::Bash),
        Ok(clap_complete::Shell::Elvish) => Some(ShellKind::Elvish),
        Ok(clap_complete::Shell::Fish) => Some(ShellKind::Fish),
        Ok(clap_complete::Shell::PowerShell) => Some(ShellKind::PowerShell),
        Ok(clap_complete::Shell::Zsh) => Some(ShellKind::Zsh),
        _ => None,
    }
}

/// The lower-case form of a string, as `str::to_lowercase` gives it.
pub uninterp spec fn lowercase(s: Seq<char>) -> Seq<char>;

/// Calls `str::to_lowercase`; the result is named by `lowercase`.
#[verifier::external_body]
fn to_lowercase(s: &str) -> (r: String)
    ensures
        r@ == lowercase(s@),
{
    s.to_lowercase()
}

/// The name of each shell.
pub open spec fn shell_name_spec(k: ShellKind) -> Seq<char> {
    match k {
        ShellKind::Bash => "bash"@,
        ShellKind::Elvish => "elvish"@,
        ShellKind::Fish => "fish"@,
        ShellKind::PowerShell => "powershell"@,
        ShellKind::Zsh => "zsh"@,
    }
}

/// Each shell is found again by its name.
pub proof fn law_shell_name_round_trip(k: ShellKind)
    ensures
        shell_named(shell_name_spec(k)) == Some(k),
{
    reveal_strlit("bash");
    reveal_strlit("elvish");
    reveal_strlit("fish");
    reveal_strlit("powershell");
    reveal_strlit("zsh");
    assert("bash"@[0] == 'b' && "elvish"@[0] == 'e' && "fish"@[0] == 'f' && "powershell"@[0] == 'p'
        && "zsh"@[0] == 'z');
}

impl ShellKind {
    /// Parses a shell name.
    pub fn from_name(name: &str) -> (r: Option<ShellKind>)
        ensures
            r == shell_named(name@),
    {
        parse_shell(name)
    }

    /// The name by which the shell is given on the command line.
    pub fn name(&self) -> (r: &'static str)
        ensures
            r@ == shell_name_spec(*self),
    {
        match self {
            ShellKind::Bash => "bash",
            ShellKind::Elvish => "elvish",
            ShellKind::Fish => "fish",
            ShellKind::PowerShell => "powershell",
            ShellKind::Zsh => "zsh",
        }
    }
}

// --- Key binding scripts ---

/// The bash binding: a readline widget that runs `rsime tui` and splices its
/// output into the command line at the cursor.
pub open spec fn bash_binding_spec(key: Seq<char>) -> Seq<char> {
    "# rsime TUI keybinding\nstty -ixon\nrsime-widget() {\n    local output\n    output=$(rsime tui)\n    [[ -n \"$output\" ]] && READLINE_LINE=\"${READLINE_LINE:0:$READLINE_POINT}$output${READLINE_LINE:$READLINE_POINT}\"\n    READLINE_POINT=$(( READLINE_POINT + ${#output} ))\n}\nbind -x '\""@
        + key + "\": rsime-widget'"@
}

/// The zsh form of a bash-style key: `\C-` becomes `^`, `\e` becomes `^[`,
/// and any other backslash is dropped.
pub open spec fn zsh_key_spec(key: Seq<char>) -> Seq<char> {
    replace_all(replace_all(replace_all(key, "\\C-"@, "^"@), "\\e"@, "^["@), "\\"@, ""@)
}

/// The zsh binding: a zle widget that runs `rsime tui` and appends its output
/// to the buffer left of the cursor.
pub open spec fn zsh_binding_spec(key: Seq<char>) -> Seq<char> {
    "# rsime TUI keybinding\nrsime-widget() {\n    local output\n    output=$(rsime tui)\n    [[ -n \"$output\" ]] && LBUFFER+=\"$output\"\n    zle reset-prompt\n}\nzle -N rsime-widget\nbindkey '"@
        + zsh_key_spec(key) + "' rsime-widget"@
}

/// The fish form of an already lower-cased bash-style key: `\c-` becomes `\c`.
pub open spec fn fish_key_spec(lowered: Seq<char>) -> Seq<char> {
    replace_all(lowered, "\\c-"@, "\\c"@)
}

/// The fish binding: runs `rsime tui`, inserts its output at the cursor and
/// forces a full repaint.
pub open spec fn fish_binding_spec(lowered: Seq<char>) -> Seq<char> {
    "# rsime TUI keybinding\nbind "@ + fish_key_spec(lowered)
        + " 'rsime tui | read -l output; and commandline --insert \"$output\"; commandline -f repaint'"@
}

/// The bash key binding script for `key`.
pub fn bash_binding(key: &str) -> (r: String)
    ensures
        r@ == bash_binding_spec(key@),
{
    let s = String::from_str(
        "# rsime TUI keybinding\nstty -ixon\nrsime-widget() {\n    local output\n    output=$(rsime tui)\n    [[ -n \"$output\" ]] && READLINE_LINE=\"${READLINE_LINE:0:$READLINE_POINT}$output${READLINE_LINE:$READLINE_POINT}\"\n    READLINE_POINT=$(( READLINE_POINT + ${#output} ))\n}\nbind -x '\"",
    );
    let s = s.concat(key);
    s.concat("\": rsime-widget'")
}

/// The zsh form of a bash-style key.
pub fn zsh_key(key: &str) -> (r: Vec<char>)
    ensures
        r@ == zsh_key_spec(key@),
{
    proof {
        reveal_strlit("\\C-");
        reveal_strlit("\\e");
        reveal_strlit("\\");
    }
    let k = chars_of(key);
    let p1 = chars_of("\\C-");
    let r1 = chars_of("^");
    let a = replace_chars(&k, &p1, &r1);
    let p2 = chars_of("\\e");
    let r2 = chars_of("^[");
    let b = replace_chars(&a, &p2, &r2);
    let p3 = chars_of("\\");
    let r3 = chars_of("");
    replace_chars(&b, &p3, &r3)
}

/// The zsh key binding script for `key`.
pub fn zsh_binding(key: &str) -> (r: String)
    ensures
        r@ == zsh_binding_spec(key@),
{
    let zk = zsh_key(key);
    let zk = string_of(&zk);
    let s = String::from_str(
        "# rsime TUI keybinding\nrsime-widget() {\n    local output\n    output=$(rsime tui)\n    [[ -n \"$output\" ]] && LBUFFER+=\"$output\"\n    zle reset-prompt\n}\nzle -N rsime-widget\nbindkey '",
    );
    let s = s.concat(zk.as_str());
    s.concat("' rsime-widget")
}

/// The fish key binding script for a key that is already in lower case.
pub fn fish_binding(lowered_key: &str) -> (r: String)
    ensures
        r@ == fish_binding_spec(lowered_key@),
{
    proof {
        reveal_strlit("\\c-");
    }
    let k = chars_of(lowered_key);
    let p = chars_of("\\c-");
    let rp = chars_of("\\c");
    let fk = replace_chars(&k, &p, &rp);
    let fk = string_of(&fk);
    let s = String::from_str("# rsime TUI keybinding\nbind ");
    let s = s.concat(fk.as_str());
    s.concat(
        " 'rsime tui | read -l output; and commandline --insert \"$output\"; commandline -f repaint'",
    )
}

/// Whether `t` occurs in `s`.
pub open spec fn contains_text(s: Seq<char>, t: Seq<char>) -> bool {
    exists|i: int| 0 <= i && i + t.len() <= s.len() && #[trigger] s.subrange(i, i + t.len()) == t
}

proof fn lemma_found_in_front(p: Seq<char>, rest: Seq<char>, t: Seq<char>, i: int)
    requires
        0 <= i,
        i + t.len() <= p.len(),
        p.subrange(i, i + t.len()) == t,
    ensures
        contains_text(p + rest, t),
{
    assert((p + rest).subrange(i, i + t.len()) =~= t);
}

/// The bash binding runs `rsime tui` from a readline widget bound with
/// `bind -x` to the key, and only when the TUI printed something splices that
/// output into the command line at the cursor and moves the cursor past it.
pub proof fn law_bash_binding_splices_output(key: Seq<char>)
    ensures
        contains_text(bash_binding_spec(key), "rsime tui"@),
        contains_text(bash_binding_spec(key), "[[ -n \"$output\" ]] && READLINE_LINE=\"${READLINE_LINE:0:$READLINE_POINT}$output${READLINE_LINE:$READLINE_POINT}\""@),
        contains_text(bash_binding_spec(key), "READLINE_POINT=$(( READLINE_POINT + ${#output} ))"@),
        ({
            let s = bash_binding_spec(key);
            let tail = "bind -x '\""@ + key + "\": rsime-widget'"@;
            s.len() >= tail.len() && s.skip(s.len() - tail.len()) == tail
        }),
{
    reveal_strlit("# rsime TUI keybinding\nstty -ixon\nrsime-widget() {\n    local output\n    output=$(rsime tui)\n    [[ -n \"$output\" ]] && READLINE_LINE=\"${READLINE_LINE:0:$READLINE_POINT}$output${READLINE_LINE:$READLINE_POINT}\"\n    READLINE_POINT=$(( READLINE_POINT + ${#output} ))\n}\nbind -x '\"");
    reveal_strlit("\": rsime-widget'");
    reveal_strlit("bind -x '\"");
    let p = "# rsime TUI keybinding\nstty -ixon\nrsime-widget() {\n    local output\n    output=$(rsime tui)\n    [[ -n \"$output\" ]] && READLINE_LINE=\"${READLINE_LINE:0:$READLINE_POINT}$output${READLINE_LINE:$READLINE_POINT}\"\n    READLINE_POINT=$(( READLINE_POINT + ${#output} ))\n}\nbind -x '\""@;
    let rest = key + "\": rsime-widget'"@;
    assert(bash_binding_spec(key) =~= p + rest);
    reveal_strlit("rsime tui");
    assert(p.subrange(81, 90) =~= "rsime tui"@);
    lemma_found_in_front(p, rest, "rsime tui"@, 81);
    reveal_strlit("[[ -n \"$output\" ]] && READLINE_LINE=\"${READLINE_LINE:0:$READLINE_POINT}$output${READLINE_LINE:$READLINE_POINT}\"");
    assert(p.subrange(96, 207) =~= "[[ -n \"$output\" ]] && READLINE_LINE=\"${READLINE_LINE:0:$READLINE_POINT}$output${READLINE_LINE:$READLINE_POINT}\""@);
    lemma_found_in_front(p, rest, "[[ -n \"$output\" ]] && READLINE_LINE=\"${READLINE_LINE:0:$READLINE_POINT}$output${READLINE_LINE:$READLINE_POINT}\""@, 96);
    reveal_strlit("READLINE_POINT=$(( READLINE_POINT + ${#output} ))");
    assert(p.subrange(212, 261) =~= "READLINE_POINT=$(( READLINE_POINT + ${#output} ))"@);
    lemma_found_in_front(p, rest, "READLINE_POINT=$(( READLINE_POINT + ${#output} ))"@, 212);
    let tail = "bind -x '\""@ + key + "\": rsime-widget'"@;
    assert(p.skip(264) =~= "bind -x '\""@);
    assert(bash_binding_spec(key).skip(bash_binding_spec(key).len() - tail.len()) =~= tail);
}

/// The zsh binding registers a zle widget that runs `rsime tui`, appends its
/// output to the buffer left of the cursor only when that output is not
/// empty, and redraws the prompt; the widget is bound to the zsh form of the
/// key.
pub proof fn law_zsh_binding_appends_output(key: Seq<char>)
    ensures
        contains_text(zsh_binding_spec(key), "rsime tui"@),
        contains_text(zsh_binding_spec(key), "[[ -n \"$output\" ]] && LBUFFER+=\"$output\""@),
        contains_text(zsh_binding_spec(key), "zle reset-prompt"@),
        contains_text(zsh_binding_spec(key), "zle -N rsime-widget"@),
        ({
            let s = zsh_binding_spec(key);
            let tail = "bindkey '"@ + zsh_key_spec(key) + "' rsime-widget"@;
            s.len() >= tail.len() && s.skip(s.len() - tail.len()) == tail
        }),
{
    reveal_strlit("# rsime TUI keybinding\nrsime-widget() {\n    local output\n    output=$(rsime tui)\n    [[ -n \"$output\" ]] && LBUFFER+=\"$output\"\n    zle reset-prompt\n}\nzle -N rsime-widget\nbindkey '");
    reveal_strlit("' rsime-widget");
    reveal_strlit("bindkey '");
    let p = "# rsime TUI keybinding\nrsime-widget() {\n    local output\n    output=$(rsime tui)\n    [[ -n \"$output\" ]] && LBUFFER+=\"$output\"\n    zle reset-prompt\n}\nzle -N rsime-widget\nbindkey '"@;
    let rest = zsh_key_spec(key) + "' rsime-widget"@;
    assert(zsh_binding_spec(key) =~= p + rest);
    reveal_strlit("rsime tui");
    assert(p.subrange(70, 79) =~= "rsime tui"@);
    lemma_found_in_front(p, rest, "rsime tui"@, 70);
    reveal_strlit("[[ -n \"$output\" ]] && LBUFFER+=\"$output\"");
    assert(p.subrange(85, 125) =~= "[[ -n \"$output\" ]] && LBUFFER+=\"$output\""@);
    lemma_found_in_front(p, rest, "[[ -n \"$output\" ]] && LBUFFER+=\"$output\""@, 85);
    reveal_strlit("zle reset-prompt");
    assert(p.subrange(130, 146) =~= "zle reset-prompt"@);
    lemma_found_in_front(p, rest, "zle reset-prompt"@, 130);
    reveal_strlit("zle -N rsime-widget");
    assert(p.subrange(149, 168) =~= "zle -N rsime-widget"@);
    lemma_found_in_front(p, rest, "zle -N rsime-widget"@, 149);
    let tail = "bindkey '"@ + zsh_key_spec(key) + "' rsime-widget"@;
    assert(p.skip(169) =~= "bindkey '"@);
    assert(zsh_binding_spec(key).skip(zsh_binding_spec(key).len() - tail.len()) =~= tail);
}

/// The fish binding binds the fish form of the key to running `rsime tui`,
/// inserting its output at the cursor with `commandline --insert`, and ends
/// by forcing a full repaint.
pub proof fn law_fish_binding_inserts_and_repaints(lowered: Seq<char>)
    ensures
        contains_text(fish_binding_spec(lowered), "rsime tui"@),
        contains_text(fish_binding_spec(lowered), "commandline --insert \"$output\""@),
        contains_text(fish_binding_spec(lowered), "commandline -f repaint"@),
        ({
            let s = fish_binding_spec(lowered);
            let head = "# rsime TUI keybinding\nbind "@ + fish_key_spec(lowered);
            let tail = "commandline -f repaint'"@;
            &&& s.len() >= head.len() + tail.len()
            &&& s.take(head.len() as int) == head
            &&& s.skip(s.len() - tail.len()) == tail
        }),
{
    reveal_strlit(" 'rsime tui | read -l output; and commandline --insert \"$output\"; commandline -f repaint'");
    reveal_strlit("commandline -f repaint'");
    let front = "# rsime TUI keybinding\nbind "@ + fish_key_spec(lowered);
    let p = " 'rsime tui | read -l output; and commandline --insert \"$output\"; commandline -f repaint'"@;
    assert(fish_binding_spec(lowered) =~= front + p);
    reveal_strlit("rsime tui");
    assert(p.subrange(2, 11) =~= "rsime tui"@);
    lemma_found_in_back(front, p, "rsime tui"@, 2);
    reveal_strlit("commandline --insert \"$output\"");
    assert(p.subrange(34, 64) =~= "commandline --insert \"$output\""@);
    lemma_found_in_back(front, p, "commandline --insert \"$output\""@, 34);
    reveal_strlit("commandline -f repaint");
    assert(p.subrange(66, 88) =~= "commandline -f repaint"@);
    lemma_found_in_back(front, p, "commandline -f repaint"@, 66);
    let s = fish_binding_spec(lowered);
    assert(s.take(front.len() as int) =~= front);
    assert(p.skip(66) =~= "commandline -f repaint'"@);
    assert(s.skip(s.len() - 23) =~= "commandline -f repaint'"@);
}

proof fn lemma_found_in_back(front: Seq<char>, p: Seq<char>, t: Seq<char>, i: int)
    requires
        0 <= i,
        i + t.len() <= p.len(),
        p.subrange(i, i + t.len()) == t,
    ensures
        contains_text(front + p, t),
{
    assert((front + p).subrange(front.len() + i, front.len() + i + t.len()) =~= t);
}

/// Why no key binding can be printed.
#[derive(Clone, Copy, Debug, PartialEq, Eq, Structural)]
pub enum BindError {
    /// The name is not that of a known shell.
    UnsupportedShell,
    /// The shell is known, but no key binding is written for it.
    NoKeybinding(ShellKind),
}

/// The key that the binding uses when none is given.
pub open spec fn default_bind_key() -> Seq<char> {
    "\\ei"@
}

/// The key binding script for the shell named `shell` and the key `key`
/// (`\ei` when none is given), or why there is none.
pub fn shell_bind_script(shell: &str, key: Option<&str>) -> (r: Result<String, BindError>)
    ensures
        ({
            let k = match key {
                Some(k) => k@,
                None => default_bind_key(),
            };
            match shell_named(shell@) {
                None => r == Err::<String, BindError>(BindError::UnsupportedShell),
                Some(ShellKind::Bash) => r matches Ok(s) && s@ == bash_binding_spec(k),
                Some(ShellKind::Zsh) => r matches Ok(s) && s@ == zsh_binding_spec(k),
                Some(ShellKind::Fish) => r matches Ok(s) && s@ == fish_binding_spec(lowercase(k)),
                Some(other) => r == Err::<String, BindError>(BindError::NoKeybinding(other)),
            }
        }),
{
    let kind = match parse_shell(shell) {
        Some(k) => k,
        None => return Err(BindError::UnsupportedShell),
    };
    let bind = match key {
        Some(k) => k,
        None => "\\ei",
    };
    match kind {
        ShellKind::Bash => Ok(bash_binding(bind)),
        ShellKind::Zsh => Ok(zsh_binding(bind)),
        ShellKind::Fish => {
            let lowered = to_lowercase(bind);
            Ok(fish_binding(lowered.as_str()))
        },
        other => Err(BindError::NoKeybinding(other)),
    }
}

// --- Command-line context from a shell binding ---

/// The command line and cursor that a shell binding hands over: none without
/// a line; for an empty line, an empty context only when a prompt was handed
/// over too; otherwise the line with the cursor given, or the end of the line
/// when no cursor position parses.
pub open spec fn shell_context_spec(
    line: Option<Seq<char>>,
    prompt: Option<Seq<char>>,
    point: Option<Seq<char>>,
) -> Option<(Seq<char>, nat)> {
    match line {
        None => None,
        Some(l) => if l.len() == 0 {
            match prompt {
                Some(p) => if p.len() > 0 {
                    Some((Seq::<char>::empty(), 0nat))
                } else {
                    None
                },
                None => None,
            }
        } else {
            let pos = match point {
                Some(p) => match parse_unsigned(p, usize::MAX as nat) {
                    Some(x) => x,
                    None => l.len(),
                },
                None => l.len(),
            };
            Some((l, pos))
        },
    }
}

/// Reads the command-line context from the values of the variables that a
/// shell binding sets.
pub fn shell_context(line: Option<&str>, prompt: Option<&str>, point: Option<&str>) -> (r: Option<
    (String, usize),
>)
    ensures
        match shell_context_spec(
            match line { Some(l) => Some(l@), None => None },
            match prompt { Some(p) => Some(p@), None => None },
            match point { Some(p) => Some(p@), None => None },
        ) {
            Some((l, pos)) => r matches Some((rl, rp)) && rl@ == l && rp as nat == pos,
            None => r is None,
        },
{
    let line = match line {
        Some(l) => l,
        None => return None,
    };
    let n = line.unicode_len();
    if n == 0 {
        match prompt {
            Some(p) => {
                if p.unicode_len() > 0 {
                    return Some((String::new(), 0));
                }
                return None;
            },
            None => return None,
        }
    }
    let pos: usize = match point {
        Some(p) => {
            let pc = chars_of(p);
            match parse_unsigned_chars(&pc, usize::MAX as u64) {
                Some(x) => x as usize,
                None => n,
            }
        },
        None => n,
    };
    Some((String::from_str(line), pos))
}

// --- Schema installation ---

/// The packages that installation asks for: the ones named, or `:preset`
/// when none is.
pub fn install_targets(packages: &Vec<String>) -> (r: Vec<String>)
    ensures
        packages@.len() == 0 ==> r@.len() == 1 && r@[0]@ == ":preset"@,
        packages@.len() > 0 ==> r@.len() == packages@.len() && forall|i: int|
            0 <= i < r@.len() ==> #[trigger] r@[i]@ == packages@[i]@,
{
    let mut r: Vec<String> = Vec::new();
    if packages.len() == 0 {
        r.push(String::from_str(":preset"));
        return r;
    }
    let mut i: usize = 0;
    while i < packages.len()
        invariant
            i <= packages@.len(),
            r@.len() == i,
            forall|k: int| 0 <= k < i ==> #[trigger] r@[k]@ == packages@[k]@,
        decreases packages.len() - i,
    {
        r.push(packages[i].clone());
        i = i + 1;
    }
    r
}

} // verus!
