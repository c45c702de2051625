use rsime::keys::{
    parse_vim_key, KeyEvent, KEY_BACKSPACE, KEY_DELETE, KEY_DOWN, KEY_END, KEY_ESCAPE, KEY_HOME,
    KEY_LEFT, KEY_PAGEDOWN, KEY_PAGEUP, KEY_RETURN, KEY_RIGHT, KEY_SPACE, KEY_TAB, KEY_UP,
    MODIFIER_ALT, MODIFIER_CONTROL, MODIFIER_RELEASE, MODIFIER_SHIFT,
};

#[test]
fn vim_special_keys() {
    let cases = [
        ("<CR>", KEY_RETURN),
        ("<Return>", KEY_RETURN),
        ("<Enter>", KEY_RETURN),
        ("<BS>", KEY_BACKSPACE),
        ("<BackSpace>", KEY_BACKSPACE),
        ("<Space>", KEY_SPACE),
        ("<Esc>", KEY_ESCAPE),
        ("<Escape>", KEY_ESCAPE),
        ("<Up>", KEY_UP),
        ("<Down>", KEY_DOWN),
        ("<Left>", KEY_LEFT),
        ("<Right>", KEY_RIGHT),
        ("<Tab>", KEY_TAB),
        ("<Del>", KEY_DELETE),
        ("<Delete>", KEY_DELETE),
        ("<Home>", KEY_HOME),
        ("<End>", KEY_END),
        ("<PageUp>", KEY_PAGEUP),
        ("<PageDown>", KEY_PAGEDOWN),
    ];
    for (name, code) in cases {
        assert_eq!(parse_vim_key(name), Some(code as i32), "{name}");
    }
    assert_eq!(KEY_RETURN, 0xff0d);
    assert_eq!(KEY_ESCAPE, 0xff1b);
}

#[test]
fn vim_plain_and_unknown_keys() {
    assert_eq!(parse_vim_key("n"), Some('n' as i32));
    assert_eq!(parse_vim_key("  n\n"), Some('n' as i32));
    assert_eq!(parse_vim_key("2"), Some('2' as i32));
    assert_eq!(parse_vim_key("<"), Some('<' as i32));
    assert_eq!(parse_vim_key("你"), Some('你' as i32));
    assert_eq!(parse_vim_key("<Foo>"), None);
    assert_eq!(parse_vim_key("<cr>"), None);
    assert_eq!(parse_vim_key("<>"), None);
    assert_eq!(parse_vim_key("ni"), None);
    assert_eq!(parse_vim_key(""), None);
    assert_eq!(parse_vim_key(" \t "), None);
    assert_eq!(parse_vim_key(" <CR> "), Some(KEY_RETURN as i32));
}

#[test]
fn key_event_modifiers() {
    let k = KeyEvent::new('a' as i32);
    assert_eq!(k.modifiers, 0);
    assert_eq!(k.shift().modifiers, MODIFIER_SHIFT as i32);
    assert_eq!(k.ctrl().alt().modifiers, (MODIFIER_CONTROL | MODIFIER_ALT) as i32);
    assert_eq!(k.shift().shift(), k.shift());
    assert_eq!(k.ctrl().shift(), k.shift().ctrl());
    let r = KeyEvent::with_modifiers(KEY_UP as i32, MODIFIER_SHIFT as i32).release();
    assert_eq!(r.key_code, KEY_UP as i32);
    assert_eq!(r.modifiers, (MODIFIER_SHIFT | MODIFIER_RELEASE) as i32);
    assert_eq!(MODIFIER_RELEASE, 1 << 30);
}
