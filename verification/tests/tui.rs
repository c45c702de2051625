use rsime::engine::{Candidate, Menu};
use rsime::keys::{KeyEvent, KEY_BACKSPACE, KEY_DOWN, KEY_PAGEDOWN, KEY_PAGEUP, KEY_RETURN, KEY_UP};
use rsime::prompt::{PromptSpan, MODIFIER_DIM_BIT};
use rsime::tui::{candidate_entries, candidate_line, composition_line, TuiAction, TuiBuffer, TuiKey};

fn buffer_with(text: &str) -> TuiBuffer {
    let mut b = TuiBuffer::new();
    b.insert_commit(text);
    b
}

#[test]
fn commits_insert_at_the_cursor() {
    let mut b = buffer_with("你好");
    assert_eq!((b.output(), b.cursor()), ("你好", 2));
    assert_eq!(b.handle_key(TuiKey::Left, false, true), TuiAction::Continue);
    b.insert_commit("们");
    assert_eq!((b.output(), b.cursor()), ("你们好", 2));
    b.insert_commit("");
    assert_eq!((b.output(), b.cursor()), ("你们好", 2));
    assert_eq!(b.left_of_cursor(), "你们");
    assert_eq!(b.right_of_cursor(), "好");
}

#[test]
fn editing_keys_without_preedit() {
    let mut b = buffer_with("abc");
    assert_eq!(b.handle_key(TuiKey::Backspace, false, true), TuiAction::Continue);
    assert_eq!((b.output(), b.cursor()), ("ab", 2));
    assert_eq!(b.handle_key(TuiKey::Delete, false, true), TuiAction::Continue);
    assert_eq!((b.output(), b.cursor()), ("ab", 2));
    b.handle_key(TuiKey::Left, false, true);
    b.handle_key(TuiKey::Left, false, true);
    b.handle_key(TuiKey::Left, false, true);
    assert_eq!(b.cursor(), 0);
    assert_eq!(b.handle_key(TuiKey::Backspace, false, true), TuiAction::Continue);
    assert_eq!((b.output(), b.cursor()), ("ab", 0));
    b.handle_key(TuiKey::Delete, false, true);
    assert_eq!((b.output(), b.cursor()), ("b", 0));
    b.handle_key(TuiKey::Right, false, true);
    b.handle_key(TuiKey::Right, false, true);
    assert_eq!(b.cursor(), 1);
    assert_eq!(b.into_output(), "b");
}

#[test]
fn keys_while_composing_go_to_the_engine() {
    let mut b = buffer_with("ab");
    let send = |code: u32| TuiAction::Send(KeyEvent::new(code as i32));
    assert_eq!(b.handle_key(TuiKey::Backspace, false, false), send(KEY_BACKSPACE));
    assert_eq!(b.handle_key(TuiKey::Enter, false, false), send(KEY_RETURN));
    assert_eq!(b.handle_key(TuiKey::Left, false, false), TuiAction::Continue);
    assert_eq!(b.handle_key(TuiKey::Delete, false, false), TuiAction::Continue);
    assert_eq!((b.output(), b.cursor()), ("ab", 2));
    assert_eq!(b.handle_key(TuiKey::Char('n'), false, false), TuiAction::Send(KeyEvent::new('n' as i32)));
    assert_eq!(b.handle_key(TuiKey::Char('a'), true, true), TuiAction::Send(KeyEvent::new('a' as i32)));
    assert_eq!(b.handle_key(TuiKey::Up, false, true), send(KEY_UP));
    assert_eq!(b.handle_key(TuiKey::Down, false, true), send(KEY_DOWN));
    assert_eq!(b.handle_key(TuiKey::Tab, false, true), send(KEY_DOWN));
    assert_eq!(b.handle_key(TuiKey::PageUp, false, true), send(KEY_PAGEUP));
    assert_eq!(b.handle_key(TuiKey::PageDown, false, true), send(KEY_PAGEDOWN));
    assert_eq!(b.handle_key(TuiKey::Other, false, true), TuiAction::Continue);
}

#[test]
fn leaving_the_tui() {
    let mut b = TuiBuffer::new();
    assert_eq!(b.handle_key(TuiKey::Esc, false, false), TuiAction::Quit);
    assert_eq!(b.handle_key(TuiKey::Char('c'), true, false), TuiAction::Quit);
    assert_eq!(b.handle_key(TuiKey::Enter, false, true), TuiAction::Quit);
}

#[test]
fn backspace_takes_back_a_commit() {
    let mut b = buffer_with("xz");
    b.handle_key(TuiKey::Left, false, true);
    b.insert_commit("y");
    assert_eq!(b.output(), "xyz");
    b.handle_key(TuiKey::Backspace, false, true);
    assert_eq!((b.output(), b.cursor()), ("xz", 1));
    b.handle_key(TuiKey::Left, false, true);
    b.handle_key(TuiKey::Right, false, true);
    assert_eq!(b.cursor(), 1);
}

fn menu(cands: &[&str], highlighted: usize) -> Menu {
    Menu {
        page_size: 9,
        page_no: 0,
        is_last_page: true,
        highlighted_candidate_index: highlighted,
        candidates: cands.iter().map(|c| Candidate { text: c.to_string(), comment: None }).collect(),
        select_keys: None,
    }
}

#[test]
fn candidate_labels() {
    let m = menu(&["你", "尼", "泥"], 1);
    assert_eq!(candidate_entries(&m), vec![" 1.你", ">2.尼", " 3.泥"]);
    assert_eq!(candidate_line(&m), " 1.你  >2.尼   3.泥");
    let many: Vec<String> = (0..12).map(|i| format!("c{i}")).collect();
    let refs: Vec<&str> = many.iter().map(|s| s.as_str()).collect();
    assert_eq!(candidate_entries(&menu(&refs, 11))[11], ">12.c11");
    assert_eq!(candidate_line(&menu(&[], 0)), "");
}

fn text(spans: &[PromptSpan]) -> String {
    spans.iter().map(|s| s.content.as_str()).collect()
}

#[test]
fn first_line_modes() {
    let mut b = buffer_with("AB");
    b.handle_key(TuiKey::Left, false, true);

    let idle = composition_line(&TuiBuffer::new(), "", 0, false);
    assert_eq!(text(&idle), "❯ Type pinyin, Esc to finish");
    assert_eq!(idle[0].style.add_modifier, MODIFIER_DIM_BIT);

    let plain = composition_line(&b, "niha", 2, true);
    assert_eq!(plain.len(), 1);
    assert_eq!(text(&plain), "❯ Ani|haB");
    assert_eq!(plain[0].style.add_modifier, 0);
    assert!(plain[0].style.fg.is_none());

    // only committed text: no hint
    assert_eq!(text(&composition_line(&b, "", 0, false)), "❯ A|B");
    // only candidates: no hint
    assert_eq!(text(&composition_line(&TuiBuffer::new(), "", 0, true)), "❯ |");
}

#[test]
fn backspaces_take_back_a_longer_commit() {
    let mut b = buffer_with("ab");
    b.handle_key(TuiKey::Left, false, true);
    b.insert_commit("你们好");
    assert_eq!((b.output(), b.cursor()), ("a你们好b", 4));
    for _ in 0..3 {
        b.handle_key(TuiKey::Backspace, false, true);
    }
    assert_eq!((b.output(), b.cursor()), ("ab", 1));
}
