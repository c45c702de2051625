use rsime::engine::{Candidate, Context, RawComposition, RawMenu};
use rsime::keys::{KeyEvent, KEY_BACKSPACE, KEY_ESCAPE, KEY_RETURN};
use rsime::stdio::{concat_commits, is_composing, stdio_action, stdio_key_code, stdio_response, StdioAction};

fn context(preedit: Option<&str>, length: i32, cands: &[&str], highlighted: i32) -> Context {
    Context::new(
        RawComposition { length, cursor_pos: length, sel_start: 0, sel_end: length, preedit: preedit.map(|p| p.to_string()) },
        RawMenu {
            page_size: 5,
            page_no: 0,
            is_last_page: 1,
            highlighted_candidate_index: highlighted,
            candidates: cands.iter().map(|c| Candidate { text: c.to_string(), comment: None }).collect(),
            select_keys: None,
        },
        None,
        None,
    )
}

#[test]
fn stdio_lines_to_keys() {
    assert_eq!(stdio_key_code(""), None);
    assert_eq!(stdio_key_code("\n"), None);
    assert_eq!(stdio_key_code("n\n"), Some('n' as i32));
    assert_eq!(stdio_key_code("<BS>\n"), Some(KEY_BACKSPACE as i32));
    assert_eq!(stdio_key_code("<Foo>\n"), None);
}

#[test]
fn stdio_escape_quits_only_outside_composition() {
    let esc = KEY_ESCAPE as i32;
    assert_eq!(stdio_action(esc, false), StdioAction::Quit);
    assert_eq!(stdio_action(esc, true), StdioAction::Process(KeyEvent::new(esc)));
    assert_eq!(stdio_action('n' as i32, false), StdioAction::Process(KeyEvent::new('n' as i32)));
    assert_eq!(
        stdio_action(KEY_RETURN as i32, true),
        StdioAction::Process(KeyEvent::new(KEY_RETURN as i32))
    );
    assert!(is_composing(&Some(context(Some("n"), 1, &["你"], 0))));
    assert!(!is_composing(&Some(context(None, 0, &[], 0))));
    assert!(!is_composing(&None));
}

#[test]
fn stdio_response_fields() {
    let r = stdio_response(&vec![], &Some(context(Some("ni"), 2, &["你", "泥"], 1)));
    assert_eq!(r.commit, "");
    assert_eq!(r.preedit, "ni");
    assert_eq!(r.candidates.len(), 2);
    assert_eq!(r.candidates[0].text, "你");
    assert_eq!(r.highlighted, 1);

    let r = stdio_response(&vec!["你".to_string(), "好".to_string()], &Some(context(None, 0, &[], 0)));
    assert_eq!(r.commit, "你好");
    assert_eq!(r.preedit, "");
    assert!(r.candidates.is_empty());

    let r = stdio_response(&vec!["x".to_string()], &None);
    assert_eq!(r.commit, "x");
    assert_eq!(r.preedit, "");
    assert!(r.candidates.is_empty());
    assert_eq!(r.highlighted, 0);
    assert_eq!(concat_commits(&vec![]), "");
}
