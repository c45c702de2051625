use std::str::FromStr;

use ratatui::style::{Color, Modifier};
use rsime::prompt::{
    build_shell_line, parse_prompt_spans, prompt_line_from, strip_unhandled_escapes, PlainStyle,
    PromptSpan, MODIFIER_UNDERLINED_BIT,
};

fn spans_text(spans: &[PromptSpan]) -> String {
    spans.iter().map(|s| s.content.as_str()).collect()
}

fn raw(s: &str) -> PromptSpan {
    PromptSpan { content: s.to_string(), style: PlainStyle::plain() }
}

fn fg(style: &PlainStyle) -> Option<Color> {
    style.fg.as_deref().map(|name| Color::from_str(name).expect("a colour name ratatui reads"))
}

fn added(style: &PlainStyle) -> Modifier {
    Modifier::from_bits_truncate(style.add_modifier)
}

fn is_plain(style: &PlainStyle) -> bool {
    style.fg.is_none()
        && style.bg.is_none()
        && style.underline_color.is_none()
        && style.add_modifier == 0
        && style.sub_modifier == 0
}

#[test]
fn parse_prompt_plain_text() {
    let spans = parse_prompt_spans("host> ");
    assert_eq!(spans_text(&spans), "host> ");
}

#[test]
fn parse_prompt_keeps_color() {
    // green "foo", reset, then " bar"
    let spans = parse_prompt_spans("\x1b[32mfoo\x1b[0m bar");
    assert_eq!(spans_text(&spans), "foo bar");
    assert!(
        spans.iter().any(|s| fg(&s.style) == Some(Color::Green)),
        "green color should be preserved"
    );
}

#[test]
fn parse_prompt_multiline_takes_last_line() {
    let spans = parse_prompt_spans("line one\n> ");
    assert_eq!(spans_text(&spans), "> ");
}

#[test]
fn parse_prompt_trailing_newline() {
    // a trailing newline is skipped; the last non-empty line is taken
    let spans = parse_prompt_spans("host> \n");
    assert_eq!(spans_text(&spans), "host> ");
}

#[test]
fn parse_prompt_empty_returns_empty() {
    let spans = parse_prompt_spans("");
    assert!(spans_text(&spans).is_empty());
}

#[test]
fn build_shell_line_assembles_parts() {
    let prompt = vec![raw("host> ")];
    let line = build_shell_line(&prompt, "cd rsime", 2, "A", "niha", 2, "B");
    let text: String = spans_text(&line);
    assert_eq!(text, "host> cdAni|haB rsime");
}

#[test]
fn build_shell_line_preedit_is_styled_yellow_underlined() {
    let prompt = vec![raw("> ")];
    let line = build_shell_line(&prompt, "", 0, "", "ni", 2, "");
    let preedit_span = line
        .iter()
        .find(|s| s.content.as_str() == "ni")
        .expect("preedit span present");
    assert_eq!(fg(&preedit_span.style), Some(Color::Yellow));
    assert!(added(&preedit_span.style).contains(Modifier::UNDERLINED));
}

#[test]
fn strip_unhandled_escapes_removes_charset_designation() {
    let s = strip_unhandled_escapes("\x1b[92mfoo\x1b(B\x1b[m bar");
    assert_eq!(s, "\x1b[92mfoo\x1b[m bar");
}

#[test]
fn strip_unhandled_escapes_keeps_csi_and_osc() {
    let s = strip_unhandled_escapes("\x1b[31ma\x1b]0;title\x07b");
    assert_eq!(s, "\x1b[31ma\x1b]0;title\x07b");
}

#[test]
fn parse_prompt_handles_fish_charset_escape() {
    let spans = parse_prompt_spans("\x1b[92mblack_desk\x1b(B\x1b[m@\x1b[32m~/D\x1b(B\x1b[m> ");
    let text: String = spans_text(&spans);
    assert_eq!(text, "black_desk@~/D> ");
    assert!(!text.contains("(B"), "no (B leak");
}

#[test]
fn strip_escape_without_final_byte_keeps_following_text() {
    // ESC, intermediates, then a byte that is not a final byte
    assert_eq!(strip_unhandled_escapes("a\x1b(\u{e9}b"), "a\u{e9}b");
    // a lone ESC at the end is kept
    assert_eq!(strip_unhandled_escapes("a\x1b"), "a\x1b");
    // ESC followed by a final byte directly
    assert_eq!(strip_unhandled_escapes("x\x1b7y"), "xy");
    // non-ASCII text passes through
    assert_eq!(strip_unhandled_escapes("你好> "), "你好> ");
}

#[test]
fn parse_prompt_keeps_bold_and_takes_last_colored_line() {
    let spans = parse_prompt_spans("\x1b[1mtop\x1b[0m\n\x1b[34muser\x1b[0m$ \n\n");
    assert_eq!(spans_text(&spans), "user$ ");
    assert!(spans.iter().any(|s| fg(&s.style) == Some(Color::Blue)));
    assert!(spans.iter().all(|s| !added(&s.style).contains(Modifier::BOLD)));
}

#[test]
fn prompt_line_falls_back_to_last_plain_line_when_parsing_failed() {
    let spans = prompt_line_from(None, "first\r\nsecond\n\n");
    assert_eq!(spans.len(), 1);
    assert_eq!(spans[0].content, "second");
    assert!(is_plain(&spans[0].style));
    let spans = prompt_line_from(None, "");
    assert_eq!(spans.len(), 1);
    assert_eq!(spans[0].content, "");
}

#[test]
fn prompt_line_without_text_is_empty() {
    let parsed = vec![vec![raw("")], vec![]];
    assert!(prompt_line_from(Some(parsed), "").is_empty());
}

#[test]
fn build_shell_line_clamps_cursor_positions() {
    let prompt = vec![raw("$ ")];
    let line = build_shell_line(&prompt, "ab", 9, "", "xy", 7, "");
    assert_eq!(spans_text(&line), "$ abxy|");
    assert_eq!(line.len(), 8);
    assert_eq!(line[3].content, "xy");
    assert_eq!(fg(&line[3].style), Some(Color::Yellow));
    assert_eq!(line[3].style.add_modifier, MODIFIER_UNDERLINED_BIT);
    assert!(is_plain(&line[2].style));
    assert_eq!(line[5].content, "");
}

#[test]
fn parse_prompt_keeps_each_span_style() {
    // green, reset, then red and bold: each span keeps its own colour
    let spans = parse_prompt_spans("\x1b[32mgit\x1b[0m main\x1b[1;31m!\x1b[0m");
    assert_eq!(spans_text(&spans), "git main!");
    let git = spans.iter().find(|s| s.content == "git").expect("green span");
    assert_eq!(fg(&git.style), Some(Color::Green));
    let main = spans.iter().find(|s| s.content == " main").expect("plain span");
    assert_eq!(fg(&main.style), Some(Color::Reset));
    let bang = spans.iter().find(|s| s.content == "!").expect("red bold span");
    assert_eq!(fg(&bang.style), Some(Color::Red));
    assert!(added(&bang.style).contains(Modifier::BOLD));
}

#[test]
fn parse_prompt_keeps_rgb_and_indexed_colours() {
    let spans = parse_prompt_spans("\x1b[38;2;1;2;3ma\x1b[48;5;208mb");
    let a = spans.iter().find(|s| s.content == "a").expect("rgb span");
    assert_eq!(fg(&a.style), Some(Color::Rgb(1, 2, 3)));
    let b = spans.iter().find(|s| s.content == "b").expect("indexed span");
    assert_eq!(b.style.bg.as_deref().map(|n| Color::from_str(n).unwrap()), Some(Color::Indexed(208)));
}

#[test]
fn stripping_twice_is_stripping_once() {
    for s in ["\x1b[92mfoo\x1b(B\x1b[m bar", "a\x1b\x1b(Bb", "\x1b\x1b[1m", "x\x1b7y", "a\x1b"] {
        let once = strip_unhandled_escapes(s);
        assert_eq!(strip_unhandled_escapes(&once), once);
    }
}

/// The scan over UTF-8 bytes that the character-level stripping is proved to match.
fn strip_bytes(s: &str) -> Vec<u8> {
    let b = s.as_bytes();
    let mut out = Vec::new();
    let mut i = 0;
    while i < b.len() {
        if b[i] == 0x1b && i + 1 < b.len() && b[i + 1] != b'[' && b[i + 1] != b']' {
            i += 1;
            while i < b.len() && (0x20..=0x2f).contains(&b[i]) {
                i += 1;
            }
            if i < b.len() && (0x30..=0x7e).contains(&b[i]) {
                i += 1;
            }
        } else {
            out.push(b[i]);
            i += 1;
        }
    }
    out
}

#[test]
fn stripping_characters_matches_the_byte_scan() {
    for s in ["你\x1b(B好", "\x1b\u{e9}x", "a\x1b(\u{4e2d}b", "\x1b[1m粗\x1b(0\x1b]0;题\x07", "é\x1b", "\x1b#8ü"] {
        assert_eq!(strip_unhandled_escapes(s).as_bytes(), strip_bytes(s).as_slice(), "input {s:?}");
    }
}
