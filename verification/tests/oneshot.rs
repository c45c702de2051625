use rsime::engine::{Candidate, Menu};
use rsime::oneshot::{candidate_listing, convert_step, ConvertStep};

#[test]
fn conversion_steps() {
    assert_eq!(convert_step(false, false), ConvertStep::Print);
    assert_eq!(convert_step(false, true), ConvertStep::Print);
    assert_eq!(convert_step(true, true), ConvertStep::ShowCandidates);
    assert_eq!(convert_step(true, false), ConvertStep::PressSpace);
}

#[test]
fn candidate_listing_lines() {
    let menu = Menu {
        page_size: 5,
        page_no: 0,
        is_last_page: true,
        highlighted_candidate_index: 0,
        candidates: vec![
            Candidate { text: "你好".to_string(), comment: None },
            Candidate { text: "拟好".to_string(), comment: Some("~hao".to_string()) },
        ],
        select_keys: None,
    };
    assert_eq!(candidate_listing(&menu), vec!["1. 你好", "2. 拟好~hao"]);
}
