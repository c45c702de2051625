use rsime::engine::{
    deploy_outcome, record_notification, Candidate, Commit, Context, DeployResult, RawComposition,
    RawMenu, RawStatus, SchemaInfo, Status,
};

fn cand(text: &str, comment: Option<&str>) -> Candidate {
    Candidate { text: text.to_string(), comment: comment.map(|c| c.to_string()) }
}

pub fn sample_context() -> Context {
    Context::new(
        RawComposition { length: 2, cursor_pos: 2, sel_start: 0, sel_end: 2, preedit: Some("ni".to_string()) },
        RawMenu {
            page_size: 5,
            page_no: 0,
            is_last_page: 0,
            highlighted_candidate_index: 1,
            candidates: vec![cand("你", None), cand("尼", Some("ni2"))],
            select_keys: None,
        },
        Some("你".to_string()),
        Some(vec![Some("1.".to_string()), None, Some("3.".to_string())]),
    )
}

#[test]
fn context_reports_what_the_engine_gave() {
    let ctx = sample_context();
    let comp = ctx.composition();
    assert_eq!((comp.length, comp.cursor_pos, comp.sel_start, comp.sel_end), (2, 2, 0, 2));
    assert_eq!(comp.preedit.as_deref(), Some("ni"));
    let menu = ctx.menu();
    assert_eq!(menu.page_size, 5);
    assert!(!menu.is_last_page);
    assert_eq!(menu.highlighted_candidate_index, 1);
    assert_eq!(menu.candidates.len(), 2);
    assert_eq!(menu.candidates[1].text, "尼");
    assert_eq!(menu.candidates[1].comment.as_deref(), Some("ni2"));
    assert_eq!(menu.select_keys, None);
    assert_eq!(ctx.commit_text_preview().as_deref(), Some("你"));
    assert_eq!(ctx.select_labels(), vec!["1.".to_string(), "3.".to_string()]);
}

#[test]
fn context_without_labels_and_negative_fields() {
    let ctx = Context::new(
        RawComposition { length: 0, cursor_pos: -1, sel_start: 0, sel_end: 0, preedit: None },
        RawMenu {
            page_size: 0,
            page_no: 3,
            is_last_page: 7,
            highlighted_candidate_index: 0,
            candidates: vec![],
            select_keys: Some("123".to_string()),
        },
        None,
        None,
    );
    assert!(ctx.select_labels().is_empty());
    assert_eq!(ctx.composition().cursor_pos, -1i32 as usize);
    assert_eq!(ctx.composition().preedit, None);
    assert!(ctx.menu().is_last_page);
    assert_eq!(ctx.menu().page_no, 3);
    assert_eq!(ctx.menu().select_keys.as_deref(), Some("123"));
    assert_eq!(ctx.commit_text_preview(), None);
}

#[test]
fn commit_and_status() {
    assert_eq!(Commit::new("你好".to_string()).text(), "你好");
    let st = Status::new(RawStatus {
        schema_id: "luna_pinyin".to_string(),
        schema_name: "朙月拼音".to_string(),
        is_disabled: 0,
        is_composing: 1,
        is_ascii_mode: 0,
        is_full_shape: 2,
        is_simplified: 1,
        is_traditional: 0,
        is_ascii_punct: -1,
    });
    assert_eq!(st.schema_id(), "luna_pinyin");
    assert_eq!(st.schema_name(), "朙月拼音");
    assert!(!st.is_disabled());
    assert!(st.is_composing());
    assert!(!st.is_ascii_mode());
    assert!(st.is_full_shape());
    assert!(st.is_simplified());
    assert!(!st.is_traditional());
    assert!(st.is_ascii_punct());
}

#[test]
fn deployment_follows_notifications() {
    let mut rec = None;
    record_notification(&mut rec, "schema", "luna_pinyin/朙月拼音");
    assert_eq!(rec, None);
    record_notification(&mut rec, "deploy", "start");
    assert_eq!(rec, None);
    record_notification(&mut rec, "deploy", "success");
    assert_eq!(rec, Some(DeployResult::Success));
    record_notification(&mut rec, "option", "ascii_mode");
    assert_eq!(rec, Some(DeployResult::Success));
    assert_eq!(deploy_outcome(true, rec), DeployResult::Success);
    assert_eq!(deploy_outcome(false, rec), DeployResult::Failure);
    record_notification(&mut rec, "deploy", "failure");
    assert_eq!(deploy_outcome(true, rec), DeployResult::Failure);
    assert_eq!(deploy_outcome(true, None), DeployResult::Failure);
}

fn judge(started: bool, msgs: &[(&str, &str)]) -> DeployResult {
    let mut rec = None;
    for (t, v) in msgs {
        record_notification(&mut rec, t, v);
    }
    deploy_outcome(started, rec)
}

#[test]
fn deployment_is_judged_by_the_last_result_notification() {
    let ok = [("deploy", "start"), ("deploy", "failure"), ("schema", "x"), ("deploy", "success"), ("deploy", "start")];
    assert_eq!(judge(true, &ok), DeployResult::Success);
    assert_eq!(judge(false, &ok), DeployResult::Failure);
    let bad = [("deploy", "success"), ("deploy", "failure"), ("option", "ascii_mode")];
    assert_eq!(judge(true, &bad), DeployResult::Failure);
    assert_eq!(judge(true, &[("deploy", "start"), ("option", "full_shape")]), DeployResult::Failure);
    assert_eq!(judge(true, &[]), DeployResult::Failure);
    // a result left from before is replaced by a later one
    let mut rec = Some(DeployResult::Success);
    record_notification(&mut rec, "deploy", "failure");
    assert_eq!(rec, Some(DeployResult::Failure));
}

#[test]
fn schema_listing() {
    let s = SchemaInfo { schema_id: "luna_pinyin".to_string(), name: "朙月拼音".to_string() };
    assert_eq!(s.listing_line(), "luna_pinyin\t朙月拼音");
}
