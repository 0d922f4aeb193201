use ai_surfer::error::AppError;
use ai_surfer::ids::TargetId;
use ai_surfer::targets::{focused_target_of, targets_in_context, ContextId, TargetInfo};

fn info(id: &str, kind: &str, ctx: Option<&str>) -> TargetInfo {
    TargetInfo { target_id: id.to_string(), kind: kind.to_string(), context: ctx.map(String::from) }
}

#[test]
fn only_pages_of_the_context_are_listed() {
    let infos = vec![
        info("a", "page", Some("c1")),
        info("b", "page", Some("c2")),
        info("c", "iframe", Some("c1")),
        info("d", "page", None),
        info("e", "page", Some("c1")),
    ];
    let ids: Vec<String> = targets_in_context(&infos, &ContextId("c1".to_string())).into_iter().map(|t| t.0).collect();
    assert_eq!(ids, vec!["a".to_string(), "e".to_string()]);
    assert!(targets_in_context(&infos, &ContextId("c9".to_string())).is_empty());
}

#[test]
fn focused_target_is_the_last_listed() {
    let t = focused_target_of(vec![TargetId("one".to_string()), TargetId("two".to_string())]).expect("a target");
    assert_eq!(t.0, "two");
    match focused_target_of(Vec::new()) {
        Err(AppError::NotFound(m)) => assert_eq!(m, "no focused target"),
        other => panic!("unexpected {other:?}"),
    }
}
