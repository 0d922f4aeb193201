use ai_surfer::clickable_map::{render_clickable_map, BrowserStateSummary, ClickableElement, CLICKABLE_LIMIT};
use ai_surfer::ids::TargetId;

fn summary_with(clickables: Vec<ClickableElement>) -> BrowserStateSummary {
    BrowserStateSummary {
        target: TargetId("mock".to_string()),
        url: "https://example.com/".to_string(),
        title: "T".to_string(),
        clickables,
        screenshot_b64: None,
    }
}

fn click(idx: u32, tag: &str, ax_name: Option<&str>, label: Option<&str>) -> ClickableElement {
    ClickableElement {
        index: idx,
        backend_node_id: idx as i64,
        xpath: String::new(),
        stable_hash: String::new(),
        ax_name: ax_name.map(String::from),
        tag: tag.to_string(),
        label: label.map(String::from),
    }
}

#[test]
fn empty_clickables_yields_empty_string() {
    assert_eq!(render_clickable_map(&summary_with(vec![])), "");
}

#[test]
fn ax_name_takes_precedence_over_label() {
    let s = summary_with(vec![click(0, "button", Some("Sign in"), Some("submit"))]);
    let out = render_clickable_map(&s);
    assert!(out.contains("[0] button \"Sign in\""));
    assert!(!out.contains("submit"));
}

#[test]
fn label_used_when_no_ax_name() {
    let s = summary_with(vec![click(0, "input", None, Some("user@example.com"))]);
    let out = render_clickable_map(&s);
    assert!(out.contains("[0] input \"user@example.com\""));
}

#[test]
fn no_quotes_when_neither_ax_nor_label() {
    let s = summary_with(vec![click(0, "a", None, None)]);
    let out = render_clickable_map(&s);
    assert!(out.contains("[0] a\n"));
    assert!(!out.contains('"'));
}

#[test]
fn truncates_beyond_limit_with_more_marker() {
    let many: Vec<ClickableElement> = (0..(CLICKABLE_LIMIT as u32 + 5)).map(|i| click(i, "div", None, None)).collect();
    let s = summary_with(many);
    let out = render_clickable_map(&s);
    assert!(out.contains(&format!("[{}]", CLICKABLE_LIMIT - 1)));
    assert!(!out.contains(&format!("[{}]", CLICKABLE_LIMIT)));
    assert!(out.contains("\u{2026}and 5 more (truncated)"));
}

#[test]
fn full_map_text_is_exact() {
    let s = summary_with(vec![click(3, "button", Some("Go"), None), click(12, "a", None, None)]);
    assert_eq!(render_clickable_map(&s), "clickable_elements:\n  [3] button \"Go\"\n  [12] a\n");
}

#[test]
fn long_names_are_cut_to_the_budget_with_an_ellipsis() {
    let long = "x".repeat(100);
    let s = summary_with(vec![click(0, "a", Some(&long), None)]);
    let out = render_clickable_map(&s);
    let expected = format!("  [0] a \"{}\u{2026}\"\n", "x".repeat(80));
    assert!(out.ends_with(&expected));
}

#[test]
fn exactly_the_limit_has_no_more_marker() {
    let many: Vec<ClickableElement> = (0..CLICKABLE_LIMIT as u32).map(|i| click(i, "div", None, None)).collect();
    let out = render_clickable_map(&summary_with(many));
    assert!(out.contains(&format!("[{}]", CLICKABLE_LIMIT - 1)));
    assert!(!out.contains("more (truncated)"));
}
