use ai_surfer::cloud::{provision_request, release_request, session_from_response};
use ai_surfer::error::AppError;
use ai_surfer::navigation::{navigation_decision, NavDecision};

#[test]
fn provisioning_needs_a_key_and_a_valid_base() {
    match provision_request(&None, "https://api.example.com/", &None) {
        Err(AppError::Unauthorized(m)) => assert_eq!(m, "api key missing"),
        other => panic!("unexpected {other:?}"),
    }
    let req = provision_request(&Some("k".to_string()), "https://api.example.com/", &Some("eu".to_string()))
        .expect("request");
    assert_eq!(req.url, "https://api.example.com/v1/browsers");
    assert_eq!(req.bearer, "k");
    assert_eq!(req.region.as_deref(), Some("eu"));
    match provision_request(&Some("k".to_string()), "not a url", &None) {
        Err(AppError::ValidationError(m)) => assert!(m.starts_with("base_url: "), "{m}"),
        other => panic!("unexpected {other:?}"),
    }
}

#[test]
fn release_goes_to_the_session_url() {
    let req = release_request(&Some("k".to_string()), "https://api.example.com/", "abc").expect("request");
    assert_eq!(req.url, "https://api.example.com/v1/browsers/abc");
    assert!(matches!(release_request(&None, "https://api.example.com/", "abc"), Err(AppError::Unauthorized(_))));
}

#[test]
fn sessions_need_a_parsable_devtools_url() {
    let s = session_from_response("s1".to_string(), "ws://host:9222/devtools", None, 7).expect("session");
    assert_eq!(s.cdp_url, "ws://host:9222/devtools");
    assert_eq!(s.session_id, "s1");
    assert_eq!(s.expires_at_unix_ms, 7);
    match session_from_response("s1".to_string(), "nope", None, 7) {
        Err(AppError::ValidationError(m)) => assert!(m.starts_with("cdp_url: "), "{m}"),
        other => panic!("unexpected {other:?}"),
    }
}

#[test]
fn only_top_frame_navigations_are_reported() {
    assert!(matches!(navigation_decision(true, "https://example.com/"), NavDecision::Skip));
    match navigation_decision(false, "https://example.com") {
        NavDecision::Publish(u) => assert_eq!(u, "https://example.com/"),
        NavDecision::Skip => panic!("a top-frame navigation is reported"),
    }
    assert!(matches!(navigation_decision(false, "not a url"), NavDecision::Skip));
}
