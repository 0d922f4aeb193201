use sha2::Digest;
use ai_surfer::action_hash::{hash_action, hash_normalization, strip_query, HashNormalization, PAGINATION_KEYS};
use ai_surfer::ids::ActionName;

fn name(s: &str) -> ActionName {
    ActionName(s.to_string())
}

#[test]
fn different_actions_have_different_hashes() {
    let a = hash_action(&name("click"), "{\"index\":1}");
    let b = hash_action(&name("scroll"), "{\"index\":1}");
    assert_ne!(a, b);
}

#[test]
fn same_action_same_hash() {
    let a = hash_action(&name("click"), "{\"index\":1}");
    let b = hash_action(&name("click"), "{\"index\":1}");
    assert_eq!(a, b);
}

#[test]
fn search_strips_pagination_fields() {
    assert_eq!(hash_normalization(&name("search_page")), HashNormalization::DropPagination);
    assert_eq!(hash_normalization(&name("find_elements")), HashNormalization::DropPagination);
    assert_eq!(PAGINATION_KEYS, ["max_results", "offset"]);
    let mut a: serde_json::Value = serde_json::from_str(r#"{"query":"q","max_results":10}"#).unwrap();
    let mut b: serde_json::Value = serde_json::from_str(r#"{"query":"q","max_results":50}"#).unwrap();
    for k in PAGINATION_KEYS {
        a.as_object_mut().unwrap().remove(k);
        b.as_object_mut().unwrap().remove(k);
    }
    assert_eq!(
        hash_action(&name("search_page"), &serde_json::to_string(&a).unwrap()),
        hash_action(&name("search_page"), &serde_json::to_string(&b).unwrap())
    );
}

#[test]
fn navigate_strips_query_string() {
    assert_eq!(hash_normalization(&name("navigate")), HashNormalization::StripUrlQuery);
    let a = strip_query("https://example.com/x?a=1");
    let b = strip_query("https://example.com/x?a=2");
    assert_eq!(a, "https://example.com/x");
    assert_eq!(hash_action(&name("navigate"), &a), hash_action(&name("navigate"), &b));
}

#[test]
fn strip_query_edge_cases() {
    assert_eq!(strip_query("https://example.com/"), "https://example.com");
    assert_eq!(strip_query("https://example.com///?q"), "https://example.com");
    assert_eq!(strip_query("?x"), "");
    assert_eq!(strip_query(""), "");
    assert_eq!(hash_normalization(&name("click")), HashNormalization::Unchanged);
}

#[test]
fn hash_is_sha256_of_name_bar_params() {
    let expected: String = sha2::Sha256::digest(b"click|{}").iter().map(|b| format!("{:02x}", b)).collect();
    assert_eq!(hash_action(&name("click"), "{}"), expected);
}

#[test]
fn action_hashes_are_64_lowercase_hex_characters() {
    for (name, params) in [("click", "{\"index\":1}"), ("scroll", ""), ("navigate", "{\"url\":\"https://e.com\"}")] {
        let h = hash_action(&ActionName(name.to_string()), params);
        assert_eq!(h.len(), 64);
        assert!(h.chars().all(|c| c.is_ascii_digit() || ('a'..='f').contains(&c)), "{h}");
    }
}
