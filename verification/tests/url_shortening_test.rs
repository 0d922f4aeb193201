use ai_surfer::url_shortening::UrlShortener;

#[test]
fn short_urls_are_left_alone() {
    let mut s = UrlShortener::new();
    let out = s.shorten("see http://x.io");
    assert_eq!(out, "see http://x.io");
}

#[test]
fn long_urls_are_replaced_and_restored() {
    let mut s = UrlShortener::new();
    let long = format!("https://example.com/{}", "a".repeat(120));
    let input = format!("visit {long} now");
    let shortened = s.shorten(&input);
    assert!(shortened.contains("ras://url/0"));
    assert!(!shortened.contains(&long));
    let restored = s.restore(&shortened);
    assert_eq!(restored, input);
}

#[test]
fn duplicate_urls_collapse_to_one_key() {
    let mut s = UrlShortener::new();
    let long = format!("https://example.com/{}", "x".repeat(120));
    s.shorten(&format!("a {long} b {long}"));
    let restored = s.restore("ras://url/0 ras://url/0");
    assert_eq!(restored, format!("{long} {long}"));
}

#[test]
fn keys_are_numbered_in_order_across_calls() {
    let mut s = UrlShortener::new();
    let u1 = format!("https://a.example/{}", "1".repeat(90));
    let u2 = format!("https://b.example/{}", "2".repeat(90));
    assert_eq!(s.shorten(&format!("{u1}")), "ras://url/0");
    assert_eq!(s.shorten(&format!("x {u2} y {u1}")), "x ras://url/1 y ras://url/0");
    assert_eq!(s.restore("ras://url/1|ras://url/0"), format!("{u2}|{u1}"));
}

#[test]
fn url_of_exactly_eighty_bytes_is_shortened() {
    let mut s = UrlShortener::new();
    let prefix = "https://e.x/";
    let u80 = format!("{prefix}{}", "z".repeat(80 - prefix.len()));
    let u79 = format!("{prefix}{}", "z".repeat(79 - prefix.len()));
    assert_eq!(u80.len(), 80);
    assert_eq!(s.shorten(&u79), u79);
    assert_eq!(s.shorten(&u80), "ras://url/0");
    assert_eq!(s.shorten("quoted \"https://q.example/\" stays"), "quoted \"https://q.example/\" stays");
}

#[test]
fn several_long_urls_round_trip() {
    let mut s = UrlShortener::new();
    let a = format!("https://example.com/{}", "a".repeat(100));
    let b = format!("http://example.org/{}", "b".repeat(100));
    let input = format!("first {a} then \"{b}\" and <{a}> end http://x.io");
    let shortened = s.shorten(&input);
    assert_eq!(shortened, "first ras://url/0 then \"ras://url/1\" and <ras://url/0> end http://x.io");
    assert_eq!(s.restore(&shortened), input);
}

#[test]
fn round_trip_after_earlier_calls() {
    let mut s = UrlShortener::new();
    let a = format!("https://example.com/{}", "a".repeat(100));
    let b = format!("https://example.net/{}", "b".repeat(100));
    let first = s.shorten(&format!("see {a}"));
    assert_eq!(first, "see ras://url/0");
    let input = format!("now {b} and again {a}");
    let shortened = s.shorten(&input);
    assert_eq!(shortened, "now ras://url/1 and again ras://url/0");
    assert_eq!(s.restore(&shortened), input);
}
