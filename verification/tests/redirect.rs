use redirect_https::{Outcome, RedirectHTTPS, Request};

fn request(scheme: &str, host: &str, uri: &str) -> Request {
    Request { scheme: scheme.to_string(), host: host.to_string(), uri: uri.to_string() }
}

#[test]
fn insecure_request_gets_301_with_empty_body() {
    let svc = RedirectHTTPS::new().new_transform(());
    match svc.call(request("http", "example.com", "/login?next=/home")) {
        Outcome::Redirect(resp) => {
            assert_eq!(resp.status, 301);
            assert!(resp.body.is_empty());
            assert_eq!(resp.location, "https://example.com/login?next=/home");
        }
        Outcome::Forward(_) => panic!("insecure request must not be forwarded"),
    }
}

#[test]
fn secure_request_is_forwarded_unchanged() {
    let svc = RedirectHTTPS::new().new_transform(());
    match svc.call(request("https", "example.com", "/a?b=1")) {
        Outcome::Forward(req) => {
            assert_eq!(req.scheme, "https");
            assert_eq!(req.host, "example.com");
            assert_eq!(req.uri, "/a?b=1");
        }
        Outcome::Redirect(_) => panic!("secure request must pass through"),
    }
}

#[test]
fn chained_replacements_apply_in_order() {
    let rules = vec![
        ("old.example.com".to_string(), "new.example.com".to_string()),
        ("new.example.com".to_string(), "final.example.com".to_string()),
    ];
    let svc = RedirectHTTPS::with_replacements(&rules).new_transform(());
    match svc.call(request("http", "old.example.com", "/a?b=1")) {
        Outcome::Redirect(resp) => {
            assert_eq!(resp.location, "https://final.example.com/a?b=1");
        }
        Outcome::Forward(_) => panic!("insecure request must not be forwarded"),
    }
}

#[test]
fn reversed_rule_order_stops_the_chain() {
    let rules = vec![
        ("new.example.com".to_string(), "final.example.com".to_string()),
        ("old.example.com".to_string(), "new.example.com".to_string()),
    ];
    let svc = RedirectHTTPS::with_replacements(&rules).new_transform(());
    match svc.call(request("http", "old.example.com", "/a?b=1")) {
        Outcome::Redirect(resp) => {
            assert_eq!(resp.location, "https://new.example.com/a?b=1");
        }
        Outcome::Forward(_) => panic!("insecure request must not be forwarded"),
    }
}

#[test]
fn empty_rule_list_is_the_identity_rewrite() {
    let policy = RedirectHTTPS::new();
    assert_eq!(policy.rewrite("https://example.com/a?b=1"), "https://example.com/a?b=1");
    let svc = policy.new_transform(());
    match svc.call(request("http", "example.com:8080", "/p?q=%2F")) {
        Outcome::Redirect(resp) => {
            assert_eq!(resp.location, "https://example.com:8080/p?q=%2F");
        }
        Outcome::Forward(_) => panic!("insecure request must not be forwarded"),
    }
}

#[test]
fn default_policy_has_no_rules() {
    let policy = RedirectHTTPS::default();
    assert_eq!(policy.rewrite("https://example.com/x"), "https://example.com/x");
}

#[test]
fn unmatched_pattern_is_a_no_op() {
    let policy =
        RedirectHTTPS::with_replacements(&[("zzz".to_string(), "q".to_string())]);
    assert_eq!(policy.rewrite("https://example.com/x"), "https://example.com/x");
}

#[test]
fn rewrite_is_idempotent_once_nothing_matches() {
    let policy =
        RedirectHTTPS::with_replacements(&[("old".to_string(), "new".to_string())]);
    let once = policy.rewrite("https://old.example.com/old/path");
    assert_eq!(once, "https://new.example.com/new/path");
    let twice = policy.rewrite(&once);
    assert_eq!(twice, once);
}

#[test]
fn replacement_output_feeds_later_rules() {
    let rules = vec![
        ("a".to_string(), "b".to_string()),
        ("b".to_string(), "c".to_string()),
    ];
    let policy = RedirectHTTPS::with_replacements(&rules);
    assert_eq!(policy.rewrite("a"), "c");
}

#[test]
fn rewrite_agrees_with_replace_on_each_rule() {
    let policy =
        RedirectHTTPS::with_replacements(&[("ab".to_string(), "ba".to_string())]);
    let cases = ["", "ab", "abab", "aabb", "xabababy", "ababa", "ba"];
    for case in cases {
        assert_eq!(policy.rewrite(case), case.replace("ab", "ba"));
    }
}

#[test]
fn empty_pattern_inserts_at_every_boundary() {
    let policy =
        RedirectHTTPS::with_replacements(&[(String::new(), "-".to_string())]);
    assert_eq!(policy.rewrite("abc"), "abc".replace("", "-"));
    assert_eq!(policy.rewrite("abc"), "-a-b-c-");
    assert_eq!(policy.rewrite(""), "-");
}

#[test]
fn rewrite_handles_multibyte_characters() {
    let policy =
        RedirectHTTPS::with_replacements(&[("é".to_string(), "e".to_string())]);
    assert_eq!(policy.rewrite("café/menü"), "cafe/menü");
    assert_eq!(policy.rewrite("café"), "café".replace("é", "e"));
}

#[test]
fn inner_processor_is_kept_and_reachable() {
    let policy = RedirectHTTPS::new();
    let svc = policy.new_transform(41_u32);
    assert_eq!(*svc.inner_ref(), 41_u32);
}

#[test]
fn overlapping_occurrences_are_not_rescanned() {
    let policy =
        RedirectHTTPS::with_replacements(&[("aa".to_string(), "a".to_string())]);
    assert_eq!(policy.rewrite("aaaa"), "aaaa".replace("aa", "a"));
    assert_eq!(policy.rewrite("aaaa"), "aa");
}
