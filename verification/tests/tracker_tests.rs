use transmission_proxy::tracker::{apply_list, apply_one, apply_one_bytes, rules_valid, TrackerRule};

fn rule(from: &str, to: &str) -> TrackerRule {
    TrackerRule::replace(from.to_string(), to.to_string()).expect("pattern must compile")
}

#[test]
fn replace_first_match() {
    let rules = vec![rule("^http://old/(.*)$", "http://new/$1")];
    let out = apply_one("http://old/x", &rules).unwrap();
    assert_eq!(out, "http://new/x");
}

#[test]
fn no_match_keeps_url() {
    let rules = vec![rule("^http://old/(.*)$", "http://new/$1")];
    let out = apply_one("http://other/x", &rules).unwrap();
    assert_eq!(out, "http://other/x");
}

#[test]
fn rules_compose_left_to_right() {
    let rules = vec![rule("a", "b"), rule("b", "c")];
    // the second rule sees the first rule's output
    assert_eq!(apply_one("a", &rules).unwrap(), "c");
}

#[test]
fn rule_order_matters() {
    let forward = vec![rule("a", "b"), rule("b", "c")];
    let backward = vec![rule("b", "c"), rule("a", "b")];
    assert_eq!(apply_one("a", &forward).unwrap(), "c");
    assert_eq!(apply_one("a", &backward).unwrap(), "b");
}

#[test]
fn application_is_deterministic_per_input() {
    let rules = vec![rule("old", "new")];
    let once = apply_one("http://old/x", &rules);
    let again = apply_one("http://old/x", &rules);
    assert_eq!(once, again);
}

#[test]
fn empty_rewrite_removes_url() {
    let rules = vec![rule("^http://dead/.*$", "")];
    assert!(apply_one("http://dead/x", &rules).is_none());
}

#[test]
fn removal_halts_later_rules() {
    // the rule after the removing one would resurrect the URL if reached
    let rules = vec![rule("^http://dead/.*$", ""), rule("^$", "http://alive/")];
    assert!(apply_one("http://dead/x", &rules).is_none());
}

#[test]
fn list_drops_removed_and_keeps_order() {
    let rules = vec![rule("^http://dead/.*$", ""), rule("old", "new")];
    let urls = vec![
        "http://old/1".to_string(),
        "http://dead/2".to_string(),
        "http://keep/3".to_string(),
    ];
    let out = apply_list(&urls, &rules);
    assert_eq!(out, vec!["http://new/1".to_string(), "http://keep/3".to_string()]);
}

#[test]
fn bytes_rules_match_str_rules() {
    let rules = vec![rule("^http://old/(.*)$", "http://new/$1")];
    let out = apply_one_bytes(b"http://old/x", &rules).unwrap();
    assert_eq!(out, b"http://new/x".to_vec());
}

#[test]
fn invalid_pattern_is_refused() {
    assert!(TrackerRule::replace("(".to_string(), "x".to_string()).is_none());
    let good = vec![rule("a", "b")];
    assert!(rules_valid(&good));
}

#[test]
fn matches_is_always_true() {
    let r = rule("a", "b");
    assert!(r.matches("anything"));
    assert!(r.is_wf());
}
