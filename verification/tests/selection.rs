use anchor_dev::cases::TestCase;
use anchor_dev::errors::HarnessError;
use anchor_dev::selector::select;

fn case(name: &str, path: &str) -> TestCase {
    TestCase { name: String::from(name), path: String::from(path) }
}

fn sample() -> Vec<TestCase> {
    vec![
        case("alpha", "/r/alpha"),
        case("beta-core", "/r/beta/core"),
        case("beta-extra", "/r/beta/extra"),
        case("gamma", "/r/gamma"),
    ]
}

#[test]
fn filter_none_returns_input_unchanged() {
    let kept = select(sample(), &None).unwrap();
    assert_eq!(kept.len(), 4);
    let expected = sample();
    for i in 0..4 {
        assert_eq!(kept[i].name, expected[i].name);
        assert_eq!(kept[i].path, expected[i].path);
    }
}

#[test]
fn filter_keeps_exactly_the_matching_subset_in_order() {
    let kept = select(sample(), &Some(String::from("beta"))).unwrap();
    assert_eq!(kept.len(), 2);
    assert_eq!(kept[0].name, "beta-core");
    assert_eq!(kept[1].name, "beta-extra");
}

#[test]
fn filter_matches_anywhere_in_the_name() {
    let kept = select(sample(), &Some(String::from("xtr"))).unwrap();
    assert_eq!(kept.len(), 1);
    assert_eq!(kept[0].name, "beta-extra");
}

#[test]
fn filter_anchors_are_respected() {
    let kept = select(sample(), &Some(String::from("^beta-core$"))).unwrap();
    assert_eq!(kept.len(), 1);
    assert_eq!(kept[0].name, "beta-core");
}

#[test]
fn filter_with_no_match_is_empty() {
    let kept = select(sample(), &Some(String::from("delta"))).unwrap();
    assert!(kept.is_empty());
}

#[test]
fn invalid_pattern_is_fatal_and_reported() {
    let err = select(sample(), &Some(String::from("(unclosed"))).unwrap_err();
    match &err {
        HarnessError::Pattern { pattern } => assert_eq!(pattern, "(unclosed"),
        other => panic!("wrong error: {:?}", other),
    }
    assert_eq!(err.describe(), "invalid regex filter: (unclosed");
}
