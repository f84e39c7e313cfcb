use komari::record::PullRequest;
use komari::text::{append_decimal, same_text};
use komari::view::{display, render};

fn shown(number: Option<i64>, url: Option<&str>, title: Option<&str>) -> PullRequest {
    PullRequest {
        number,
        merged_at: None,
        html_url: url.map(|text| text.to_string()),
        title: title.map(|text| text.to_string()),
    }
}

#[test]
fn a_record_is_shown_as_a_list_item() {
    let pull = shown(Some(10), Some("https://github.com/octo/demo/pull/10"), Some("Fix the build"));
    assert_eq!(
        render(&pull),
        Some("- [#10](https://github.com/octo/demo/pull/10) Fix the build".to_string())
    );
}

#[test]
fn records_that_lack_a_field_are_skipped() {
    let pulls = vec![
        shown(Some(3), Some("u3"), Some("three")),
        shown(None, Some("u"), Some("no number")),
        shown(Some(2), None, Some("no address")),
        shown(Some(1), Some("u1"), None),
        shown(Some(0), Some("u0"), Some("")),
    ];
    assert_eq!(display(&pulls), vec!["- [#3](u3) three".to_string(), "- [#0](u0) ".to_string()]);
    assert!(display(&Vec::new()).is_empty());
}

#[test]
fn numbers_are_written_in_base_ten() {
    for number in [0i64, 7, 10, 99, 100, 1234567890, -1, -10, -905, i64::MAX, i64::MIN] {
        let mut text = String::from("#");
        append_decimal(&mut text, number);
        assert_eq!(text, format!("#{}", number));
    }
}

#[test]
fn same_text_compares_characters() {
    assert!(same_text(&"next".to_string(), "next"));
    assert!(!same_text(&"next".to_string(), "nex"));
    assert!(!same_text(&"next".to_string(), "Next"));
    assert!(same_text(&String::new(), ""));
}
