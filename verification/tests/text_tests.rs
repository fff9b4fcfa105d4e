use dtrpg_ui::text::{case_runs, file_other_details_key, truncate_with_ellipsis, value_or_dash};

#[test]
fn value_or_dash_passes_through_non_empty_value() {
    assert_eq!(value_or_dash("Pathfinder"), "Pathfinder");
}

#[test]
fn value_or_dash_falls_back_to_em_dash_on_empty_string() {
    assert_eq!(value_or_dash(""), "\u{2014}");
}

#[test]
fn value_or_dash_falls_back_to_em_dash_on_whitespace_only() {
    assert_eq!(value_or_dash("   "), "\u{2014}");
}

#[test]
fn value_or_dash_treats_tabs_and_newlines_as_blank() {
    assert_eq!(value_or_dash("\t\n "), "\u{2014}");
    assert_eq!(value_or_dash(" x "), " x ");
}

#[test]
fn short_text_is_unchanged() {
    assert_eq!(truncate_with_ellipsis("Pathfinder", 40), "Pathfinder");
}

#[test]
fn text_at_the_limit_is_unchanged() {
    assert_eq!(truncate_with_ellipsis("12345", 5), "12345");
}

#[test]
fn long_text_is_truncated_with_ellipsis() {
    assert_eq!(truncate_with_ellipsis("123456789", 5), "12345\u{2026}");
}

#[test]
fn truncation_does_not_split_multibyte_characters() {
    assert_eq!(truncate_with_ellipsis("😀😀😀😀😀", 2), "😀😀\u{2026}");
}

#[test]
fn empty_text_is_unchanged() {
    assert_eq!(truncate_with_ellipsis("", 10), "");
}

#[test]
fn truncation_to_zero_keeps_only_the_ellipsis() {
    assert_eq!(truncate_with_ellipsis("abc", 0), "\u{2026}");
    assert_eq!(
        truncate_with_ellipsis("A Very Long Sourcebook Title That Goes On", 10),
        "A Very Lon\u{2026}"
    );
}

#[test]
fn case_runs_splits_on_case_boundaries() {
    assert_eq!(
        case_runs("Body Font"),
        vec![
            ("B".to_string(), false),
            ("ody".to_string(), true),
            (" F".to_string(), false),
            ("ont".to_string(), true)
        ]
    );
}

#[test]
fn case_runs_treats_digits_and_punctuation_as_non_lowercase() {
    assert_eq!(case_runs("v1.0"), vec![("v".to_string(), true), ("1.0".to_string(), false)]);
}

#[test]
fn case_runs_empty_string_yields_no_runs() {
    assert_eq!(case_runs(""), Vec::<(String, bool)>::new());
}

#[test]
fn case_runs_concatenate_back_to_the_input() {
    let text = "Monospace Font 12pt";
    let runs = case_runs(text);
    let joined: String = runs.iter().map(|(s, _)| s.as_str()).collect();
    assert_eq!(joined, text);
    for w in runs.windows(2) {
        assert_ne!(w[0].1, w[1].1);
    }
}

#[test]
fn file_other_details_key_joins_entry_and_row() {
    assert_eq!(file_other_details_key("e42", 3), "e42:3");
    assert_ne!(file_other_details_key("e42", 3), file_other_details_key("e42", 4));
}
