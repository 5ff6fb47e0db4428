use atlassian_cli::jsm::{eq_ignore_ascii_case, field_value, RequestField};

fn field(id: &str, label: &str, value: Option<&str>) -> RequestField {
    RequestField {
        field_id: id.to_string(),
        label: label.to_string(),
        value: value.map(String::from),
    }
}

#[test]
fn field_by_identifier_or_label() {
    let fields = vec![
        field("summary", "Summary", Some("Printer on fire")),
        field("customfield_1", "Description", Some("It burns")),
        field("priority", "Priority", None),
    ];
    assert_eq!(field_value(&fields, "summary"), "Printer on fire");
    assert_eq!(field_value(&fields, "SUMMARY"), "Printer on fire");
    assert_eq!(field_value(&fields, "description"), "It burns");
    assert_eq!(field_value(&fields, "customfield_1"), "It burns");
    assert_eq!(field_value(&fields, "priority"), "");
    assert_eq!(field_value(&fields, "missing"), "");
    assert_eq!(field_value(&[], "summary"), "");
}

#[test]
fn first_field_with_a_value_wins() {
    let fields = vec![
        field("summary", "First", None),
        field("other", "Summary", Some("second")),
        field("summary", "Third", Some("third")),
    ];
    assert_eq!(field_value(&fields, "summary"), "second");
    assert_eq!(field_value(&fields, "third"), "third");
}

#[test]
fn case_is_ignored_for_ascii_letters_only() {
    let samples = ["", "a", "A", "abc", "ABC", "aBc", "abd", "ab", "é", "É", "straße", "STRASSE", "k", "K", "[", "{", "@", "`"];
    for a in samples {
        for b in samples {
            assert_eq!(eq_ignore_ascii_case(a, b), a.eq_ignore_ascii_case(b), "{:?} {:?}", a, b);
        }
    }
}
