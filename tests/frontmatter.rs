use notion_opendal::{
    apply_frontmatter, escape, join_with_commas, property_value_to_string, CalendarDate, PropertyMap,
    PropertyValue, Timestamp,
};

fn ts(y: i32, mo: u32, d: u32, h: u32, mi: u32, s: u32, ns: u32) -> Timestamp {
    Timestamp::new(CalendarDate::new(y, mo, d).unwrap(), h, mi, s, ns).unwrap()
}

#[test]
fn escaping_doubles_backslash_first() {
    assert_eq!(escape("a\"b\nc\\d"), "a\\\"b\\nc\\\\d");
    assert_eq!(escape("plain"), "plain");
    assert_eq!(escape(""), "");
    assert_eq!(escape("\\n"), "\\\\n");
}

#[test]
fn escaped_value_in_a_quoted_line() {
    let mut m = PropertyMap::new();
    m.insert("content".to_string(), PropertyValue::String("a\"b\nc\\d".to_string()));
    let out = apply_frontmatter(&m, "body");
    assert_eq!(out, "---\ncontent: \"a\\\"b\\nc\\\\d\"\n---\n\nbody");
}

#[test]
fn empty_properties_leave_body_unchanged() {
    let m = PropertyMap::new();
    assert_eq!(apply_frontmatter(&m, "# Title\n"), "# Title\n");
}

#[test]
fn keys_render_in_ascending_order() {
    let mut m = PropertyMap::new();
    m.insert("zeta".to_string(), PropertyValue::Boolean(true));
    m.insert("alpha".to_string(), PropertyValue::Number("2.5".to_string()));
    m.insert("Mid".to_string(), PropertyValue::StringArray(vec!["x".to_string(), "y".to_string()]));
    let out = apply_frontmatter(&m, "text");
    assert_eq!(out, "---\nMid: \"x, y\"\nalpha: \"2.5\"\nzeta: \"true\"\n---\n\ntext");
}

#[test]
fn insertion_order_does_not_change_output() {
    let entries = vec![
        ("title", PropertyValue::String("Hello".to_string())),
        ("done", PropertyValue::Boolean(false)),
        ("tags", PropertyValue::StringArray(vec!["a".to_string(), "b".to_string()])),
        ("when", PropertyValue::DateTime(ts(2024, 3, 1, 0, 0, 0, 0))),
    ];
    let mut forward = PropertyMap::new();
    for (k, v) in entries.iter() {
        forward.insert(k.to_string(), v.clone());
    }
    let mut backward = PropertyMap::new();
    for (k, v) in entries.iter().rev() {
        backward.insert(k.to_string(), v.clone());
    }
    let a = apply_frontmatter(&forward, "md");
    let b = apply_frontmatter(&backward, "md");
    assert_eq!(a, b);
    assert_eq!(a, apply_frontmatter(&forward, "md"));
}

#[test]
fn value_texts() {
    assert_eq!(property_value_to_string(&PropertyValue::String("s".to_string())), "s");
    assert_eq!(property_value_to_string(&PropertyValue::Number("-0.25".to_string())), "-0.25");
    assert_eq!(property_value_to_string(&PropertyValue::Boolean(true)), "true");
    assert_eq!(property_value_to_string(&PropertyValue::Boolean(false)), "false");
    assert_eq!(property_value_to_string(&PropertyValue::StringArray(vec![])), "");
    assert_eq!(
        property_value_to_string(&PropertyValue::StringArray(vec!["one".to_string(), "two".to_string(), "three".to_string()])),
        "one, two, three"
    );
    assert_eq!(join_with_commas(&vec!["solo".to_string()]), "solo");
}

#[test]
fn instants_render_as_rfc3339() {
    assert_eq!(ts(2024, 1, 2, 3, 4, 5, 0).to_rfc3339(), "2024-01-02T03:04:05+00:00");
    assert_eq!(ts(2024, 1, 2, 0, 0, 0, 123_000_000).to_rfc3339(), "2024-01-02T00:00:00.123+00:00");
    assert_eq!(
        property_value_to_string(&PropertyValue::DateTime(ts(1999, 12, 31, 23, 59, 59, 0))),
        "1999-12-31T23:59:59+00:00"
    );
}
