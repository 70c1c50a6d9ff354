use notion_opendal::{
    date_or_datetime_to_datetime, date_to_datetime, notion_page_to_properties, property_to_value,
    rich_text_to_string, CalendarDate, DateOrDateTime, DatePropertyValue, Page, PageProperty,
    PropertyMap, PropertyValue, SelectOption, Timestamp, User,
};

fn ts(y: i32, mo: u32, d: u32, h: u32, mi: u32, s: u32, ns: u32) -> Timestamp {
    Timestamp::new(CalendarDate::new(y, mo, d).unwrap(), h, mi, s, ns).unwrap()
}

fn runs(parts: &[Option<&str>]) -> Vec<Option<String>> {
    parts.iter().map(|p| p.map(|s| s.to_string())).collect()
}

#[test]
fn title_runs_are_joined_and_trimmed() {
    let p = PageProperty::Title(runs(&[Some("  Hello"), None, Some(" world \n")]));
    assert_eq!(property_to_value(&p), Some(PropertyValue::String("Hello world".to_string())));
}

#[test]
fn blank_rich_text_has_no_value() {
    assert_eq!(property_to_value(&PageProperty::RichText(runs(&[Some("  "), Some("\t\n")]))), None);
    assert_eq!(property_to_value(&PageProperty::RichText(vec![])), None);
    assert_eq!(property_to_value(&PageProperty::Title(runs(&[None]))), None);
}

#[test]
fn rich_text_trims_unicode_white_space() {
    assert_eq!(rich_text_to_string(&runs(&[Some("\u{3000}x\u{a0}")])), Some("x".to_string()));
    assert_eq!(rich_text_to_string(&runs(&[Some("\u{2003}")])), None);
}

#[test]
fn select_and_status_take_the_option_name() {
    let named = SelectOption { name: Some("Done".to_string()) };
    assert_eq!(
        property_to_value(&PageProperty::Select(Some(named.clone()))),
        Some(PropertyValue::String("Done".to_string()))
    );
    assert_eq!(
        property_to_value(&PageProperty::Status(Some(named))),
        Some(PropertyValue::String("Done".to_string()))
    );
    assert_eq!(property_to_value(&PageProperty::Select(None)), None);
    assert_eq!(property_to_value(&PageProperty::Status(Some(SelectOption { name: None }))), None);
    assert_eq!(
        property_to_value(&PageProperty::Select(Some(SelectOption { name: Some(String::new()) }))),
        None
    );
}

#[test]
fn multi_select_collects_names() {
    let opts = vec![
        SelectOption { name: Some("a".to_string()) },
        SelectOption { name: None },
        SelectOption { name: Some("b".to_string()) },
    ];
    assert_eq!(
        property_to_value(&PageProperty::MultiSelect(opts)),
        Some(PropertyValue::StringArray(vec!["a".to_string(), "b".to_string()]))
    );
    assert_eq!(property_to_value(&PageProperty::MultiSelect(vec![])), None);
    assert_eq!(property_to_value(&PageProperty::MultiSelect(vec![SelectOption { name: None }])), None);
}

#[test]
fn checkbox_always_has_a_value() {
    assert_eq!(property_to_value(&PageProperty::Checkbox(false)), Some(PropertyValue::Boolean(false)));
    assert_eq!(property_to_value(&PageProperty::Checkbox(true)), Some(PropertyValue::Boolean(true)));
}

#[test]
fn number_keeps_its_decimal_text() {
    assert_eq!(
        property_to_value(&PageProperty::Number(Some("3.5".to_string()))),
        Some(PropertyValue::Number("3.5".to_string()))
    );
    assert_eq!(property_to_value(&PageProperty::Number(None)), None);
    assert_eq!(property_to_value(&PageProperty::Number(Some(String::new()))), None);
}

#[test]
fn url_email_and_phone_need_text() {
    let some = |s: &str| Some(s.to_string());
    assert_eq!(
        property_to_value(&PageProperty::Url(some("https://x.y"))),
        Some(PropertyValue::String("https://x.y".to_string()))
    );
    assert_eq!(
        property_to_value(&PageProperty::Email(some("a@b.c"))),
        Some(PropertyValue::String("a@b.c".to_string()))
    );
    assert_eq!(
        property_to_value(&PageProperty::PhoneNumber(some("+1 555"))),
        Some(PropertyValue::String("+1 555".to_string()))
    );
    assert_eq!(property_to_value(&PageProperty::Url(None)), None);
    assert_eq!(property_to_value(&PageProperty::Email(some(""))), None);
    assert_eq!(property_to_value(&PageProperty::PhoneNumber(None)), None);
}

#[test]
fn bare_date_is_midnight_utc() {
    let day = CalendarDate::new(2024, 2, 29).unwrap();
    let d = DatePropertyValue { start: Some(DateOrDateTime::Date(day)) };
    assert_eq!(property_to_value(&PageProperty::Date(Some(d))), Some(PropertyValue::DateTime(ts(2024, 2, 29, 0, 0, 0, 0))));
    assert_eq!(date_or_datetime_to_datetime(DateOrDateTime::Date(day)), ts(2024, 2, 29, 0, 0, 0, 0));
}

#[test]
fn date_time_is_kept() {
    let t = ts(2023, 7, 1, 12, 30, 5, 0);
    let d = DatePropertyValue { start: Some(DateOrDateTime::DateTime(t)) };
    assert_eq!(date_to_datetime(d), Some(t));
    assert_eq!(property_to_value(&PageProperty::Date(Some(d))), Some(PropertyValue::DateTime(t)));
}

#[test]
fn absent_dates_have_no_value() {
    assert_eq!(property_to_value(&PageProperty::Date(None)), None);
    assert_eq!(property_to_value(&PageProperty::Date(Some(DatePropertyValue { start: None }))), None);
    assert_eq!(date_to_datetime(DatePropertyValue { start: None }), None);
}

#[test]
fn created_and_edited_times() {
    let t = ts(2022, 12, 31, 23, 59, 59, 0);
    assert_eq!(property_to_value(&PageProperty::CreatedTime(t)), Some(PropertyValue::DateTime(t)));
    assert_eq!(property_to_value(&PageProperty::LastEditedTime(Some(t))), Some(PropertyValue::DateTime(t)));
    assert_eq!(property_to_value(&PageProperty::LastEditedTime(None)), None);
}

#[test]
fn people_skip_those_without_a_name() {
    let people = vec![User { name: None }, User { name: Some("Ada".to_string()) }];
    assert_eq!(
        property_to_value(&PageProperty::People(people)),
        Some(PropertyValue::StringArray(vec!["Ada".to_string()]))
    );
    assert_eq!(property_to_value(&PageProperty::People(vec![User { name: None }])), None);
}

#[test]
fn unknown_kinds_are_dropped() {
    assert_eq!(property_to_value(&PageProperty::Other), None);
}

#[test]
fn no_kind_yields_empty_text_or_list() {
    let empties = vec![
        PageProperty::Title(vec![]),
        PageProperty::RichText(runs(&[Some(" ")])),
        PageProperty::Select(Some(SelectOption { name: Some(String::new()) })),
        PageProperty::Status(Some(SelectOption { name: Some(String::new()) })),
        PageProperty::MultiSelect(vec![]),
        PageProperty::Number(Some(String::new())),
        PageProperty::Url(Some(String::new())),
        PageProperty::Email(Some(String::new())),
        PageProperty::PhoneNumber(Some(String::new())),
        PageProperty::People(vec![]),
    ];
    for p in &empties {
        assert_eq!(property_to_value(p), None);
    }
}

#[test]
fn calendar_validity() {
    assert!(CalendarDate::new(2023, 2, 29).is_none());
    assert!(CalendarDate::new(2000, 2, 29).is_some());
    assert!(CalendarDate::new(1900, 2, 29).is_none());
    assert!(CalendarDate::new(-4, 2, 29).is_some());
    assert!(CalendarDate::new(2023, 4, 31).is_none());
    assert!(CalendarDate::new(2023, 13, 1).is_none());
    assert!(CalendarDate::new(400000, 1, 1).is_none());
    let day = CalendarDate::new(2023, 6, 30).unwrap();
    assert!(Timestamp::new(day, 24, 0, 0, 0).is_none());
    assert!(Timestamp::new(day, 23, 59, 59, 1_500_000_000).is_some());
    assert!(Timestamp::new(day, 23, 59, 58, 1_500_000_000).is_none());
}

fn page(fields: Vec<(&str, PageProperty)>) -> Page {
    Page {
        id: "alpha".to_string(),
        last_edited_time: ts(2024, 1, 1, 0, 0, 0, 0),
        properties: fields.into_iter().map(|(k, v)| (k.to_string(), v)).collect(),
    }
}

#[test]
fn page_keeps_only_fields_with_values() {
    let p = page(vec![
        ("Name", PageProperty::Title(runs(&[Some("Doc")]))),
        ("Empty", PageProperty::RichText(vec![])),
        ("Done", PageProperty::Checkbox(true)),
        ("Misc", PageProperty::Other),
    ]);
    let m = notion_page_to_properties(&p);
    assert_eq!(m.len(), 2);
    assert_eq!(m.get("Name"), Some(&PropertyValue::String("Doc".to_string())));
    assert_eq!(m.get("Done"), Some(&PropertyValue::Boolean(true)));
    assert_eq!(m.get("Empty"), None);
    assert_eq!(m.get("Misc"), None);
}

#[test]
fn property_map_orders_keys_and_replaces() {
    let mut m = PropertyMap::new();
    assert!(m.is_empty());
    m.insert("b".to_string(), PropertyValue::Boolean(true));
    m.insert("a".to_string(), PropertyValue::Boolean(false));
    m.insert("B".to_string(), PropertyValue::Boolean(false));
    m.insert("b".to_string(), PropertyValue::Number("1".to_string()));
    let keys: Vec<&str> = m.entries().iter().map(|(k, _)| k.as_str()).collect();
    assert_eq!(keys, vec!["B", "a", "b"]);
    assert_eq!(m.get("b"), Some(&PropertyValue::Number("1".to_string())));
    assert!(!m.is_empty());
}
