use vstd::prelude::*;
use crate::text::{trim, trimmed};
use crate::time::{midnight_of, CalendarDate, Timestamp, TimestampModel};

verus! {

/// An option of a select, status or multi-select field.
#[derive(Clone, Debug)]
pub struct SelectOption {
    pub name: Option<String>,
}

/// A person named in a people field.
#[derive(Clone, Debug)]
pub struct User {
    pub name: Option<String>,
}

/// The start or end of a date field: a bare day, or an instant.
#[derive(Clone, Copy, Debug)]
pub enum DateOrDateTime {
    Date(CalendarDate),
    DateTime(Timestamp),
}

/// The value of a date field.
#[derive(Clone, Copy, Debug)]
pub struct DatePropertyValue {
    pub start: Option<DateOrDateTime>,
}

/// One field of a remote record, tagged by its declared kind.
#[derive(Clone, Debug)]
pub enum PageProperty {
    /// The plain text of each run of the title, where the run has one.
    Title(Vec<Option<String>>),
    /// The plain text of each run, where the run has one.
    RichText(Vec<Option<String>>),
    Select(Option<SelectOption>),
    Status(Option<SelectOption>),
    MultiSelect(Vec<SelectOption>),
    Checkbox(bool),
    /// The shortest decimal text that reads back as the field's 64-bit
    /// float; `None` when the field is unset or holds no such float.
    Number(Option<String>),
    Url(Option<String>),
    Email(Option<String>),
    PhoneNumber(Option<String>),
    Date(Option<DatePropertyValue>),
    CreatedTime(Timestamp),
    LastEditedTime(Option<Timestamp>),
    People(Vec<User>),
    /// Any kind that carries no representable value.
    Other,
}

/// A normalised value.
#[derive(Clone, Debug, PartialEq)]
pub enum PropertyValue {
    String(String),
    /// The decimal text of a 64-bit float.
    Number(String),
    Boolean(bool),
    StringArray(Vec<String>),
    DateTime(Timestamp),
}

/// A normalised value, as mathematics.
pub enum PropertyModel {
    String(Seq<char>),
    Number(Seq<char>),
    Boolean(bool),
    StringArray(Seq<Seq<char>>),
    DateTime(TimestampModel),
}

impl View for PropertyValue {
    type V = PropertyModel;

    open spec fn view(&self) -> PropertyModel {
        match self {
            PropertyValue::String(s) => PropertyModel::String(s@),
            PropertyValue::Number(s) => PropertyModel::Number(s@),
            PropertyValue::Boolean(b) => PropertyModel::Boolean(*b),
            PropertyValue::StringArray(v) => PropertyModel::StringArray(
                v@.map_values(|s: String| s@),
            ),
            PropertyValue::DateTime(t) => PropertyModel::DateTime(t@),
        }
    }
}

/// The view of an optional value.
pub open spec fn model_of(v: Option<PropertyValue>) -> Option<PropertyModel> {
    match v {
        Some(v) => Some(v@),
        None => None,
    }
}

/// A value that carries content: no empty text and no empty list.
pub open spec fn has_content(m: PropertyModel) -> bool {
    match m {
        PropertyModel::String(s) => s.len() > 0,
        PropertyModel::Number(s) => s.len() > 0,
        PropertyModel::StringArray(l) => l.len() > 0,
        _ => true,
    }
}

/// The text runs that are present, joined in order.
pub open spec fn joined(runs: Seq<Option<String>>) -> Seq<char>
    decreases runs.len(),
{
    if runs.len() == 0 {
        Seq::empty()
    } else {
        let head = joined(runs.drop_last());
        match runs.last() {
            Some(s) => head + s@,
            None => head,
        }
    }
}

/// The names that are present, in order.
pub open spec fn present(names: Seq<Option<String>>) -> Seq<Seq<char>>
    decreases names.len(),
{
    if names.len() == 0 {
        Seq::empty()
    } else {
        let head = present(names.drop_last());
        match names.last() {
            Some(s) => head.push(s@),
            None => head,
        }
    }
}

/// Text as a value, when it is not empty.
pub open spec fn text_value(t: Seq<char>) -> Option<PropertyModel> {
    if t.len() == 0 {
        None
    } else {
        Some(PropertyModel::String(t))
    }
}

/// An optional text as a value, when present and not empty.
pub open spec fn optional_text_value(t: Option<String>) -> Option<PropertyModel> {
    match t {
        Some(s) => text_value(s@),
        None => None,
    }
}

/// A list of names as a value, when it is not empty.
pub open spec fn list_value(l: Seq<Seq<char>>) -> Option<PropertyModel> {
    if l.len() == 0 {
        None
    } else {
        Some(PropertyModel::StringArray(l))
    }
}

/// The instant that the start of a date field stands for: a bare day is
/// midnight UTC, an instant is itself.
pub open spec fn instant_of(d: DateOrDateTime) -> TimestampModel {
    match d {
        DateOrDateTime::Date(day) => midnight_of(day@),
        DateOrDateTime::DateTime(t) => t@,
    }
}

/// The value that a field normalises to, if any.
pub open spec fn normalized(p: PageProperty) -> Option<PropertyModel> {
    match p {
        PageProperty::Title(runs) => text_value(trimmed(joined(runs@))),
        PageProperty::RichText(runs) => text_value(trimmed(joined(runs@))),
        PageProperty::Select(o) => match o {
            Some(o) => optional_text_value(o.name),
            None => None,
        },
        PageProperty::Status(o) => match o {
            Some(o) => optional_text_value(o.name),
            None => None,
        },
        PageProperty::MultiSelect(opts) => list_value(
            present(opts@.map_values(|o: SelectOption| o.name)),
        ),
        PageProperty::Checkbox(b) => Some(PropertyModel::Boolean(b)),
        PageProperty::Number(n) => match n {
            Some(s) => if s@.len() == 0 {
                None
            } else {
                Some(PropertyModel::Number(s@))
            },
            None => None,
        },
        PageProperty::Url(s) => optional_text_value(s),
        PageProperty::Email(s) => optional_text_value(s),
        PageProperty::PhoneNumber(s) => optional_text_value(s),
        PageProperty::Date(d) => match d {
            Some(d) => match d.start {
                Some(start) => Some(PropertyModel::DateTime(instant_of(start))),
                None => None,
            },
            None => None,
        },
        PageProperty::CreatedTime(t) => Some(PropertyModel::DateTime(t@)),
        PageProperty::LastEditedTime(t) => match t {
            Some(t) => Some(PropertyModel::DateTime(t@)),
            None => None,
        },
        PageProperty::People(users) => list_value(present(users@.map_values(|u: User| u.name))),
        PageProperty::Other => None,
    }
}

/// The runs' text joined and trimmed, or `None` when nothing is left.
pub fn rich_text_to_string(text: &[Option<String>]) -> (r: Option<String>)
    ensures
        r is None <==> trimmed(joined(text@)).len() == 0,
        r matches Some(s) ==> s@ == trimmed(joined(text@)),
{
    let mut combined = String::new();
    let mut i: usize = 0;
    while i < text.len()
        invariant
            i <= text@.len(),
            combined@ == joined(text@.subrange(0, i as int)),
        decreases text@.len() - i,
    {
        assert(text@.subrange(0, i + 1).drop_last() =~= text@.subrange(0, i as int));
        if let Some(s) = &text[i] {
            combined.append(s.as_str());
        }
        i = i + 1;
    }
    assert(text@.subrange(0, text@.len() as int) =~= text@);
    let t = trim(combined.as_str());
    if t.is_empty() {
        None
    } else {
        Some(t.to_owned())
    }
}

/// The names that are present, in order.
fn option_names(options: &Vec<SelectOption>) -> (r: Vec<String>)
    ensures
        r@.map_values(|s: String| s@) == present(options@.map_values(|o: SelectOption| o.name)),
{
    let ghost names = options@.map_values(|o: SelectOption| o.name);
    let mut r: Vec<String> = Vec::new();
    let mut i: usize = 0;
    while i < options.len()
        invariant
            i <= options@.len(),
            names == options@.map_values(|o: SelectOption| o.name),
            r@.map_values(|s: String| s@) == present(names.subrange(0, i as int)),
        decreases options@.len() - i,
    {
        assert(names.subrange(0, i + 1).drop_last() =~= names.subrange(0, i as int));
        if let Some(n) = &options[i].name {
            r.push(n.clone());
        }
        assert(r@.map_values(|s: String| s@) =~= present(names.subrange(0, i + 1)));
        i = i + 1;
    }
    assert(names.subrange(0, names.len() as int) =~= names);
    r
}

/// The names of the people that have one, in order.
fn user_names(users: &Vec<User>) -> (r: Vec<String>)
    ensures
        r@.map_values(|s: String| s@) == present(users@.map_values(|u: User| u.name)),
{
    let ghost names = users@.map_values(|u: User| u.name);
    let mut r: Vec<String> = Vec::new();
    let mut i: usize = 0;
    while i < users.len()
        invariant
            i <= users@.len(),
            names == users@.map_values(|u: User| u.name),
            r@.map_values(|s: String| s@) == present(names.subrange(0, i as int)),
        decreases users@.len() - i,
    {
        assert(names.subrange(0, i + 1).drop_last() =~= names.subrange(0, i as int));
        if let Some(n) = &users[i].name {
            r.push(n.clone());
        }
        assert(r@.map_values(|s: String| s@) =~= present(names.subrange(0, i + 1)));
        i = i + 1;
    }
    assert(names.subrange(0, names.len() as int) =~= names);
    r
}

/// Text as a value, when present and not empty.
fn text_property(t: &Option<String>) -> (r: Option<PropertyValue>)
    ensures
        model_of(r) == optional_text_value(*t),
{
    match t {
        Some(s) => if s.as_str().is_empty() {
            None
        } else {
            Some(PropertyValue::String(s.clone()))
        },
        None => None,
    }
}

/// A list of names as a value, when it is not empty.
fn list_property(names: Vec<String>) -> (r: Option<PropertyValue>)
    ensures
        model_of(r) == list_value(names@.map_values(|s: String| s@)),
{
    if names.len() == 0 {
        None
    } else {
        Some(PropertyValue::StringArray(names))
    }
}

/// The instant that the start of a date field stands for.
pub fn date_or_datetime_to_datetime(date: DateOrDateTime) -> (r: Timestamp)
    ensures
        r@ == instant_of(date),
{
    match date {
        DateOrDateTime::Date(day) => Timestamp::at_midnight(day),
        DateOrDateTime::DateTime(t) => t,
    }
}

/// The instant that a date field starts at, if it has a start.
pub fn date_to_datetime(date: DatePropertyValue) -> (r: Option<Timestamp>)
    ensures
        r is Some <==> date.start is Some,
        r matches Some(t) ==> t@ == instant_of(date.start->0),
{
    match date.start {
        Some(start) => Some(date_or_datetime_to_datetime(start)),
        None => None,
    }
}

/// Normalises one field: `Some` with its value, or `None` when it carries
/// no representable value. A value never holds empty text or an empty list.
pub fn property_to_value(property: &PageProperty) -> (r: Option<PropertyValue>)
    ensures
        model_of(r) == normalized(*property),
        r matches Some(v) ==> has_content(v@),
{
    match property {
        PageProperty::Title(runs) => match rich_text_to_string(runs.as_slice()) {
            Some(s) => Some(PropertyValue::String(s)),
            None => None,
        },
        PageProperty::RichText(runs) => match rich_text_to_string(runs.as_slice()) {
            Some(s) => Some(PropertyValue::String(s)),
            None => None,
        },
        PageProperty::Select(o) => match o {
            Some(o) => text_property(&o.name),
            None => None,
        },
        PageProperty::Status(o) => match o {
            Some(o) => text_property(&o.name),
            None => None,
        },
        PageProperty::MultiSelect(opts) => list_property(option_names(opts)),
        PageProperty::Checkbox(b) => Some(PropertyValue::Boolean(*b)),
        PageProperty::Number(n) => match n {
            Some(s) => if s.as_str().is_empty() {
                None
            } else {
                Some(PropertyValue::Number(s.clone()))
            },
            None => None,
        },
        PageProperty::Url(s) => text_property(s),
        PageProperty::Email(s) => text_property(s),
        PageProperty::PhoneNumber(s) => text_property(s),
        PageProperty::Date(d) => match d {
            Some(d) => match date_to_datetime(*d) {
                Some(t) => Some(PropertyValue::DateTime(t)),
                None => None,
            },
            None => None,
        },
        PageProperty::CreatedTime(t) => Some(PropertyValue::DateTime(*t)),
        PageProperty::LastEditedTime(t) => match t {
            Some(t) => Some(PropertyValue::DateTime(*t)),
            None => None,
        },
        PageProperty::People(users) => list_property(user_names(users)),
        PageProperty::Other => None,
    }
}

} // verus!
