use vstd::prelude::*;
use crate::properties::{ascending_pairs, lemma_ascending_canonical, pair_model, PropertyMap};
use crate::property::{PropertyModel, PropertyValue};
use crate::text::push_char;
use crate::time::rfc3339_text;

verus! {

/// What one character becomes inside a quoted value.
pub open spec fn escape_char(c: char) -> Seq<char> {
    if c == '\\' {
        seq!['\\', '\\']
    } else if c == '\n' {
        seq!['\\', 'n']
    } else if c == '"' {
        seq!['\\', '"']
    } else {
        seq![c]
    }
}

/// `s` with backslash, newline and double quote escaped by a backslash.
pub open spec fn escaped(s: Seq<char>) -> Seq<char>
    decreases s.len(),
{
    if s.len() == 0 {
        Seq::empty()
    } else {
        escape_char(s[0]) + escaped(s.drop_first())
    }
}

/// Reads escaped text back: a backslash and the character after it stand for
/// one character.
pub open spec fn unescaped(t: Seq<char>) -> Seq<char>
    decreases t.len(),
{
    if t.len() == 0 {
        Seq::empty()
    } else if t[0] == '\\' && t.len() >= 2 {
        let c = if t[1] == 'n' {
            '\n'
        } else {
            t[1]
        };
        seq![c] + unescaped(t.subrange(2, t.len() as int))
    } else {
        seq![t[0]] + unescaped(t.drop_first())
    }
}

/// Escaping loses nothing: the value reads back as it was.
pub proof fn lemma_escape_round_trip(s: Seq<char>)
    ensures
        unescaped(escaped(s)) == s,
    decreases s.len(),
{
    if s.len() > 0 {
        lemma_escape_round_trip(s.drop_first());
        let e = escaped(s);
        let head = escape_char(s[0]);
        assert(e == head + escaped(s.drop_first()));
        if head.len() == 2 {
            assert(e.subrange(2, e.len() as int) =~= escaped(s.drop_first()));
        } else {
            assert(e.drop_first() =~= escaped(s.drop_first()));
        }
        assert(s =~= seq![s[0]] + s.drop_first());
    }
}

/// The items joined with `", "`.
pub open spec fn comma_joined(l: Seq<Seq<char>>) -> Seq<char>
    decreases l.len(),
{
    if l.len() == 0 {
        Seq::empty()
    } else if l.len() == 1 {
        l[0]
    } else {
        comma_joined(l.drop_last()) + seq![',', ' '] + l.last()
    }
}

/// The text of a value: text as itself, a number in its decimal form, a
/// boolean as `true` or `false`, a list joined with `", "`, an instant in
/// RFC 3339 form.
pub open spec fn value_text(v: PropertyModel) -> Seq<char> {
    match v {
        PropertyModel::String(s) => s,
        PropertyModel::Number(s) => s,
        PropertyModel::Boolean(b) => if b {
            seq!['t', 'r', 'u', 'e']
        } else {
            seq!['f', 'a', 'l', 's', 'e']
        },
        PropertyModel::StringArray(l) => comma_joined(l),
        PropertyModel::DateTime(t) => rfc3339_text(t),
    }
}

/// The line of one pair: `key: "escaped value"` and a newline.
pub open spec fn line_of(p: (Seq<char>, PropertyModel)) -> Seq<char> {
    p.0 + seq![':', ' ', '"'] + escaped(value_text(p.1)) + seq!['"', '\n']
}

/// The lines of the pairs, in order.
pub open spec fn lines_of(pairs: Seq<(Seq<char>, PropertyModel)>) -> Seq<char>
    decreases pairs.len(),
{
    if pairs.len() == 0 {
        Seq::empty()
    } else {
        lines_of(pairs.drop_last()) + line_of(pairs.last())
    }
}

/// The delimiter line of a metadata block.
pub open spec fn delimiter() -> Seq<char> {
    seq!['-', '-', '-', '\n']
}

/// `body` with the pairs as a metadata block before it; with no pairs, the
/// body alone.
pub open spec fn with_frontmatter(pairs: Seq<(Seq<char>, PropertyModel)>, body: Seq<char>) -> Seq<
    char,
> {
    if pairs.len() == 0 {
        body
    } else {
        delimiter() + lines_of(pairs) + delimiter() + seq!['\n'] + body
    }
}

/// `s` escaped for a quoted value.
pub fn escape(s: &str) -> (r: String)
    ensures
        r@ == escaped(s@),
{
    let n = s.unicode_len();
    let mut r = String::new();
    let mut i: usize = 0;
    assert(s@.subrange(0, n as int) =~= s@);
    while i < n
        invariant
            n == s@.len(),
            i <= n,
            escaped(s@) == r@ + escaped(s@.subrange(i as int, n as int)),
        decreases n - i,
    {
        let c = s.get_char(i);
        let ghost rest = s@.subrange(i as int, n as int);
        assert(rest[0] == c);
        assert(rest.drop_first() =~= s@.subrange(i + 1, n as int));
        let ghost before = r@;
        if c == '\\' {
            push_char(&mut r, '\\');
            push_char(&mut r, '\\');
        } else if c == '\n' {
            push_char(&mut r, '\\');
            push_char(&mut r, 'n');
        } else if c == '"' {
            push_char(&mut r, '\\');
            push_char(&mut r, '"');
        } else {
            push_char(&mut r, c);
        }
        assert(r@ =~= before + escape_char(c));
        assert(escaped(rest) == escape_char(c) + escaped(rest.drop_first()));
        assert(escaped(s@) =~= r@ + escaped(s@.subrange(i + 1, n as int)));
        i = i + 1;
    }
    assert(escaped(s@.subrange(n as int, n as int)) =~= Seq::<char>::empty());
    assert(r@ =~= escaped(s@));
    r
}

/// The items joined with `", "`.
pub fn join_with_commas(items: &Vec<String>) -> (r: String)
    ensures
        r@ == comma_joined(items@.map_values(|s: String| s@)),
{
    let ghost l = items@.map_values(|s: String| s@);
    let mut r = String::new();
    let mut i: usize = 0;
    while i < items.len()
        invariant
            l == items@.map_values(|s: String| s@),
            i <= items@.len(),
            r@ == comma_joined(l.subrange(0, i as int)),
        decreases items@.len() - i,
    {
        let ghost before = r@;
        if i > 0 {
            push_char(&mut r, ',');
            push_char(&mut r, ' ');
        }
        r.append(items[i].as_str());
        assert(l.subrange(0, i + 1).drop_last() =~= l.subrange(0, i as int));
        assert(l[i as int] == items@[i as int]@);
        if i == 0 {
            assert(r@ =~= comma_joined(l.subrange(0, 1)));
        } else {
            assert(r@ =~= before + seq![',', ' '] + l[i as int]);
        }
        i = i + 1;
    }
    assert(l.subrange(0, l.len() as int) =~= l);
    r
}

/// The text of a value, as `value_text` gives it.
pub fn property_value_to_string(value: &PropertyValue) -> (r: String)
    ensures
        r@ == value_text(value@),
{
    match value {
        PropertyValue::String(s) => s.clone(),
        PropertyValue::Number(s) => s.clone(),
        PropertyValue::Boolean(b) => {
            let mut r = String::new();
            if *b {
                push_char(&mut r, 't');
                push_char(&mut r, 'r');
                push_char(&mut r, 'u');
                push_char(&mut r, 'e');
            } else {
                push_char(&mut r, 'f');
                push_char(&mut r, 'a');
                push_char(&mut r, 'l');
                push_char(&mut r, 's');
                push_char(&mut r, 'e');
            }
            assert(r@ =~= value_text(value@));
            r
        },
        PropertyValue::StringArray(items) => join_with_commas(items),
        PropertyValue::DateTime(t) => t.to_rfc3339(),
    }
}

/// Appends the delimiter line of a metadata block.
fn push_delimiter(r: &mut String)
    ensures
        final(r)@ == old(r)@ + delimiter(),
{
    push_char(r, '-');
    push_char(r, '-');
    push_char(r, '-');
    push_char(r, '\n');
    assert(r@ =~= old(r)@ + delimiter());
}

/// `markdown` with the properties as a metadata block before it, one line per
/// key in ascending key order; with no properties, `markdown` unchanged.
pub fn apply_frontmatter(properties: &PropertyMap, markdown: &str) -> (r: String)
    requires
        properties.wf(),
    ensures
        r@ == with_frontmatter(ascending_pairs(properties@), markdown@),
{
    proof {
        properties.lemma_pairs_ascending();
    }
    if properties.is_empty() {
        return markdown.to_owned();
    }
    let entries = properties.entries();
    let ghost pairs = properties.pairs();
    let mut r = String::new();
    push_delimiter(&mut r);
    let mut i: usize = 0;
    while i < entries.len()
        invariant
            entries@.map_values(|e: (String, PropertyValue)| pair_model(e)) == pairs,
            i <= entries@.len(),
            r@ == delimiter() + lines_of(pairs.subrange(0, i as int)),
        decreases entries@.len() - i,
    {
        let ghost before = r@;
        let (key, value) = &entries[i];
        let escaped_value = escape(property_value_to_string(value).as_str());
        r.append(key.as_str());
        push_char(&mut r, ':');
        push_char(&mut r, ' ');
        push_char(&mut r, '"');
        r.append(escaped_value.as_str());
        push_char(&mut r, '"');
        push_char(&mut r, '\n');
        assert(pairs[i as int] == pair_model(entries@[i as int]));
        assert(pairs.subrange(0, i + 1).drop_last() =~= pairs.subrange(0, i as int));
        assert(r@ =~= before + line_of(pairs[i as int]));
        i = i + 1;
    }
    assert(pairs.subrange(0, pairs.len() as int) =~= pairs);
    push_delimiter(&mut r);
    push_char(&mut r, '\n');
    r.append(markdown);
    r
}

/// The rendered text depends on the properties alone, not on the order in
/// which they were gathered: maps with the same contents render the same.
pub proof fn lemma_frontmatter_order_independent(
    m1: PropertyMap,
    m2: PropertyMap,
    body: Seq<char>,
)
    requires
        m1.wf(),
        m2.wf(),
        m1@ == m2@,
    ensures
        with_frontmatter(m1.pairs(), body) == with_frontmatter(m2.pairs(), body),
{
    lemma_ascending_canonical(m1.pairs(), m2.pairs());
}

} // verus!
