use vstd::prelude::*;
use crate::error::{Error, ErrorKind};
use crate::path::is_nested;
use crate::text::{chars_of, contains, has_prefix, push_char, starts_with, trim, trimmed};

verus! {

/// The token of a request: a bearer token when the request has one, else the
/// `Auth` header without surrounding white space, when anything is left.
pub open spec fn spec_token(bearer: Option<Seq<char>>, auth: Option<Seq<char>>) -> Option<Seq<char>> {
    match bearer {
        Some(b) => Some(b),
        None => match auth {
            Some(a) => if trimmed(a).len() > 0 {
                Some(trimmed(a))
            } else {
                None
            },
            None => None,
        },
    }
}

/// The view of an optional text.
pub open spec fn opt_view(o: Option<&str>) -> Option<Seq<char>> {
    match o {
        Some(s) => Some(s@),
        None => None,
    }
}

/// Picks the token of a request from its bearer token and its `Auth` header,
/// tried in that order.
pub fn token_from_headers(bearer: Option<&str>, auth: Option<&str>) -> (r: Option<String>)
    ensures
        match r {
            Some(t) => spec_token(opt_view(bearer), opt_view(auth)) == Some(t@),
            None => spec_token(opt_view(bearer), opt_view(auth)) is None,
        },
{
    match bearer {
        Some(b) => Some(b.to_owned()),
        None => match auth {
            Some(a) => {
                let t = trim(a);
                if t.is_empty() {
                    None
                } else {
                    Some(t.to_owned())
                }
            },
            None => None,
        },
    }
}

/// The token, which a request must carry.
pub fn notion_token_from_header(token: Option<String>) -> (r: Result<String, Error>)
    ensures
        r is Ok <==> token is Some,
        r matches Ok(t) ==> token == Some(t),
        r matches Err(e) ==> e.kind == ErrorKind::PermissionDenied,
{
    match token {
        Some(t) => Ok(t),
        None => Err(Error::new(ErrorKind::PermissionDenied, "missing Notion token in request headers")),
    }
}

/// Whether `id` can name a page or a collection: it neither climbs to a
/// parent nor nests.
pub fn is_valid_id(id: &str) -> (r: bool)
    ensures
        r == !is_nested(id@),
{
    let chars = chars_of(id);
    let parent = vec!['.', '.'];
    let separator = vec!['/'];
    assert(parent@ =~= seq!['.', '.']);
    assert(separator@ =~= seq!['/']);
    !(contains(&chars, &parent) || contains(&chars, &separator))
}

/// The form a page is sent in.
#[derive(Clone, Copy, Debug, PartialEq, Eq, Structural)]
pub enum PageResponseFormat {
    Json,
    Markdown,
}

/// The pieces of `s` between commas, empty ones included.
pub open spec fn split_commas(s: Seq<char>) -> Seq<Seq<char>>
    decreases s.len(),
{
    if s.len() == 0 {
        seq![Seq::empty()]
    } else {
        let head = split_commas(s.drop_last());
        if s.last() == ',' {
            head.push(Seq::empty())
        } else {
            head.update(head.len() - 1, head.last().push(s.last()))
        }
    }
}

pub open spec fn text_markdown() -> Seq<char> {
    seq!['t', 'e', 'x', 't', '/', 'm', 'a', 'r', 'k', 'd', 'o', 'w', 'n']
}

pub open spec fn text_any() -> Seq<char> {
    seq!['t', 'e', 'x', 't', '/', '*']
}

pub open spec fn application_json() -> Seq<char> {
    seq!['a', 'p', 'p', 'l', 'i', 'c', 'a', 't', 'i', 'o', 'n', '/', 'j', 's', 'o', 'n']
}

pub open spec fn application_any() -> Seq<char> {
    seq!['a', 'p', 'p', 'l', 'i', 'c', 'a', 't', 'i', 'o', 'n', '/', '*']
}

pub open spec fn any_type() -> Seq<char> {
    seq!['*', '/', '*']
}

/// What one trimmed item of an `Accept` header asks for, if it decides.
pub open spec fn item_choice(item: Seq<char>) -> Option<PageResponseFormat> {
    if has_prefix(item, text_markdown()) || has_prefix(item, text_any()) {
        Some(PageResponseFormat::Markdown)
    } else if has_prefix(item, application_json()) || has_prefix(item, application_any()) {
        Some(PageResponseFormat::Json)
    } else if item == any_type() {
        Some(PageResponseFormat::Json)
    } else {
        None
    }
}

/// What the first deciding item asks for.
pub open spec fn accept_choice(items: Seq<Seq<char>>) -> Option<PageResponseFormat>
    decreases items.len(),
{
    if items.len() == 0 {
        None
    } else {
        match item_choice(trimmed(items[0])) {
            Some(f) => Some(f),
            None => accept_choice(items.drop_first()),
        }
    }
}

/// A content type that is markdown.
pub open spec fn is_markdown_type(content_type: Option<Seq<char>>) -> bool {
    match content_type {
        Some(ct) => has_prefix(ct, text_markdown()),
        None => false,
    }
}

/// The form to send a page in: markdown when the content type is markdown,
/// else what the first deciding item of the `Accept` header asks for, else JSON.
pub open spec fn spec_response_format(content_type: Option<Seq<char>>, accept: Option<Seq<char>>) -> PageResponseFormat {
    if is_markdown_type(content_type) {
        PageResponseFormat::Markdown
    } else {
        match accept {
            Some(a) => match accept_choice(split_commas(a)) {
                Some(f) => f,
                None => PageResponseFormat::Json,
            },
            None => PageResponseFormat::Json,
        }
    }
}

/// The pieces of `s` between commas.
fn split_at_commas(s: &str) -> (r: Vec<String>)
    ensures
        r@.map_values(|p: String| p@) == split_commas(s@),
{
    let chars = chars_of(s);
    let mut pieces: Vec<String> = Vec::new();
    let mut current = String::new();
    let mut i: usize = 0;
    assert(split_commas(Seq::<char>::empty()) =~= seq![Seq::<char>::empty()]);
    while i < chars.len()
        invariant
            chars@ == s@,
            i <= chars@.len(),
            pieces@.map_values(|p: String| p@).push(current@) == split_commas(
                chars@.subrange(0, i as int),
            ),
        decreases chars@.len() - i,
    {
        let ghost prefix = chars@.subrange(0, i + 1);
        assert(prefix.drop_last() =~= chars@.subrange(0, i as int));
        let ghost head = split_commas(prefix.drop_last());
        if chars[i] == ',' {
            let done = current;
            pieces.push(done);
            current = String::new();
            assert(pieces@.map_values(|p: String| p@).push(current@) =~= head.push(Seq::empty()));
        } else {
            push_char(&mut current, chars[i]);
            assert(pieces@.map_values(|p: String| p@).push(current@) =~= head.update(
                head.len() - 1,
                head.last().push(chars@[i as int]),
            ));
        }
        i = i + 1;
    }
    assert(chars@.subrange(0, chars@.len() as int) =~= chars@);
    pieces.push(current);
    pieces
}

/// Whether `s` begins with the characters of `prefix`.
fn begins_with(s: &Vec<char>, prefix: &str) -> (r: bool)
    ensures
        r == has_prefix(s@, prefix@),
{
    let p = chars_of(prefix);
    starts_with(s, &p)
}

/// What one trimmed item of an `Accept` header asks for, if it decides.
fn choice_of_item(item: &str) -> (r: Option<PageResponseFormat>)
    ensures
        r == item_choice(item@),
{
    let c = chars_of(item);
    proof {
        reveal_strlit("text/markdown");
        reveal_strlit("text/*");
        reveal_strlit("application/json");
        reveal_strlit("application/*");
        reveal_strlit("*/*");
    }
    assert("text/markdown"@ =~= text_markdown());
    assert("text/*"@ =~= text_any());
    assert("application/json"@ =~= application_json());
    assert("application/*"@ =~= application_any());
    assert("*/*"@ =~= any_type());
    if begins_with(&c, "text/markdown") || begins_with(&c, "text/*") {
        Some(PageResponseFormat::Markdown)
    } else if begins_with(&c, "application/json") || begins_with(&c, "application/*") {
        Some(PageResponseFormat::Json)
    } else if c.len() == 3 && begins_with(&c, "*/*") {
        assert(c@ =~= any_type());
        Some(PageResponseFormat::Json)
    } else {
        assert(c@.len() == 3 && c@ == any_type() ==> has_prefix(c@, any_type())) by {
            if c@ == any_type() {
                assert(c@.subrange(0, 3) =~= c@);
            }
        }
        None
    }
}

/// The form to send a page in, from the request's `Content-Type` and
/// `Accept` headers where they are valid text.
pub fn page_response_format(content_type: Option<&str>, accept: Option<&str>) -> (r:
    PageResponseFormat)
    ensures
        r == spec_response_format(opt_view(content_type), opt_view(accept)),
{
    if let Some(ct) = content_type {
        let c = chars_of(ct);
        proof {
            reveal_strlit("text/markdown");
        }
        assert("text/markdown"@ =~= text_markdown());
        if begins_with(&c, "text/markdown") {
            return PageResponseFormat::Markdown;
        }
    }
    match accept {
        None => PageResponseFormat::Json,
        Some(a) => {
            let items = split_at_commas(a);
            let ghost views = items@.map_values(|p: String| p@);
            let mut i: usize = 0;
            assert(views.subrange(0, views.len() as int) =~= views);
            while i < items.len()
                invariant
                    !is_markdown_type(opt_view(content_type)),
                    opt_view(accept) == Some(a@),
                    views == items@.map_values(|p: String| p@),
                    views == split_commas(a@),
                    i <= items@.len(),
                    accept_choice(views) == accept_choice(views.subrange(i as int, views.len() as int)),
                decreases items@.len() - i,
            {
                let ghost rest = views.subrange(i as int, views.len() as int);
                assert(rest[0] == items@[i as int]@);
                assert(rest.drop_first() =~= views.subrange(i + 1, views.len() as int));
                let item = trim(items[i].as_str());
                match choice_of_item(item) {
                    Some(f) => {
                        return f;
                    },
                    None => {},
                }
                i = i + 1;
            }
            assert(views.subrange(i as int, views.len() as int) =~= Seq::<Seq<char>>::empty());
            PageResponseFormat::Json
        },
    }
}

} // verus!
