use vstd::prelude::*;
use crate::error::{Error, ErrorKind};
use crate::text::{chars_of, contains, occurs_in, string_of};

verus! {

/// The root of the namespace: the empty path or a single separator.
pub open spec fn spec_is_root(p: Seq<char>) -> bool {
    p.len() == 0 || p =~= seq!['/']
}

/// Paths that name the root directory when listing.
pub open spec fn spec_is_root_dir(p: Seq<char>) -> bool {
    spec_is_root(p) || p =~= seq!['.', '/'] || p =~= seq!['/', '.']
}

/// Whether `path` names the root container.
pub fn is_root(path: &str) -> (r: bool)
    ensures
        r == spec_is_root(path@),
{
    let n = path.unicode_len();
    n == 0 || (n == 1 && path.get_char(0) == '/')
}

/// Whether `path` names the root directory, also in its `./` and `/.` forms.
pub fn is_root_dir(path: &str) -> (r: bool)
    ensures
        r == spec_is_root_dir(path@),
{
    if is_root(path) {
        return true;
    }
    let n = path.unicode_len();
    if n != 2 {
        return false;
    }
    let a = path.get_char(0);
    let b = path.get_char(1);
    (a == '.' && b == '/') || (a == '/' && b == '.')
}

/// The suffix of a rendered document's name.
pub open spec fn md_suffix() -> Seq<char> {
    seq!['.', 'm', 'd']
}

/// `s` without its trailing `.md`, if it has one.
pub open spec fn strip_md(s: Seq<char>) -> Seq<char> {
    if s.len() >= 3 && s.subrange(s.len() - 3, s.len() as int) == md_suffix() {
        s.subrange(0, s.len() - 3)
    } else {
        s
    }
}

/// A path that climbs to a parent or names a nested item.
pub open spec fn is_nested(p: Seq<char>) -> bool {
    occurs_in(p, seq!['.', '.']) || occurs_in(p, seq!['/'])
}

/// The page id that `path` names: the path without one trailing `.md`, if
/// present. A path holding `..` or `/`, or nothing but that suffix, names no
/// page.
pub fn parse_page_path(path: &str) -> (r: Result<String, Error>)
    ensures
        r is Err <==> is_nested(path@) || strip_md(path@).len() == 0,
        r matches Err(e) ==> e.kind == ErrorKind::NotFound,
        r matches Ok(id) ==> id@ == strip_md(path@),
{
    let chars = chars_of(path);
    let parent = vec!['.', '.'];
    let separator = vec!['/'];
    assert(parent@ =~= seq!['.', '.']);
    assert(separator@ =~= seq!['/']);
    if contains(&chars, &parent) || contains(&chars, &separator) {
        return Err(Error::new(ErrorKind::NotFound, "nested paths are not supported"));
    }
    let n = chars.len();
    let has_suffix = n >= 3 && chars[n - 3] == '.' && chars[n - 2] == 'm' && chars[n - 1] == 'd';
    let end: usize = if has_suffix {
        n - 3
    } else {
        n
    };
    assert(has_suffix <==> n >= 3 && chars@.subrange(n - 3, n as int) == md_suffix()) by {
        if n >= 3 {
            let t = chars@.subrange(n - 3, n as int);
            assert(t[0] == chars@[n - 3] && t[1] == chars@[n - 2] && t[2] == chars@[n - 1]);
            if has_suffix {
                assert(t =~= md_suffix());
            }
        }
    }
    assert(strip_md(chars@) =~= chars@.subrange(0, end as int));
    if end == 0 {
        Err(Error::new(ErrorKind::NotFound, "page id is required in path"))
    } else {
        Ok(string_of(&chars, 0, end))
    }
}

} // verus!
