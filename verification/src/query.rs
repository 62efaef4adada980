//! Rule query strings: extension markers, attribute markers and the kind of
//! content a query asks for.

use vstd::prelude::*;

use crate::text::{
    chars_of, contains, find, find_in, has_prefix, rfind_char, rfind_in, slice_of, starts_with,
    str_contains, string_of, trim, trim_chars, trim_end, trim_end_index, trim_start,
    trim_start_index,
};

verus! {

/// What to pull from a matched element.
#[derive(Debug, Clone, Copy, PartialEq, Eq)]
pub enum ContentKind {
    Text,
    Html,
    AttrHref,
    AttrSrc,
    AttrContent,
    AttrValue,
}

/// The query up to its first `@js:` marker, or else up to its first `@java:`.
pub open spec fn without_script(q: Seq<char>) -> Seq<char> {
    match find(q, "@js:"@) {
        Some(i) => q.take(i),
        None => match find(q, "@java:"@) {
            Some(i) => q.take(i),
            None => q,
        },
    }
}

/// Text after an `@` that marks an attribute to read (`href`, `src`, or text
/// starting with either).
pub open spec fn is_attr_marker(after: Seq<char>) -> bool {
    starts_with(after, "href"@) || starts_with(after, "src"@)
}

/// The CSS part of a rule query: script tails and a trailing attribute marker
/// removed, trailing whitespace trimmed.
pub open spec fn css_part(q: Seq<char>) -> Seq<char> {
    let w = without_script(q);
    match rfind_char(w, '@') {
        Some(idx) => if is_attr_marker(w.skip(idx + 1)) {
            trim_end(w.take(idx))
        } else {
            trim_end(w)
        },
        None => trim_end(w),
    }
}

/// The extraction kind a query implies.
pub open spec fn kind_of(q: Seq<char>) -> ContentKind {
    if contains(q, "@href"@) {
        ContentKind::AttrHref
    } else if contains(q, "@src"@) {
        ContentKind::AttrSrc
    } else if contains(q, "@value"@) {
        ContentKind::AttrValue
    } else if starts_with(trim_start(q), "meta["@) {
        ContentKind::AttrContent
    } else {
        ContentKind::Text
    }
}

/// The query's selector looks like XPath.
pub open spec fn is_xpath(q: Seq<char>) -> bool {
    let t = trim(css_part(q));
    t.len() > 0 && (t[0] == '/' || t[0] == '(')
}

/// The query embeds a `@js:` transform.
pub open spec fn is_js(q: Seq<char>) -> bool {
    contains(q, "@js:"@)
}

/// True when the rule field embeds `@js:` transforms.
pub fn requires_js(query: &str) -> (r: bool)
    ensures
        r == is_js(query@),
{
    str_contains(query, "@js:")
}

fn strip_chars(q: &[char]) -> (r: Vec<char>)
    ensures
        r@ == css_part(q@),
{
    let js = chars_of("@js:");
    let java = chars_of("@java:");
    let w = match find_in(q, js.as_slice()) {
        Some(i) => slice_of(q, 0, i),
        None => match find_in(q, java.as_slice()) {
            Some(i) => slice_of(q, 0, i),
            None => slice_of(q, 0, q.len()),
        },
    };
    assert(q@.subrange(0, q@.len() as int) =~= q@);
    assert(w@ == without_script(q@));
    match rfind_in(w.as_slice(), '@') {
        Some(idx) => {
            let after = slice_of(w.as_slice(), idx + 1, w.len());
            assert(after@ =~= w@.skip(idx + 1));
            let href = chars_of("href");
            let src = chars_of("src");
            if has_prefix(after.as_slice(), href.as_slice()) || has_prefix(
                after.as_slice(),
                src.as_slice(),
            ) {
                let head = slice_of(w.as_slice(), 0, idx);
                let j = trim_end_index(head.as_slice());
                return slice_of(head.as_slice(), 0, j);
            }
            let j = trim_end_index(w.as_slice());
            slice_of(w.as_slice(), 0, j)
        },
        None => {
            let j = trim_end_index(w.as_slice());
            slice_of(w.as_slice(), 0, j)
        },
    }
}

/// Strips `@js:` / `@java:` tails and `@href` / `@src` markers, leaving the CSS
/// selector (`a@href` gives `a`; `#list a@js:code` gives `#list a`).
pub fn strip_extensions(query: &str) -> (r: String)
    ensures
        r@ == css_part(query@),
{
    let q = chars_of(query);
    let r = strip_chars(q.as_slice());
    string_of(r.as_slice())
}

/// True when the primary selector looks like XPath.
pub fn requires_xpath(query: &str) -> (r: bool)
    ensures
        r == is_xpath(query@),
{
    let q = chars_of(query);
    let css = strip_chars(q.as_slice());
    let t = trim_chars(css.as_slice());
    t.len() > 0 && (t[0] == '/' || t[0] == '(')
}

/// Infers the extraction kind from the rule query string.
pub fn content_kind(query: &str) -> (k: ContentKind)
    ensures
        k == kind_of(query@),
{
    if str_contains(query, "@href") {
        ContentKind::AttrHref
    } else if str_contains(query, "@src") {
        ContentKind::AttrSrc
    } else if str_contains(query, "@value") {
        ContentKind::AttrValue
    } else {
        let q = chars_of(query);
        let i = trim_start_index(q.as_slice());
        let rest = slice_of(q.as_slice(), i, q.len());
        assert(rest@ =~= q@.skip(i as int));
        let meta = chars_of("meta[");
        if has_prefix(rest.as_slice(), meta.as_slice()) {
            ContentKind::AttrContent
        } else {
            ContentKind::Text
        }
    }
}

} // verus!
