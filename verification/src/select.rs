//! CSS selection and field extraction with rule-query semantics.

use vstd::prelude::*;

use crate::dom::{
    css_parse_outcome, document_matches, element_attr, element_html, element_matches,
    element_text, url_join_outcome, BaseUrl, Css, Document, Element, Loc,
};
use crate::error::Error;
use crate::query::{
    content_kind, css_part, is_xpath, kind_of, requires_xpath, strip_extensions, ContentKind,
};
use crate::text::{blank, cat, collapse_ws, collapsed, is_blank, trim, trimmed};

verus! {

/// Why a rule query cannot be compiled to a CSS selector.
pub enum CssProblem {
    /// The query looks like XPath.
    XPath,
    /// Nothing is left once extensions are stripped.
    Empty,
    /// The selector parser refused the CSS; its message.
    Refused(Seq<char>),
}

/// The CSS selector text a query compiles to, or why it does not.
pub open spec fn compiled_css(query: Seq<char>) -> Result<Seq<char>, CssProblem> {
    if is_xpath(query) {
        Err(CssProblem::XPath)
    } else {
        let css = css_part(query);
        if css.len() == 0 {
            Err(CssProblem::Empty)
        } else {
            match css_parse_outcome(css) {
                Ok(_) => Ok(css),
                Err(m) => Err(CssProblem::Refused(m)),
            }
        }
    }
}

/// `e` is the error that `compile_css(query)` reports for `p`.
pub open spec fn css_error(e: Error, p: CssProblem, query: Seq<char>) -> bool {
    match p {
        CssProblem::XPath => e matches Error::UnsupportedFeature(m) && m@
            == "XPath selector not supported yet: "@ + query,
        CssProblem::Empty => e matches Error::InvalidSelector { selector: s, message: m } && s@
            == query && m@ == "empty selector"@,
        CssProblem::Refused(msg) => e matches Error::InvalidSelector { selector: s, message: m }
            && s@ == css_part(query) && m@ == msg,
    }
}

/// Compiles a rule query to a CSS selector, rejecting XPath-looking queries.
pub fn compile_css(query: &str) -> (res: Result<Css, Error>)
    ensures
        match compiled_css(query@) {
            Ok(css) => res matches Ok(c) && c.text_view() == css,
            Err(p) => res matches Err(e) && css_error(e, p, query@),
        },
{
    if requires_xpath(query) {
        return Err(Error::UnsupportedFeature(cat("XPath selector not supported yet: ", query)));
    }
    let css = strip_extensions(query);
    if css.as_str().unicode_len() == 0 {
        return Err(
            Error::InvalidSelector {
                selector: query.to_owned(),
                message: "empty selector".to_string(),
            },
        );
    }
    match Css::parse(css.as_str()) {
        Ok(c) => Ok(c),
        Err(message) => Err(Error::InvalidSelector { selector: css, message }),
    }
}

/// All elements matching `query` under `root`.
pub fn select_all<'a>(root: &Element<'a>, query: &str) -> (res: Result<Vec<Element<'a>>, Error>)
    ensures
        match compiled_css(query@) {
            Ok(css) => res matches Ok(v) && v@.len() == element_matches(root.src(), root.loc(), css)
                && forall|i: int|
                0 <= i < v@.len() ==> #[trigger] v@[i].src() == root.src() && v@[i].loc()
                    == root.loc().push((css, i as nat)),
            Err(p) => res matches Err(e) && css_error(e, p, query@),
        },
{
    let css = compile_css(query)?;
    Ok(root.select(&css))
}

/// All elements of a document matching `query`.
pub fn select_all_in_document<'a>(document: &'a Document, query: &str) -> (res: Result<
    Vec<Element<'a>>,
    Error,
>)
    ensures
        match compiled_css(query@) {
            Ok(css) => res matches Ok(v) && v@.len() == document_matches(
                document.source_view(),
                css,
            ) && forall|i: int|
                0 <= i < v@.len() ==> #[trigger] v@[i].src() == document.source_view()
                    && v@[i].loc() == seq![(css, i as nat)],
            Err(p) => res matches Err(e) && css_error(e, p, query@),
        },
{
    let css = compile_css(query)?;
    Ok(document.select(&css))
}

/// The first element of a document matching `query`, if any.
pub fn select_first<'a>(document: &'a Document, query: &str) -> (res: Result<
    Option<Element<'a>>,
    Error,
>)
    ensures
        match compiled_css(query@) {
            Ok(css) => res matches Ok(o) && if document_matches(document.source_view(), css) > 0 {
                o matches Some(e) && e.src() == document.source_view() && e.loc() == seq![
                    (css, 0nat),
                ]
            } else {
                o is None
            },
            Err(p) => res matches Err(e) && css_error(e, p, query@),
        },
{
    let mut all = select_all_in_document(document, query)?;
    if all.len() > 0 {
        Ok(Some(all.remove(0)))
    } else {
        Ok(None)
    }
}

/// An attribute read as a URL: trimmed, then resolved against `base`, or
/// kept as is when it cannot be resolved; empty when absent or blank.
pub open spec fn attr_url(src: Seq<char>, loc: Loc, name: Seq<char>, base: Seq<char>) -> Seq<
    char,
> {
    match element_attr(src, loc, name) {
        None => Seq::empty(),
        Some(raw) => {
            let r = trim(raw);
            if r.len() == 0 {
                Seq::empty()
            } else {
                match url_join_outcome(base, r) {
                    Some(u) => u,
                    None => r,
                }
            }
        },
    }
}

/// What a node yields for a content kind.
pub open spec fn content_of(src: Seq<char>, loc: Loc, kind: ContentKind, base: Seq<char>) -> Seq<
    char,
> {
    match kind {
        ContentKind::Text => collapse_ws(element_text(src, loc)),
        ContentKind::Html => element_html(src, loc),
        ContentKind::AttrHref => attr_url(src, loc, "href"@, base),
        ContentKind::AttrSrc => attr_url(src, loc, "src"@, base),
        ContentKind::AttrValue => attr_url(src, loc, "value"@, base),
        ContentKind::AttrContent => match element_attr(src, loc, "content"@) {
            Some(v) => trim(v),
            None => Seq::empty(),
        },
    }
}

/// Location of the node a query reads under the element at `loc`: its first
/// descendant matching the query's CSS, or the element itself when the CSS
/// is empty, refused, or matches nothing.
pub open spec fn query_target(src: Seq<char>, loc: Loc, query: Seq<char>) -> Loc {
    let css = css_part(query);
    if css.len() == 0 {
        loc
    } else {
        match css_parse_outcome(css) {
            Err(_) => loc,
            Ok(_) => if element_matches(src, loc, css) > 0 {
                loc.push((css, 0nat))
            } else {
                loc
            },
        }
    }
}

/// The value a rule query extracts from the element at `loc`.
pub open spec fn extracted(src: Seq<char>, loc: Loc, query: Seq<char>, base: Seq<char>) -> Seq<
    char,
> {
    if is_blank(query) {
        Seq::empty()
    } else {
        content_of(src, query_target(src, loc, query), kind_of(query), base)
    }
}

fn abs_url(element: &Element, attr: &str, base: &BaseUrl) -> (r: String)
    ensures
        r@ == attr_url(element.src(), element.loc(), attr@, base.text_view()),
{
    let raw = match element.attr(attr) {
        Some(raw) => raw,
        None => return String::new(),
    };
    let raw = trimmed(raw.as_str());
    if raw.as_str().unicode_len() == 0 {
        return String::new();
    }
    match base.join(raw.as_str()) {
        Some(url) => url,
        None => raw,
    }
}

/// Whitespace runs collapsed to one space, ends trimmed.
pub fn normalize_ws(input: &str) -> (r: String)
    ensures
        r@ == collapse_ws(input@),
{
    collapsed(input)
}

/// Extracts from an already selected node.
pub fn extract_content(element: &Element, kind: ContentKind, base: &BaseUrl) -> (r: String)
    ensures
        r@ == content_of(element.src(), element.loc(), kind, base.text_view()),
{
    match kind {
        ContentKind::Text => normalize_ws(element.text().as_str()),
        ContentKind::Html => element.html(),
        ContentKind::AttrHref => abs_url(element, "href", base),
        ContentKind::AttrSrc => abs_url(element, "src", base),
        ContentKind::AttrValue => abs_url(element, "value", base),
        ContentKind::AttrContent => match element.attr("content") {
            Some(v) => trimmed(v.as_str()),
            None => String::new(),
        },
    }
}

/// Extracts a field from an element using rule-query semantics: the query's
/// CSS picks a descendant (or the element itself) and its markers pick what
/// to read.
pub fn extract(element: &Element, query: &str, base: &BaseUrl) -> (r: String)
    ensures
        r@ == extracted(element.src(), element.loc(), query@, base.text_view()),
{
    if blank(query) {
        return String::new();
    }
    let kind = content_kind(query);
    let css = strip_extensions(query);
    if css.as_str().unicode_len() == 0 {
        return extract_content(element, kind, base);
    }
    match Css::parse(css.as_str()) {
        Err(_) => extract_content(element, kind, base),
        Ok(sel) => {
            let mut found = element.select(&sel);
            if found.len() > 0 {
                let node = found.remove(0);
                extract_content(&node, kind, base)
            } else {
                extract_content(element, kind, base)
            }
        },
    }
}

/// Extracts a field from a whole document: the query's CSS picks the first
/// matching element; an empty, refused or unmatched CSS yields nothing.
pub open spec fn extracted_in_document(src: Seq<char>, query: Seq<char>, base: Seq<char>) -> Seq<
    char,
> {
    if is_blank(query) {
        Seq::empty()
    } else {
        let css = css_part(query);
        if css.len() == 0 {
            Seq::empty()
        } else {
            match css_parse_outcome(css) {
                Err(_) => Seq::empty(),
                Ok(_) => if document_matches(src, css) > 0 {
                    content_of(src, seq![(css, 0nat)], kind_of(query), base)
                } else {
                    Seq::empty()
                },
            }
        }
    }
}

/// Extracts a field from the first element of a document that the query's
/// CSS matches.
pub fn extract_in_document(document: &Document, query: &str, base: &BaseUrl) -> (r: String)
    ensures
        r@ == extracted_in_document(document.source_view(), query@, base.text_view()),
{
    if blank(query) {
        return String::new();
    }
    let kind = content_kind(query);
    let css = strip_extensions(query);
    if css.as_str().unicode_len() == 0 {
        return String::new();
    }
    match Css::parse(css.as_str()) {
        Err(_) => String::new(),
        Ok(sel) => {
            let mut found = document.select(&sel);
            if found.len() > 0 {
                let node = found.remove(0);
                extract_content(&node, kind, base)
            } else {
                String::new()
            }
        },
    }
}

} // verus!
