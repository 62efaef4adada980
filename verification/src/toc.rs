//! Table-of-contents pages: rule checks, item selection, chapter rows and
//! the clean-up of a fetched TOC.

use vstd::prelude::*;

use crate::dom::{
    css_parse_outcome, document_matches, element_html, BaseUrl, Css, Document, Element,
};
use crate::error::Error;
use crate::model::{chapters_view, Chapter, ChapterView};
use crate::query::{css_part, is_js, is_xpath, requires_js, requires_xpath, strip_extensions};
use crate::rule::{effective_book, effective_book_rule, effective_toc, effective_toc_rule, Rule, TocRule, TocRuleView};
use crate::select::content_of;
use crate::select::{
    attr_url, compiled_css, css_error, extract_content, normalize_ws, select_all_in_document,
};
use crate::support::{find_unsupported, first_unsupported, strs_view};
use crate::text::{blank, cat, collapse_ws, is_blank};
use crate::dom::{element_attr, element_text, regex_compiles, regex_first_group, url_parse_outcome, Pattern};
use crate::query::ContentKind;

verus! {

/// The TOC fields that must not need `@js:` or XPath, in checking order.
pub open spec fn toc_field_values(t: TocRuleView) -> Seq<Seq<char>> {
    seq![t.url, t.list, t.item, t.next_page]
}

/// The names of those fields as rules spell them.
pub open spec fn toc_field_names() -> Seq<Seq<char>> {
    seq!["url"@, "list"@, "item"@, "nextPage"@]
}

/// The message for an unsupported TOC field.
pub open spec fn toc_unsupported_message(j: int, js: bool) -> Seq<char> {
    "toc."@ + toc_field_names()[j] + if js {
        " requires @js: (not enabled yet)"@
    } else {
        " uses XPath (not enabled yet)"@
    }
}

/// Rejects TOC rules that need `@js:` or XPath.
pub fn ensure_toc_supported(toc: &TocRule) -> (res: Result<(), Error>)
    ensures
        match first_unsupported(toc_field_values(toc@), 0) {
            None => res is Ok,
            Some((j, js)) => res matches Err(Error::UnsupportedFeature(m)) && m@
                == toc_unsupported_message(j, js),
        },
{
    let values: [&str; 4] = [
        toc.url.as_str(),
        toc.list.as_str(),
        toc.item.as_str(),
        toc.next_page.as_str(),
    ];
    let names: [&str; 4] = ["url", "list", "item", "nextPage"];
    assert(strs_view(values@) =~= toc_field_values(toc@));
    assert(strs_view(names@) =~= toc_field_names());
    match find_unsupported(values.as_slice()) {
        None => Ok(()),
        Some((j, js)) => {
            assert(names@.len() == 4);
            assert(names@[j as int]@ == toc_field_names()[j as int]);
            let head = cat("toc.", names[j]);
            let m = if js {
                cat(head.as_str(), " requires @js: (not enabled yet)")
            } else {
                cat(head.as_str(), " uses XPath (not enabled yet)")
            };
            Err(Error::UnsupportedFeature(m))
        },
    }
}

/// Why the TOC items of a page cannot be selected.
pub enum TocSelectProblem {
    /// `toc.item` is blank.
    ItemEmpty,
    /// `toc.list` needs XPath or `@js:`.
    ListUnsupported,
    /// The CSS of `toc.list` was refused: the selector and the message.
    ListRefused(Seq<char>, Seq<char>),
    /// The item query did not compile: why, and the query.
    Query(crate::select::CssProblem, Seq<char>),
}

/// The query that selects TOC items on the page `src`: `toc.item`, or when
/// `toc.list` is set, the list's CSS followed by the item's CSS. `None` when
/// the list is set but its first match is blank or absent.
pub open spec fn toc_item_query(src: Seq<char>, toc: TocRuleView) -> Result<
    Option<Seq<char>>,
    TocSelectProblem,
> {
    if is_blank(toc.item) {
        Err(TocSelectProblem::ItemEmpty)
    } else if !is_blank(toc.list) {
        if is_xpath(toc.list) || is_js(toc.list) {
            Err(TocSelectProblem::ListUnsupported)
        } else {
            let css = css_part(toc.list);
            match css_parse_outcome(css) {
                Err(m) => Err(TocSelectProblem::ListRefused(css, m)),
                Ok(_) => {
                    let h = if document_matches(src, css) > 0 {
                        element_html(src, seq![(css, 0nat)])
                    } else {
                        Seq::empty()
                    };
                    if is_blank(h) {
                        Ok(None)
                    } else {
                        Ok(Some(css + " "@ + css_part(toc.item)))
                    }
                },
            }
        }
    } else {
        Ok(Some(toc.item))
    }
}

/// `e` is the error reported for a TOC selection problem.
pub open spec fn toc_select_error(e: Error, p: TocSelectProblem) -> bool {
    match p {
        TocSelectProblem::ItemEmpty => e matches Error::Message(m) && m@ == "toc.item 不能为空"@,
        TocSelectProblem::ListUnsupported => e matches Error::UnsupportedFeature(m) && m@
            == "toc.list requires unsupported selector feature"@,
        TocSelectProblem::ListRefused(css, msg) => e matches Error::InvalidSelector {
            selector: s,
            message: m,
        } && s@ == css && m@ == msg,
        TocSelectProblem::Query(q, query) => css_error(e, q, query),
    }
}

/// The TOC item elements of a page.
pub fn extract_toc_elements<'a>(document: &'a Document, toc_rule: &TocRule) -> (res: Result<
    Vec<Element<'a>>,
    Error,
>)
    ensures
        match toc_item_query(document.source_view(), toc_rule@) {
            Err(p) => res matches Err(e) && toc_select_error(e, p),
            Ok(None) => res matches Ok(v) && v@.len() == 0,
            Ok(Some(q)) => match compiled_css(q) {
                Err(p) => res matches Err(e) && css_error(e, p, q),
                Ok(css) => res matches Ok(v) && v@.len() == document_matches(
                    document.source_view(),
                    css,
                ) && forall|i: int|
                    0 <= i < v@.len() ==> #[trigger] v@[i].src() == document.source_view()
                        && v@[i].loc() == seq![(css, i as nat)],
            },
        },
{
    if blank(toc_rule.item.as_str()) {
        return Err(Error::Message("toc.item 不能为空".to_string()));
    }
    if !blank(toc_rule.list.as_str()) {
        if requires_xpath(toc_rule.list.as_str()) || requires_js(toc_rule.list.as_str()) {
            return Err(
                Error::UnsupportedFeature("toc.list requires unsupported selector feature".to_string()),
            );
        }
        let css = strip_extensions(toc_rule.list.as_str());
        let sel = match Css::parse(css.as_str()) {
            Ok(sel) => sel,
            Err(message) => return Err(Error::InvalidSelector { selector: css, message }),
        };
        let mut found = document.select(&sel);
        let list_html = if found.len() > 0 {
            let first = found.remove(0);
            first.html()
        } else {
            String::new()
        };
        if blank(list_html.as_str()) {
            return Ok(Vec::new());
        }
        let item_css = strip_extensions(toc_rule.item.as_str());
        let compound = cat(cat(css.as_str(), " ").as_str(), item_css.as_str());
        return select_all_in_document(document, compound.as_str());
    }
    select_all_in_document(document, toc_rule.item.as_str())
}

/// The chapter row a TOC item yields: its collapsed text and its resolved
/// `href`.
pub open spec fn toc_row(src: Seq<char>, css: Seq<char>, i: nat, base: Seq<char>) -> ChapterView {
    ChapterView {
        order: 0,
        title: collapse_ws(element_text(src, seq![(css, i)])),
        url: attr_url(src, seq![(css, i)], "href"@, base),
        content: Seq::empty(),
    }
}

/// The rows of the first `n` items that have both a title and a URL.
pub open spec fn toc_rows(src: Seq<char>, css: Seq<char>, n: nat, base: Seq<char>) -> Seq<
    ChapterView,
>
    decreases n,
{
    if n == 0 {
        seq![]
    } else {
        let init = toc_rows(src, css, (n - 1) as nat, base);
        let c = toc_row(src, css, (n - 1) as nat, base);
        if c.title.len() > 0 && c.url.len() > 0 {
            init.push(c)
        } else {
            init
        }
    }
}

/// The chapters listed on one TOC page.
pub open spec fn toc_page(src: Seq<char>, toc: TocRuleView, base: Seq<char>) -> Seq<ChapterView> {
    match toc_item_query(src, toc) {
        Ok(Some(q)) => match compiled_css(q) {
            Ok(css) => toc_rows(src, css, document_matches(src, css), base),
            Err(_) => Seq::empty(),
        },
        _ => Seq::empty(),
    }
}

/// `e` is the error `parse_toc_html` reports for this page and rule, if it
/// reports one.
pub open spec fn toc_page_error(src: Seq<char>, toc: TocRuleView) -> Option<spec_fn(Error) -> bool> {
    match first_unsupported(toc_field_values(toc), 0) {
        Some((j, js)) => Some(
            |e: Error| e matches Error::UnsupportedFeature(m) && m@ == toc_unsupported_message(j, js),
        ),
        None => match toc_item_query(src, toc) {
            Err(p) => Some(|e: Error| toc_select_error(e, p)),
            Ok(None) => None,
            Ok(Some(q)) => match compiled_css(q) {
                Err(p) => Some(|e: Error| css_error(e, p, q)),
                Ok(_) => None,
            },
        },
    }
}

/// Parses one TOC page: every selected item with a non-empty title and URL
/// becomes a chapter (order 0, no content).
pub fn parse_toc_html(html: &str, toc_rule: &TocRule, base: &BaseUrl) -> (res: Result<
    Vec<Chapter>,
    Error,
>)
    ensures
        match toc_page_error(html@, toc_rule@) {
            Some(is_err) => res matches Err(e) && is_err(e),
            None => res matches Ok(v) && chapters_view(v@) == toc_page(
                html@,
                toc_rule@,
                base.text_view(),
            ),
        },
{
    ensure_toc_supported(toc_rule)?;
    let document = Document::parse(html);
    let elements = extract_toc_elements(&document, toc_rule)?;
    let ghost css = match toc_item_query(html@, toc_rule@) {
        Ok(Some(q)) => match compiled_css(q) {
            Ok(c) => c,
            Err(_) => Seq::empty(),
        },
        _ => Seq::empty(),
    };
    let ghost is_list_empty = toc_item_query(html@, toc_rule@) matches Ok(None);
    let n = elements.len();
    proof {
        assert(document.source_view() == html@);
        match toc_item_query(html@, toc_rule@) {
            Ok(Some(q)) => match compiled_css(q) {
                Ok(c) => {
                    assert(c == css);
                    assert forall|k: int| 0 <= k < n implies #[trigger] elements@[k].src()
                        == html@ && elements@[k].loc() == seq![(css, k as nat)] by {}
                },
                Err(_) => {},
            },
            _ => {},
        }
    }
    let mut chapters: Vec<Chapter> = Vec::new();
    let mut i: usize = 0;
    while i < n
        invariant
            n == elements@.len(),
            i <= n,
            forall|k: int|
                0 <= k < n ==> #[trigger] elements@[k].src() == html@ && elements@[k].loc()
                    == seq![(css, k as nat)],
            is_list_empty ==> n == 0,
            chapters_view(chapters@) == toc_rows(html@, css, i as nat, base.text_view()),
        decreases n - i,
    {
        let el = &elements[i];
        let title = normalize_ws(el.text().as_str());
        let url = extract_content(el, ContentKind::AttrHref, base);
        let ghost before = chapters@;
        assert(toc_rows(html@, css, (i + 1) as nat, base.text_view()).len() >= 0);
        if title.as_str().unicode_len() > 0 && url.as_str().unicode_len() > 0 {
            chapters.push(Chapter { order: 0, title, url, content: String::new() });
            assert(chapters_view(chapters@) =~= chapters_view(before).push(chapters@.last()@));
        }
        i += 1;
    }
    proof {
        if is_list_empty {
            assert(toc_rows(html@, css, 0, base.text_view()) =~= Seq::<ChapterView>::empty());
        }
    }
    Ok(chapters)
}

/// Rows of a fetched TOC that are kept: both title and URL non-blank, and
/// the URL not seen in an earlier kept row.
pub open spec fn kept_rows(cs: Seq<ChapterView>) -> Seq<ChapterView>
    decreases cs.len(),
{
    if cs.len() == 0 {
        seq![]
    } else {
        let init = kept_rows(cs.drop_last());
        let c = cs.last();
        if is_blank(c.title) || is_blank(c.url) || exists|k: int|
            0 <= k < init.len() && #[trigger] init[k].url == c.url {
            init
        } else {
            init.push(c)
        }
    }
}

/// `cs` renumbered so that `order` runs 1, 2, 3, ...
pub open spec fn renumbered(cs: Seq<ChapterView>) -> Seq<ChapterView> {
    Seq::new(cs.len(), |k: int| ChapterView { order: (k + 1) as u32, ..cs[k] })
}

/// The final TOC: pages in reading order (reversed when the site lists the
/// newest first), blank and repeated rows dropped, orders 1..n.
pub open spec fn cleaned_toc(cs: Seq<ChapterView>, is_desc: bool) -> Seq<ChapterView> {
    renumbered(
        kept_rows(
            if is_desc {
                cs.reverse()
            } else {
                cs
            },
        ),
    )
}

/// The message for a TOC that ends up empty.
pub open spec fn empty_toc_message(source_name: Seq<char>) -> Seq<char> {
    "书源「"@ + source_name + "」目录解析结果为空（可能选择器失效或反爬）"@
}

fn has_url(cs: &Vec<Chapter>, url: &String) -> (r: bool)
    ensures
        r == exists|k: int| 0 <= k < cs@.len() && #[trigger] chapters_view(cs@)[k].url == url@,
{
    let mut i: usize = 0;
    while i < cs.len()
        invariant
            i <= cs@.len(),
            forall|k: int| 0 <= k < i ==> #[trigger] chapters_view(cs@)[k].url != url@,
        decreases cs.len() - i,
    {
        assert(chapters_view(cs@)[i as int] == cs@[i as int]@);
        if cs[i].url == *url {
            assert(chapters_view(cs@)[i as int].url == url@);
            return true;
        }
        i += 1;
    }
    false
}

/// Orders, filters and numbers the chapters collected from all TOC pages.
pub fn clean_toc(chapters: Vec<Chapter>, is_desc: bool, source_name: &str) -> (res: Result<
    Vec<Chapter>,
    Error,
>)
    ensures
        cleaned_toc(chapters_view(chapters@), is_desc).len() == 0 ==> (res matches Err(
            Error::Message(m),
        ) && m@ == empty_toc_message(source_name@)),
        cleaned_toc(chapters_view(chapters@), is_desc).len() > 0 ==> (res matches Ok(v)
            && chapters_view(v@) == cleaned_toc(chapters_view(chapters@), is_desc)),
{
    let ghost all = chapters_view(chapters@);
    let ghost ordered = if is_desc {
        all.reverse()
    } else {
        all
    };
    let n = chapters.len();
    let mut kept: Vec<Chapter> = Vec::new();
    let mut i: usize = 0;
    assert(ordered.take(0) =~= Seq::<ChapterView>::empty());
    assert(chapters_view(kept@) =~= Seq::<ChapterView>::empty());
    while i < n
        invariant
            n == chapters@.len(),
            all == chapters_view(chapters@),
            ordered == if is_desc {
                all.reverse()
            } else {
                all
            },
            i <= n,
            chapters_view(kept@) == kept_rows(ordered.take(i as int)),
        decreases n - i,
    {
        let idx = if is_desc {
            n - 1 - i
        } else {
            i
        };
        let ch = &chapters[idx];
        assert(ordered[i as int] == ch@);
        assert(ordered.take(i + 1).drop_last() =~= ordered.take(i as int));
        let keep = !blank(ch.title.as_str()) && !blank(ch.url.as_str()) && !has_url(&kept, &ch.url);
        if keep {
            let ghost before = kept@;
            kept.push(
                Chapter {
                    order: ch.order,
                    title: ch.title.clone(),
                    url: ch.url.clone(),
                    content: ch.content.clone(),
                },
            );
            assert(chapters_view(kept@) =~= chapters_view(before).push(ch@));
        }
        i += 1;
    }
    assert(ordered.take(n as int) =~= ordered);
    if kept.len() == 0 {
        let m = cat(cat("书源「", source_name).as_str(), "」目录解析结果为空（可能选择器失效或反爬）");
        return Err(Error::Message(m));
    }
    let ghost k = chapters_view(kept@);
    let mut out: Vec<Chapter> = Vec::new();
    let mut j: usize = 0;
    while j < kept.len()
        invariant
            k == chapters_view(kept@),
            j <= kept@.len(),
            chapters_view(out@) == renumbered(k).take(j as int),
        decreases kept.len() - j,
    {
        let c = &kept[j];
        let ghost before = out@;
        out.push(
            Chapter {
                order: #[verifier::truncate] ((j + 1) as u32),
                title: c.title.clone(),
                url: c.url.clone(),
                content: c.content.clone(),
            },
        );
        assert(chapters_view(out@) =~= chapters_view(before).push(out@.last()@));
        j += 1;
        assert(chapters_view(out@) =~= renumbered(k).take(j as int));
    }
    assert(renumbered(k).take(kept@.len() as int) =~= renumbered(k));
    Ok(out)
}

/// Whether a candidate page URL is an absolute HTTP(S) URL.
pub open spec fn is_http(v: Seq<char>) -> bool {
    crate::text::starts_with(v, "http://"@) || crate::text::starts_with(v, "https://"@)
}

/// Whether `value` starts with `http://` or `https://`.
pub fn is_http_url(value: &str) -> (r: bool)
    ensures
        r == is_http(value@),
{
    crate::text::str_starts_with(value, "http://") || crate::text::str_starts_with(
        value,
        "https://",
    )
}

/// The views of a list of strings.
pub open spec fn strings_view(v: Seq<String>) -> Seq<Seq<char>> {
    v.map_values(|s: String| s@)
}

/// The first index of `u` in `urls`.
pub open spec fn index_of_url(urls: Seq<Seq<char>>, u: Seq<char>, j: int) -> Option<int>
    decreases urls.len() - j,
{
    if j < 0 || j >= urls.len() {
        None
    } else if urls[j] == u {
        Some(j)
    } else {
        index_of_url(urls, u, j + 1)
    }
}

/// The list after offering `candidate`: a trimmed absolute HTTP(S) URL is
/// moved (or added) to the end; anything else leaves the list unchanged.
pub open spec fn pushed_unique(urls: Seq<Seq<char>>, candidate: Seq<char>) -> Seq<Seq<char>> {
    let c = crate::text::trim(candidate);
    if c.len() == 0 || !is_http(c) {
        urls
    } else {
        match index_of_url(urls, c, 0) {
            Some(p) => urls.remove(p).push(c),
            None => urls.push(c),
        }
    }
}

/// Adds a page URL at the end, moving it there if it is already listed.
pub fn push_unique(urls: &mut Vec<String>, candidate: String)
    ensures
        strings_view(final(urls)@) == pushed_unique(strings_view(old(urls)@), candidate@),
{
    let c = crate::text::trimmed(candidate.as_str());
    if c.as_str().unicode_len() == 0 || !is_http_url(c.as_str()) {
        return;
    }
    let ghost us = strings_view(urls@);
    let n = urls.len();
    let mut j: usize = 0;
    while j < n
        invariant
            n == urls@.len(),
            us == strings_view(urls@),
            urls@ == old(urls)@,
            c@ == crate::text::trim(candidate@),
            c@.len() > 0 && is_http(c@),
            j <= n,
            index_of_url(us, c@, 0) == index_of_url(us, c@, j as int),
        decreases n - j,
    {
        assert(us[j as int] == urls@[j as int]@);
        if urls[j] == c {
            assert(index_of_url(us, c@, j as int) == Some(j as int));
            let ghost before = urls@;
            urls.remove(j);
            urls.push(c);
            assert(strings_view(urls@) =~= us.remove(j as int).push(c@)) by {
                assert(urls@ == before.remove(j as int).push(c));
            }
            return;
        }
        j += 1;
    }
    let ghost before = urls@;
    urls.push(c);
    assert(strings_view(urls@) =~= us.push(c@));
}

/// The regex part of a `book.url` pattern: text before `@js:`, trimmed.
pub open spec fn book_id_pattern(p: Seq<char>) -> Seq<char> {
    crate::text::trim(
        match crate::text::find(p, "@js:"@) {
            Some(i) => p.take(i),
            None => p,
        },
    )
}

/// The book id a `book.url` pattern captures (group 1) from a detail URL.
pub open spec fn book_id_of(pattern: Seq<char>, detail_url: Seq<char>) -> Option<Seq<char>> {
    let p = book_id_pattern(pattern);
    if p.len() == 0 || !regex_compiles(p) {
        None
    } else {
        regex_first_group(p, detail_url)
    }
}

/// Extracts the book id from a detail URL with the source's `book.url`
/// regex (capture group 1).
pub fn extract_book_id(book_url_pattern: &str, detail_url: &str) -> (r: Option<String>)
    ensures
        match book_id_of(book_url_pattern@, detail_url@) {
            Some(id) => r matches Some(x) && x@ == id,
            None => r is None,
        },
{
    let p = crate::text::chars_of(book_url_pattern);
    let js = crate::text::chars_of("@js:");
    let head = match crate::text::find_in(p.as_slice(), js.as_slice()) {
        Some(i) => crate::text::slice_of(p.as_slice(), 0, i),
        None => crate::text::slice_of(p.as_slice(), 0, p.len()),
    };
    assert(p@.subrange(0, p@.len() as int) =~= p@);
    let pattern = crate::text::string_of(crate::text::trim_chars(head.as_slice()).as_slice());
    if pattern.as_str().unicode_len() == 0 {
        return None;
    }
    let re = Pattern::new(pattern.as_str())?;
    re.first_group(detail_url)
}

/// The most further TOC pages followed one link at a time.
pub const MAX_TOC_PAGES: usize = 80;

/// What to fetch first for a book's TOC.
pub struct TocPlan {
    /// The effective TOC rule, with the book id written into its base URI.
    pub toc_rule: TocRule,
    /// The first TOC page.
    pub first_url: String,
    /// Request timeout in seconds.
    pub timeout: u64,
}

/// Why a TOC cannot be planned.
pub enum TocPlanProblem {
    NoTocRule,
    Unsupported(int, bool),
    NoBookId,
    ScriptedUrl,
}

/// The message each planning problem is reported with.
pub open spec fn toc_plan_error(e: Error, p: TocPlanProblem, source_name: Seq<char>) -> bool {
    match p {
        TocPlanProblem::NoTocRule => e matches Error::Message(m) && m@ == "书源「"@ + source_name
            + "」缺少 toc 规则"@,
        TocPlanProblem::Unsupported(j, js) => e matches Error::UnsupportedFeature(m) && m@
            == toc_unsupported_message(j, js),
        TocPlanProblem::NoBookId => e matches Error::Message(m) && m@ == "书源「"@ + source_name
            + "」配置了 toc.url，但无法从详情地址提取书籍 ID（book.url 正则）"@,
        TocPlanProblem::ScriptedUrl => e matches Error::UnsupportedFeature(m) && m@
            == "toc.url embeds @js: (not enabled yet)"@,
    }
}

/// The TOC plan for a book: the base URI gets the book id in place of `%s`,
/// and the first page is `toc.url` with the id in place of `%s`, or the
/// detail page itself when `toc.url` is blank.
pub open spec fn planned_toc(rule: Rule, detail_url: Seq<char>) -> Result<
    (TocRuleView, Seq<char>),
    TocPlanProblem,
> {
    match effective_toc(rule) {
        None => Err(TocPlanProblem::NoTocRule),
        Some(t) => match first_unsupported(toc_field_values(t), 0) {
            Some((j, js)) => Err(TocPlanProblem::Unsupported(j, js)),
            None => {
                let id = book_id_of(effective_book(rule).url, detail_url);
                let base = match id {
                    Some(i) => if crate::text::contains(t.base_uri, "%s"@) {
                        crate::text::replace_first(t.base_uri, "%s"@, i)
                    } else {
                        t.base_uri
                    },
                    None => t.base_uri,
                };
                let planned = TocRuleView { base_uri: base, ..t };
                if !is_blank(t.url) {
                    match id {
                        None => Err(TocPlanProblem::NoBookId),
                        Some(i) => if is_js(t.url) {
                            Err(TocPlanProblem::ScriptedUrl)
                        } else {
                            Ok((planned, crate::text::replace_first(t.url, "%s"@, i)))
                        },
                    }
                } else {
                    Ok((planned, detail_url))
                }
            },
        },
    }
}

fn replace_first_str(s: &str, p: &str, r: &str) -> (out: String)
    ensures
        out@ == crate::text::replace_first(s@, p@, r@),
{
    let sv = crate::text::chars_of(s);
    let pv = crate::text::chars_of(p);
    let rv = crate::text::chars_of(r);
    crate::text::string_of(crate::text::replace_first_chars(sv.as_slice(), pv.as_slice(), rv.as_slice()).as_slice())
}

/// Plans the TOC fetch for a book detail URL.
pub fn toc_plan(rule: &Rule, detail_url: &str) -> (res: Result<TocPlan, Error>)
    ensures
        match planned_toc(*rule, detail_url@) {
            Ok((t, first)) => res matches Ok(plan) && plan.toc_rule@ == t && plan.first_url@ == first
                && plan.timeout == match t.timeout {
                    Some(x) => x as u64,
                    None => 60u64,
                },
            Err(p) => res matches Err(e) && toc_plan_error(e, p, rule.name@),
        },
{
    let mut toc_rule = match effective_toc_rule(rule) {
        Some(t) => t,
        None => {
            let m = cat(cat("书源「", rule.name.as_str()).as_str(), "」缺少 toc 规则");
            return Err(Error::Message(m));
        },
    };
    ensure_toc_supported(&toc_rule)?;
    let book_rule = effective_book_rule(rule);
    let book_id = extract_book_id(book_rule.url.as_str(), detail_url);
    if let Some(id) = &book_id {
        if crate::text::str_contains(toc_rule.base_uri.as_str(), "%s") {
            toc_rule.base_uri = replace_first_str(toc_rule.base_uri.as_str(), "%s", id.as_str());
        }
    }
    let mut first_url = detail_url.to_owned();
    if !blank(toc_rule.url.as_str()) {
        let id = match &book_id {
            Some(id) => id,
            None => {
                let m = cat(
                    cat("书源「", rule.name.as_str()).as_str(),
                    "」配置了 toc.url，但无法从详情地址提取书籍 ID（book.url 正则）",
                );
                return Err(Error::Message(m));
            },
        };
        if requires_js(toc_rule.url.as_str()) {
            return Err(Error::UnsupportedFeature("toc.url embeds @js: (not enabled yet)".to_string()));
        }
        first_url = replace_first_str(toc_rule.url.as_str(), "%s", id.as_str());
    }
    let timeout: u64 = match toc_rule.timeout {
        Some(t) => t as u64,
        None => 60,
    };
    Ok(TocPlan { toc_rule, first_url, timeout })
}

/// The base URL of a TOC page: the rule's base URI, else the site URL, else
/// the page URL; when that does not parse, the page URL.
pub open spec fn toc_base_text(toc: TocRuleView, rule_url: Seq<char>, page_url: Seq<char>) -> Seq<
    char,
> {
    if !is_blank(toc.base_uri) {
        toc.base_uri
    } else if !is_blank(rule_url) {
        rule_url
    } else {
        page_url
    }
}

/// Resolves the base URL that relative TOC links are joined to.
pub fn resolve_toc_base(toc: &TocRule, rule: &Rule, page_url: &str) -> (res: Result<BaseUrl, Error>)
    ensures
        match url_parse_outcome(toc_base_text(toc@, rule.url@, page_url@)) {
            Ok(t) => res matches Ok(u) && u.text_view() == t,
            Err(_) => match url_parse_outcome(page_url@) {
                Ok(t) => res matches Ok(u) && u.text_view() == t,
                Err(m) => res matches Err(Error::InvalidUrl(x)) && x@ == toc_base_text(
                    toc@,
                    rule.url@,
                    page_url@,
                ) + " / "@ + page_url@ + ": "@ + m,
            },
        },
{
    let raw: &str = if !blank(toc.base_uri.as_str()) {
        toc.base_uri.as_str()
    } else if !blank(rule.url.as_str()) {
        rule.url.as_str()
    } else {
        page_url
    };
    match BaseUrl::parse(raw) {
        Ok(u) => Ok(u),
        Err(_) => match BaseUrl::parse(page_url) {
            Ok(u) => Ok(u),
            Err(err) => {
                let m = cat(cat(cat(cat(raw, " / ").as_str(), page_url).as_str(), ": ").as_str(), err.as_str());
                Err(Error::InvalidUrl(m))
            },
        },
    }
}

/// The URL a pagination element points to: its `href`, or else its `value`.
pub open spec fn page_link_of(src: Seq<char>, loc: crate::dom::Loc, base: Seq<char>) -> Seq<char> {
    let href = content_of(src, loc, ContentKind::AttrHref, base);
    if href.len() > 0 {
        href
    } else {
        content_of(src, loc, ContentKind::AttrValue, base)
    }
}

/// Some of the first `n` pagination elements carries a `value` attribute.
pub open spec fn any_value_attr(src: Seq<char>, css: Seq<char>, n: int) -> bool {
    exists|i: int| 0 <= i < n && #[trigger] element_attr(src, seq![(css, i as nat)], "value"@) is Some
}

/// The page list after offering the links of the first `n` elements.
pub open spec fn offer_links(
    urls: Seq<Seq<char>>,
    src: Seq<char>,
    css: Seq<char>,
    n: nat,
    base: Seq<char>,
) -> Seq<Seq<char>>
    decreases n,
{
    if n == 0 {
        urls
    } else {
        pushed_unique(
            offer_links(urls, src, css, (n - 1) as nat, base),
            page_link_of(src, seq![(css, (n - 1) as nat)], base),
        )
    }
}

/// How the first TOC page paginates: `None` when it does not (no or
/// unusable `nextPage` matches); otherwise whether pages are to be followed
/// one by one (`true`), or were all listed at once as option values
/// (`false`, with the list updated).
pub open spec fn first_page_paging(src: Seq<char>, next_page: Seq<char>) -> Option<(Seq<char>, nat)> {
    match compiled_css(next_page) {
        Err(_) => None,
        Ok(css) => if document_matches(src, css) == 0 {
            None
        } else {
            Some((css, document_matches(src, css)))
        },
    }
}

/// A page link that offering it to the page list accepts: once trimmed,
/// non-empty and absolute HTTP(S).
pub open spec fn accepted_link(c: Seq<char>) -> bool {
    crate::text::trim(c).len() > 0 && is_http(crate::text::trim(c))
}

proof fn lemma_pushed_unique_keeps(urls: Seq<Seq<char>>, candidate: Seq<char>)
    ensures
        forall|x: Seq<char>| urls.contains(x) ==> #[trigger] pushed_unique(urls, candidate).contains(x),
        accepted_link(candidate) ==> pushed_unique(urls, candidate).contains(crate::text::trim(candidate)),
{
    let c = crate::text::trim(candidate);
    let r = pushed_unique(urls, candidate);
    if c.len() > 0 && is_http(c) {
        lemma_index_of_url(urls, c, 0);
        match index_of_url(urls, c, 0) {
            Some(p) => {
                assert forall|x: Seq<char>| urls.contains(x) implies #[trigger] r.contains(x) by {
                    let i = choose|i: int| 0 <= i < urls.len() && urls[i] == x;
                    if i < p {
                        assert(r[i] == x);
                    } else if i > p {
                        assert(r[i - 1] == x);
                    } else {
                        assert(r[r.len() - 1] == x);
                    }
                }
                assert(r[r.len() - 1] == c);
            },
            None => {
                assert forall|x: Seq<char>| urls.contains(x) implies #[trigger] r.contains(x) by {
                    let i = choose|i: int| 0 <= i < urls.len() && urls[i] == x;
                    assert(r[i] == x);
                }
                assert(r[r.len() - 1] == c);
            },
        }
    }
}

proof fn lemma_offer_links_contains(
    urls: Seq<Seq<char>>,
    src: Seq<char>,
    css: Seq<char>,
    n: nat,
    base: Seq<char>,
)
    ensures
        forall|x: Seq<char>| urls.contains(x) ==> #[trigger] offer_links(urls, src, css, n, base).contains(x),
        forall|i: int|
            0 <= i < n && accepted_link(#[trigger] page_link_of(src, seq![(css, i as nat)], base))
                ==> offer_links(urls, src, css, n, base).contains(
                crate::text::trim(page_link_of(src, seq![(css, i as nat)], base)),
            ),
    decreases n,
{
    if n > 0 {
        let m = (n - 1) as nat;
        lemma_offer_links_contains(urls, src, css, m, base);
        let prev = offer_links(urls, src, css, m, base);
        let link = page_link_of(src, seq![(css, m)], base);
        lemma_pushed_unique_keeps(prev, link);
        assert forall|i: int|
            0 <= i < n && accepted_link(#[trigger] page_link_of(src, seq![(css, i as nat)], base))
                implies offer_links(urls, src, css, n, base).contains(
                crate::text::trim(page_link_of(src, seq![(css, i as nat)], base)),
            ) by {
            if i < m {
                assert(prev.contains(crate::text::trim(page_link_of(src, seq![(css, i as nat)], base))));
            } else {
                assert(seq![(css, i as nat)] =~= seq![(css, m)]);
            }
        }
    }
}

/// How the first TOC page's pagination elements are read: when one of them
/// carries a `value` attribute (a page selector), every element's link
/// (its `href`, else its `value`) is added to the page list, which keeps
/// every page listed before; when none does, the list is left for pages
/// to be followed link by link.
pub proof fn lemma_value_pages_are_listed(
    urls: Seq<Seq<char>>,
    src: Seq<char>,
    css: Seq<char>,
    n: nat,
    base: Seq<char>,
)
    ensures
        any_value_attr(src, css, n as int) == exists|i: int|
            0 <= i < n && (#[trigger] element_attr(src, seq![(css, i as nat)], "value"@)) is Some,
        forall|x: Seq<char>| urls.contains(x) ==> #[trigger] offer_links(urls, src, css, n, base).contains(x),
        forall|i: int|
            0 <= i < n && accepted_link(#[trigger] page_link_of(src, seq![(css, i as nat)], base))
                ==> offer_links(urls, src, css, n, base).contains(
                crate::text::trim(page_link_of(src, seq![(css, i as nat)], base)),
            ),
{
    lemma_offer_links_contains(urls, src, css, n, base);
}

/// Handles pagination on the first TOC page. When its `nextPage` elements
/// carry `value` attributes, every element's link is offered to `urls`;
/// returns whether the pages must instead be followed link by link.
pub fn first_page_pagination(first_html: &str, toc_rule: &TocRule, base: &BaseUrl, urls: &mut Vec<
    String,
>) -> (follow: bool)
    ensures
        match first_page_paging(first_html@, toc_rule.next_page@) {
            None => !follow && final(urls)@ == old(urls)@,
            Some((css, n)) => if any_value_attr(first_html@, css, n as int) {
                !follow && strings_view(final(urls)@) == offer_links(
                    strings_view(old(urls)@),
                    first_html@,
                    css,
                    n,
                    base.text_view(),
                )
            } else {
                follow && final(urls)@ == old(urls)@
            },
        },
        first_page_paging(first_html@, toc_rule.next_page@) matches Some((css, n)) ==> {
            &&& !follow == exists|i: int|
                0 <= i < n && (#[trigger] element_attr(
                    first_html@,
                    seq![(css, i as nat)],
                    "value"@,
                )) is Some
            &&& !follow ==> forall|x: Seq<char>|
                strings_view(old(urls)@).contains(x) ==> #[trigger] strings_view(
                    final(urls)@,
                ).contains(x)
            &&& !follow ==> forall|i: int|
                0 <= i < n && accepted_link(
                    #[trigger] page_link_of(first_html@, seq![(css, i as nat)], base.text_view()),
                ) ==> strings_view(final(urls)@).contains(
                    crate::text::trim(
                        page_link_of(first_html@, seq![(css, i as nat)], base.text_view()),
                    ),
                )
        },
{
    proof {
        if let Some((css, n)) = first_page_paging(first_html@, toc_rule.next_page@) {
            lemma_value_pages_are_listed(strings_view(urls@), first_html@, css, n, base.text_view());
        }
    }
    let document = Document::parse(first_html);
    let elements = match select_all_in_document(&document, toc_rule.next_page.as_str()) {
        Ok(els) => els,
        Err(_) => return false,
    };
    let n = elements.len();
    if n == 0 {
        return false;
    }
    let ghost css = match compiled_css(toc_rule.next_page@) {
        Ok(c) => c,
        Err(_) => Seq::empty(),
    };
    let mut has_value = false;
    let mut i: usize = 0;
    while i < n
        invariant
            n == elements@.len(),
            n == document_matches(first_html@, css),
            forall|k: int|
                0 <= k < n ==> #[trigger] elements@[k].src() == first_html@ && elements@[k].loc()
                    == seq![(css, k as nat)],
            i <= n,
            has_value == exists|k: int|
                0 <= k < i && #[trigger] element_attr(first_html@, seq![(css, k as nat)], "value"@)
                    is Some,
        decreases n - i,
    {
        if elements[i].attr("value").is_some() {
            assert(element_attr(first_html@, seq![(css, i as nat)], "value"@) is Some);
            has_value = true;
        }
        i += 1;
    }
    if !has_value {
        return true;
    }
    let ghost start = strings_view(urls@);
    let mut j: usize = 0;
    while j < n
        invariant
            n == elements@.len(),
            forall|k: int|
                0 <= k < n ==> #[trigger] elements@[k].src() == first_html@ && elements@[k].loc()
                    == seq![(css, k as nat)],
            j <= n,
            strings_view(urls@) == offer_links(start, first_html@, css, j as nat, base.text_view()),
        decreases n - j,
    {
        let el = &elements[j];
        let href = extract_content(el, ContentKind::AttrHref, base);
        let candidate = if href.as_str().unicode_len() > 0 {
            href
        } else {
            extract_content(el, ContentKind::AttrValue, base)
        };
        push_unique(urls, candidate);
        j += 1;
    }
    false
}

/// The next page to follow from a TOC page: the first `nextPage` element's
/// link, when it is an absolute HTTP(S) URL not listed yet.
pub open spec fn next_page_of(src: Seq<char>, next_page: Seq<char>, urls: Seq<Seq<char>>, base: Seq<
    char,
>) -> Option<Seq<char>> {
    match first_page_paging(src, next_page) {
        None => None,
        Some((css, _)) => {
            let next = page_link_of(src, seq![(css, 0nat)], base);
            if next.len() == 0 || !is_http(next) || urls.contains(next) {
                None
            } else {
                Some(next)
            }
        },
    }
}

fn listed(urls: &Vec<String>, u: &String) -> (r: bool)
    ensures
        r == strings_view(urls@).contains(u@),
{
    let mut i: usize = 0;
    while i < urls.len()
        invariant
            i <= urls@.len(),
            forall|k: int| 0 <= k < i ==> #[trigger] strings_view(urls@)[k] != u@,
        decreases urls.len() - i,
    {
        assert(strings_view(urls@)[i as int] == urls@[i as int]@);
        if urls[i] == *u {
            assert(strings_view(urls@)[i as int] == u@);
            return true;
        }
        i += 1;
    }
    false
}

/// The next TOC page to follow from the page `html`, if any.
pub fn next_page_link(html: &str, toc_rule: &TocRule, base: &BaseUrl, urls: &Vec<String>) -> (r:
    Option<String>)
    ensures
        match next_page_of(html@, toc_rule.next_page@, strings_view(urls@), base.text_view()) {
            Some(n) => r matches Some(x) && x@ == n,
            None => r is None,
        },
{
    let document = Document::parse(html);
    let mut elements = match select_all_in_document(&document, toc_rule.next_page.as_str()) {
        Ok(els) => els,
        Err(_) => return None,
    };
    if elements.len() == 0 {
        return None;
    }
    let el = elements.remove(0);
    let mut next = extract_content(&el, ContentKind::AttrHref, base);
    if next.as_str().unicode_len() == 0 {
        next = extract_content(&el, ContentKind::AttrValue, base);
    }
    if next.as_str().unicode_len() == 0 || !is_http_url(next.as_str()) || listed(urls, &next) {
        return None;
    }
    Some(next)
}

/// The next TOC page to follow after `followed` pages were already
/// followed link by link: none once `MAX_TOC_PAGES` were, else the page that
/// [`next_page_link`] finds on `html`.
pub fn next_toc_page(
    html: &str,
    toc_rule: &TocRule,
    base: &BaseUrl,
    urls: &Vec<String>,
    followed: usize,
) -> (r: Option<String>)
    ensures
        followed >= MAX_TOC_PAGES ==> r is None,
        followed < MAX_TOC_PAGES ==> match next_page_of(
            html@,
            toc_rule.next_page@,
            strings_view(urls@),
            base.text_view(),
        ) {
            Some(n) => r matches Some(x) && x@ == n,
            None => r is None,
        },
{
    if followed >= MAX_TOC_PAGES {
        return None;
    }
    next_page_link(html, toc_rule, base, urls)
}

proof fn lemma_kept_rows_clean(cs: Seq<ChapterView>)
    ensures
        forall|i: int, j: int|
            0 <= i < j < kept_rows(cs).len() ==> (#[trigger] kept_rows(cs)[i]).url != (
            #[trigger] kept_rows(cs)[j]).url,
        forall|i: int|
            0 <= i < kept_rows(cs).len() ==> !is_blank((#[trigger] kept_rows(cs)[i]).title)
                && !is_blank(kept_rows(cs)[i].url),
        forall|i: int|
            0 <= i < kept_rows(cs).len() ==> exists|j: int|
                0 <= j < cs.len() && #[trigger] cs[j] == #[trigger] kept_rows(cs)[i],
        kept_rows(cs).len() <= cs.len(),
    decreases cs.len(),
{
    if cs.len() > 0 {
        let init = kept_rows(cs.drop_last());
        lemma_kept_rows_clean(cs.drop_last());
        let k = kept_rows(cs);
        assert forall|i: int| 0 <= i < k.len() implies exists|j: int|
            0 <= j < cs.len() && #[trigger] cs[j] == #[trigger] k[i] by {
            if i < init.len() {
                assert(k[i] == init[i]);
                let j = choose|j: int| 0 <= j < cs.drop_last().len() && cs.drop_last()[j] == init[i];
                assert(cs[j] == cs.drop_last()[j]);
            } else {
                assert(cs[cs.len() - 1] == k[i]);
            }
        }
    }
}

/// A cleaned TOC lists each chapter URL once, has no blank title or URL,
/// is numbered 1, 2, 3, ..., and every chapter in it was collected from the
/// pages.
pub proof fn lemma_cleaned_toc_well_formed(cs: Seq<ChapterView>, is_desc: bool)
    requires
        cs.len() <= u32::MAX,
    ensures
        ({
            let t = cleaned_toc(cs, is_desc);
            &&& t.len() <= cs.len()
            &&& forall|i: int, j: int|
                0 <= i < j < t.len() ==> (#[trigger] t[i]).url != (#[trigger] t[j]).url
            &&& forall|i: int|
                0 <= i < t.len() ==> !is_blank((#[trigger] t[i]).title) && !is_blank(t[i].url)
            &&& forall|i: int| 0 <= i < t.len() ==> (#[trigger] t[i]).order == i + 1
            &&& forall|i: int|
                0 <= i < t.len() ==> exists|j: int|
                    0 <= j < cs.len() && #[trigger] cs[j].url == (#[trigger] t[i]).url
                        && cs[j].title == t[i].title && cs[j].content == t[i].content
        }),
{
    let ordered = if is_desc {
        cs.reverse()
    } else {
        cs
    };
    lemma_kept_rows_clean(ordered);
    let k = kept_rows(ordered);
    let t = cleaned_toc(cs, is_desc);
    assert forall|i: int| 0 <= i < t.len() implies exists|j: int|
        0 <= j < cs.len() && #[trigger] cs[j].url == (#[trigger] t[i]).url && cs[j].title
            == t[i].title && cs[j].content == t[i].content by {
        let j = choose|j: int| 0 <= j < ordered.len() && ordered[j] == k[i];
        if is_desc {
            assert(ordered[j] == cs[cs.len() - 1 - j]);
            assert(cs[cs.len() - 1 - j].url == t[i].url);
        } else {
            assert(cs[j].url == t[i].url);
        }
    }
}

/// Offering a URL keeps a list of distinct URLs distinct; an accepted
/// candidate ends the list, and no URL listed before is lost.
pub proof fn lemma_pushed_unique_distinct(urls: Seq<Seq<char>>, candidate: Seq<char>)
    requires
        forall|i: int, j: int| 0 <= i < j < urls.len() ==> urls[i] != urls[j],
    ensures
        ({
            let r = pushed_unique(urls, candidate);
            let c = crate::text::trim(candidate);
            &&& forall|i: int, j: int| 0 <= i < j < r.len() ==> r[i] != r[j]
            &&& forall|i: int| 0 <= i < urls.len() ==> r.contains(#[trigger] urls[i])
            &&& (c.len() > 0 && is_http(c)) ==> r.len() > 0 && r.last() == c
            &&& !(c.len() > 0 && is_http(c)) ==> r == urls
        }),
{
    let c = crate::text::trim(candidate);
    if c.len() > 0 && is_http(c) {
        lemma_index_of_url(urls, c, 0);
        let r = pushed_unique(urls, candidate);
        match index_of_url(urls, c, 0) {
            Some(p) => {
                assert forall|i: int| 0 <= i < urls.len() implies r.contains(#[trigger] urls[i]) by {
                    if i < p {
                        assert(r[i] == urls[i]);
                    } else if i > p {
                        assert(r[i - 1] == urls[i]);
                    } else {
                        assert(r[r.len() - 1] == urls[i]);
                    }
                }
            },
            None => {
                assert forall|i: int| 0 <= i < urls.len() implies r.contains(#[trigger] urls[i]) by {
                    assert(r[i] == urls[i]);
                }
            },
        }
    }
}

proof fn lemma_index_of_url(urls: Seq<Seq<char>>, u: Seq<char>, j: int)
    requires
        0 <= j <= urls.len(),
    ensures
        match index_of_url(urls, u, j) {
            Some(p) => j <= p < urls.len() && urls[p] == u,
            None => forall|k: int| j <= k < urls.len() ==> urls[k] != u,
        },
    decreases urls.len() - j,
{
    if j < urls.len() {
        lemma_index_of_url(urls, u, j + 1);
    }
}


proof fn lemma_toc_rows_shape(src: Seq<char>, css: Seq<char>, n: nat, base: Seq<char>)
    ensures
        toc_rows(src, css, n, base).len() <= n,
        forall|k: int|
            0 <= k < toc_rows(src, css, n, base).len() ==> {
                let c = #[trigger] toc_rows(src, css, n, base)[k];
                &&& c.title.len() > 0
                &&& c.url.len() > 0
                &&& c.order == 0
                &&& c.content.len() == 0
            },
    decreases n,
{
    if n > 0 {
        lemma_toc_rows_shape(src, css, (n - 1) as nat, base);
        let init = toc_rows(src, css, (n - 1) as nat, base);
        let all = toc_rows(src, css, n, base);
        assert forall|k: int| 0 <= k < all.len() implies {
            let c = #[trigger] all[k];
            &&& c.title.len() > 0
            &&& c.url.len() > 0
            &&& c.order == 0
            &&& c.content.len() == 0
        } by {
            if k < init.len() {
                assert(all[k] == init[k]);
            }
        }
    }
}

/// Every chapter read from a TOC page has a title and a URL, order 0 and no
/// body.
pub proof fn lemma_toc_page_rows(src: Seq<char>, toc: TocRuleView, base: Seq<char>)
    ensures
        forall|k: int|
            0 <= k < toc_page(src, toc, base).len() ==> {
                let c = #[trigger] toc_page(src, toc, base)[k];
                &&& c.title.len() > 0
                &&& c.url.len() > 0
                &&& c.order == 0
                &&& c.content.len() == 0
            },
{
    if let Ok(Some(q)) = toc_item_query(src, toc) {
        if let Ok(css) = compiled_css(q) {
            lemma_toc_rows_shape(src, css, document_matches(src, css), base);
        }
    }
}

} // verus!
