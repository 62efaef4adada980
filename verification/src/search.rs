//! Search pages: rule checks, the request to send, result rows and merging
//! paginated results.

use vstd::prelude::*;

use crate::dom::{
    css_parse_outcome, document_matches, element_matches, percent_encode, percent_encoded,
    url_parse_outcome, BaseUrl, Css, Document, Element, Loc,
};
use crate::error::Error;
use crate::form_data::{fields_view, form_problem_message, parse_form, parse_form_template};
use crate::model::{hits_view, SearchHit, SearchHitView};
use crate::query::{css_part, is_js, requires_js, strip_extensions, ContentKind};
use crate::rule::{rule_searchable, Rule, SearchRule, SearchRuleView};
use crate::select::{
    compiled_css, content_of, css_error, extract, extract_content, extracted,
    select_all_in_document,
};
use crate::support::{find_unsupported, first_unsupported, strs_view};
use crate::text::{blank, cat, is_blank, trim, trimmed};

verus! {

/// The search fields that must not need `@js:` or XPath, in checking order.
pub open spec fn search_field_values(s: SearchRuleView) -> Seq<Seq<char>> {
    seq![
        s.url,
        s.result,
        s.book_name,
        s.author,
        s.category,
        s.latest_chapter,
        s.last_update_time,
        s.status,
        s.word_count,
        s.next_page,
    ]
}

/// The names of those fields as rules spell them.
pub open spec fn search_field_names() -> Seq<Seq<char>> {
    seq![
        "url"@,
        "result"@,
        "bookName"@,
        "author"@,
        "category"@,
        "latestChapter"@,
        "lastUpdateTime"@,
        "status"@,
        "wordCount"@,
        "nextPage"@,
    ]
}

/// The message for an unsupported search field.
pub open spec fn search_unsupported_message(j: int, js: bool) -> Seq<char> {
    "search."@ + search_field_names()[j] + if js {
        " requires JavaScript (@js:), not enabled yet"@
    } else {
        " uses XPath, not enabled yet"@
    }
}

/// Rejects search rules that need `@js:` or XPath.
pub fn ensure_search_supported(search: &SearchRule) -> (res: Result<(), Error>)
    ensures
        match first_unsupported(search_field_values(search@), 0) {
            None => res is Ok,
            Some((j, js)) => res matches Err(Error::UnsupportedFeature(m)) && m@
                == search_unsupported_message(j, js),
        },
{
    let values: [&str; 10] = [
        search.url.as_str(),
        search.result.as_str(),
        search.book_name.as_str(),
        search.author.as_str(),
        search.category.as_str(),
        search.latest_chapter.as_str(),
        search.last_update_time.as_str(),
        search.status.as_str(),
        search.word_count.as_str(),
        search.next_page.as_str(),
    ];
    let names: [&str; 10] = [
        "url",
        "result",
        "bookName",
        "author",
        "category",
        "latestChapter",
        "lastUpdateTime",
        "status",
        "wordCount",
        "nextPage",
    ];
    assert(strs_view(values@) =~= search_field_values(search@));
    assert(strs_view(names@) =~= search_field_names());
    match find_unsupported(values.as_slice()) {
        None => Ok(()),
        Some((j, js)) => {
            assert(names@.len() == 10);
            assert(names@[j as int]@ == search_field_names()[j as int]);
            let head = cat("search.", names[j]);
            let m = if js {
                cat(head.as_str(), " requires JavaScript (@js:), not enabled yet")
            } else {
                cat(head.as_str(), " uses XPath, not enabled yet")
            };
            Err(Error::UnsupportedFeature(m))
        },
    }
}

/// The number of hits a search may return: `0` means unlimited.
pub open spec fn limit_of(search_limit: u32) -> nat {
    if search_limit == 0 {
        usize::MAX as nat
    } else {
        search_limit as nat
    }
}

/// The hit limit for a configured `search_limit`.
pub fn effective_limit(search_limit: u32) -> (r: usize)
    ensures
        r == limit_of(search_limit),
{
    if search_limit == 0 {
        usize::MAX
    } else {
        search_limit as usize
    }
}

/// A trimmed value, or `None` when blank.
pub fn empty_to_none(value: &str) -> (r: Option<String>)
    ensures
        if is_blank(value@) {
            r is None
        } else {
            r matches Some(x) && x@ == trim(value@)
        },
{
    let t = trimmed(value);
    if t.as_str().unicode_len() == 0 {
        None
    } else {
        Some(t)
    }
}

/// The detail URL of a result row: the `href` of the first node that the
/// book-name query's CSS selects in the row.
pub open spec fn hit_url(src: Seq<char>, loc: Loc, book_name_query: Seq<char>, base: Seq<char>) -> Seq<
    char,
> {
    let css = css_part(book_name_query);
    if css.len() == 0 {
        Seq::empty()
    } else {
        match css_parse_outcome(css) {
            Err(_) => Seq::empty(),
            Ok(_) => if element_matches(src, loc, css) > 0 {
                content_of(src, loc.push((css, 0nat)), ContentKind::AttrHref, base)
            } else {
                Seq::empty()
            },
        }
    }
}

/// The hit a result row yields, if it has both a book name and a URL.
pub open spec fn row_hit(src: Seq<char>, loc: Loc, rule: Rule, search: SearchRuleView, base: Seq<char>) -> Option<
    SearchHitView,
> {
    let book_name = extracted(src, loc, search.book_name, base);
    let url = hit_url(src, loc, search.book_name, base);
    if book_name.len() == 0 || url.len() == 0 {
        None
    } else {
        Some(
            SearchHitView {
                source_id: rule.id,
                source_name: rule.name@,
                book_name,
                author: extracted(src, loc, search.author, base),
                category: extracted(src, loc, search.category, base),
                latest_chapter: extracted(src, loc, search.latest_chapter, base),
                last_update_time: extracted(src, loc, search.last_update_time, base),
                status: extracted(src, loc, search.status, base),
                word_count: extracted(src, loc, search.word_count, base),
                url,
            },
        )
    }
}

/// The hits of the first `n` result rows, stopping at `limit`.
pub open spec fn row_hits(
    src: Seq<char>,
    css: Seq<char>,
    n: nat,
    rule: Rule,
    search: SearchRuleView,
    base: Seq<char>,
    limit: nat,
) -> Seq<SearchHitView>
    decreases n,
{
    if n == 0 {
        seq![]
    } else {
        let init = row_hits(src, css, (n - 1) as nat, rule, search, base, limit);
        if init.len() >= limit {
            init
        } else {
            match row_hit(src, seq![(css, (n - 1) as nat)], rule, search, base) {
                Some(h) => init.push(h),
                None => init,
            }
        }
    }
}

/// Why a search page cannot be parsed.
pub enum SearchPageProblem {
    Unsupported(int, bool),
    ResultEmpty,
    Rows(crate::select::CssProblem, Seq<char>),
}

/// The hits on a search page, or why there are none to read.
pub open spec fn search_page(
    src: Seq<char>,
    rule: Rule,
    search: SearchRuleView,
    base: Seq<char>,
    search_limit: u32,
) -> Result<Seq<SearchHitView>, SearchPageProblem> {
    match first_unsupported(search_field_values(search), 0) {
        Some((j, js)) => Err(SearchPageProblem::Unsupported(j, js)),
        None => {
            let q = css_part(search.result);
            if q.len() == 0 {
                Err(SearchPageProblem::ResultEmpty)
            } else {
                match compiled_css(q) {
                    Err(p) => Err(SearchPageProblem::Rows(p, q)),
                    Ok(css) => Ok(
                        row_hits(
                            src,
                            css,
                            document_matches(src, css),
                            rule,
                            search,
                            base,
                            limit_of(search_limit),
                        ),
                    ),
                }
            }
        },
    }
}

/// `e` is the error reported for a search page problem.
pub open spec fn search_page_error(e: Error, p: SearchPageProblem, source_name: Seq<char>) -> bool {
    match p {
        SearchPageProblem::Unsupported(j, js) => e matches Error::UnsupportedFeature(m) && m@
            == search_unsupported_message(j, js),
        SearchPageProblem::ResultEmpty => e matches Error::Message(m) && m@ == "source `"@
            + source_name + "` search.result is empty"@,
        SearchPageProblem::Rows(p, q) => css_error(e, p, q),
    }
}

fn row_url(row: &Element, book_name_query: &str, base: &BaseUrl) -> (r: String)
    ensures
        r@ == hit_url(row.src(), row.loc(), book_name_query@, base.text_view()),
{
    let css = strip_extensions(book_name_query);
    if css.as_str().unicode_len() == 0 {
        return String::new();
    }
    match Css::parse(css.as_str()) {
        Err(_) => String::new(),
        Ok(sel) => {
            let mut found = row.select(&sel);
            if found.len() > 0 {
                let node = found.remove(0);
                extract_content(&node, ContentKind::AttrHref, base)
            } else {
                String::new()
            }
        },
    }
}

/// Parses search result HTML: each row with a book name and a detail URL
/// becomes a hit, up to the limit.
pub fn parse_search_html(
    html: &str,
    rule: &Rule,
    search: &SearchRule,
    base: &BaseUrl,
    search_limit: u32,
) -> (res: Result<Vec<SearchHit>, Error>)
    ensures
        match search_page(html@, *rule, search@, base.text_view(), search_limit) {
            Ok(hs) => res matches Ok(v) && hits_view(v@) == hs,
            Err(p) => res matches Err(e) && search_page_error(e, p, rule.name@),
        },
{
    ensure_search_supported(search)?;
    let document = Document::parse(html);
    let result_query = strip_extensions(search.result.as_str());
    if result_query.as_str().unicode_len() == 0 {
        let m = cat(cat("source `", rule.name.as_str()).as_str(), "` search.result is empty");
        return Err(Error::Message(m));
    }
    let rows = select_all_in_document(&document, result_query.as_str())?;
    let ghost css = match compiled_css(result_query@) {
        Ok(c) => c,
        Err(_) => Seq::empty(),
    };
    let limit = effective_limit(search_limit);
    let n = rows.len();
    let mut hits: Vec<SearchHit> = Vec::new();
    let mut i: usize = 0;
    while i < n
        invariant
            n == rows@.len(),
            n == document_matches(html@, css),
            forall|k: int|
                0 <= k < n ==> #[trigger] rows@[k].src() == html@ && rows@[k].loc() == seq![
                    (css, k as nat),
                ],
            limit == limit_of(search_limit),
            i <= n,
            hits_view(hits@) == row_hits(html@, css, i as nat, *rule, search@, base.text_view(), limit as nat),
        ensures
            hits_view(hits@) == row_hits(html@, css, n as nat, *rule, search@, base.text_view(), limit as nat),
        decreases n - i,
    {
        if hits.len() >= limit {
            proof {
                lemma_row_hits_saturated(html@, css, i as nat, n as nat, *rule, search@, base.text_view(), limit as nat);
            }
            break;
        }
        let row = &rows[i];
        let book_name = extract(row, search.book_name.as_str(), base);
        let url = row_url(row, search.book_name.as_str(), base);
        let ghost before = hits@;
        if book_name.as_str().unicode_len() > 0 && url.as_str().unicode_len() > 0 {
            let hit = SearchHit {
                source_id: rule.id,
                source_name: rule.name.clone(),
                book_name,
                author: extract(row, search.author.as_str(), base),
                category: extract(row, search.category.as_str(), base),
                latest_chapter: extract(row, search.latest_chapter.as_str(), base),
                last_update_time: extract(row, search.last_update_time.as_str(), base),
                status: extract(row, search.status.as_str(), base),
                word_count: extract(row, search.word_count.as_str(), base),
                url,
            };
            hits.push(hit);
            assert(hits_view(hits@) =~= hits_view(before).push(hit@));
        }
        i += 1;
    }
    Ok(hits)
}

/// Once the limit is reached, later rows add nothing.
proof fn lemma_row_hits_saturated(
    src: Seq<char>,
    css: Seq<char>,
    i: nat,
    n: nat,
    rule: Rule,
    search: SearchRuleView,
    base: Seq<char>,
    limit: nat,
)
    requires
        i <= n,
        row_hits(src, css, i, rule, search, base, limit).len() >= limit,
    ensures
        row_hits(src, css, n, rule, search, base, limit) == row_hits(src, css, i, rule, search, base, limit),
    decreases n - i,
{
    if i < n {
        lemma_row_hits_saturated(src, css, (i + 1) as nat, n, rule, search, base, limit);
    }
}

/// The search URL for a keyword: the template with its first `%s` replaced
/// by the percent-encoded keyword.
pub open spec fn search_url_of(template: Seq<char>, keyword: Seq<char>) -> Seq<char> {
    if !crate::text::contains(template, "%s"@) {
        template
    } else {
        crate::text::replace_first(template, "%s"@, percent_encoded(keyword))
    }
}

/// Fills the keyword into a search URL template.
pub fn format_search_url(template: &str, keyword: &str) -> (res: Result<String, Error>)
    ensures
        is_js(template@) ==> (res matches Err(Error::UnsupportedFeature(m)) && m@
            == "search.url embeds @js: (JavaScript not enabled yet)"@),
        !is_js(template@) ==> (res matches Ok(u) && u@ == search_url_of(template@, keyword@)),
{
    if requires_js(template) {
        return Err(
            Error::UnsupportedFeature(
                "search.url embeds @js: (JavaScript not enabled yet)".to_string(),
            ),
        );
    }
    if !crate::text::str_contains(template, "%s") {
        return Ok(template.to_owned());
    }
    let encoded = percent_encode(keyword);
    let tv = crate::text::chars_of(template);
    let pv = crate::text::chars_of("%s");
    let ev = crate::text::chars_of(encoded.as_str());
    Ok(crate::text::string_of(crate::text::replace_first_chars(tv.as_slice(), pv.as_slice(), ev.as_slice()).as_slice()))
}

/// The text a search's base URL is parsed from.
pub open spec fn search_base_text(rule_url: Seq<char>, search: SearchRuleView) -> Seq<char> {
    if is_blank(search.base_uri) {
        rule_url
    } else {
        search.base_uri
    }
}

/// Resolves the base URL that relative result links are joined to.
pub fn resolve_base_uri(rule: &Rule, search: &SearchRule) -> (res: Result<BaseUrl, Error>)
    ensures
        match url_parse_outcome(search_base_text(rule.url@, search@)) {
            Ok(t) => res matches Ok(u) && u.text_view() == t,
            Err(m) => res matches Err(Error::InvalidUrl(x)) && x@ == search_base_text(
                rule.url@,
                search@,
            ) + ": "@ + m,
        },
{
    let raw: &str = if blank(search.base_uri.as_str()) {
        rule.url.as_str()
    } else {
        search.base_uri.as_str()
    };
    match BaseUrl::parse(raw) {
        Ok(u) => Ok(u),
        Err(err) => Err(Error::InvalidUrl(cat(cat(raw, ": ").as_str(), err.as_str()))),
    }
}

/// The request that fetches the first search page.
pub enum SearchRequest {
    Get { url: String },
    Post { url: String, form: Vec<(String, String)> },
}

/// Everything needed to fetch and read a source's search results.
pub struct SearchPlan {
    pub base: BaseUrl,
    pub timeout: u64,
    pub cookies: Option<String>,
    pub keyword: String,
    pub request: SearchRequest,
}

/// Why a search cannot be started.
pub enum SearchPlanProblem {
    SourceDisabled,
    NotSearchable,
    Unsupported(int, bool),
    EmptyKeyword,
    BadBase(Seq<char>),
    ScriptedUrl,
    Form(crate::form_data::FormProblem),
}

/// The search rule of a source (meaningful once the source is searchable).
pub open spec fn search_of(rule: Rule) -> SearchRule {
    rule.search->Some_0
}

/// Whether the rule asks for a form POST.
pub open spec fn is_post(method: Seq<char>) -> bool {
    crate::text::to_lower(trim(method)) == "post"@
}

/// The first reason a search of `rule` for `keyword` cannot start.
pub open spec fn search_problem(rule: Rule, keyword: Seq<char>) -> Option<SearchPlanProblem> {
    if rule.disabled {
        Some(SearchPlanProblem::SourceDisabled)
    } else if !rule_searchable(rule) {
        Some(SearchPlanProblem::NotSearchable)
    } else {
        let s = search_of(rule)@;
        match first_unsupported(search_field_values(s), 0) {
            Some((j, js)) => Some(SearchPlanProblem::Unsupported(j, js)),
            None => if trim(keyword).len() == 0 {
                Some(SearchPlanProblem::EmptyKeyword)
            } else {
                match url_parse_outcome(search_base_text(rule.url@, s)) {
                    Err(m) => Some(SearchPlanProblem::BadBase(m)),
                    Ok(_) => if is_js(s.url) {
                        Some(SearchPlanProblem::ScriptedUrl)
                    } else if is_post(s.method) {
                        match parse_form(s.data, trim(keyword)) {
                            Err(p) => Some(SearchPlanProblem::Form(p)),
                            Ok(_) => None,
                        }
                    } else {
                        None
                    },
                }
            },
        }
    }
}

/// `e` is the error reported for a search planning problem.
pub open spec fn search_plan_error(e: Error, p: SearchPlanProblem, rule: Rule, keyword: Seq<char>) -> bool {
    match p {
        SearchPlanProblem::SourceDisabled => e matches Error::SourceDisabled(n) && n@ == rule.name@,
        SearchPlanProblem::NotSearchable => e matches Error::SearchNotSupported(n) && n@ == rule.name@,
        SearchPlanProblem::Unsupported(j, js) => e matches Error::UnsupportedFeature(m) && m@
            == search_unsupported_message(j, js),
        SearchPlanProblem::EmptyKeyword => e matches Error::Message(m) && m@
            == "search keyword must not be empty"@,
        SearchPlanProblem::BadBase(msg) => e matches Error::InvalidUrl(x) && x@ == search_base_text(
            rule.url@,
            search_of(rule)@,
        ) + ": "@ + msg,
        SearchPlanProblem::ScriptedUrl => e matches Error::UnsupportedFeature(m) && m@
            == "search.url embeds @js: (JavaScript not enabled yet)"@,
        SearchPlanProblem::Form(fp) => e matches Error::Message(m) && m@ == form_problem_message(
            fp,
            search_of(rule).data@,
        ),
    }
}

/// Checks a source and keyword and prepares the first search request: a
/// form POST when the rule's method is `post`, else a GET.
pub fn search_plan(rule: &Rule, keyword: &str) -> (res: Result<SearchPlan, Error>)
    ensures
        match search_problem(*rule, keyword@) {
            Some(p) => res matches Err(e) && search_plan_error(e, p, *rule, keyword@),
            None => res matches Ok(plan) && {
                let s = search_of(*rule)@;
                let kw = trim(keyword@);
                &&& url_parse_outcome(search_base_text(rule.url@, s)) == Ok::<Seq<char>, Seq<char>>(
                    plan.base.text_view(),
                )
                &&& plan.timeout == match s.timeout {
                    Some(t) => t as u64,
                    None => 15u64,
                }
                &&& (if is_blank(s.cookies) {
                    plan.cookies is None
                } else {
                    plan.cookies matches Some(c) && c@ == trim(s.cookies)
                })
                &&& plan.keyword@ == kw
                &&& if is_post(s.method) {
                    plan.request matches SearchRequest::Post { url, form } && url@ == search_url_of(
                        s.url,
                        kw,
                    ) && parse_form(s.data, kw) == Ok::<
                        Seq<(Seq<char>, Seq<char>)>,
                        crate::form_data::FormProblem,
                    >(fields_view(form@))
                } else {
                    plan.request matches SearchRequest::Get { url } && url@ == search_url_of(
                        s.url,
                        kw,
                    )
                }
            },
        },
{
    if rule.disabled {
        return Err(Error::SourceDisabled(rule.name.clone()));
    }
    let search = match &rule.search {
        Some(s) => s,
        None => return Err(Error::SearchNotSupported(rule.name.clone())),
    };
    if search.disabled || blank(search.url.as_str()) {
        return Err(Error::SearchNotSupported(rule.name.clone()));
    }
    ensure_search_supported(search)?;
    let keyword = trimmed(keyword);
    if keyword.as_str().unicode_len() == 0 {
        return Err(Error::Message("search keyword must not be empty".to_string()));
    }
    let base = resolve_base_uri(rule, search)?;
    let timeout: u64 = match search.timeout {
        Some(t) => t as u64,
        None => 15,
    };
    let cookies = empty_to_none(search.cookies.as_str());
    let mv = crate::text::chars_of(search.method.as_str());
    let method = crate::text::lower_chars(crate::text::trim_chars(mv.as_slice()).as_slice());
    let post = crate::text::chars_of("post");
    let url = format_search_url(search.url.as_str(), keyword.as_str())?;
    let request = if crate::text::has_prefix(method.as_slice(), post.as_slice()) && method.len()
        == post.len() {
        assert(method@ =~= post@);
        let form = parse_form_template(search.data.as_str(), keyword.as_str())?;
        SearchRequest::Post { url, form }
    } else {
        assert(method@ != post@);
        SearchRequest::Get { url }
    };
    Ok(SearchPlan { base, timeout, cookies, keyword, request })
}

/// Detail-page links found by the search's `nextPage` selector, first
/// occurrence of each, in document order.
pub open spec fn page_links(src: Seq<char>, css: Seq<char>, n: nat, base: Seq<char>) -> Seq<Seq<char>>
    decreases n,
{
    if n == 0 {
        seq![]
    } else {
        let init = page_links(src, css, (n - 1) as nat, base);
        let h = content_of(src, seq![(css, (n - 1) as nat)], ContentKind::AttrHref, base);
        if h.len() == 0 || init.contains(h) {
            init
        } else {
            init.push(h)
        }
    }
}

/// The further result pages that a first search page links to.
pub open spec fn search_pages(src: Seq<char>, next_page: Seq<char>, base: Seq<char>) -> Seq<Seq<char>> {
    if is_blank(next_page) || is_js(next_page) {
        seq![]
    } else {
        match compiled_css(next_page) {
            Err(_) => seq![],
            Ok(css) => page_links(src, css, document_matches(src, css), base),
        }
    }
}

/// Lists the further result pages linked from the first search page.
pub fn search_page_urls(html: &str, search: &SearchRule, base: &BaseUrl) -> (r: Vec<String>)
    ensures
        crate::toc::strings_view(r@) == search_pages(html@, search.next_page@, base.text_view()),
{
    if blank(search.next_page.as_str()) || requires_js(search.next_page.as_str()) {
        let empty: Vec<String> = Vec::new();
        assert(crate::toc::strings_view(empty@) =~= Seq::<Seq<char>>::empty());
        return empty;
    }
    let document = Document::parse(html);
    let pages = match select_all_in_document(&document, search.next_page.as_str()) {
        Ok(p) => p,
        Err(_) => {
            let empty: Vec<String> = Vec::new();
            assert(crate::toc::strings_view(empty@) =~= Seq::<Seq<char>>::empty());
            return empty;
        },
    };
    let ghost css = match compiled_css(search.next_page@) {
        Ok(c) => c,
        Err(_) => Seq::empty(),
    };
    let n = pages.len();
    let mut urls: Vec<String> = Vec::new();
    let mut i: usize = 0;
    assert(crate::toc::strings_view(urls@) =~= Seq::<Seq<char>>::empty());
    while i < n
        invariant
            n == pages@.len(),
            forall|k: int|
                0 <= k < n ==> #[trigger] pages@[k].src() == html@ && pages@[k].loc() == seq![
                    (css, k as nat),
                ],
            i <= n,
            crate::toc::strings_view(urls@) == page_links(html@, css, i as nat, base.text_view()),
        decreases n - i,
    {
        let href = extract_content(&pages[i], ContentKind::AttrHref, base);
        let seen = contains_string(&urls, &href);
        if href.as_str().unicode_len() > 0 && !seen {
            let ghost before = urls@;
            urls.push(href);
            assert(crate::toc::strings_view(urls@) =~= crate::toc::strings_view(before).push(
                urls@.last()@,
            ));
        }
        i += 1;
    }
    urls
}

fn contains_string(v: &Vec<String>, s: &String) -> (r: bool)
    ensures
        r == crate::toc::strings_view(v@).contains(s@),
{
    let mut i: usize = 0;
    while i < v.len()
        invariant
            i <= v@.len(),
            forall|k: int| 0 <= k < i ==> #[trigger] crate::toc::strings_view(v@)[k] != s@,
        decreases v.len() - i,
    {
        assert(crate::toc::strings_view(v@)[i as int] == v@[i as int]@);
        if v[i] == *s {
            assert(crate::toc::strings_view(v@)[i as int] == s@);
            return true;
        }
        i += 1;
    }
    false
}

/// Hits after adding `more` to `hs`: each new hit whose URL is not present
/// yet is appended, until `limit` hits are held.
pub open spec fn merged_hits(hs: Seq<SearchHitView>, more: Seq<SearchHitView>, limit: nat) -> Seq<
    SearchHitView,
>
    decreases more.len(),
{
    if more.len() == 0 {
        hs
    } else {
        let init = merged_hits(hs, more.drop_last(), limit);
        let h = more.last();
        if init.len() >= limit || exists|k: int| 0 <= k < init.len() && #[trigger] init[k].url == h.url {
            init
        } else {
            init.push(h)
        }
    }
}

/// Adds the hits of a further result page, skipping known URLs and stopping
/// at the limit.
pub fn merge_hits(hits: &mut Vec<SearchHit>, more: Vec<SearchHit>, limit: usize)
    ensures
        hits_view(final(hits)@) == merged_hits(hits_view(old(hits)@), hits_view(more@), limit as nat),
{
    let ghost start = hits_view(hits@);
    let ghost mv = hits_view(more@);
    let n = more.len();
    let mut rest = more;
    let mut i: usize = 0;
    assert(mv.take(0) =~= Seq::<SearchHitView>::empty());
    while i < n
        invariant
            n == mv.len(),
            i <= n,
            hits_view(rest@) == mv.skip(i as int),
            rest@.len() == n - i,
            hits_view(hits@) == merged_hits(start, mv.take(i as int), limit as nat),
        decreases n - i,
    {
        assert(hits_view(rest@)[0] == rest@[0]@);
        let ghost old_rest = rest@;
        let h = rest.remove(0);
        assert(h@ == mv[i as int]);
        assert(mv.take(i + 1).drop_last() =~= mv.take(i as int));
        proof {
            assert forall|k: int| 0 <= k < rest@.len() implies #[trigger] hits_view(rest@)[k]
                == mv.skip(i + 1)[k] by {
                assert(rest@[k] == old_rest[k + 1]);
                assert(hits_view(old_rest)[k + 1] == old_rest[k + 1]@);
            }
            assert(hits_view(rest@) =~= mv.skip(i + 1));
        }
        if hits.len() < limit && !has_hit_url(hits, &h.url) {
            let ghost before = hits@;
            hits.push(h);
            assert(hits_view(hits@) =~= hits_view(before).push(h@));
        }
        i += 1;
    }
    assert(mv.take(n as int) =~= mv);
}

fn has_hit_url(hs: &Vec<SearchHit>, url: &String) -> (r: bool)
    ensures
        r == exists|k: int| 0 <= k < hs@.len() && #[trigger] hits_view(hs@)[k].url == url@,
{
    let mut i: usize = 0;
    while i < hs.len()
        invariant
            i <= hs@.len(),
            forall|k: int| 0 <= k < i ==> #[trigger] hits_view(hs@)[k].url != url@,
        decreases hs.len() - i,
    {
        assert(hits_view(hs@)[i as int] == hs@[i as int]@);
        if hs[i].url == *url {
            assert(hits_view(hs@)[i as int].url == url@);
            return true;
        }
        i += 1;
    }
    false
}

/// The further result page to fetch next: the one at `next`, as long as
/// fewer hits than the limit are held.
pub fn next_search_page(pages: &Vec<String>, next: usize, held: usize, limit: usize) -> (r: Option<
    String,
>)
    ensures
        match r {
            Some(u) => next < pages@.len() && held < limit && u@ == pages@[next as int]@,
            None => next >= pages@.len() || held >= limit,
        },
{
    if next < pages.len() && held < limit {
        Some(pages[next].clone())
    } else {
        None
    }
}

/// Takes in the outcome of fetching a further result page: a page that
/// could not be fetched is skipped; a fetched page is parsed and its new
/// hits merged up to the limit; a page that cannot be parsed stops the
/// search with its error.
pub fn absorb_search_page(
    hits: &mut Vec<SearchHit>,
    fetched: Result<String, Error>,
    rule: &Rule,
    search: &SearchRule,
    base: &BaseUrl,
    search_limit: u32,
) -> (res: Result<(), Error>)
    ensures
        match fetched {
            Err(_) => res is Ok && final(hits)@ == old(hits)@,
            Ok(html) => match search_page(html@, *rule, search@, base.text_view(), search_limit) {
                Ok(hs) => res is Ok && hits_view(final(hits)@) == merged_hits(
                    hits_view(old(hits)@),
                    hs,
                    limit_of(search_limit),
                ),
                Err(p) => res matches Err(e) && search_page_error(e, p, rule.name@)
                    && final(hits)@ == old(hits)@,
            },
        },
{
    match fetched {
        Err(_) => Ok(()),
        Ok(html) => {
            let more = parse_search_html(html.as_str(), rule, search, base, search_limit)?;
            let limit = effective_limit(search_limit);
            merge_hits(hits, more, limit);
            Ok(())
        },
    }
}

/// Keeps at most the configured number of hits.
pub fn limit_hits(hits: &mut Vec<SearchHit>, search_limit: u32)
    ensures
        final(hits)@ == if old(hits)@.len() > limit_of(search_limit) {
            old(hits)@.take(limit_of(search_limit) as int)
        } else {
            old(hits)@
        },
{
    let limit = effective_limit(search_limit);
    if hits.len() > limit {
        hits.truncate(limit);
    }
}

/// Merging a further page never grows the hits past the limit (or past what
/// was already held), keeps the hits held before in front, unchanged, and
/// adds no URL twice: held hits with distinct URLs stay distinct.
pub proof fn lemma_merged_hits_bounded(hs: Seq<SearchHitView>, more: Seq<SearchHitView>, limit: nat)
    ensures
        ({
            let m = merged_hits(hs, more, limit);
            &&& m.len() <= if hs.len() > limit {
                hs.len()
            } else {
                limit
            }
            &&& m.len() >= hs.len()
            &&& m.take(hs.len() as int) == hs
            &&& (forall|i: int, j: int| 0 <= i < j < hs.len() ==> hs[i].url != hs[j].url) ==> (
            forall|i: int, j: int| 0 <= i < j < m.len() ==> m[i].url != m[j].url)
            &&& forall|i: int|
                hs.len() <= i < m.len() ==> exists|j: int|
                    0 <= j < more.len() && #[trigger] more[j] == #[trigger] m[i]
        }),
    decreases more.len(),
{
    if more.len() > 0 {
        let init = merged_hits(hs, more.drop_last(), limit);
        lemma_merged_hits_bounded(hs, more.drop_last(), limit);
        let m = merged_hits(hs, more, limit);
        assert(m.take(hs.len() as int) =~= init.take(hs.len() as int));
        assert forall|i: int| hs.len() <= i < m.len() implies exists|j: int|
            0 <= j < more.len() && #[trigger] more[j] == #[trigger] m[i] by {
            if i < init.len() {
                assert(m[i] == init[i]);
                let j = choose|j: int|
                    0 <= j < more.drop_last().len() && more.drop_last()[j] == init[i];
                assert(more[j] == more.drop_last()[j]);
            } else {
                assert(more[more.len() - 1] == m[i]);
            }
        }
    }
}


proof fn lemma_row_hits_shape(
    src: Seq<char>,
    css: Seq<char>,
    n: nat,
    rule: Rule,
    search: SearchRuleView,
    base: Seq<char>,
    limit: nat,
)
    ensures
        row_hits(src, css, n, rule, search, base, limit).len() <= limit,
        row_hits(src, css, n, rule, search, base, limit).len() <= n,
        forall|k: int|
            0 <= k < row_hits(src, css, n, rule, search, base, limit).len() ==> {
                let h = #[trigger] row_hits(src, css, n, rule, search, base, limit)[k];
                &&& h.book_name.len() > 0
                &&& h.url.len() > 0
                &&& h.source_id == rule.id
            },
    decreases n,
{
    if n > 0 {
        lemma_row_hits_shape(src, css, (n - 1) as nat, rule, search, base, limit);
        let init = row_hits(src, css, (n - 1) as nat, rule, search, base, limit);
        let all = row_hits(src, css, n, rule, search, base, limit);
        assert forall|k: int| 0 <= k < all.len() implies {
            let h = #[trigger] all[k];
            &&& h.book_name.len() > 0
            &&& h.url.len() > 0
            &&& h.source_id == rule.id
        } by {
            if k < init.len() {
                assert(all[k] == init[k]);
            }
        }
    }
}

/// A parsed search page never holds more hits than the configured limit,
/// nor more than it has result rows; every hit has a book name and a detail
/// URL and carries the source's id.
pub proof fn lemma_search_page_within_limit(
    src: Seq<char>,
    rule: Rule,
    search: SearchRuleView,
    base: Seq<char>,
    search_limit: u32,
)
    ensures
        search_page(src, rule, search, base, search_limit) matches Ok(hs) ==> {
            &&& hs.len() <= limit_of(search_limit)
            &&& forall|k: int|
                0 <= k < hs.len() ==> (#[trigger] hs[k]).book_name.len() > 0 && hs[k].url.len() > 0
                    && hs[k].source_id == rule.id
        },
{
    if let Ok(css) = compiled_css(css_part(search.result)) {
        lemma_row_hits_shape(
            src,
            css,
            document_matches(src, css),
            rule,
            search,
            base,
            limit_of(search_limit),
        );
    }
}


/// `h` is what the result row at `at` reads as: each field is the text that
/// the rule's query of the same name extracts from that row, the detail URL
/// is the link under the book-name node, and the source is the rule's.
pub open spec fn hit_reads_row(
    h: SearchHitView,
    src: Seq<char>,
    at: Loc,
    rule: Rule,
    q: SearchRuleView,
    base: Seq<char>,
) -> bool {
    &&& h.source_id == rule.id
    &&& h.source_name == rule.name@
    &&& h.book_name == extracted(src, at, q.book_name, base)
    &&& h.author == extracted(src, at, q.author, base)
    &&& h.category == extracted(src, at, q.category, base)
    &&& h.latest_chapter == extracted(src, at, q.latest_chapter, base)
    &&& h.last_update_time == extracted(src, at, q.last_update_time, base)
    &&& h.status == extracted(src, at, q.status, base)
    &&& h.word_count == extracted(src, at, q.word_count, base)
    &&& h.url == hit_url(src, at, q.book_name, base)
    &&& h.book_name.len() > 0
    &&& h.url.len() > 0
}

/// The positions of the result rows that the hits of the first `n` rows
/// come from, in the same order as the hits (see [`row_hits`]).
pub open spec fn hit_rows(
    src: Seq<char>,
    css: Seq<char>,
    n: nat,
    rule: Rule,
    q: SearchRuleView,
    base: Seq<char>,
    limit: nat,
) -> Seq<nat>
    decreases n,
{
    if n == 0 {
        seq![]
    } else {
        let before = hit_rows(src, css, (n - 1) as nat, rule, q, base, limit);
        if row_hits(src, css, (n - 1) as nat, rule, q, base, limit).len() >= limit {
            before
        } else {
            match row_hit(src, seq![(css, (n - 1) as nat)], rule, q, base) {
                Some(_) => before.push((n - 1) as nat),
                None => before,
            }
        }
    }
}

/// The hits `hs` come, in order, from the rows at the strictly increasing
/// positions `rows`, all below `n`, each hit read from its own row.
pub open spec fn hits_read_rows(
    hs: Seq<SearchHitView>,
    rows: Seq<nat>,
    src: Seq<char>,
    css: Seq<char>,
    n: nat,
    rule: Rule,
    q: SearchRuleView,
    base: Seq<char>,
) -> bool {
    &&& rows.len() == hs.len()
    &&& forall|i: int, j: int| 0 <= i < j < rows.len() ==> rows[i] < rows[j]
    &&& forall|k: int|
        0 <= k < hs.len() ==> rows[k] < n && #[trigger] hit_reads_row(
            hs[k],
            src,
            seq![(css, rows[k])],
            rule,
            q,
            base,
        )
}

proof fn lemma_row_hits_read_rows(
    src: Seq<char>,
    css: Seq<char>,
    n: nat,
    rule: Rule,
    q: SearchRuleView,
    base: Seq<char>,
    limit: nat,
)
    ensures
        hits_read_rows(
            row_hits(src, css, n, rule, q, base, limit),
            hit_rows(src, css, n, rule, q, base, limit),
            src,
            css,
            n,
            rule,
            q,
            base,
        ),
    decreases n,
{
    if n > 0 {
        let m = (n - 1) as nat;
        lemma_row_hits_read_rows(src, css, m, rule, q, base, limit);
        let init = row_hits(src, css, m, rule, q, base, limit);
        let rows0 = hit_rows(src, css, m, rule, q, base, limit);
        let all = row_hits(src, css, n, rule, q, base, limit);
        let rows = hit_rows(src, css, n, rule, q, base, limit);
        assert forall|k: int| 0 <= k < all.len() implies rows[k] < n && #[trigger] hit_reads_row(
            all[k],
            src,
            seq![(css, rows[k])],
            rule,
            q,
            base,
        ) by {
            if k < init.len() {
                assert(all[k] == init[k]);
                assert(rows[k] == rows0[k]);
                assert(hit_reads_row(init[k], src, seq![(css, rows0[k])], rule, q, base));
            } else {
                assert(rows[k] == m);
            }
        }
        assert forall|i: int, j: int| 0 <= i < j < rows.len() implies rows[i] < rows[j] by {
            if j < rows0.len() {
                assert(rows[i] == rows0[i] && rows[j] == rows0[j]);
            } else {
                assert(rows[i] == rows0[i]);
                assert(hit_reads_row(init[i], src, seq![(css, rows0[i])], rule, q, base));
                assert(rows0[i] < m);
            }
        }
    }
}

/// Every hit of a parsed search page is read from its own result row, in
/// page order: its book name, author, category, latest chapter, update time,
/// status and word count are what the rule's queries of the same names
/// extract from that row, and its URL is the row's book link.
pub proof fn lemma_search_hits_read_their_rows(
    src: Seq<char>,
    rule: Rule,
    q: SearchRuleView,
    base: Seq<char>,
    search_limit: u32,
)
    ensures
        search_page(src, rule, q, base, search_limit) matches Ok(hs) ==> compiled_css(
            css_part(q.result),
        ) matches Ok(css) && hits_read_rows(
            hs,
            hit_rows(src, css, document_matches(src, css), rule, q, base, limit_of(search_limit)),
            src,
            css,
            document_matches(src, css),
            rule,
            q,
            base,
        ),
{
    if let Ok(css) = compiled_css(css_part(q.result)) {
        lemma_row_hits_read_rows(
            src,
            css,
            document_matches(src, css),
            rule,
            q,
            base,
            limit_of(search_limit),
        );
    }
}

} // verus!
