//! Book detail pages: rule checks and the book record a page yields.

use vstd::prelude::*;

use crate::dom::{url_join_outcome, url_parse_outcome, BaseUrl, Document};
use crate::error::Error;
use crate::model::{Book, BookView};
use crate::rule::{effective_book, effective_book_rule, BookRule, BookRuleView, Rule};
use crate::select::{extract_in_document, extracted_in_document};
use crate::support::{find_unsupported, first_unsupported, strs_view};
use crate::text::{
    blank, cat, chars_of, collapse_ws, collapsed, has_prefix, is_blank, replace_all,
    replace_all_chars, slice_of, starts_with, string_of, trim, trim_chars, trimmed,
};

verus! {

/// The book fields that must not need `@js:` or XPath, in checking order.
pub open spec fn book_field_values(b: BookRuleView) -> Seq<Seq<char>> {
    seq![
        b.book_name,
        b.author,
        b.intro,
        b.cover_url,
        b.category,
        b.latest_chapter,
        b.latest_chapter_url,
        b.last_update_time,
        b.status,
    ]
}

/// The names of those fields as rules spell them.
pub open spec fn book_field_names() -> Seq<Seq<char>> {
    seq![
        "bookName"@,
        "author"@,
        "intro"@,
        "coverUrl"@,
        "category"@,
        "latestChapter"@,
        "latestChapterUrl"@,
        "lastUpdateTime"@,
        "status"@,
    ]
}

/// The message for an unsupported book field.
pub open spec fn book_unsupported_message(j: int, js: bool) -> Seq<char> {
    "book."@ + book_field_names()[j] + if js {
        " requires @js: (not enabled yet)"@
    } else {
        " uses XPath (not enabled yet)"@
    }
}

/// Rejects book rules that need `@js:` or XPath.
pub fn ensure_book_supported(book: &BookRule) -> (res: Result<(), Error>)
    ensures
        match first_unsupported(book_field_values(book@), 0) {
            None => res is Ok,
            Some((j, js)) => res matches Err(Error::UnsupportedFeature(m)) && m@
                == book_unsupported_message(j, js),
        },
{
    let values: [&str; 9] = [
        book.book_name.as_str(),
        book.author.as_str(),
        book.intro.as_str(),
        book.cover_url.as_str(),
        book.category.as_str(),
        book.latest_chapter.as_str(),
        book.latest_chapter_url.as_str(),
        book.last_update_time.as_str(),
        book.status.as_str(),
    ];
    let names: [&str; 9] = [
        "bookName",
        "author",
        "intro",
        "coverUrl",
        "category",
        "latestChapter",
        "latestChapterUrl",
        "lastUpdateTime",
        "status",
    ];
    assert(strs_view(values@) =~= book_field_values(book@));
    assert(strs_view(names@) =~= book_field_names());
    match find_unsupported(values.as_slice()) {
        None => Ok(()),
        Some((j, js)) => {
            assert(names@.len() == 9);
            assert(names@[j as int]@ == book_field_names()[j as int]);
            let head = cat("book.", names[j]);
            let m = if js {
                cat(head.as_str(), " requires @js: (not enabled yet)")
            } else {
                cat(head.as_str(), " uses XPath (not enabled yet)")
            };
            Err(Error::UnsupportedFeature(m))
        },
    }
}

/// A link made absolute: trimmed; absolute `http(s)` and `data:` links kept;
/// others resolved against `base`, or kept when that fails.
pub open spec fn absolutized(raw: Seq<char>, base: Seq<char>) -> Seq<char> {
    let r = trim(raw);
    if r.len() == 0 {
        Seq::empty()
    } else if starts_with(r, "http://"@) || starts_with(r, "https://"@) || starts_with(r, "data:"@) {
        r
    } else {
        match url_join_outcome(base, r) {
            Some(u) => u,
            None => r,
        }
    }
}

/// Makes a link absolute against the page's base URL.
pub fn absolutize_url(raw: &str, base: &BaseUrl) -> (r: String)
    ensures
        r@ == absolutized(raw@, base.text_view()),
{
    let r = trimmed(raw);
    if r.as_str().unicode_len() == 0 {
        return String::new();
    }
    if crate::text::str_starts_with(r.as_str(), "http://") || crate::text::str_starts_with(
        r.as_str(),
        "https://",
    ) || crate::text::str_starts_with(r.as_str(), "data:") {
        return r;
    }
    match base.join(r.as_str()) {
        Some(u) => u,
        None => r,
    }
}

/// The author field without `作者：` / `作者:` labels, trimmed.
pub open spec fn clean_author(a: Seq<char>) -> Seq<char> {
    trim(replace_all(replace_all(a, "作者："@, Seq::empty()), "作者:"@, Seq::empty()))
}

/// The update time without a leading `更新时间` / `最后更新` label.
pub open spec fn clean_update_time(s: Seq<char>) -> Seq<char> {
    if starts_with(s, "更新时间："@) {
        trim(s.skip("更新时间："@.len() as int))
    } else if starts_with(s, "更新时间:"@) {
        trim(s.skip("更新时间:"@.len() as int))
    } else if starts_with(s, "最后更新："@) {
        trim(s.skip("最后更新："@.len() as int))
    } else if starts_with(s, "最后更新:"@) {
        trim(s.skip("最后更新:"@.len() as int))
    } else {
        s
    }
}

fn remove_all(s: &str, p: &str) -> (r: String)
    ensures
        r@ == replace_all(s@, p@, Seq::empty()),
{
    let sv = chars_of(s);
    let pv = chars_of(p);
    let empty: Vec<char> = Vec::new();
    string_of(replace_all_chars(sv.as_slice(), pv.as_slice(), empty.as_slice()).as_slice())
}

fn strip_label(s: &String, label: &str) -> (r: Option<String>)
    ensures
        if starts_with(s@, label@) {
            r matches Some(x) && x@ == trim(s@.skip(label@.len() as int))
        } else {
            r is None
        },
{
    let sv = chars_of(s.as_str());
    let lv = chars_of(label);
    if has_prefix(sv.as_slice(), lv.as_slice()) {
        let rest = slice_of(sv.as_slice(), lv.len(), sv.len());
        assert(rest@ =~= sv@.skip(lv@.len() as int));
        Some(string_of(trim_chars(rest.as_slice()).as_slice()))
    } else {
        None
    }
}

fn clean_update(s: String) -> (r: String)
    ensures
        r@ == clean_update_time(s@),
{
    if let Some(r) = strip_label(&s, "更新时间：") {
        return r;
    }
    if let Some(r) = strip_label(&s, "更新时间:") {
        return r;
    }
    if let Some(r) = strip_label(&s, "最后更新：") {
        return r;
    }
    if let Some(r) = strip_label(&s, "最后更新:") {
        return r;
    }
    s
}

/// The book a detail page describes, if it names a book and an author.
pub open spec fn book_page(
    src: Seq<char>,
    rule: Rule,
    b: BookRuleView,
    detail_url: Seq<char>,
    base: Seq<char>,
) -> Option<BookView> {
    let name = extracted_in_document(src, b.book_name, base);
    let author = clean_author(extracted_in_document(src, b.author, base));
    if is_blank(name) || author.len() == 0 {
        None
    } else {
        Some(
            BookView {
                name: trim(name),
                author,
                intro: collapse_ws(extracted_in_document(src, b.intro, base)),
                category: extracted_in_document(src, b.category, base),
                cover_url: absolutized(extracted_in_document(src, b.cover_url, base), base),
                latest_chapter: extracted_in_document(src, b.latest_chapter, base),
                latest_chapter_url: absolutized(
                    extracted_in_document(src, b.latest_chapter_url, base),
                    base,
                ),
                last_update_time: clean_update_time(
                    extracted_in_document(src, b.last_update_time, base),
                ),
                status: extracted_in_document(src, b.status, base),
                url: detail_url,
                source_id: rule.id,
                source_name: rule.name@,
            },
        )
    }
}

/// The message for a page without a book name or author.
pub open spec fn missing_book_message(source_name: Seq<char>) -> Seq<char> {
    "详情页书名或作者为空（书源「"@ + source_name + "」）"@
}

/// Parses detail HTML into a book record.
pub fn parse_book_html(
    html: &str,
    rule: &Rule,
    book_rule: &BookRule,
    detail_url: &str,
    base: &BaseUrl,
) -> (res: Result<Book, Error>)
    ensures
        match first_unsupported(book_field_values(book_rule@), 0) {
            Some((j, js)) => res matches Err(Error::UnsupportedFeature(m)) && m@
                == book_unsupported_message(j, js),
            None => match book_page(html@, *rule, book_rule@, detail_url@, base.text_view()) {
                Some(b) => res matches Ok(x) && x@ == b,
                None => res matches Err(Error::Message(m)) && m@ == missing_book_message(
                    rule.name@,
                ),
            },
        },
{
    ensure_book_supported(book_rule)?;
    let document = Document::parse(html);
    let name = extract_in_document(&document, book_rule.book_name.as_str(), base);
    let author = extract_in_document(&document, book_rule.author.as_str(), base);
    let author = remove_all(author.as_str(), "作者：");
    let author = remove_all(author.as_str(), "作者:");
    let author = trimmed(author.as_str());
    if blank(name.as_str()) || author.as_str().unicode_len() == 0 {
        let m = cat(cat("详情页书名或作者为空（书源「", rule.name.as_str()).as_str(), "」）");
        return Err(Error::Message(m));
    }
    let last_update = extract_in_document(&document, book_rule.last_update_time.as_str(), base);
    let last_update = clean_update(last_update);
    let cover_raw = extract_in_document(&document, book_rule.cover_url.as_str(), base);
    let latest_url_raw = extract_in_document(&document, book_rule.latest_chapter_url.as_str(), base);
    let intro = extract_in_document(&document, book_rule.intro.as_str(), base);
    Ok(
        Book {
            name: trimmed(name.as_str()),
            author,
            intro: collapsed(intro.as_str()),
            category: extract_in_document(&document, book_rule.category.as_str(), base),
            cover_url: absolutize_url(cover_raw.as_str(), base),
            latest_chapter: extract_in_document(&document, book_rule.latest_chapter.as_str(), base),
            latest_chapter_url: absolutize_url(latest_url_raw.as_str(), base),
            last_update_time: last_update,
            status: extract_in_document(&document, book_rule.status.as_str(), base),
            url: detail_url.to_owned(),
            source_id: rule.id,
            source_name: rule.name.clone(),
        },
    )
}

/// The text a detail page's base URL is parsed from: the book rule's base
/// URI, else the site URL, else the detail URL.
pub open spec fn book_base_text(base_uri: Seq<char>, rule_url: Seq<char>, detail_url: Seq<char>) -> Seq<
    char,
> {
    if !is_blank(base_uri) {
        base_uri
    } else if !is_blank(rule_url) {
        rule_url
    } else {
        detail_url
    }
}

/// Resolves the base URL relative detail-page links are joined to.
pub fn resolve_base(base_uri: &str, rule_url: &str, detail_url: &str) -> (res: Result<BaseUrl, Error>)
    ensures
        match url_parse_outcome(book_base_text(base_uri@, rule_url@, detail_url@)) {
            Ok(t) => res matches Ok(u) && u.text_view() == t,
            Err(m) => res matches Err(Error::InvalidUrl(x)) && x@ == book_base_text(
                base_uri@,
                rule_url@,
                detail_url@,
            ) + ": "@ + m,
        },
{
    let raw: &str = if !blank(base_uri) {
        base_uri
    } else if !blank(rule_url) {
        rule_url
    } else {
        detail_url
    };
    match BaseUrl::parse(raw) {
        Ok(u) => Ok(u),
        Err(err) => Err(Error::InvalidUrl(cat(cat(raw, ": ").as_str(), err.as_str()))),
    }
}

/// What to fetch for a book detail page.
pub struct BookPlan {
    pub book_rule: BookRule,
    pub timeout: u64,
}

/// Checks a source's book rule before its detail page is fetched.
pub fn book_plan(rule: &Rule) -> (res: Result<BookPlan, Error>)
    ensures
        match first_unsupported(book_field_values(effective_book(*rule)), 0) {
            Some((j, js)) => res matches Err(Error::UnsupportedFeature(m)) && m@
                == book_unsupported_message(j, js),
            None => res matches Ok(p) && p.book_rule@ == effective_book(*rule) && p.timeout
                == match effective_book(*rule).timeout {
                Some(t) => t as u64,
                None => 15u64,
            },
        },
{
    let book_rule = effective_book_rule(rule);
    ensure_book_supported(&book_rule)?;
    let timeout: u64 = match book_rule.timeout {
        Some(t) => t as u64,
        None => 15,
    };
    Ok(BookPlan { book_rule, timeout })
}

/// Reads a fetched detail page: resolves its base URL, then parses it.
pub fn book_from_page(html: &str, rule: &Rule, plan: &BookPlan, detail_url: &str) -> (res: Result<
    Book,
    Error,
>)
    ensures
        match url_parse_outcome(book_base_text(plan.book_rule.base_uri@, rule.url@, detail_url@)) {
            Err(m) => res matches Err(Error::InvalidUrl(x)) && x@ == book_base_text(
                plan.book_rule.base_uri@,
                rule.url@,
                detail_url@,
            ) + ": "@ + m,
            Ok(base) => match first_unsupported(book_field_values(plan.book_rule@), 0) {
                Some((j, js)) => res matches Err(Error::UnsupportedFeature(m)) && m@
                    == book_unsupported_message(j, js),
                None => match book_page(html@, *rule, plan.book_rule@, detail_url@, base) {
                    Some(b) => res matches Ok(x) && x@ == b,
                    None => res matches Err(Error::Message(m)) && m@ == missing_book_message(
                        rule.name@,
                    ),
                },
            },
        },
{
    let base = resolve_base(plan.book_rule.base_uri.as_str(), rule.url.as_str(), detail_url)?;
    parse_book_html(html, rule, &plan.book_rule, detail_url, &base)
}


/// A parsed book takes each field from the rule's query of the same name:
/// name (trimmed), author (labels removed), intro (whitespace collapsed),
/// category, status and latest chapter as extracted, the cover and latest
/// chapter links made absolute, the update time without its label; the
/// detail URL and the source are the caller's. A page yields a book exactly
/// when it has a name and an author.
pub proof fn lemma_book_fields_follow_their_queries(
    src: Seq<char>,
    rule: Rule,
    q: BookRuleView,
    detail_url: Seq<char>,
    base: Seq<char>,
)
    ensures
        (book_page(src, rule, q, detail_url, base) is Some) == (!is_blank(
            extracted_in_document(src, q.book_name, base),
        ) && clean_author(extracted_in_document(src, q.author, base)).len() > 0),
        book_page(src, rule, q, detail_url, base) matches Some(bk) ==> {
            &&& bk.name == trim(extracted_in_document(src, q.book_name, base))
            &&& bk.author == clean_author(extracted_in_document(src, q.author, base))
            &&& bk.intro == collapse_ws(extracted_in_document(src, q.intro, base))
            &&& bk.category == extracted_in_document(src, q.category, base)
            &&& bk.status == extracted_in_document(src, q.status, base)
            &&& bk.latest_chapter == extracted_in_document(src, q.latest_chapter, base)
            &&& bk.cover_url == absolutized(extracted_in_document(src, q.cover_url, base), base)
            &&& bk.latest_chapter_url == absolutized(
                extracted_in_document(src, q.latest_chapter_url, base),
                base,
            )
            &&& bk.last_update_time == clean_update_time(
                extracted_in_document(src, q.last_update_time, base),
            )
            &&& bk.url == detail_url
            &&& bk.source_id == rule.id
            &&& bk.source_name == rule.name@
        },
{
}

/// Changing one field's query leaves the other fields of the parsed book
/// alone: two rules that differ only in their category query give books
/// with the same status, and two that differ only in their status query
/// give books with the same category.
pub proof fn lemma_book_fields_independent(
    src: Seq<char>,
    rule: Rule,
    q: BookRuleView,
    other: Seq<char>,
    detail_url: Seq<char>,
    base: Seq<char>,
)
    ensures
        book_page(src, rule, q, detail_url, base) matches Some(x) ==> book_page(
            src,
            rule,
            BookRuleView { category: other, ..q },
            detail_url,
            base,
        ) matches Some(y) && y.status == x.status && y.name == x.name && y.author == x.author,
        book_page(src, rule, q, detail_url, base) matches Some(x) ==> book_page(
            src,
            rule,
            BookRuleView { status: other, ..q },
            detail_url,
            base,
        ) matches Some(y) && y.category == x.category && y.name == x.name && y.author == x.author,
{
    lemma_book_fields_follow_their_queries(src, rule, q, detail_url, base);
    lemma_book_fields_follow_their_queries(src, rule, BookRuleView { category: other, ..q }, detail_url, base);
    lemma_book_fields_follow_their_queries(src, rule, BookRuleView { status: other, ..q }, detail_url, base);
}

} // verus!
