//! Book-source rules (so-novel JSON packs): models, defaults and the catalog.

use vstd::prelude::*;

use crate::error::Error;
use crate::text::{blank, is_blank};

verus! {

/// One site rule from a rules pack.
#[derive(Debug, Clone)]
pub struct Rule {
    /// 1-based id assigned when the pack is loaded.
    pub id: u32,
    /// Site base URL used for matching and defaults.
    pub url: String,
    /// Human-readable source name.
    pub name: String,
    pub comment: String,
    pub language: String,
    pub need_proxy: bool,
    pub disabled: bool,
    pub search: Option<SearchRule>,
    pub book: Option<BookRule>,
    pub toc: Option<TocRule>,
    pub chapter: Option<ChapterRule>,
    pub crawl: Option<CrawlRule>,
}

/// Search-page extraction rule.
#[derive(Debug, Clone)]
pub struct SearchRule {
    /// When true, excluded from search.
    pub disabled: bool,
    pub base_uri: String,
    pub timeout: Option<u32>,
    pub url: String,
    pub method: String,
    pub data: String,
    pub cookies: String,
    pub result: String,
    pub book_name: String,
    pub author: String,
    pub category: String,
    pub latest_chapter: String,
    pub last_update_time: String,
    pub status: String,
    pub word_count: String,
    pub next_page: String,
}

/// Book detail-page extraction rule.
#[derive(Debug, Clone)]
pub struct BookRule {
    pub base_uri: String,
    pub timeout: Option<u32>,
    pub url: String,
    pub book_name: String,
    pub author: String,
    pub intro: String,
    pub category: String,
    pub cover_url: String,
    pub latest_chapter: String,
    pub latest_chapter_url: String,
    pub last_update_time: String,
    pub status: String,
}

/// Table-of-contents extraction rule.
#[derive(Debug, Clone)]
pub struct TocRule {
    pub base_uri: String,
    pub timeout: Option<u32>,
    pub url: String,
    pub list: String,
    pub item: String,
    pub is_desc: bool,
    pub next_page: String,
}

/// Chapter-page extraction rule.
#[derive(Debug, Clone)]
pub struct ChapterRule {
    pub base_uri: String,
    pub timeout: Option<u32>,
    pub title: String,
    pub content: String,
    pub paragraph_tag_closed: bool,
    pub paragraph_tag: String,
    pub filter_txt: String,
    pub filter_tag: String,
    pub next_page: String,
    pub next_page_in_js: String,
    pub next_chapter_link: String,
}

/// Optional per-source crawl limits.
#[derive(Debug, Clone)]
pub struct CrawlRule {
    pub concurrency: Option<u32>,
    pub min_interval: Option<u64>,
    pub max_interval: Option<u64>,
    pub max_attempts: Option<u32>,
    pub retry_min_interval: Option<u64>,
    pub retry_max_interval: Option<u64>,
}

/// The mathematical value of a [`BookRule`].
pub struct BookRuleView {
    pub base_uri: Seq<char>,
    pub timeout: Option<u32>,
    pub url: Seq<char>,
    pub book_name: Seq<char>,
    pub author: Seq<char>,
    pub intro: Seq<char>,
    pub category: Seq<char>,
    pub cover_url: Seq<char>,
    pub latest_chapter: Seq<char>,
    pub latest_chapter_url: Seq<char>,
    pub last_update_time: Seq<char>,
    pub status: Seq<char>,
}

impl View for BookRule {
    type V = BookRuleView;

    open spec fn view(&self) -> BookRuleView {
        BookRuleView {
            base_uri: self.base_uri@,
            timeout: self.timeout,
            url: self.url@,
            book_name: self.book_name@,
            author: self.author@,
            intro: self.intro@,
            category: self.category@,
            cover_url: self.cover_url@,
            latest_chapter: self.latest_chapter@,
            latest_chapter_url: self.latest_chapter_url@,
            last_update_time: self.last_update_time@,
            status: self.status@,
        }
    }
}

/// The mathematical value of a [`TocRule`].
pub struct TocRuleView {
    pub base_uri: Seq<char>,
    pub timeout: Option<u32>,
    pub url: Seq<char>,
    pub list: Seq<char>,
    pub item: Seq<char>,
    pub is_desc: bool,
    pub next_page: Seq<char>,
}

impl View for TocRule {
    type V = TocRuleView;

    open spec fn view(&self) -> TocRuleView {
        TocRuleView {
            base_uri: self.base_uri@,
            timeout: self.timeout,
            url: self.url@,
            list: self.list@,
            item: self.item@,
            is_desc: self.is_desc,
            next_page: self.next_page@,
        }
    }
}

/// The mathematical value of a [`SearchRule`].
pub struct SearchRuleView {
    pub disabled: bool,
    pub base_uri: Seq<char>,
    pub timeout: Option<u32>,
    pub url: Seq<char>,
    pub method: Seq<char>,
    pub data: Seq<char>,
    pub cookies: Seq<char>,
    pub result: Seq<char>,
    pub book_name: Seq<char>,
    pub author: Seq<char>,
    pub category: Seq<char>,
    pub latest_chapter: Seq<char>,
    pub last_update_time: Seq<char>,
    pub status: Seq<char>,
    pub word_count: Seq<char>,
    pub next_page: Seq<char>,
}

impl View for SearchRule {
    type V = SearchRuleView;

    open spec fn view(&self) -> SearchRuleView {
        SearchRuleView {
            disabled: self.disabled,
            base_uri: self.base_uri@,
            timeout: self.timeout,
            url: self.url@,
            method: self.method@,
            data: self.data@,
            cookies: self.cookies@,
            result: self.result@,
            book_name: self.book_name@,
            author: self.author@,
            category: self.category@,
            latest_chapter: self.latest_chapter@,
            last_update_time: self.last_update_time@,
            status: self.status@,
            word_count: self.word_count@,
            next_page: self.next_page@,
        }
    }
}

/// Whether a rule can take part in keyword search.
pub open spec fn rule_searchable(rule: Rule) -> bool {
    !rule.disabled && match rule.search {
        Some(s) => !s.disabled && !is_blank(s.url@),
        None => false,
    }
}

impl Rule {
    /// Whether this source can participate in keyword search.
    pub fn is_searchable(&self) -> (r: bool)
        ensures
            r == rule_searchable(*self),
    {
        if self.disabled {
            return false;
        }
        match &self.search {
            Some(search) => !search.disabled && !blank(search.url.as_str()),
            None => false,
        }
    }
}

pub const META_BOOK_NAME: &'static str = "meta[property=\"og:novel:book_name\"]";
pub const META_AUTHOR: &'static str = "meta[property=\"og:novel:author\"]";
pub const META_INTRO: &'static str = "meta[name=\"description\"]";
pub const META_CATEGORY: &'static str = "meta[property=\"og:novel:category\"]";
pub const META_COVER_URL: &'static str = "meta[property=\"og:image\"]";
pub const META_LATEST_CHAPTER: &'static str = "meta[property=\"og:novel:latest_chapter_name\"]";
pub const META_LATEST_CHAPTER_URL: &'static str = "meta[property=\"og:novel:latest_chapter_url\"]";
pub const META_LAST_UPDATE_TIME: &'static str = "meta[property=\"og:novel:update_time\"]";
pub const META_STATUS: &'static str = "meta[property=\"og:novel:status\"]";

/// `field`, or `default` when `field` is blank.
pub open spec fn filled(field: Seq<char>, default: Seq<char>) -> Seq<char> {
    if is_blank(field) {
        default
    } else {
        field
    }
}

/// The book rule a source declares, or one with every field empty.
pub open spec fn declared_book(rule: Rule) -> BookRuleView {
    match rule.book {
        Some(b) => b@,
        None => BookRuleView {
            base_uri: Seq::empty(),
            timeout: None,
            url: Seq::empty(),
            book_name: Seq::empty(),
            author: Seq::empty(),
            intro: Seq::empty(),
            category: Seq::empty(),
            cover_url: Seq::empty(),
            latest_chapter: Seq::empty(),
            latest_chapter_url: Seq::empty(),
            last_update_time: Seq::empty(),
            status: Seq::empty(),
        },
    }
}

/// The book rule with defaults applied: the site URL as base, a 15 s
/// timeout, and Open Graph meta selectors for blank fields.
pub open spec fn effective_book(rule: Rule) -> BookRuleView {
    let b = declared_book(rule);
    BookRuleView {
        base_uri: filled(b.base_uri, rule.url@),
        timeout: match b.timeout {
            Some(t) => Some(t),
            None => Some(15),
        },
        url: b.url,
        book_name: filled(b.book_name, META_BOOK_NAME@),
        author: filled(b.author, META_AUTHOR@),
        intro: filled(b.intro, META_INTRO@),
        category: filled(b.category, META_CATEGORY@),
        cover_url: filled(b.cover_url, META_COVER_URL@),
        latest_chapter: filled(b.latest_chapter, META_LATEST_CHAPTER@),
        latest_chapter_url: filled(b.latest_chapter_url, META_LATEST_CHAPTER_URL@),
        last_update_time: filled(b.last_update_time, META_LAST_UPDATE_TIME@),
        status: filled(b.status, META_STATUS@),
    }
}

fn fill_if_empty(field: &mut String, default: &str)
    ensures
        final(field)@ == filled(old(field)@, default@),
{
    if blank(field.as_str()) {
        *field = default.to_owned();
    }
}

fn empty_book_rule() -> (b: BookRule)
    ensures
        b@ == (BookRuleView {
            base_uri: Seq::empty(),
            timeout: None,
            url: Seq::empty(),
            book_name: Seq::empty(),
            author: Seq::empty(),
            intro: Seq::empty(),
            category: Seq::empty(),
            cover_url: Seq::empty(),
            latest_chapter: Seq::empty(),
            latest_chapter_url: Seq::empty(),
            last_update_time: Seq::empty(),
            status: Seq::empty(),
        }),
{
    BookRule {
        base_uri: String::new(),
        timeout: None,
        url: String::new(),
        book_name: String::new(),
        author: String::new(),
        intro: String::new(),
        category: String::new(),
        cover_url: String::new(),
        latest_chapter: String::new(),
        latest_chapter_url: String::new(),
        last_update_time: String::new(),
        status: String::new(),
    }
}

fn copy_book_rule(b: &BookRule) -> (r: BookRule)
    ensures
        r@ == b@,
{
    BookRule {
        base_uri: b.base_uri.clone(),
        timeout: b.timeout,
        url: b.url.clone(),
        book_name: b.book_name.clone(),
        author: b.author.clone(),
        intro: b.intro.clone(),
        category: b.category.clone(),
        cover_url: b.cover_url.clone(),
        latest_chapter: b.latest_chapter.clone(),
        latest_chapter_url: b.latest_chapter_url.clone(),
        last_update_time: b.last_update_time.clone(),
        status: b.status.clone(),
    }
}

/// Fills blank book selectors with Open Graph meta defaults.
pub fn effective_book_rule(rule: &Rule) -> (r: BookRule)
    ensures
        r@ == effective_book(*rule),
{
    let mut book = match &rule.book {
        Some(b) => copy_book_rule(b),
        None => empty_book_rule(),
    };
    fill_if_empty(&mut book.base_uri, rule.url.as_str());
    if book.timeout.is_none() {
        book.timeout = Some(15);
    }
    fill_if_empty(&mut book.book_name, META_BOOK_NAME);
    fill_if_empty(&mut book.author, META_AUTHOR);
    fill_if_empty(&mut book.intro, META_INTRO);
    fill_if_empty(&mut book.category, META_CATEGORY);
    fill_if_empty(&mut book.cover_url, META_COVER_URL);
    fill_if_empty(&mut book.latest_chapter, META_LATEST_CHAPTER);
    fill_if_empty(&mut book.latest_chapter_url, META_LATEST_CHAPTER_URL);
    fill_if_empty(&mut book.last_update_time, META_LAST_UPDATE_TIME);
    fill_if_empty(&mut book.status, META_STATUS);
    book
}

/// The TOC rule with the site URL as base and a 60 s timeout when unset.
pub open spec fn effective_toc(rule: Rule) -> Option<TocRuleView> {
    match rule.toc {
        Some(t) => Some(
            TocRuleView {
                base_uri: filled(t.base_uri@, rule.url@),
                timeout: match t.timeout {
                    Some(x) => Some(x),
                    None => Some(60),
                },
                ..t@
            },
        ),
        None => None,
    }
}

/// Ensures the TOC rule has base URI / timeout defaults.
pub fn effective_toc_rule(rule: &Rule) -> (r: Option<TocRule>)
    ensures
        match effective_toc(*rule) {
            Some(v) => r matches Some(t) && t@ == v,
            None => r is None,
        },
{
    match &rule.toc {
        Some(t) => {
            let mut toc = TocRule {
                base_uri: t.base_uri.clone(),
                timeout: t.timeout,
                url: t.url.clone(),
                list: t.list.clone(),
                item: t.item.clone(),
                is_desc: t.is_desc,
                next_page: t.next_page.clone(),
            };
            fill_if_empty(&mut toc.base_uri, rule.url.as_str());
            if toc.timeout.is_none() {
                toc.timeout = Some(60);
            }
            Some(toc)
        },
        None => None,
    }
}

/// The search rule with the site URL as base and a 15 s timeout when unset.
pub open spec fn effective_search(rule: Rule) -> Option<SearchRuleView> {
    match rule.search {
        Some(s) => Some(
            SearchRuleView {
                base_uri: filled(s.base_uri@, rule.url@),
                timeout: match s.timeout {
                    Some(x) => Some(x),
                    None => Some(15),
                },
                ..s@
            },
        ),
        None => None,
    }
}

/// Copies a search rule field by field.
pub fn copy_search_rule(s: &SearchRule) -> (r: SearchRule)
    ensures
        r@ == s@,
{
    SearchRule {
        disabled: s.disabled,
        base_uri: s.base_uri.clone(),
        timeout: s.timeout,
        url: s.url.clone(),
        method: s.method.clone(),
        data: s.data.clone(),
        cookies: s.cookies.clone(),
        result: s.result.clone(),
        book_name: s.book_name.clone(),
        author: s.author.clone(),
        category: s.category.clone(),
        latest_chapter: s.latest_chapter.clone(),
        last_update_time: s.last_update_time.clone(),
        status: s.status.clone(),
        word_count: s.word_count.clone(),
        next_page: s.next_page.clone(),
    }
}

/// Ensures the search rule has base URI / timeout defaults.
pub fn effective_search_rule(rule: &Rule) -> (r: Option<SearchRule>)
    ensures
        match effective_search(*rule) {
            Some(v) => r matches Some(s) && s@ == v,
            None => r is None,
        },
{
    match &rule.search {
        Some(s) => {
            let mut search = copy_search_rule(s);
            fill_if_empty(&mut search.base_uri, rule.url.as_str());
            if search.timeout.is_none() {
                search.timeout = Some(15);
            }
            Some(search)
        },
        None => None,
    }
}

} // verus!
