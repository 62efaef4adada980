use novel_boom_core::form_data::split_top_level_commas;
use novel_boom_core::select::normalize_ws;
use novel_boom_core::catalog::{RuleCatalog, RulesSource};
use novel_boom_core::dom::BaseUrl;
use novel_boom_core::error::Error;
use novel_boom_core::model::{apply_chapter_range, Chapter, ChapterRange, SearchHit};
use novel_boom_core::rule::{Rule, SearchRule};
use novel_boom_core::search::{absorb_search_page, merge_hits, next_search_page, parse_search_html};
use novel_boom_core::toc::{clean_toc, parse_toc_html, push_unique};
use novel_boom_core::rule::TocRule;
use novel_boom_core::tui::{move_table_sel, truncate_display, AppState, Key, KeyInput};

fn chapters(n: u32) -> Vec<Chapter> {
    (1..=n)
        .map(|i| Chapter {
            order: 100 + i,
            title: format!("第{i}章"),
            url: format!("http://x/{i}"),
            content: String::new(),
        })
        .collect()
}

fn hit(url: &str) -> SearchHit {
    SearchHit { book_name: url.into(), url: url.into(), ..SearchHit::default() }
}

fn plain_rule(id_name: &str) -> Rule {
    Rule {
        id: 0,
        url: "http://a/".into(),
        name: id_name.into(),
        comment: String::new(),
        language: String::new(),
        need_proxy: false,
        disabled: false,
        search: None,
        book: None,
        toc: None,
        chapter: None,
        crawl: None,
    }
}

#[test]
fn covering_latest_and_full_span_equal_all() {
    let toc = chapters(4);
    let all = apply_chapter_range(&toc, ChapterRange::All).unwrap();
    let latest = apply_chapter_range(&toc, ChapterRange::Latest { count: 4 }).unwrap();
    let span = apply_chapter_range(&toc, ChapterRange::Span { start: 1, end: 4 }).unwrap();
    assert_eq!(all, latest);
    assert_eq!(all, span);
    let again = apply_chapter_range(&all, ChapterRange::All).unwrap();
    assert_eq!(again, all);
    let mid = apply_chapter_range(&toc, ChapterRange::Span { start: 2, end: 3 }).unwrap();
    assert_eq!(mid.iter().map(|c| c.order).collect::<Vec<_>>(), vec![1, 2]);
    assert_eq!(apply_chapter_range(&mid, ChapterRange::All).unwrap(), mid);
}

#[test]
fn cleaned_toc_is_distinct_and_numbered() {
    let mut raw = chapters(3);
    raw.push(Chapter { order: 0, title: "重复".into(), url: "http://x/2".into(), content: String::new() });
    raw.push(Chapter { order: 0, title: "  ".into(), url: "http://x/9".into(), content: String::new() });
    raw.push(Chapter { order: 0, title: "无地址".into(), url: String::new(), content: String::new() });
    let toc = clean_toc(raw.clone(), false, "源").unwrap();
    assert_eq!(toc.len(), 3);
    assert_eq!(toc.iter().map(|c| c.order).collect::<Vec<_>>(), vec![1, 2, 3]);
    assert_eq!(toc[1].title, "第2章");

    let desc = clean_toc(raw, true, "源").unwrap();
    assert_eq!(desc[0].title, "重复");
    assert_eq!(desc[0].url, "http://x/2");
    assert_eq!(desc.len(), 3);

    match clean_toc(vec![], false, "源A") {
        Err(Error::Message(m)) => assert_eq!(m, "书源「源A」目录解析结果为空（可能选择器失效或反爬）"),
        other => panic!("unexpected: {other:?}"),
    }
}

#[test]
fn offered_urls_stay_distinct() {
    let mut urls = vec!["http://a/1".to_string(), "http://a/2".to_string()];
    push_unique(&mut urls, " http://a/1 ".to_string());
    assert_eq!(urls, vec!["http://a/2", "http://a/1"]);
    push_unique(&mut urls, "javascript:void(0)".to_string());
    push_unique(&mut urls, "   ".to_string());
    assert_eq!(urls, vec!["http://a/2", "http://a/1"]);
    push_unique(&mut urls, "https://a/3".to_string());
    assert_eq!(urls, vec!["http://a/2", "http://a/1", "https://a/3"]);
}

#[test]
fn merging_respects_limit_and_urls() {
    let mut hits = vec![hit("u1"), hit("u2")];
    merge_hits(&mut hits, vec![hit("u2"), hit("u3"), hit("u4"), hit("u5")], 4);
    assert_eq!(hits.iter().map(|h| h.url.as_str()).collect::<Vec<_>>(), vec!["u1", "u2", "u3", "u4"]);
    let mut full = vec![hit("a"), hit("b"), hit("c")];
    merge_hits(&mut full, vec![hit("d")], 2);
    assert_eq!(full.len(), 3);
}

#[test]
fn search_paging_steps() {
    let pages = vec!["http://a/2".to_string(), "http://a/3".to_string()];
    assert_eq!(next_search_page(&pages, 0, 1, 30), Some("http://a/2".to_string()));
    assert_eq!(next_search_page(&pages, 1, 1, 30), Some("http://a/3".to_string()));
    assert_eq!(next_search_page(&pages, 2, 1, 30), None);
    assert_eq!(next_search_page(&pages, 0, 30, 30), None);

    let mut rule = plain_rule("源");
    let search = SearchRule {
        disabled: false,
        base_uri: String::new(),
        timeout: None,
        url: "http://a/s".into(),
        method: String::new(),
        data: String::new(),
        cookies: String::new(),
        result: "tr.row".into(),
        book_name: "a.name".into(),
        author: "td.author".into(),
        category: String::new(),
        latest_chapter: String::new(),
        last_update_time: String::new(),
        status: String::new(),
        word_count: String::new(),
        next_page: String::new(),
    };
    rule.search = Some(search.clone());
    let base = BaseUrl::new("http://a/").unwrap();
    let mut hits = vec![hit("http://a/book/1")];
    absorb_search_page(&mut hits, Err(Error::Http("down".into())), &rule, &search, &base, 30).unwrap();
    assert_eq!(hits.len(), 1);
    let page = r#"<html><body><table>
        <tr class="row"><td><a class="name" href="/book/1">旧书</a></td><td class="author">甲</td></tr>
        <tr class="row"><td><a class="name" href="/book/2">新书</a></td><td class="author">乙</td></tr>
        </table></body></html>"#;
    absorb_search_page(&mut hits, Ok(page.to_string()), &rule, &search, &base, 30).unwrap();
    assert_eq!(hits.len(), 2);
    assert_eq!(hits[1].url, "http://a/book/2");
    assert_eq!(hits[1].book_name, "新书");
    let mut bad = search.clone();
    bad.result = String::new();
    assert!(absorb_search_page(&mut hits, Ok(page.to_string()), &rule, &bad, &base, 30).is_err());
    assert_eq!(hits.len(), 2);
}

#[test]
fn loaded_ids_find_their_rules() {
    let c = RuleCatalog::load(
        "r.json",
        RulesSource::Parsed(vec![plain_rule("甲"), plain_rule("乙"), plain_rule("丙")]),
    )
    .unwrap();
    for (i, name) in ["甲", "乙", "丙"].iter().enumerate() {
        assert_eq!(c.get(i as u32 + 1).unwrap().name, *name);
    }
    assert!(c.get(0).is_none());
    assert!(c.get(4).is_none());
    assert!(c.searchable_count() <= c.enabled_count());
    assert!(c.enabled_count() <= c.len());
}

#[test]
fn selections_stay_in_their_lists() {
    for len in 1..5usize {
        for i in 0..len {
            let down = move_table_sel(Some(i), len, 1).unwrap();
            assert!(down < len);
            assert_eq!(move_table_sel(Some(down), len, -1), Some(i));
            let up = move_table_sel(Some(i), len, -1).unwrap();
            assert!(up < len);
            assert_eq!(move_table_sel(Some(up), len, 1), Some(i));
        }
    }
    let mut state = AppState::new(None, None, 0);
    for _ in 0..8 {
        state.on_key(KeyInput { key: Key::Up, control: false, press: true });
        assert!(state.menu_selected.unwrap() < 6);
    }
    assert_eq!(state.menu_selected, Some(4));
}

#[test]
fn cut_text_fits_its_width() {
    assert_eq!(truncate_display("一二三四五", 5), "一二三四五");
    assert_eq!(truncate_display("一二三四五", 3), "一二…");
    assert_eq!(truncate_display("一二三四五", 3).chars().count(), 3);
    assert_eq!(truncate_display("abc", 0), "…");
}

#[test]
fn parsed_pages_respect_limit_and_need_links() {
    let mut rule = plain_rule("源");
    rule.id = 7;
    let search = SearchRule {
        disabled: false,
        base_uri: String::new(),
        timeout: None,
        url: "http://a/s".into(),
        method: String::new(),
        data: String::new(),
        cookies: String::new(),
        result: "tr.row".into(),
        book_name: "a.name".into(),
        author: String::new(),
        category: String::new(),
        latest_chapter: String::new(),
        last_update_time: String::new(),
        status: String::new(),
        word_count: String::new(),
        next_page: String::new(),
    };
    let base = BaseUrl::new("http://a/").unwrap();
    let page = r#"<html><body><table>
        <tr class="row"><td><a class="name">无链接</a></td></tr>
        <tr class="row"><td><a class="name" href="/b/1">甲</a></td></tr>
        <tr class="row"><td><a class="name" href="/b/2">乙</a></td></tr>
        </table></body></html>"#;
    let all = parse_search_html(page, &rule, &search, &base, 0).unwrap();
    assert_eq!(all.len(), 2);
    assert!(all.iter().all(|h| h.source_id == 7 && !h.url.is_empty() && !h.book_name.is_empty()));
    let one = parse_search_html(page, &rule, &search, &base, 1).unwrap();
    assert_eq!(one.len(), 1);
    assert_eq!(one[0].book_name, "甲");

    let toc = TocRule {
        base_uri: String::new(),
        timeout: None,
        url: String::new(),
        list: String::new(),
        item: "dd a".into(),
        is_desc: false,
        next_page: String::new(),
    };
    let html = r#"<dl><dd><a href="/1">一</a></dd><dd><a>二</a></dd><dd><a href="/3">  </a></dd></dl>"#;
    let rows = parse_toc_html(html, &toc, &base).unwrap();
    assert_eq!(rows.len(), 1);
    assert_eq!(rows[0].title, "一");
    assert_eq!(rows[0].url, "http://a/1");
    assert_eq!(rows[0].order, 0);
}

#[test]
fn whitespace_collapse_is_idempotent() {
    for s in ["  a \t b\n\nc  ", "", "   ", "一  二", "x"] {
        let once = normalize_ws(s);
        assert_eq!(normalize_ws(&once), once);
    }
    assert_eq!(normalize_ws("  a \t b\n\nc  "), "a b c");
}

#[test]
fn top_level_split_rejoins() {
    for s in ["{a: 1, b: [2, 3]}", "a,b,,c", "", "x(1,2),y"] {
        let chars: Vec<char> = s.chars().collect();
        let parts = split_top_level_commas(&chars);
        assert!(!parts.is_empty());
        let joined: Vec<String> = parts.iter().map(|p| p.iter().collect()).collect();
        assert_eq!(joined.join(","), s);
    }
    let chars: Vec<char> = "x(1,2),y".chars().collect();
    assert_eq!(split_top_level_commas(&chars).len(), 2);
}
