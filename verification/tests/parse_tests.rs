use novel_boom_core::book::{absolutize_url, book_from_page, book_plan, parse_book_html};
use novel_boom_core::dom::BaseUrl;
use novel_boom_core::error::Error;
use novel_boom_core::rule::{effective_book_rule, Rule, SearchRule, TocRule};
use novel_boom_core::search::{
    ensure_search_supported, format_search_url, merge_hits, parse_search_html, search_page_urls,
    search_plan, SearchRequest,
};
use novel_boom_core::toc::{
    clean_toc, extract_book_id, next_page_link, next_toc_page, parse_toc_html, push_unique, toc_plan,
    MAX_TOC_PAGES,
};
use novel_boom_core::model::{Chapter, SearchHit};

fn bare_rule() -> Rule {
    Rule {
        id: 1,
        url: "http://example.com/".into(),
        name: "测试源".into(),
        comment: String::new(),
        language: String::new(),
        need_proxy: false,
        disabled: false,
        search: None,
        book: None,
        toc: None,
        chapter: None,
        crawl: None,
    }
}

fn sample_rule() -> Rule {
    Rule {
        id: 1,
        url: "http://www.xbiqugu.la/".into(),
        name: "香书小说".into(),
        comment: String::new(),
        language: String::new(),
        need_proxy: false,
        disabled: false,
        search: Some(SearchRule {
            disabled: false,
            base_uri: String::new(),
            timeout: Some(15),
            url: "http://www.xbiqugu.la/modules/article/waps.php".into(),
            method: "post".into(),
            data: "{searchkey: %s}".into(),
            cookies: String::new(),
            result: "#checkform > table > tbody > tr".into(),
            book_name: "td.even > a".into(),
            author: "td:nth-of-type(3)".into(),
            category: String::new(),
            latest_chapter: "td.odd > a".into(),
            last_update_time: "td:nth-of-type(4)".into(),
            status: String::new(),
            word_count: String::new(),
            next_page: String::new(),
        }),
        book: None,
        toc: None,
        chapter: None,
        crawl: None,
    }
}

#[test]
fn parses_meta_defaults() {
    let html = r#"
        <html><head>
          <meta property="og:novel:book_name" content="诡秘之主"/>
          <meta property="og:novel:author" content="爱潜水的乌贼"/>
          <meta name="description" content="简介文字"/>
          <meta property="og:image" content="/cover.jpg"/>
        </head><body></body></html>
        "#;
    let rule = bare_rule();
    let book_rule = effective_book_rule(&rule);
    let base = BaseUrl::new("http://example.com/").unwrap();
    let book =
        parse_book_html(html, &rule, &book_rule, "http://example.com/book/1/", &base).unwrap();
    assert_eq!(book.name, "诡秘之主");
    assert_eq!(book.author, "爱潜水的乌贼");
    assert_eq!(book.cover_url, "http://example.com/cover.jpg");
}

#[test]
fn book_page_cleans_labels_and_requires_name_and_author() {
    let html = r#"
        <html><head>
          <meta property="og:novel:book_name" content=" 书 "/>
          <meta property="og:novel:author" content="作者：某人"/>
          <meta property="og:novel:update_time" content="更新时间： 2024-01-01"/>
          <meta name="description" content="  很长
             的简介 "/>
        </head><body></body></html>
        "#;
    let rule = bare_rule();
    let plan = book_plan(&rule).unwrap();
    assert_eq!(plan.timeout, 15);
    let book = book_from_page(html, &rule, &plan, "http://example.com/b/").unwrap();
    assert_eq!(book.name, "书");
    assert_eq!(book.author, "某人");
    assert_eq!(book.last_update_time, "2024-01-01");
    assert_eq!(book.intro, "很长 的简介");
    assert_eq!(book.url, "http://example.com/b/");
    assert_eq!(book.source_name, "测试源");

    match book_from_page("<html></html>", &rule, &plan, "http://example.com/b/") {
        Err(Error::Message(m)) => assert_eq!(m, "详情页书名或作者为空（书源「测试源」）"),
        other => panic!("unexpected: {other:?}"),
    }
}

#[test]
fn absolute_links_are_kept() {
    let base = BaseUrl::new("http://example.com/").unwrap();
    assert_eq!(absolutize_url(" https://a.b/c ", &base), "https://a.b/c");
    assert_eq!(absolutize_url("data:xyz", &base), "data:xyz");
    assert_eq!(absolutize_url("img/x.png", &base), "http://example.com/img/x.png");
    assert_eq!(absolutize_url("  ", &base), "");
}

#[test]
fn parse_fixture_rows() {
    let html = r#"
        <html><body>
          <form id="checkform"><table><tbody>
            <tr>
              <td class="even"><a href="/0_1/">诡秘之主</a></td>
              <td class="odd"><a href="/c">第1360章</a></td>
              <td>爱潜水的乌贼</td>
              <td>2020-05-01</td>
            </tr>
            <tr>
              <td class="even"><a href="/0_2/">宿命之环</a></td>
              <td class="odd"><a href="/c2">第100章</a></td>
              <td>爱潜水的乌贼</td>
              <td>2024-01-01</td>
            </tr>
          </tbody></table></form>
        </body></html>
        "#;

    let rule = sample_rule();
    let search = rule.search.as_ref().unwrap();
    let base = BaseUrl::new(&rule.url).unwrap();
    let hits = parse_search_html(html, &rule, search, &base, 30).unwrap();
    assert_eq!(hits.len(), 2);
    assert_eq!(hits[0].book_name, "诡秘之主");
    assert_eq!(hits[0].author, "爱潜水的乌贼");
    assert_eq!(hits[0].url, "http://www.xbiqugu.la/0_1/");
    assert_eq!(hits[0].latest_chapter, "第1360章");
    assert_eq!(hits[1].book_name, "宿命之环");

    let limited = parse_search_html(html, &rule, search, &base, 1).unwrap();
    assert_eq!(limited.len(), 1);
}

#[test]
fn rejects_js_rules() {
    let mut rule = sample_rule();
    if let Some(search) = rule.search.as_mut() {
        search.url = "https://x.com/@js:return r".into();
    }
    let search = rule.search.as_ref().unwrap();
    let err = ensure_search_supported(search).unwrap_err();
    assert!(matches!(err, Error::UnsupportedFeature(_)));
}

#[test]
fn search_plan_builds_a_form_post() {
    let rule = sample_rule();
    let plan = search_plan(&rule, "  诡秘 ").unwrap();
    assert_eq!(plan.keyword, "诡秘");
    assert_eq!(plan.timeout, 15);
    assert!(plan.cookies.is_none());
    match plan.request {
        SearchRequest::Post { url, form } => {
            assert_eq!(url, "http://www.xbiqugu.la/modules/article/waps.php");
            assert_eq!(form, vec![("searchkey".to_string(), "诡秘".to_string())]);
        }
        SearchRequest::Get { .. } => panic!("expected a POST"),
    }
}

#[test]
fn search_plan_errors() {
    let mut rule = sample_rule();
    assert!(matches!(search_plan(&rule, "   "), Err(Error::Message(_))));
    rule.disabled = true;
    assert!(matches!(search_plan(&rule, "x"), Err(Error::SourceDisabled(n)) if n == "香书小说"));
    let rule = bare_rule();
    assert!(matches!(search_plan(&rule, "x"), Err(Error::SearchNotSupported(_))));
}

#[test]
fn search_url_is_percent_encoded() {
    assert_eq!(
        format_search_url("http://a/s?q=%s&p=1", "诡 秘").unwrap(),
        "http://a/s?q=%E8%AF%A1%20%E7%A7%98&p=1"
    );
    assert_eq!(format_search_url("http://a/s", "x").unwrap(), "http://a/s");
    assert!(matches!(format_search_url("@js:x", "k"), Err(Error::UnsupportedFeature(_))));
}

fn hit(url: &str) -> SearchHit {
    SearchHit { url: url.to_string(), book_name: url.to_string(), ..SearchHit::default() }
}

#[test]
fn merging_skips_known_urls_and_stops_at_limit() {
    let mut hits = vec![hit("a"), hit("b")];
    merge_hits(&mut hits, vec![hit("b"), hit("c"), hit("d")], 3);
    let urls: Vec<&str> = hits.iter().map(|h| h.url.as_str()).collect();
    assert_eq!(urls, vec!["a", "b", "c"]);
}

#[test]
fn search_pages_are_listed_once() {
    let html = r#"<html><body><div class="p"><a href="/s?p=2">2</a><a href="/s?p=3">3</a><a href="/s?p=2">2</a></div></body></html>"#;
    let mut rule = sample_rule();
    rule.search.as_mut().unwrap().next_page = "div.p a".into();
    let base = BaseUrl::new("http://www.xbiqugu.la/").unwrap();
    let pages = search_page_urls(html, rule.search.as_ref().unwrap(), &base);
    assert_eq!(pages, vec!["http://www.xbiqugu.la/s?p=2", "http://www.xbiqugu.la/s?p=3"]);
}

#[test]
fn parses_simple_toc_list() {
    let html = r#"
        <html><body>
          <div id="list"><dl>
            <dd><a href="/1.html">第一章 开始</a></dd>
            <dd><a href="/2.html">第二章 继续</a></dd>
          </dl></div>
        </body></html>
        "#;
    let toc = TocRule {
        base_uri: "http://www.example.com/".into(),
        timeout: Some(15),
        url: String::new(),
        list: String::new(),
        item: "#list dd > a".into(),
        is_desc: false,
        next_page: String::new(),
    };
    let base = BaseUrl::new("http://www.example.com/").unwrap();
    let chapters = parse_toc_html(html, &toc, &base).unwrap();
    assert_eq!(chapters.len(), 2);
    assert_eq!(chapters[0].title, "第一章 开始");
    assert_eq!(chapters[0].url, "http://www.example.com/1.html");
}

#[test]
fn toc_list_scopes_the_items() {
    let html = r#"<html><body><div class="other"><a href="/x">外</a></div>
        <div id="list"><a href="/1.html">一</a><a href="/2.html">二</a></div></body></html>"#;
    let toc = TocRule {
        base_uri: String::new(),
        timeout: None,
        url: String::new(),
        list: "#list".into(),
        item: "a".into(),
        is_desc: false,
        next_page: String::new(),
    };
    let base = BaseUrl::new("http://e.com/").unwrap();
    let chapters = parse_toc_html(html, &toc, &base).unwrap();
    let titles: Vec<&str> = chapters.iter().map(|c| c.title.as_str()).collect();
    assert_eq!(titles, vec!["一", "二"]);
    let missing = TocRule { list: "#nothing".into(), ..toc };
    assert!(parse_toc_html(html, &missing, &base).unwrap().is_empty());
}

#[test]
fn extracts_id_from_pattern() {
    let id = extract_book_id(
        "https://www.wxsy.net/novel/(.*?)/",
        "https://www.wxsy.net/novel/12345/",
    );
    assert_eq!(id.as_deref(), Some("12345"));
}

#[test]
fn book_id_pattern_edge_cases() {
    assert_eq!(extract_book_id("  ", "http://a/1"), None);
    assert_eq!(extract_book_id("(unclosed", "http://a/1"), None);
    assert_eq!(extract_book_id("/b/(\\d+)@js:x", "http://a/b/77"), Some("77".to_string()));
}

fn ch(title: &str, url: &str) -> Chapter {
    Chapter { order: 0, title: title.to_string(), url: url.to_string(), content: String::new() }
}

#[test]
fn cleaning_reverses_dedups_and_numbers() {
    let raw = vec![ch("三", "u3"), ch("二", "u2"), ch("  ", "u9"), ch("二again", "u2"), ch("一", "u1")];
    let cleaned = clean_toc(raw, true, "源").unwrap();
    let titles: Vec<&str> = cleaned.iter().map(|c| c.title.as_str()).collect();
    assert_eq!(titles, vec!["一", "二again", "三"]);
    let orders: Vec<u32> = cleaned.iter().map(|c| c.order).collect();
    assert_eq!(orders, vec![1, 2, 3]);
    match clean_toc(vec![ch("", "x")], false, "源") {
        Err(Error::Message(m)) => assert_eq!(m, "书源「源」目录解析结果为空（可能选择器失效或反爬）"),
        other => panic!("unexpected: {other:?}"),
    }
}

#[test]
fn toc_plan_fills_the_book_id() {
    let mut rule = bare_rule();
    rule.book = Some(novel_boom_core::rule::BookRule {
        base_uri: String::new(),
        timeout: None,
        url: "https://www.wxsy.net/novel/(.*?)/".into(),
        book_name: String::new(),
        author: String::new(),
        intro: String::new(),
        category: String::new(),
        cover_url: String::new(),
        latest_chapter: String::new(),
        latest_chapter_url: String::new(),
        last_update_time: String::new(),
        status: String::new(),
    });
    rule.toc = Some(TocRule {
        base_uri: "https://www.wxsy.net/novel/%s/".into(),
        timeout: None,
        url: "https://www.wxsy.net/novel/%s/catalog".into(),
        list: String::new(),
        item: "a".into(),
        is_desc: false,
        next_page: String::new(),
    });
    let plan = toc_plan(&rule, "https://www.wxsy.net/novel/12345/").unwrap();
    assert_eq!(plan.first_url, "https://www.wxsy.net/novel/12345/catalog");
    assert_eq!(plan.toc_rule.base_uri, "https://www.wxsy.net/novel/12345/");
    assert_eq!(plan.timeout, 60);
    assert!(matches!(toc_plan(&rule, "https://elsewhere/"), Err(Error::Message(_))));
    assert!(matches!(toc_plan(&bare_rule(), "http://a/"), Err(Error::Message(_))));
}

#[test]
fn pagination_links() {
    let mut urls = vec!["http://a/1".to_string(), "http://a/2".to_string()];
    push_unique(&mut urls, " http://a/1 ".to_string());
    push_unique(&mut urls, "/relative".to_string());
    assert_eq!(urls, vec!["http://a/2".to_string(), "http://a/1".to_string()]);

    let toc = TocRule {
        base_uri: String::new(),
        timeout: None,
        url: String::new(),
        list: String::new(),
        item: "a".into(),
        is_desc: false,
        next_page: "a.next".into(),
    };
    let base = BaseUrl::new("http://a/").unwrap();
    let html = r#"<html><body><a class="next" href="/3">下一页</a></body></html>"#;
    assert_eq!(next_page_link(html, &toc, &base, &urls), Some("http://a/3".to_string()));
    assert_eq!(next_toc_page(html, &toc, &base, &urls, 0), Some("http://a/3".to_string()));
    assert_eq!(next_toc_page(html, &toc, &base, &urls, MAX_TOC_PAGES - 1), Some("http://a/3".to_string()));
    assert_eq!(next_toc_page(html, &toc, &base, &urls, MAX_TOC_PAGES), None);
    urls.push("http://a/3".to_string());
    assert_eq!(next_page_link(html, &toc, &base, &urls), None);
}
