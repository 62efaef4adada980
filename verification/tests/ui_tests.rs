use novel_boom_core::catalog::{RuleCatalog, RulesSource};
use novel_boom_core::model::SearchHit;
use novel_boom_core::rule::{Rule, SearchRule};
use novel_boom_core::service::{annotate, annotate_search_error, search_source_for};
use novel_boom_core::config::Config;
use novel_boom_core::error::Error;
use novel_boom_core::tui::{
    bool_zh, empty_as_dash, empty_dash, menu_items, move_table_sel, truncate_display, AppAction,
    AppState, Key, KeyInput, Screen,
};

fn press(key: Key) -> KeyInput {
    KeyInput { key, control: false, press: true }
}

fn catalog() -> RuleCatalog {
    let search = SearchRule {
        disabled: false,
        base_uri: String::new(),
        timeout: None,
        url: "http://a/s".into(),
        method: "get".into(),
        data: String::new(),
        cookies: String::new(),
        result: String::new(),
        book_name: String::new(),
        author: String::new(),
        category: String::new(),
        latest_chapter: String::new(),
        last_update_time: String::new(),
        status: String::new(),
        word_count: String::new(),
        next_page: String::new(),
    };
    let a = Rule {
        id: 0,
        url: "http://a/".into(),
        name: "源A".into(),
        comment: String::new(),
        language: String::new(),
        need_proxy: false,
        disabled: false,
        search: Some(search),
        book: None,
        toc: None,
        chapter: None,
        crawl: None,
    };
    let mut b = a.clone();
    b.name = "源B".into();
    b.need_proxy = true;
    RuleCatalog::load("rules/main.json", RulesSource::Parsed(vec![a, b])).unwrap()
}

#[test]
fn small_helpers() {
    assert_eq!(menu_items().len(), 6);
    assert_eq!(menu_items()[1].0, "独立搜索");
    assert_eq!(bool_zh(true), "是");
    assert_eq!(empty_as_dash(""), "—");
    assert_eq!(empty_dash("x"), "x");
    assert_eq!(truncate_display("一二三四五", 3), "一二…");
    assert_eq!(truncate_display("abc", 3), "abc");
    assert_eq!(move_table_sel(Some(0), 3, -1), Some(2));
    assert_eq!(move_table_sel(Some(2), 3, 1), Some(0));
    assert_eq!(move_table_sel(None, 0, 1), None);
}

#[test]
fn search_flow() {
    let cat = catalog();
    let mut app = AppState::new(Some(&cat), None, 0);
    assert_eq!(app.status, "就绪 — 已加载 2 个书源（可搜索 2）· ↑/↓ 移动 · Enter 打开 · q 退出");
    app.on_key(press(Key::Down));
    assert_eq!(app.menu_selected, Some(1));
    assert_eq!(app.on_key(press(Key::Enter)), AppAction::Nothing);
    assert_eq!(app.screen, Screen::SingleSearchPickSource);
    app.on_key(press(Key::Enter));
    assert!(matches!(app.screen, Screen::SingleSearchInput { source_id: 1, .. }));
    for c in "诡秘".chars() {
        app.on_key(press(Key::Char(c)));
    }
    app.on_key(press(Key::Char('x')));
    app.on_key(press(Key::Backspace));
    match app.on_key(press(Key::Enter)) {
        AppAction::Search { source_id, source_name, keyword } => {
            assert_eq!(source_id, 1);
            assert_eq!(source_name, "源A");
            assert_eq!(keyword, "诡秘");
        }
        AppAction::Nothing => panic!("expected a search"),
    }
    assert!(app.searching);
    let hits = vec![SearchHit { url: "u".into(), ..SearchHit::default() }];
    app.finish_search(1, "源A".into(), "诡秘".into(), Ok(hits));
    assert_eq!(app.status, "搜索完成 — [1] 源A · 「诡秘」· 1 条 · r 重搜");
    assert_eq!(app.search_result_selected, Some(0));
    app.on_key(press(Key::Esc));
    assert_eq!(app.screen, Screen::Home);
    app.on_key(press(Key::Char('q')));
    assert!(app.should_quit);
}

#[test]
fn services_check_sources() {
    let cat = catalog();
    let cfg = Config::default();
    assert_eq!(search_source_for(&cat, &cfg, 1).unwrap().name, "源A");
    assert!(matches!(search_source_for(&cat, &cfg, 7), Err(Error::SourceNotFound(7))));
    assert!(matches!(search_source_for(&cat, &cfg, 2), Err(Error::Message(_))));
    match annotate("源", "目录", Error::Message("x".into())) {
        Error::Message(m) => assert_eq!(m, "书源「源」目录失败：x"),
        other => panic!("unexpected: {other:?}"),
    }
    match annotate_search_error(Error::Http("boom".into()), "源") {
        Error::Http(m) => assert_eq!(m, "书源「源」搜索失败\nboom"),
        other => panic!("unexpected: {other:?}"),
    }
}
