use novel_boom_core::catalog::{RuleCatalog, RulesSource};
use novel_boom_core::config::{resolve_config_path, Config};
use novel_boom_core::error::Error;
use novel_boom_core::model::SearchHit;
use novel_boom_core::panel::{
    config_rows, header_labels, hit_cells, home_facts, menu_entry, rules_error_lines,
    source_cells, source_detail, sources_title, ConfigRow,
};
use novel_boom_core::report::{
    cli_search_source, hit_line, pad_end, pad_start, search_banner, search_report,
    source_line, sources_report,
};
use novel_boom_core::rule::{Rule, SearchRule};

fn rule(name: &str, searchable: bool, disabled: bool) -> Rule {
    let search = SearchRule {
        disabled: false,
        base_uri: String::new(),
        timeout: None,
        url: if searchable { "http://a/s?q=%s".into() } else { String::new() },
        method: String::new(),
        data: String::new(),
        cookies: String::new(),
        result: String::new(),
        book_name: String::new(),
        author: String::new(),
        category: String::new(),
        latest_chapter: String::new(),
        last_update_time: String::new(),
        status: String::new(),
        word_count: String::new(),
        next_page: String::new(),
    };
    Rule {
        id: 0,
        url: "http://a/".into(),
        name: name.into(),
        comment: String::new(),
        language: String::new(),
        need_proxy: false,
        disabled,
        search: Some(search),
        book: None,
        toc: None,
        chapter: None,
        crawl: None,
    }
}

fn catalog() -> RuleCatalog {
    RuleCatalog::load(
        "rules/main.json",
        RulesSource::Parsed(vec![
            rule("笔趣阁", true, false),
            rule("一个名字非常非常长的书源用于测试截断", false, false),
            rule("停用源", true, true),
        ]),
    )
    .unwrap()
}

#[test]
fn padding_counts_characters() {
    assert_eq!(pad_end("ab", 4), "ab  ");
    assert_eq!(pad_end("启用", 6), "启用    ");
    assert_eq!(pad_end("abcdef", 4), "abcdef");
    assert_eq!(pad_start("7", 3), "  7");
    assert_eq!(pad_start("1234", 3), "1234");
}

#[test]
fn sources_report_lists_every_source() {
    let c = catalog();
    let lines = sources_report(&c);
    assert_eq!(lines.len(), 7);
    assert_eq!(lines[0], "规则文件: rules/main.json");
    assert_eq!(lines[1], "共 3 个书源（启用 2 · 可搜索 1）");
    assert_eq!(lines[2], "");
    assert_eq!(lines[3], "ID   名称             状态   搜索   网址");
    assert_eq!(lines[4], format!("{:<4} {:<16} {:<6} {:<6} {}", 1, "笔趣阁", "启用", "是", "http://a/"));
    assert_eq!(
        lines[5],
        format!("{:<4} {:<16} {:<6} {:<6} {}", 2, "一个名字非常非常长的书源用于测…", "启用", "否", "http://a/")
    );
    assert_eq!(lines[6], format!("{:<4} {:<16} {:<6} {:<6} {}", 3, "停用源", "禁用", "否", "http://a/"));
    assert_eq!(source_line(&c.sources()[0]), lines[4]);
}

#[test]
fn search_report_numbers_hits() {
    assert_eq!(search_report(&vec![]), vec!["无结果".to_string()]);
    let hit = SearchHit {
        book_name: "诡秘之主".into(),
        author: "爱潜水的乌贼".into(),
        url: "http://x/1/".into(),
        ..SearchHit::default()
    };
    let lines = search_report(&vec![hit.clone(), hit.clone()]);
    assert_eq!(lines.len(), 3);
    assert_eq!(lines[0], "共 2 条：");
    assert_eq!(lines[1], "  1. 诡秘之主 · 爱潜水的乌贼 · — · http://x/1/");
    assert_eq!(lines[1], format!("{:>3}. {} · {} · {} · {}", 1, "诡秘之主", "爱潜水的乌贼", "—", "http://x/1/"));
    assert_eq!(lines[2], hit_line(1, &hit));
    assert!(lines[2].starts_with("  2. "));
    assert_eq!(search_banner(3, "诡秘"), "正在搜索：书源 3 · 关键词「诡秘」…");
}

#[test]
fn cli_search_needs_a_source() {
    assert_eq!(
        cli_search_source(0),
        Err("请通过 --source-id 或配置 [source].source_id 指定书源".to_string())
    );
    assert_eq!(cli_search_source(5), Ok(5));
}

#[test]
fn config_path_precedence() {
    assert_eq!(resolve_config_path(Some("a.toml"), Some("b.toml")), "a.toml");
    assert_eq!(resolve_config_path(None, Some("b.toml")), "b.toml");
    assert_eq!(resolve_config_path(None, Some("   ")), "config.toml");
    assert_eq!(resolve_config_path(None, None), "config.toml");
}

#[test]
fn error_messages_read_like_display() {
    assert_eq!(Error::SourceNotFound(42).message(), "book source not found: id=42");
    assert_eq!(Error::Http("boom".into()).message(), "boom");
    assert_eq!(Error::Io("denied".into()).message(), "I/O error: denied");
    assert_eq!(
        Error::InvalidSelector { selector: "a[".into(), message: "bad".into() }.message(),
        "invalid selector `a[`: bad"
    );
    assert_eq!(
        Error::InvalidConfig { path: "c.toml".into(), message: "x".into() }.message(),
        "invalid config at c.toml: x"
    );
}

#[test]
fn home_and_config_pages() {
    let mut cfg = Config::default();
    let (rules, format) = header_labels(&cfg);
    assert_eq!(rules, "规则=main.json");
    assert_eq!(format, "格式=epub");

    let c = catalog();
    let facts = home_facts(&cfg, &c.sources(), None);
    assert_eq!(facts[0], ("下载路径".to_string(), "downloads".to_string()));
    assert_eq!(facts[3], ("HTTP 代理".to_string(), "未启用".to_string()));
    assert_eq!(facts[4], ("书源概况".to_string(), "共 3 个 · 启用 2 · 可搜索 1".to_string()));
    cfg.proxy.enabled = true;
    let facts = home_facts(&cfg, &c.sources(), Some("坏了"));
    assert_eq!(facts[3].1, "127.0.0.1:7890（已启用）");
    assert_eq!(facts[4].1, "加载失败：坏了");

    assert_eq!(menu_entry(Some(1)).0, "独立搜索");
    assert_eq!(menu_entry(Some(99)).0, "退出程序");
    assert_eq!(menu_entry(None).0, "聚合搜索");

    let rows = config_rows(&Config::default());
    assert_eq!(rows.len(), 25);
    assert_eq!(rows[0], ConfigRow::Section("应用".into()));
    assert_eq!(rows[2], ConfigRow::Field("GitHub 代理".into(), "—".into()));
    assert_eq!(rows[4], ConfigRow::Blank);
    assert_eq!(rows[14], ConfigRow::Field("指定书源 ID".into(), "未指定".into()));
    assert_eq!(rows[15], ConfigRow::Field("搜索条数上限".into(), "30".into()));
    assert_eq!(rows[20], ConfigRow::Field("请求间隔(ms)".into(), "200 – 400".into()));
    assert_eq!(rows[21], ConfigRow::Field("失败重试".into(), "是（最多 3 次）".into()));
    assert_eq!(rows[24], ConfigRow::Field("HTTP 代理".into(), "未启用".into()));
}

#[test]
fn sources_page_texts() {
    let c = catalog();
    let infos = c.sources();
    assert_eq!(source_cells(&infos[2]), vec!["3", "停用源", "禁用", "否", "—", "http://a/"]);
    assert_eq!(sources_title("main.json", 3), "书源一览（main.json · 共 3 个）");
    let (title, facts) = source_detail(&infos, Some(0), "rules/main.json").unwrap();
    assert_eq!(title, "[1] 笔趣阁");
    assert_eq!(facts[1].1, "启用 · 搜索:支持 · 代理:不需要");
    assert_eq!(facts[2].1, "—");
    assert_eq!(facts[3].1, "rules/main.json");
    assert!(source_detail(&infos, Some(3), "x").is_none());
    assert!(source_detail(&infos, None, "x").is_none());
    let lines = rules_error_lines("missing", "main.json");
    assert_eq!(lines.len(), 8);
    assert_eq!(lines[4], "配置中的规则文件：main.json");
    let hit = SearchHit { book_name: "书".into(), url: "u".into(), ..SearchHit::default() };
    assert_eq!(hit_cells(&hit), vec!["书", "—", "—", "u"]);
}
