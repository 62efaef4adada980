use novel_boom_core::catalog::{load_rules_file, resolve_rules_path, RuleCatalog, RulesSource};
use novel_boom_core::error::Error;
use novel_boom_core::rule::{effective_book_rule, effective_search_rule, effective_toc_rule, Rule, SearchRule, TocRule};

fn rule(url: &str, name: &str) -> Rule {
    Rule {
        id: 0,
        url: url.into(),
        name: name.into(),
        comment: String::new(),
        language: String::new(),
        need_proxy: false,
        disabled: false,
        search: None,
        book: None,
        toc: None,
        chapter: None,
        crawl: None,
    }
}

fn search(url: &str, method: &str) -> SearchRule {
    SearchRule {
        disabled: false,
        base_uri: String::new(),
        timeout: None,
        url: url.into(),
        method: method.into(),
        data: String::new(),
        cookies: String::new(),
        result: String::new(),
        book_name: String::new(),
        author: String::new(),
        category: String::new(),
        latest_chapter: String::new(),
        last_update_time: String::new(),
        status: String::new(),
        word_count: String::new(),
        next_page: String::new(),
    }
}

#[test]
fn load_assigns_sequential_ids() {
    let mut a = rule("https://a.example/", "源A");
    a.search = Some(search("https://a.example/s", "get"));
    let mut b = rule("https://b.example/", "源B");
    b.disabled = true;

    let rules = load_rules_file("rules.json", RulesSource::Parsed(vec![a, b])).unwrap();
    assert_eq!(rules.len(), 2);
    assert_eq!(rules[0].id, 1);
    assert_eq!(rules[0].name, "源A");
    assert!(rules[0].is_searchable());
    assert_eq!(rules[1].id, 2);
    assert!(rules[1].disabled);
    assert!(!rules[1].is_searchable());
}

#[test]
fn missing_file_errors() {
    let err = load_rules_file("no-such-rules-pack.json", RulesSource::Missing).unwrap_err();
    assert!(matches!(err, Error::RulesNotFound(_)));
}

#[test]
fn catalog_views() {
    let mut a = rule("https://a.example/", "源A");
    a.search = Some(search("https://a.example/s", "get"));
    let mut b = rule("https://b.example/", "源B");
    b.disabled = true;
    let mut c = rule("https://c.example/", "源C");
    c.search = Some(search("   ", "get"));
    let catalog = RuleCatalog::load("main.json", RulesSource::Parsed(vec![a, b, c])).unwrap();
    assert_eq!(catalog.path, "main.json");
    assert_eq!(catalog.len(), 3);
    assert!(!catalog.is_empty());
    assert_eq!(catalog.searchable_count(), 1);
    assert_eq!(catalog.enabled_count(), 2);
    let sources = catalog.sources();
    assert_eq!(sources.len(), 3);
    assert_eq!(sources[2].id, 3);
    assert!(!sources[2].searchable);
    let searchable = catalog.searchable_sources();
    assert_eq!(searchable.len(), 1);
    assert_eq!(searchable[0].name, "源A");
    assert_eq!(catalog.get(2).unwrap().name, "源B");
    assert!(catalog.get(9).is_none());
}

#[test]
fn rules_path_prefers_an_existing_candidate() {
    let cands = vec!["x/rules/main.json".to_string(), "x/main.json".to_string(), "rules/main.json".to_string()];
    assert_eq!(resolve_rules_path(&cands, &[false, true, true]), "x/main.json");
    assert_eq!(resolve_rules_path(&cands, &[false, false, false]), "x/rules/main.json");
    assert_eq!(resolve_rules_path(&cands, &[]), "x/rules/main.json");
}

#[test]
fn defaults_fill_blank_fields() {
    let mut r = rule("http://site/", "源");
    let book = effective_book_rule(&r);
    assert_eq!(book.base_uri, "http://site/");
    assert_eq!(book.timeout, Some(15));
    assert_eq!(book.book_name, "meta[property=\"og:novel:book_name\"]");
    assert_eq!(book.status, "meta[property=\"og:novel:status\"]");
    assert!(effective_toc_rule(&r).is_none());
    r.toc = Some(TocRule {
        base_uri: " ".into(),
        timeout: None,
        url: String::new(),
        list: String::new(),
        item: "a".into(),
        is_desc: false,
        next_page: String::new(),
    });
    let toc = effective_toc_rule(&r).unwrap();
    assert_eq!(toc.base_uri, "http://site/");
    assert_eq!(toc.timeout, Some(60));
    r.search = Some(search("http://site/s", "get"));
    let s = effective_search_rule(&r).unwrap();
    assert_eq!(s.base_uri, "http://site/");
    assert_eq!(s.timeout, Some(15));
}

#[test]
fn rules_pack_candidates_prefer_the_config_directory() {
    let mut cfg = novel_boom_core::config::Config::default();
    let found = novel_boom_core::catalog::rules_path_candidates(&cfg, Some("conf/config.toml"));
    assert_eq!(found, vec!["conf/rules/main.json", "rules/main.json", "main.json"]);
    let found = novel_boom_core::catalog::rules_path_candidates(&cfg, None);
    assert_eq!(found, vec!["rules/main.json", "main.json"]);
    cfg.source.active_rules = " /abs/pack.json ".into();
    let found = novel_boom_core::catalog::rules_path_candidates(&cfg, Some("conf/config.toml"));
    assert_eq!(found, vec!["/abs/pack.json"]);
}

#[test]
fn candidates_keep_their_order() {
    let f = novel_boom_core::catalog::candidates_from;
    assert_eq!(
        f("a.json".into(), false, Some("d/rules/a.json".into()), "rules/a.json".into()),
        vec!["d/rules/a.json", "rules/a.json", "a.json"]
    );
    assert_eq!(f("a.json".into(), false, None, "rules/a.json".into()), vec!["rules/a.json", "a.json"]);
    assert_eq!(f("/x/a.json".into(), true, Some("d".into()), "r".into()), vec!["/x/a.json"]);
}
