//! The text of the terminal interface's pages: what each page says about
//! the configuration, the sources and the current selection. Layout,
//! colours and drawing are left to the caller.

use vstd::prelude::*;

use crate::catalog::SourceInfo;
use crate::config::{Config, DownloadFormat};
use crate::text::{cat, decimal, number_text};
use crate::tui::{bool_zh, empty_as_dash, menu_entries, menu_items};

verus! {

/// The lower-case name of an export format.
pub open spec fn format_name(f: DownloadFormat) -> Seq<char> {
    match f {
        DownloadFormat::Txt => "txt"@,
        DownloadFormat::Epub => "epub"@,
        DownloadFormat::Html => "html"@,
        DownloadFormat::Pdf => "pdf"@,
    }
}

/// The two labels of the header bar: the active rules pack and the export
/// format.
pub fn header_labels(config: &Config) -> (r: (String, String))
    ensures
        r.0@ == "规则="@ + config.source.active_rules@,
        r.1@ == "格式="@ + format_name(config.download.format),
{
    (
        cat("规则=", config.source.active_rules.as_str()),
        cat("格式=", config.download.format.as_str()),
    )
}

/// `yes` / `no` as 是 / 否.
pub open spec fn yes_no(b: bool) -> Seq<char> {
    if b {
        "是"@
    } else {
        "否"@
    }
}

/// An em dash for an empty value, else the value.
pub open spec fn or_dash(s: Seq<char>) -> Seq<char> {
    if s.len() == 0 {
        "—"@
    } else {
        s
    }
}

/// The proxy as shown on the home page.
pub open spec fn home_proxy_text(c: Config) -> Seq<char> {
    if c.proxy.enabled {
        c.proxy.host@ + ":"@ + decimal(c.proxy.port as nat) + "（已启用）"@
    } else {
        "未启用"@
    }
}

/// How many listed sources are enabled.
pub open spec fn enabled_rows(v: Seq<SourceInfo>) -> nat
    decreases v.len(),
{
    if v.len() == 0 {
        0
    } else {
        enabled_rows(v.drop_last()) + if v.last().disabled {
            0nat
        } else {
            1nat
        }
    }
}

/// How many listed sources are searchable.
pub open spec fn searchable_rows(v: Seq<SourceInfo>) -> nat
    decreases v.len(),
{
    if v.len() == 0 {
        0
    } else {
        searchable_rows(v.drop_last()) + if v.last().searchable {
            1nat
        } else {
            0nat
        }
    }
}

/// The sources summary on the home page.
pub open spec fn sources_summary_text(sources: Seq<SourceInfo>, rules_error: Option<Seq<char>>) -> Seq<
    char,
> {
    match rules_error {
        Some(e) => "加载失败："@ + e,
        None => "共 "@ + decimal(sources.len()) + " 个 · 启用 "@ + decimal(enabled_rows(sources))
            + " · 可搜索 "@ + decimal(searchable_rows(sources)),
    }
}

fn count_rows(sources: &Vec<SourceInfo>) -> (r: (usize, usize))
    ensures
        r.0 == enabled_rows(sources@),
        r.1 == searchable_rows(sources@),
{
    let mut enabled: usize = 0;
    let mut searchable: usize = 0;
    let mut i: usize = 0;
    while i < sources.len()
        invariant
            i <= sources@.len(),
            enabled == enabled_rows(sources@.take(i as int)),
            searchable == searchable_rows(sources@.take(i as int)),
            enabled <= i,
            searchable <= i,
        decreases sources.len() - i,
    {
        assert(sources@.take(i + 1).drop_last() =~= sources@.take(i as int));
        if !sources[i].disabled {
            enabled += 1;
        }
        if sources[i].searchable {
            searchable += 1;
        }
        i += 1;
    }
    assert(sources@.take(sources@.len() as int) =~= sources@);
    (enabled, searchable)
}

/// The key/value facts of the home page's overview: download path, active
/// rules, export format, proxy and sources summary.
pub fn home_facts(config: &Config, sources: &Vec<SourceInfo>, rules_error: Option<&str>) -> (r: Vec<
    (String, String),
>)
    ensures
        r@.len() == 5,
        r@[0].0@ == "下载路径"@ && r@[0].1@ == config.download.path@,
        r@[1].0@ == "激活规则"@ && r@[1].1@ == config.source.active_rules@,
        r@[2].0@ == "导出格式"@ && r@[2].1@ == format_name(config.download.format),
        r@[3].0@ == "HTTP 代理"@ && r@[3].1@ == home_proxy_text(*config),
        r@[4].0@ == "书源概况"@ && r@[4].1@ == sources_summary_text(
            sources@,
            match rules_error {
                Some(e) => Some(e@),
                None => None,
            },
        ),
{
    let mut r: Vec<(String, String)> = Vec::new();
    r.push(("下载路径".to_owned(), config.download.path.clone()));
    r.push(("激活规则".to_owned(), config.source.active_rules.clone()));
    r.push(("导出格式".to_owned(), config.download.format.as_str().to_owned()));
    let proxy = if config.proxy.enabled {
        let a = cat(cat(config.proxy.host.as_str(), ":").as_str(), number_text(config.proxy.port as u64).as_str());
        cat(a.as_str(), "（已启用）")
    } else {
        "未启用".to_owned()
    };
    r.push(("HTTP 代理".to_owned(), proxy));
    let summary = match rules_error {
        Some(e) => cat("加载失败：", e),
        None => {
            let (enabled, searchable) = count_rows(sources);
            let a = cat(cat("共 ", number_text(sources.len() as u64).as_str()).as_str(), " 个 · 启用 ");
            let b = cat(cat(a.as_str(), number_text(enabled as u64).as_str()).as_str(), " · 可搜索 ");
            cat(b.as_str(), number_text(searchable as u64).as_str())
        },
    };
    r.push(("书源概况".to_owned(), summary));
    r
}

/// The menu entry described next to the menu: the selected one, the first
/// when nothing is selected, the last when the selection is past the end.
pub fn menu_entry(selected: Option<usize>) -> (r: (&'static str, &'static str))
    ensures
        ({
            let items = menu_entries();
            let i = match selected {
                Some(x) => if x < 6 {
                    x as int
                } else {
                    5
                },
                None => 0,
            };
            r.0@ == items[i].0 && r.1@ == items[i].1
        }),
{
    let items = menu_items();
    let i: usize = match selected {
        Some(x) => if x < 6 {
            x
        } else {
            5
        },
        None => 0,
    };
    items[i]
}

/// A row of the configuration page.
#[derive(Debug, Clone, PartialEq, Eq)]
pub enum ConfigRow {
    /// A section title, shown in brackets.
    Section(String),
    /// A setting and its value.
    Field(String, String),
    /// An empty line between sections.
    Blank,
}

/// A count that `0` leaves to a default, as text.
pub open spec fn count_or(n: nat, zero: Seq<char>) -> Seq<char> {
    if n == 0 {
        zero
    } else {
        decimal(n)
    }
}

fn count_or_text(n: u64, zero: &str) -> (r: String)
    ensures
        r@ == count_or(n as nat, zero@),
{
    if n == 0 {
        zero.to_owned()
    } else {
        number_text(n)
    }
}

/// The rows of the configuration page, section by section.
pub open spec fn config_rows_spec(c: Config) -> Seq<(int, Seq<char>, Seq<char>)> {
    seq![
        (0, "应用"@, seq![]),
        (1, "启动时检查更新"@, yes_no(c.app.auto_update)),
        (1, "GitHub 代理"@, or_dash(c.app.gh_proxy@)),
        (1, "CF 绕过地址"@, or_dash(c.app.cf_bypass@)),
        (2, seq![], seq![]),
        (0, "下载"@, seq![]),
        (1, "路径"@, c.download.path@),
        (1, "格式"@, format_name(c.download.format)),
        (1, "TXT 编码"@, c.download.txt_encoding@),
        (1, "保留章节缓存"@, yes_no(c.download.preserve_chapter_cache)),
        (2, seq![], seq![]),
        (0, "书源"@, seq![]),
        (1, "语言"@, or_dash(c.source.language@)),
        (1, "激活规则"@, c.source.active_rules@),
        (1, "指定书源 ID"@, count_or(c.source.source_id as nat, "未指定"@)),
        (1, "搜索条数上限"@, count_or(c.source.search_limit as nat, "不限制"@)),
        (1, "过滤低相关结果"@, yes_no(c.source.search_filter)),
        (2, seq![], seq![]),
        (0, "爬取"@, seq![]),
        (1, "并发"@, count_or(c.crawl.concurrency as nat, "自动"@)),
        (1, "请求间隔(ms)"@, decimal(c.crawl.min_interval_ms as nat) + " – "@ + decimal(
            c.crawl.max_interval_ms as nat,
        )),
        (1, "失败重试"@, yes_no(c.crawl.retry) + "（最多 "@ + decimal(c.crawl.max_retries as nat)
            + " 次）"@),
        (2, seq![], seq![]),
        (0, "代理"@, seq![]),
        (1, "HTTP 代理"@, if c.proxy.enabled {
            c.proxy.host@ + ":"@ + decimal(c.proxy.port as nat)
        } else {
            "未启用"@
        }),
    ]
}

/// A row as a kind (0 section, 1 field, 2 blank), a title and a value.
pub open spec fn row_view(r: ConfigRow) -> (int, Seq<char>, Seq<char>) {
    match r {
        ConfigRow::Section(t) => (0, t@, seq![]),
        ConfigRow::Field(k, v) => (1, k@, v@),
        ConfigRow::Blank => (2, seq![], seq![]),
    }
}

fn field(k: &str, v: String) -> (r: ConfigRow)
    ensures
        row_view(r) == (1int, k@, v@),
{
    ConfigRow::Field(k.to_owned(), v)
}

fn section(t: &str) -> (r: ConfigRow)
    ensures
        row_view(r) == (0int, t@, Seq::<char>::empty()),
{
    ConfigRow::Section(t.to_owned())
}

/// The configuration page, read-only.
pub fn config_rows(c: &Config) -> (r: Vec<ConfigRow>)
    ensures
        r@.map_values(|x: ConfigRow| row_view(x)) == config_rows_spec(*c),
{
    let mut r: Vec<ConfigRow> = Vec::new();
    r.push(section("应用"));
    r.push(field("启动时检查更新", bool_zh(c.app.auto_update)));
    r.push(field("GitHub 代理", empty_as_dash(c.app.gh_proxy.as_str())));
    r.push(field("CF 绕过地址", empty_as_dash(c.app.cf_bypass.as_str())));
    r.push(ConfigRow::Blank);
    r.push(section("下载"));
    r.push(field("路径", c.download.path.clone()));
    r.push(field("格式", c.download.format.as_str().to_owned()));
    r.push(field("TXT 编码", c.download.txt_encoding.clone()));
    r.push(field("保留章节缓存", bool_zh(c.download.preserve_chapter_cache)));
    r.push(ConfigRow::Blank);
    r.push(section("书源"));
    r.push(field("语言", empty_as_dash(c.source.language.as_str())));
    r.push(field("激活规则", c.source.active_rules.clone()));
    r.push(field("指定书源 ID", count_or_text(c.source.source_id as u64, "未指定")));
    r.push(field("搜索条数上限", count_or_text(c.source.search_limit as u64, "不限制")));
    r.push(field("过滤低相关结果", bool_zh(c.source.search_filter)));
    r.push(ConfigRow::Blank);
    r.push(section("爬取"));
    r.push(field("并发", count_or_text(c.crawl.concurrency as u64, "自动")));
    let interval = cat(
        cat(number_text(c.crawl.min_interval_ms).as_str(), " – ").as_str(),
        number_text(c.crawl.max_interval_ms).as_str(),
    );
    r.push(field("请求间隔(ms)", interval));
    let retry = cat(
        cat(cat(bool_zh(c.crawl.retry).as_str(), "（最多 ").as_str(), number_text(c.crawl.max_retries as u64).as_str()).as_str(),
        " 次）",
    );
    r.push(field("失败重试", retry));
    r.push(ConfigRow::Blank);
    r.push(section("代理"));
    let proxy = if c.proxy.enabled {
        cat(cat(c.proxy.host.as_str(), ":").as_str(), number_text(c.proxy.port as u64).as_str())
    } else {
        "未启用".to_owned()
    };
    r.push(field("HTTP 代理", proxy));
    assert(r@.map_values(|x: ConfigRow| row_view(x)) =~= config_rows_spec(*c));
    r
}

/// The cells of a source's row in the sources table: id, name, status,
/// search, proxy and site.
pub fn source_cells(s: &SourceInfo) -> (r: Vec<String>)
    ensures
        r@.len() == 6,
        r@[0]@ == decimal(s.id as nat),
        r@[1]@ == s.name@,
        r@[2]@ == if s.disabled {
            "禁用"@
        } else {
            "启用"@
        },
        r@[3]@ == yes_no(s.searchable),
        r@[4]@ == if s.need_proxy {
            "需要"@
        } else {
            "—"@
        },
        r@[5]@ == s.url@,
{
    let mut r: Vec<String> = Vec::new();
    r.push(number_text(s.id as u64));
    r.push(s.name.clone());
    r.push(
        if s.disabled {
            "禁用".to_owned()
        } else {
            "启用".to_owned()
        },
    );
    r.push(bool_zh(s.searchable));
    r.push(
        if s.need_proxy {
            "需要".to_owned()
        } else {
            "—".to_owned()
        },
    );
    r.push(s.url.clone());
    r
}

/// The title of the sources table.
pub fn sources_title(active_rules: &str, count: usize) -> (r: String)
    ensures
        r@ == "书源一览（"@ + active_rules@ + " · 共 "@ + decimal(count as nat) + " 个）"@,
{
    let a = cat(cat("书源一览（", active_rules).as_str(), " · 共 ");
    cat(cat(a.as_str(), number_text(count as u64).as_str()).as_str(), " 个）")
}

/// The detail panel of the selected source: its title line and facts, or
/// nothing when no listed source is selected.
pub fn source_detail(sources: &Vec<SourceInfo>, selected: Option<usize>, rules_path: &str) -> (r:
    Option<(String, Vec<(String, String)>)>)
    ensures
        match selected {
            Some(i) if i < sources@.len() => r matches Some(d) && {
                let s = sources@[i as int];
                &&& d.0@ == "["@ + decimal(s.id as nat) + "] "@ + s.name@
                &&& d.1@.len() == 4
                &&& d.1@[0].0@ == "网址"@ && d.1@[0].1@ == s.url@
                &&& d.1@[1].0@ == "状态"@ && d.1@[1].1@ == (if s.disabled {
                    "禁用"@
                } else {
                    "启用"@
                }) + " · 搜索:"@ + (if s.searchable {
                    "支持"@
                } else {
                    "不支持"@
                }) + " · 代理:"@ + (if s.need_proxy {
                    "需要"@
                } else {
                    "不需要"@
                })
                &&& d.1@[2].0@ == "备注"@ && d.1@[2].1@ == or_dash(s.comment@)
                &&& d.1@[3].0@ == "规则文件"@ && d.1@[3].1@ == rules_path@
            },
            _ => r is None,
        },
{
    let i = match selected {
        Some(i) => i,
        None => return None,
    };
    if i >= sources.len() {
        return None;
    }
    let s = &sources[i];
    let title = cat(cat(cat("[", number_text(s.id as u64).as_str()).as_str(), "] ").as_str(), s.name.as_str());
    let mut facts: Vec<(String, String)> = Vec::new();
    facts.push(("网址".to_owned(), s.url.clone()));
    let a = cat(
        if s.disabled {
            "禁用"
        } else {
            "启用"
        },
        " · 搜索:",
    );
    let b = cat(
        cat(
            a.as_str(),
            if s.searchable {
                "支持"
            } else {
                "不支持"
            },
        ).as_str(),
        " · 代理:",
    );
    let status = cat(
        b.as_str(),
        if s.need_proxy {
            "需要"
        } else {
            "不需要"
        },
    );
    facts.push(("状态".to_owned(), status));
    facts.push(("备注".to_owned(), empty_as_dash(s.comment.as_str())));
    facts.push(("规则文件".to_owned(), rules_path.to_owned()));
    Some((title, facts))
}

/// The page shown in place of the sources table when the pack failed to
/// load.
pub fn rules_error_lines(error: &str, active_rules: &str) -> (r: Vec<String>)
    ensures
        r@.len() == 8,
        r@[0]@ == "无法加载书源规则"@,
        r@[1]@.len() == 0,
        r@[2]@ == error@,
        r@[3]@.len() == 0,
        r@[4]@ == "配置中的规则文件："@ + active_rules@,
        r@[5]@ == "请确认 rules/ 目录与 config.toml 中的 active_rules 设置。"@,
        r@[6]@.len() == 0,
        r@[7]@ == "按 Esc 或 q 返回主菜单。"@,
{
    let mut r: Vec<String> = Vec::new();
    r.push("无法加载书源规则".to_owned());
    r.push(String::new());
    r.push(error.to_owned());
    r.push(String::new());
    r.push(cat("配置中的规则文件：", active_rules));
    r.push("请确认 rules/ 目录与 config.toml 中的 active_rules 设置。".to_owned());
    r.push(String::new());
    r.push("按 Esc 或 q 返回主菜单。".to_owned());
    r
}

/// The cells of a hit's row in the results table: book name, author,
/// latest chapter and detail URL, with a dash for an empty field.
pub fn hit_cells(h: &crate::model::SearchHit) -> (r: Vec<String>)
    ensures
        r@.len() == 4,
        r@[0]@ == h.book_name@,
        r@[1]@ == or_dash(h.author@),
        r@[2]@ == or_dash(h.latest_chapter@),
        r@[3]@ == h.url@,
{
    let mut r: Vec<String> = Vec::new();
    r.push(h.book_name.clone());
    r.push(empty_as_dash(h.author.as_str()));
    r.push(empty_as_dash(h.latest_chapter.as_str()));
    r.push(h.url.clone());
    r
}

} // verus!
