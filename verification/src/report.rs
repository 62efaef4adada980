//! Text reports of the command-line mode: the source listing and the
//! results of a one-off search. Printing them is left to the caller.

use vstd::prelude::*;

use crate::catalog::{enabled_count_of, info_of, searchable_rules, RuleCatalog, SourceInfo};
use crate::model::SearchHit;
use crate::rule::Rule;
use crate::text::{cat, chars_of, decimal, number_text, string_of};
use crate::tui::{empty_as_dash, truncate_display, truncated};

verus! {

/// `n` spaces.
pub open spec fn spaces(n: nat) -> Seq<char> {
    Seq::new(n, |i: int| ' ')
}

/// `s` padded with spaces on the right to `width` characters (`{:<width}`).
pub open spec fn padded_end(s: Seq<char>, width: nat) -> Seq<char> {
    if s.len() >= width {
        s
    } else {
        s + spaces((width - s.len()) as nat)
    }
}

/// `s` padded with spaces on the left to `width` characters (`{:>width}`).
pub open spec fn padded_start(s: Seq<char>, width: nat) -> Seq<char> {
    if s.len() >= width {
        s
    } else {
        spaces((width - s.len()) as nat) + s
    }
}

fn space_run(n: usize) -> (r: Vec<char>)
    ensures
        r@ == spaces(n as nat),
{
    let mut v: Vec<char> = Vec::new();
    let mut i: usize = 0;
    while i < n
        invariant
            i <= n,
            v@ == spaces(i as nat),
        decreases n - i,
    {
        v.push(' ');
        i += 1;
        assert(v@ =~= spaces(i as nat));
    }
    v
}

/// Pads `s` with spaces on the right to `width` characters.
pub fn pad_end(s: &str, width: usize) -> (r: String)
    ensures
        r@ == padded_end(s@, width as nat),
{
    let mut v = chars_of(s);
    if v.len() < width {
        let pad = space_run(width - v.len());
        crate::text::push_all(&mut v, pad.as_slice());
    }
    string_of(v.as_slice())
}

/// Pads `s` with spaces on the left to `width` characters.
pub fn pad_start(s: &str, width: usize) -> (r: String)
    ensures
        r@ == padded_start(s@, width as nat),
{
    let v = chars_of(s);
    if v.len() < width {
        let mut pad = space_run(width - v.len());
        crate::text::push_all(&mut pad, v.as_slice());
        string_of(pad.as_slice())
    } else {
        s.to_owned()
    }
}

/// The listing line of a source: id, name cut to 16 characters, status,
/// searchability and site URL, in aligned columns.
pub open spec fn source_line_text(info: SourceInfo) -> Seq<char> {
    padded_end(decimal(info.id as nat), 4) + " "@ + padded_end(truncated(info.name@, 16), 16) + " "@
        + padded_end(
        if info.disabled {
            "禁用"@
        } else {
            "启用"@
        },
        6,
    ) + " "@ + padded_end(
        if info.searchable {
            "是"@
        } else {
            "否"@
        },
        6,
    ) + " "@ + info.url@
}

/// The listing line of one source.
pub fn source_line(info: &SourceInfo) -> (r: String)
    ensures
        r@ == source_line_text(*info),
{
    let id = pad_end(number_text(info.id as u64).as_str(), 4);
    let name = pad_end(truncate_display(info.name.as_str(), 16).as_str(), 16);
    let status = pad_end(
        if info.disabled {
            "禁用"
        } else {
            "启用"
        },
        6,
    );
    let search = pad_end(
        if info.searchable {
            "是"
        } else {
            "否"
        },
        6,
    );
    let a = cat(cat(id.as_str(), " ").as_str(), name.as_str());
    let b = cat(cat(a.as_str(), " ").as_str(), status.as_str());
    let c = cat(cat(b.as_str(), " ").as_str(), search.as_str());
    cat(cat(c.as_str(), " ").as_str(), info.url.as_str())
}

/// The column titles of the source listing.
pub const SOURCES_HEADER: &'static str = "ID   名称             状态   搜索   网址";

/// The source listing: the pack's path, the counts, a blank line, the
/// column titles, then one line per source.
pub fn sources_report(catalog: &RuleCatalog) -> (r: Vec<String>)
    ensures
        r@.len() == 4 + catalog.rules@.len(),
        r@[0]@ == "规则文件: "@ + catalog.path@,
        r@[1]@ == "共 "@ + decimal(catalog.rules@.len()) + " 个书源（启用 "@ + decimal(
            enabled_count_of(catalog.rules@),
        ) + " · 可搜索 "@ + decimal(searchable_rules(catalog.rules@).len()) + "）"@,
        r@[2]@.len() == 0,
        r@[3]@ == SOURCES_HEADER@,
        forall|i: int|
            0 <= i < catalog.rules@.len() ==> #[trigger] r@[4 + i]@ == source_line_text(
                info_of(catalog.rules@[i]),
            ),
{
    let mut lines: Vec<String> = Vec::new();
    lines.push(cat("规则文件: ", catalog.path.as_str()));
    let total = number_text(catalog.len() as u64);
    let enabled = number_text(catalog.enabled_count() as u64);
    let searchable = number_text(catalog.searchable_count() as u64);
    let a = cat(cat("共 ", total.as_str()).as_str(), " 个书源（启用 ");
    let b = cat(cat(a.as_str(), enabled.as_str()).as_str(), " · 可搜索 ");
    lines.push(cat(cat(b.as_str(), searchable.as_str()).as_str(), "）"));
    lines.push(String::new());
    lines.push(SOURCES_HEADER.to_owned());
    let infos = catalog.sources();
    let mut i: usize = 0;
    while i < infos.len()
        invariant
            infos@ == catalog.rules@.map_values(|x: Rule| info_of(x)),
            i <= infos@.len(),
            lines@.len() == 4 + i,
            lines@[0]@ == "规则文件: "@ + catalog.path@,
            lines@[1]@ == "共 "@ + decimal(catalog.rules@.len()) + " 个书源（启用 "@ + decimal(
                enabled_count_of(catalog.rules@),
            ) + " · 可搜索 "@ + decimal(searchable_rules(catalog.rules@).len()) + "）"@,
            lines@[2]@.len() == 0,
            lines@[3]@ == SOURCES_HEADER@,
            forall|k: int|
                0 <= k < i ==> #[trigger] lines@[4 + k]@ == source_line_text(
                    info_of(catalog.rules@[k]),
                ),
        decreases infos.len() - i,
    {
        let line = source_line(&infos[i]);
        lines.push(line);
        i += 1;
    }
    lines
}

/// The line announcing a one-off search.
pub fn search_banner(source_id: u32, keyword: &str) -> (r: String)
    ensures
        r@ == "正在搜索：书源 "@ + decimal(source_id as nat) + " · 关键词「"@ + keyword@ + "」…"@,
{
    let a = cat(cat("正在搜索：书源 ", number_text(source_id as u64).as_str()).as_str(), " · 关键词「");
    cat(cat(a.as_str(), keyword).as_str(), "」…")
}

/// The dash shown for an empty field, else the field.
pub open spec fn dashed(s: Seq<char>) -> Seq<char> {
    if s.len() == 0 {
        "—"@
    } else {
        s
    }
}

/// The result line of the hit at 0-based position `idx`: its number right
/// aligned on three columns, the book name, author, latest chapter and URL.
pub open spec fn hit_line_text(idx: nat, hit: SearchHit) -> Seq<char> {
    padded_start(decimal(idx + 1), 3) + ". "@ + hit.book_name@ + " · "@ + dashed(hit.author@)
        + " · "@ + dashed(hit.latest_chapter@) + " · "@ + hit.url@
}

/// The result line of one hit.
pub fn hit_line(idx: usize, hit: &SearchHit) -> (r: String)
    requires
        idx < u64::MAX,
    ensures
        r@ == hit_line_text(idx as nat, *hit),
{
    let n = pad_start(number_text(idx as u64 + 1).as_str(), 3);
    let a = cat(cat(n.as_str(), ". ").as_str(), hit.book_name.as_str());
    let b = cat(cat(a.as_str(), " · ").as_str(), empty_as_dash(hit.author.as_str()).as_str());
    let c = cat(cat(b.as_str(), " · ").as_str(), empty_as_dash(hit.latest_chapter.as_str()).as_str());
    cat(cat(c.as_str(), " · ").as_str(), hit.url.as_str())
}

/// The report of a one-off search: `无结果` when nothing was found, else
/// the count followed by one line per hit.
pub fn search_report(hits: &Vec<SearchHit>) -> (r: Vec<String>)
    ensures
        hits@.len() == 0 ==> r@.len() == 1 && r@[0]@ == "无结果"@,
        hits@.len() > 0 ==> {
            &&& r@.len() == 1 + hits@.len()
            &&& r@[0]@ == "共 "@ + decimal(hits@.len()) + " 条："@
            &&& forall|i: int| 0 <= i < hits@.len() ==> #[trigger] r@[1 + i]@ == hit_line_text(i as nat, hits@[i])
        },
{
    let mut lines: Vec<String> = Vec::new();
    if hits.len() == 0 {
        lines.push("无结果".to_owned());
        return lines;
    }
    lines.push(cat(cat("共 ", number_text(hits.len() as u64).as_str()).as_str(), " 条："));
    let mut i: usize = 0;
    while i < hits.len()
        invariant
            i <= hits@.len(),
            hits@.len() > 0,
            lines@.len() == 1 + i,
            lines@[0]@ == "共 "@ + decimal(hits@.len()) + " 条："@,
            forall|k: int| 0 <= k < i ==> #[trigger] lines@[1 + k]@ == hit_line_text(k as nat, hits@[k]),
        decreases hits.len() - i,
    {
        let line = hit_line(i, &hits[i]);
        lines.push(line);
        i += 1;
    }
    lines
}

/// The source a one-off search runs on: the configured id, which must be
/// set (not `0`).
pub fn cli_search_source(source_id: u32) -> (r: Result<u32, String>)
    ensures
        source_id == 0 ==> (r matches Err(m) && m@ == "请通过 --source-id 或配置 [source].source_id 指定书源"@),
        source_id != 0 ==> r == Ok::<u32, String>(source_id),
{
    if source_id == 0 {
        Err("请通过 --source-id 或配置 [source].source_id 指定书源".to_owned())
    } else {
        Ok(source_id)
    }
}

} // verus!
