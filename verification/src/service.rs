//! Use-case steps behind searching a source and opening a book.

use vstd::prelude::*;

use crate::catalog::{index_with_id, RuleCatalog};
use crate::config::Config;
use crate::error::Error;
use crate::model::{apply_chapter_range, chapters_view, range_problem_message, range_window, renumbered_window, Book, Chapter, ChapterRange};
use crate::rule::Rule;
use crate::text::{cat, trim, trimmed};

verus! {

/// Loaded book metadata with its full table of contents.
#[derive(Debug, Clone)]
pub struct BookCatalog {
    pub book: Book,
    pub chapters: Vec<Chapter>,
}

/// Slices a loaded TOC according to the user's range selection.
pub fn select_chapters(chapters: &[Chapter], range: ChapterRange) -> (res: Result<Vec<Chapter>, Error>)
    ensures
        match range_window(chapters@.len(), range) {
            Ok((lo, hi)) => res matches Ok(v) && chapters_view(v@) == renumbered_window(
                chapters_view(chapters@),
                lo as int,
                hi as int,
            ),
            Err(p) => res matches Err(Error::Message(m)) && m@ == range_problem_message(
                p,
                chapters@.len(),
                range,
            ),
        },
{
    apply_chapter_range(chapters, range)
}

/// An error with the source and stage it happened in prefixed to its
/// message (HTTP and plain-message errors only).
pub open spec fn annotated(source_name: Seq<char>, stage: Seq<char>, err: Error) -> spec_fn(Error) -> bool {
    |e: Error| match err {
        Error::Http(msg) => e matches Error::Http(m) && m@ == "书源「"@ + source_name + "」"@ + stage
            + "失败\n"@ + msg@,
        Error::Message(msg) => e matches Error::Message(m) && m@ == "书源「"@ + source_name + "」"@
            + stage + "失败："@ + msg@,
        _ => e == err,
    }
}

/// Prefixes the source and stage to HTTP and plain-message errors.
pub fn annotate(source_name: &str, stage: &str, err: Error) -> (e: Error)
    ensures
        (annotated(source_name@, stage@, err))(e),
{
    match err {
        Error::Http(msg) => {
            let a = cat(cat(cat("书源「", source_name).as_str(), "」").as_str(), stage);
            Error::Http(cat(cat(a.as_str(), "失败\n").as_str(), msg.as_str()))
        },
        Error::Message(msg) => {
            let a = cat(cat(cat("书源「", source_name).as_str(), "」").as_str(), stage);
            Error::Message(cat(cat(a.as_str(), "失败：").as_str(), msg.as_str()))
        },
        other => other,
    }
}

/// Prefixes the source to HTTP errors of a search.
pub fn annotate_search_error(err: Error, source_name: &str) -> (e: Error)
    ensures
        match err {
            Error::Http(msg) => e matches Error::Http(m) && m@ == "书源「"@ + source_name@
                + "」搜索失败\n"@ + msg@,
            _ => e == err,
        },
{
    match err {
        Error::Http(msg) => {
            let a = cat(cat("书源「", source_name).as_str(), "」搜索失败\n");
            Error::Http(cat(a.as_str(), msg.as_str()))
        },
        other => other,
    }
}

/// The message for a search on a source that needs a proxy that is off.
pub open spec fn search_proxy_message(source_name: Seq<char>) -> Seq<char> {
    "书源「"@ + source_name
        + "」标记为需要代理，请在 config.toml 启用 [proxy]\n示例：\n[proxy]\nenabled = true\nhost = \"127.0.0.1\"\nport = 7890"@
}

/// Picks the source for a single-source search: it must exist, and its
/// proxy requirement must be met by the config.
pub fn search_source_for<'a>(catalog: &'a RuleCatalog, config: &Config, source_id: u32) -> (res:
    Result<&'a Rule, Error>)
    ensures
        match index_with_id(catalog.rules@, source_id, 0) {
            None => res matches Err(Error::SourceNotFound(id)) && id == source_id,
            Some(i) => if catalog.rules@[i].need_proxy && !config.proxy.enabled {
                res matches Err(Error::Message(m)) && m@ == search_proxy_message(
                    catalog.rules@[i].name@,
                )
            } else {
                res matches Ok(r) && *r == catalog.rules@[i]
            },
        },
{
    let rule = match catalog.get(source_id) {
        Some(r) => r,
        None => return Err(Error::SourceNotFound(source_id)),
    };
    if rule.need_proxy && !config.proxy.enabled {
        let m = cat(
            cat("书源「", rule.name.as_str()).as_str(),
            "」标记为需要代理，请在 config.toml 启用 [proxy]\n示例：\n[proxy]\nenabled = true\nhost = \"127.0.0.1\"\nport = 7890",
        );
        return Err(Error::Message(m));
    }
    Ok(rule)
}

/// The message for opening a book on a source that needs a proxy that is off.
pub open spec fn book_proxy_message(source_name: Seq<char>) -> Seq<char> {
    "书源「"@ + source_name + "」需要代理，请在 config.toml 启用 [proxy]"@
}

/// Picks the source and detail URL for opening a book: the source must
/// exist and have its proxy, and the URL must not be blank (it is trimmed).
pub fn book_source_for<'a>(
    catalog: &'a RuleCatalog,
    config: &Config,
    source_id: u32,
    detail_url: &str,
) -> (res: Result<(&'a Rule, String), Error>)
    ensures
        match index_with_id(catalog.rules@, source_id, 0) {
            None => res matches Err(Error::SourceNotFound(id)) && id == source_id,
            Some(i) => if catalog.rules@[i].need_proxy && !config.proxy.enabled {
                res matches Err(Error::Message(m)) && m@ == book_proxy_message(
                    catalog.rules@[i].name@,
                )
            } else if trim(detail_url@).len() == 0 {
                res matches Err(Error::Message(m)) && m@ == "书籍详情地址为空"@
            } else {
                res matches Ok((r, u)) && *r == catalog.rules@[i] && u@ == trim(detail_url@)
            },
        },
{
    let rule = match catalog.get(source_id) {
        Some(r) => r,
        None => return Err(Error::SourceNotFound(source_id)),
    };
    if rule.need_proxy && !config.proxy.enabled {
        let m = cat(cat("书源「", rule.name.as_str()).as_str(), "」需要代理，请在 config.toml 启用 [proxy]");
        return Err(Error::Message(m));
    }
    let url = trimmed(detail_url);
    if url.as_str().unicode_len() == 0 {
        return Err(Error::Message("书籍详情地址为空".to_string()));
    }
    Ok((rule, url))
}

} // verus!
