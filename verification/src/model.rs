//! Pure domain models: books, chapters, search hits and chapter ranges.

use vstd::prelude::*;

use crate::error::Error;
use crate::text::{cat, number_text};

verus! {

/// A novel's identity and catalog-facing fields.
#[derive(Debug, Clone, Default, PartialEq, Eq)]
pub struct Book {
    pub name: String,
    pub author: String,
    pub intro: String,
    pub category: String,
    pub cover_url: String,
    pub latest_chapter: String,
    pub latest_chapter_url: String,
    pub last_update_time: String,
    pub status: String,
    /// Detail / catalog entry URL.
    pub url: String,
    pub source_id: u32,
    pub source_name: String,
}

/// One chapter in a table of contents or download queue.
#[derive(Debug, Clone, Default, PartialEq, Eq)]
pub struct Chapter {
    /// 1-based order in the selected range.
    pub order: u32,
    pub title: String,
    pub url: String,
    /// Rendered body.
    pub content: String,
}

/// The mathematical value of a [`Chapter`].
pub struct ChapterView {
    pub order: u32,
    pub title: Seq<char>,
    pub url: Seq<char>,
    pub content: Seq<char>,
}

impl View for Chapter {
    type V = ChapterView;

    open spec fn view(&self) -> ChapterView {
        ChapterView {
            order: self.order,
            title: self.title@,
            url: self.url@,
            content: self.content@,
        }
    }
}

/// The views of a list of chapters.
pub open spec fn chapters_view(cs: Seq<Chapter>) -> Seq<ChapterView> {
    cs.map_values(|c: Chapter| c@)
}

/// One hit returned by a source search.
#[derive(Debug, Clone, Default, PartialEq, Eq)]
pub struct SearchHit {
    pub source_id: u32,
    pub source_name: String,
    pub book_name: String,
    pub author: String,
    pub category: String,
    pub latest_chapter: String,
    pub last_update_time: String,
    pub status: String,
    pub word_count: String,
    /// Book detail URL used for the later TOC fetch.
    pub url: String,
}

/// How the user wants to slice a full table of contents.
#[derive(Debug, Clone, Copy, PartialEq, Eq)]
pub enum ChapterRange {
    /// Entire TOC.
    All,
    /// Inclusive 1-based chapter indexes.
    Span { start: u32, end: u32 },
    /// Last N chapters.
    Latest { count: u32 },
}

/// Why a range cannot be applied to a TOC of `total` chapters, if it cannot.
pub enum RangeProblem {
    EmptyToc,
    BadSpan,
    SpanPastEnd,
    ZeroCount,
}

/// The half-open index window `[lo, hi)` that `range` selects from a TOC of
/// `total` chapters, or the reason it selects nothing.
pub open spec fn range_window(total: nat, range: ChapterRange) -> Result<(nat, nat), RangeProblem> {
    if total == 0 {
        Err(RangeProblem::EmptyToc)
    } else {
        match range {
            ChapterRange::All => Ok((0, total)),
            ChapterRange::Span { start, end } => if start == 0 || end == 0 || start > end {
                Err(RangeProblem::BadSpan)
            } else if end > total {
                Err(RangeProblem::SpanPastEnd)
            } else {
                Ok(((start - 1) as nat, end as nat))
            },
            ChapterRange::Latest { count } => if count == 0 {
                Err(RangeProblem::ZeroCount)
            } else {
                let c = if count <= total {
                    count as nat
                } else {
                    total
                };
                Ok(((total - c) as nat, total))
            },
        }
    }
}

/// `cs[lo..hi]`, renumbered so that `order` runs 1, 2, 3, ...
pub open spec fn renumbered_window(cs: Seq<ChapterView>, lo: int, hi: int) -> Seq<ChapterView> {
    Seq::new(
        (hi - lo) as nat,
        |k: int|
            ChapterView {
                order: (k + 1) as u32,
                title: cs[lo + k].title,
                url: cs[lo + k].url,
                content: cs[lo + k].content,
            },
    )
}

/// The message for an out-of-range span.
pub open spec fn span_past_end_message(total: nat, start: u32, end: u32) -> Seq<char> {
    "章节范围超出目录：共 "@ + crate::text::decimal(total) + " 章，请求 "@
        + crate::text::decimal(start as nat) + "-"@ + crate::text::decimal(end as nat)
}

/// The message that each range problem is reported with.
pub open spec fn range_problem_message(p: RangeProblem, total: nat, range: ChapterRange) -> Seq<
    char,
> {
    match p {
        RangeProblem::EmptyToc => "目录为空，无法选择章节范围"@,
        RangeProblem::BadSpan => "章节范围无效：起始章与结束章须为从 1 开始的正整数，且起始 ≤ 结束"@,
        RangeProblem::SpanPastEnd => match range {
            ChapterRange::Span { start, end } => span_past_end_message(total, start, end),
            _ => Seq::empty(),
        },
        RangeProblem::ZeroCount => "最新章节数量须 ≥ 1"@,
    }
}

fn copy_with_order(ch: &Chapter, order: u32) -> (r: Chapter)
    ensures
        r@ == (ChapterView { order, title: ch.title@, url: ch.url@, content: ch.content@ }),
{
    Chapter { order, title: ch.title.clone(), url: ch.url.clone(), content: ch.content.clone() }
}

/// Applies a range to a full ordered TOC and renumbers `order` from 1.
pub fn apply_chapter_range(chapters: &[Chapter], range: ChapterRange) -> (res: Result<
    Vec<Chapter>,
    Error,
>)
    ensures
        match range_window(chapters@.len(), range) {
            Ok((lo, hi)) => res matches Ok(v) && chapters_view(v@) == renumbered_window(
                chapters_view(chapters@),
                lo as int,
                hi as int,
            ),
            Err(p) => res matches Err(Error::Message(m)) && m@ == range_problem_message(
                p,
                chapters@.len(),
                range,
            ),
        },
{
    let total = chapters.len();
    if total == 0 {
        return Err(Error::Message("目录为空，无法选择章节范围".to_string()));
    }
    let (lo, hi): (usize, usize) = match range {
        ChapterRange::All => (0, total),
        ChapterRange::Span { start, end } => {
            if start == 0 || end == 0 || start > end {
                return Err(
                    Error::Message(
                        "章节范围无效：起始章与结束章须为从 1 开始的正整数，且起始 ≤ 结束".to_string(),
                    ),
                );
            }
            if end as usize > total {
                let m = cat(&cat("章节范围超出目录：共 ", &number_text(total as u64)), " 章，请求 ");
                let m = cat(&cat(&cat(&m, &number_text(start as u64)), "-"), &number_text(end as u64));
                return Err(Error::Message(m));
            }
            (start as usize - 1, end as usize)
        },
        ChapterRange::Latest { count } => {
            if count == 0 {
                return Err(Error::Message("最新章节数量须 ≥ 1".to_string()));
            }
            let c = if (count as usize) <= total {
                count as usize
            } else {
                total
            };
            (total - c, total)
        },
    };
    let mut out: Vec<Chapter> = Vec::new();
    let mut i = lo;
    while i < hi
        invariant
            lo <= i <= hi <= chapters@.len(),
            chapters_view(out@) == renumbered_window(chapters_view(chapters@), lo as int, i as int),
        decreases hi - i,
    {
        let k = i - lo;
        let ghost prev = out@;
        assert(chapters_view(prev).len() == prev.len());
        assert(prev.len() == k);
        let ch = copy_with_order(&chapters[i], #[verifier::truncate] ((k + 1) as u32));
        assert(ch@ == renumbered_window(chapters_view(chapters@), lo as int, i + 1)[k as int]);
        out.push(ch);
        i += 1;
        assert(out@ == prev.push(ch));
        proof {
            let w0 = renumbered_window(chapters_view(chapters@), lo as int, (i - 1) as int);
            let w1 = renumbered_window(chapters_view(chapters@), lo as int, i as int);
            assert forall|j: int| 0 <= j < k implies #[trigger] chapters_view(out@)[j] == w1[j] by {
                assert(chapters_view(out@)[j] == out@[j]@);
                assert(out@[j] == prev[j]);
                assert(chapters_view(prev)[j] == prev[j]@);
                assert(w0[j] == w1[j]);
            }
            assert(chapters_view(out@)[k as int] == w1[k as int]);
            assert(chapters_view(out@) =~= w1);
        }
    }
    Ok(out)
}

/// The mathematical value of a [`SearchHit`].
pub struct SearchHitView {
    pub source_id: u32,
    pub source_name: Seq<char>,
    pub book_name: Seq<char>,
    pub author: Seq<char>,
    pub category: Seq<char>,
    pub latest_chapter: Seq<char>,
    pub last_update_time: Seq<char>,
    pub status: Seq<char>,
    pub word_count: Seq<char>,
    pub url: Seq<char>,
}

impl View for SearchHit {
    type V = SearchHitView;

    open spec fn view(&self) -> SearchHitView {
        SearchHitView {
            source_id: self.source_id,
            source_name: self.source_name@,
            book_name: self.book_name@,
            author: self.author@,
            category: self.category@,
            latest_chapter: self.latest_chapter@,
            last_update_time: self.last_update_time@,
            status: self.status@,
            word_count: self.word_count@,
            url: self.url@,
        }
    }
}

/// The views of a list of hits.
pub open spec fn hits_view(hs: Seq<SearchHit>) -> Seq<SearchHitView> {
    hs.map_values(|h: SearchHit| h@)
}

/// The mathematical value of a [`Book`].
pub struct BookView {
    pub name: Seq<char>,
    pub author: Seq<char>,
    pub intro: Seq<char>,
    pub category: Seq<char>,
    pub cover_url: Seq<char>,
    pub latest_chapter: Seq<char>,
    pub latest_chapter_url: Seq<char>,
    pub last_update_time: Seq<char>,
    pub status: Seq<char>,
    pub url: Seq<char>,
    pub source_id: u32,
    pub source_name: Seq<char>,
}

impl View for Book {
    type V = BookView;

    open spec fn view(&self) -> BookView {
        BookView {
            name: self.name@,
            author: self.author@,
            intro: self.intro@,
            category: self.category@,
            cover_url: self.cover_url@,
            latest_chapter: self.latest_chapter@,
            latest_chapter_url: self.latest_chapter_url@,
            last_update_time: self.last_update_time@,
            status: self.status@,
            url: self.url@,
            source_id: self.source_id,
            source_name: self.source_name@,
        }
    }
}

/// The number of chapters a range selects from a TOC of `total` chapters:
/// all of them, `end - start + 1` for a span, and `count` (at most all) for
/// the latest ones; the selection is numbered 1, 2, 3, ... and keeps the
/// chapters' titles, URLs and bodies in TOC order.
pub proof fn lemma_range_selection_shape(cs: Seq<ChapterView>, range: ChapterRange)
    requires
        range_window(cs.len(), range) is Ok,
        cs.len() <= u32::MAX,
    ensures
        ({
            let (lo, hi) = range_window(cs.len(), range)->Ok_0;
            let sel = renumbered_window(cs, lo as int, hi as int);
            &&& sel.len() == match range {
                ChapterRange::All => cs.len(),
                ChapterRange::Span { start, end } => (end - start + 1) as nat,
                ChapterRange::Latest { count } => if count <= cs.len() {
                    count as nat
                } else {
                    cs.len()
                },
            }
            &&& forall|k: int| 0 <= k < sel.len() ==> (#[trigger] sel[k]).order == k + 1
            &&& forall|k: int|
                0 <= k < sel.len() ==> (#[trigger] sel[k]).title == cs[lo + k].title && sel[k].url
                    == cs[lo + k].url && sel[k].content == cs[lo + k].content
        }),
{
}

/// Asking for at least as many latest chapters as the TOC holds selects the
/// whole TOC, as `All` does.
pub proof fn lemma_latest_covering_is_all(total: nat, count: u32)
    requires
        total > 0,
        count >= total,
    ensures
        range_window(total, ChapterRange::Latest { count }) == range_window(total, ChapterRange::All),
{
}

/// The span from the first to the last chapter selects the whole TOC, as
/// `All` does.
pub proof fn lemma_full_span_is_all(total: u32)
    requires
        total > 0,
    ensures
        range_window(total as nat, ChapterRange::Span { start: 1, end: total }) == range_window(
            total as nat,
            ChapterRange::All,
        ),
{
}

/// Selecting `All` from a selection gives the selection back unchanged: a
/// selection is already numbered from 1.
pub proof fn lemma_selection_is_fixed_by_all(cs: Seq<ChapterView>, lo: int, hi: int)
    requires
        0 <= lo <= hi <= cs.len(),
        hi - lo <= u32::MAX,
    ensures
        ({
            let sel = renumbered_window(cs, lo, hi);
            renumbered_window(sel, 0, sel.len() as int) == sel
        }),
{
    let sel = renumbered_window(cs, lo, hi);
    assert(renumbered_window(sel, 0, sel.len() as int) =~= sel);
}

} // verus!
