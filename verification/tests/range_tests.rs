use novel_boom_core::error::Error;
use novel_boom_core::model::{apply_chapter_range, Chapter, ChapterRange};
use novel_boom_core::service::select_chapters;

fn sample() -> Vec<Chapter> {
    (1..=5)
        .map(|i| Chapter {
            order: i,
            title: format!("第{i}章"),
            url: format!("http://x/{i}"),
            content: String::new(),
        })
        .collect()
}

#[test]
fn span_and_latest() {
    let toc = sample();
    let mid = apply_chapter_range(&toc, ChapterRange::Span { start: 2, end: 4 }).unwrap();
    assert_eq!(mid.len(), 3);
    assert_eq!(mid[0].title, "第2章");
    assert_eq!(mid[0].order, 1);

    let latest = apply_chapter_range(&toc, ChapterRange::Latest { count: 2 }).unwrap();
    assert_eq!(latest[0].title, "第4章");
    assert_eq!(latest[1].title, "第5章");
}

#[test]
fn all_renumbers_every_chapter() {
    let mut toc = sample();
    toc[0].order = 9;
    let all = select_chapters(&toc, ChapterRange::All).unwrap();
    assert_eq!(all.len(), 5);
    for (i, ch) in all.iter().enumerate() {
        assert_eq!(ch.order as usize, i + 1);
        assert_eq!(ch.url, format!("http://x/{}", i + 1));
    }
}

#[test]
fn latest_beyond_total_takes_everything() {
    let toc = sample();
    let latest = apply_chapter_range(&toc, ChapterRange::Latest { count: 99 }).unwrap();
    assert_eq!(latest.len(), 5);
    assert_eq!(latest[0].title, "第1章");
}

#[test]
fn range_errors() {
    let toc = sample();
    match apply_chapter_range(&[], ChapterRange::All) {
        Err(Error::Message(m)) => assert_eq!(m, "目录为空，无法选择章节范围"),
        other => panic!("unexpected: {other:?}"),
    }
    match apply_chapter_range(&toc, ChapterRange::Span { start: 3, end: 2 }) {
        Err(Error::Message(m)) => {
            assert_eq!(m, "章节范围无效：起始章与结束章须为从 1 开始的正整数，且起始 ≤ 结束")
        }
        other => panic!("unexpected: {other:?}"),
    }
    match apply_chapter_range(&toc, ChapterRange::Span { start: 2, end: 9 }) {
        Err(Error::Message(m)) => assert_eq!(m, "章节范围超出目录：共 5 章，请求 2-9"),
        other => panic!("unexpected: {other:?}"),
    }
    match apply_chapter_range(&toc, ChapterRange::Latest { count: 0 }) {
        Err(Error::Message(m)) => assert_eq!(m, "最新章节数量须 ≥ 1"),
        other => panic!("unexpected: {other:?}"),
    }
}
