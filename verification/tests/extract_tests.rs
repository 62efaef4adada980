use novel_boom_core::dom::{BaseUrl, Document};
use novel_boom_core::query::ContentKind;
use novel_boom_core::select::{
    compile_css, extract, extract_content, extract_in_document, select_all, select_first,
};
use novel_boom_core::error::Error;

#[test]
fn extracts_book_row() {
    // Tables rows are often reparented; wrap in a full table.
    let html = Document::parse(
        r#"
            <html><body>
              <table><tbody>
                <tr class="row">
                  <td class="even"><a href="/book/1/">诡秘之主</a></td>
                  <td>爱潜水的乌贼</td>
                  <td class="odd"><a href="/c/9">第1360章</a></td>
                </tr>
              </tbody></table>
            </body></html>
            "#,
    );
    let base = BaseUrl::new("http://www.xbiqugu.la/").unwrap();
    let row = select_first(&html, "tr.row").unwrap().expect("row present");

    assert_eq!(extract(&row, "td.even > a", &base), "诡秘之主");
    assert_eq!(
        extract_content(
            &select_all(&row, "td.even > a").unwrap()[0],
            ContentKind::AttrHref,
            &base
        ),
        "http://www.xbiqugu.la/book/1/"
    );
    assert_eq!(extract(&row, "td:nth-of-type(2)", &base), "爱潜水的乌贼");
}

#[test]
fn extract_reads_attributes_and_falls_back_to_the_element() {
    let html = Document::parse(
        r#"<html><body><div class="b"><a href=" /x/1 ">  Hello
            world </a><img src="c.png"/></div></body></html>"#,
    );
    let base = BaseUrl::new("http://example.com/dir/").unwrap();
    let div = select_first(&html, "div.b").unwrap().unwrap();
    assert_eq!(extract(&div, "a", &base), "Hello world");
    assert_eq!(extract(&div, "a@href", &base), "http://example.com/x/1");
    assert_eq!(extract(&div, "img@src", &base), "http://example.com/dir/c.png");
    assert_eq!(extract(&div, "   ", &base), "");
    // No descendant matches: the element itself is read.
    assert_eq!(extract(&div, "span", &base), "Hello world");
}

#[test]
fn document_level_extraction_reads_meta_content() {
    let html = Document::parse(
        r#"<html><head><meta property="og:novel:author" content="  作者A "/></head><body></body></html>"#,
    );
    let base = BaseUrl::new("http://example.com/").unwrap();
    assert_eq!(
        extract_in_document(&html, "meta[property=\"og:novel:author\"]", &base),
        "作者A"
    );
    assert_eq!(extract_in_document(&html, "span.none", &base), "");
}

#[test]
fn compile_css_errors() {
    assert!(matches!(compile_css("//div"), Err(Error::UnsupportedFeature(_))));
    match compile_css("@href") {
        Err(Error::InvalidSelector { selector, message }) => {
            assert_eq!(selector, "@href");
            assert_eq!(message, "empty selector");
        }
        Err(e) => panic!("unexpected: {e:?}"),
        Ok(_) => panic!("unexpected success"),
    }
    assert!(matches!(compile_css("div[["), Err(Error::InvalidSelector { .. })));
    assert!(compile_css("div > a@href").is_ok());
}

#[test]
fn base_url_parses_and_reports_bad_input() {
    let base = BaseUrl::new("http://example.com/a/b").unwrap();
    assert_eq!(base.as_str(), "http://example.com/a/b");
    match BaseUrl::new("not a url") {
        Err(Error::InvalidUrl(m)) => assert!(m.starts_with("not a url: "), "{m}"),
        _ => panic!("expected InvalidUrl"),
    }
}

#[test]
fn html_content_is_the_element_markup() {
    let html = Document::parse(r#"<html><body><div class="b"><p>x</p></div></body></html>"#);
    let base = BaseUrl::new("http://example.com/").unwrap();
    let div = select_first(&html, "div.b").unwrap().unwrap();
    assert_eq!(
        extract_content(&div, ContentKind::Html, &base),
        r#"<div class="b"><p>x</p></div>"#
    );
    assert_eq!(extract_content(&div, ContentKind::Text, &base), "x");
}
