use novel_boom_core::query::{content_kind, requires_js, requires_xpath, strip_extensions, ContentKind};

#[test]
fn strips_href_and_js() {
    assert_eq!(strip_extensions("td.even > a@href"), "td.even > a");
    assert_eq!(strip_extensions("#x@js:r=r.replace(/a/,'')"), "#x");
    assert!(requires_js("a@js:return r"));
    assert!(requires_xpath("//div/a"));
    assert!(!requires_xpath("div > a"));
    assert_eq!(content_kind("a@href"), ContentKind::AttrHref);
    assert_eq!(content_kind("span.author"), ContentKind::Text);
}

#[test]
fn strips_java_src_and_trailing_space() {
    assert_eq!(strip_extensions("#list a@java:code"), "#list a");
    assert_eq!(strip_extensions("img.cover @src"), "img.cover");
    assert_eq!(strip_extensions("a@hrefx"), "a");
    assert_eq!(strip_extensions("a@title"), "a@title");
    assert_eq!(strip_extensions("td.even > a  "), "td.even > a");
    assert_eq!(strip_extensions("#list a@js:x@href"), "#list a");
}

#[test]
fn content_kinds() {
    assert_eq!(content_kind("img@src"), ContentKind::AttrSrc);
    assert_eq!(content_kind("option@value"), ContentKind::AttrValue);
    assert_eq!(content_kind("  meta[property=\"og:image\"]"), ContentKind::AttrContent);
    assert_eq!(content_kind("a@href@src"), ContentKind::AttrHref);
}

#[test]
fn xpath_detection() {
    assert!(requires_xpath("  (//div)[1]"));
    assert!(!requires_xpath(""));
    assert!(requires_xpath("/html/body@href"));
}
