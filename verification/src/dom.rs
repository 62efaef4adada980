//! Parsed HTML documents, CSS selectors and base URLs, as the library sees
//! them.
//!
//! Parsing HTML, matching CSS selectors and resolving URLs is done by the
//! `scraper` and `url` crates. What they return is named here as a function
//! of the document text, the location of an element and the selector text:
//! an element found as the `i`-th match of selector `c` under the element at
//! location `loc` has location `loc.push((c, i))`; the document itself has
//! the empty location.

use vstd::prelude::*;

verus! {

#[verifier::external_type_specification]
#[verifier::external_body]
pub struct ExHtml(scraper::Html);

#[verifier::external_type_specification]
#[verifier::external_body]
pub struct ExSelector(scraper::Selector);

#[verifier::external_type_specification]
#[verifier::external_body]
pub struct ExElementRef<'a>(scraper::ElementRef<'a>);

#[verifier::external_type_specification]
#[verifier::external_body]
pub struct ExUrl(url::Url);

/// A step of an element location: the selector text and the match index.
pub type Loc = Seq<(Seq<char>, nat)>;

/// `Selector::parse(css)`: `Ok` when the selector is accepted, else the
/// error's text.
pub uninterp spec fn css_parse_outcome(css: Seq<char>) -> Result<(), Seq<char>>;

/// The number of elements that `Html::select` yields for selector `css` on
/// the document parsed from `src`.
pub uninterp spec fn document_matches(src: Seq<char>, css: Seq<char>) -> nat;

/// The number of elements that `ElementRef::select` yields for selector
/// `css` under the element at `loc` of the document parsed from `src`.
pub uninterp spec fn element_matches(src: Seq<char>, loc: Loc, css: Seq<char>) -> nat;

/// The text nodes under the element at `loc`, concatenated.
pub uninterp spec fn element_text(src: Seq<char>, loc: Loc) -> Seq<char>;

/// The serialized HTML of the element at `loc` (`ElementRef::html`).
pub uninterp spec fn element_html(src: Seq<char>, loc: Loc) -> Seq<char>;

/// The value of attribute `name` on the element at `loc`.
pub uninterp spec fn element_attr(src: Seq<char>, loc: Loc, name: Seq<char>) -> Option<Seq<char>>;

/// `Url::parse(s)`: the serialization of the parsed URL, or the error's text.
pub uninterp spec fn url_parse_outcome(s: Seq<char>) -> Result<Seq<char>, Seq<char>>;

/// `Url::join`: the serialization of `input` resolved against the URL
/// serialized as `base`, or `None` when it cannot be resolved.
pub uninterp spec fn url_join_outcome(base: Seq<char>, input: Seq<char>) -> Option<Seq<char>>;

/// `Html::parse_document` builds the document tree of an HTML text; the
/// tree is opaque here, so nothing is claimed of it.
pub assume_specification[scraper::Html::parse_document](document: &str) -> (r: scraper::Html);

/// A compiled CSS selector and its text.
pub struct Css {
    selector: scraper::Selector,
    text: String,
}

impl Css {
    /// The selector's text.
    pub closed spec fn text_view(&self) -> Seq<char> {
        self.text@
    }

    /// Compiles a selector (`Selector::parse`).
    #[verifier::external_body]
    pub(crate) fn parse(css: &str) -> (r: Result<Css, String>)
        ensures
            match css_parse_outcome(css@) {
                Ok(_) => r matches Ok(c) && c.text_view() == css@,
                Err(m) => r matches Err(x) && x@ == m,
            },
    {
        match scraper::Selector::parse(css) {
            Ok(selector) => Ok(Css { selector, text: css.to_string() }),
            Err(err) => Err(err.to_string()),
        }
    }
}

/// A parsed HTML document and the text it was parsed from.
pub struct Document {
    html: scraper::Html,
    source: String,
}

impl Document {
    /// The text the document was parsed from.
    pub closed spec fn source_view(&self) -> Seq<char> {
        self.source@
    }

    /// Parses a full HTML document.
    pub fn parse(html: &str) -> (d: Document)
        ensures
            d.source_view() == html@,
    {
        Document { html: scraper::Html::parse_document(html), source: html.to_string() }
    }
}

/// One step of an element's location.
#[derive(Debug, Clone)]
pub struct Step {
    pub css: String,
    pub index: usize,
}

/// The location of a path of steps.
pub open spec fn loc_of(path: Seq<Step>) -> Loc {
    path.map_values(|s: Step| (s.css@, s.index as nat))
}

/// An element of a parsed document, with its location.
pub struct Element<'a> {
    element: scraper::ElementRef<'a>,
    doc: &'a Document,
    path: Vec<Step>,
}

impl<'a> Element<'a> {
    /// The text of the document the element belongs to.
    pub closed spec fn src(&self) -> Seq<char> {
        self.doc.source_view()
    }

    /// The element's location in its document.
    pub closed spec fn loc(&self) -> Loc {
        loc_of(self.path@)
    }

    /// The descendants matching `css`, in document order
    /// (`ElementRef::select`).
    #[verifier::external_body]
    pub(crate) fn select(&self, css: &Css) -> (r: Vec<Element<'a>>)
        ensures
            r@.len() == element_matches(self.src(), self.loc(), css.text_view()),
            forall|i: int|
                0 <= i < r@.len() ==> #[trigger] r@[i].src() == self.src() && r@[i].loc()
                    == self.loc().push((css.text_view(), i as nat)),
    {
        self.element.select(&css.selector).enumerate().map(|(i, e)| {
            let mut path = self.path.clone();
            path.push(Step { css: css.text.clone(), index: i });
            Element { element: e, doc: self.doc, path }
        }).collect()
    }

    /// The element's text nodes, concatenated (`ElementRef::text`).
    #[verifier::external_body]
    pub(crate) fn text(&self) -> (r: String)
        ensures
            r@ == element_text(self.src(), self.loc()),
    {
        self.element.text().collect()
    }

    /// The element's serialized HTML (`ElementRef::html`).
    #[verifier::external_body]
    pub(crate) fn html(&self) -> (r: String)
        ensures
            r@ == element_html(self.src(), self.loc()),
    {
        self.element.html()
    }

    /// The value of an attribute (`ElementRef::attr`).
    #[verifier::external_body]
    pub(crate) fn attr(&self, name: &str) -> (r: Option<String>)
        ensures
            match element_attr(self.src(), self.loc(), name@) {
                Some(v) => r matches Some(x) && x@ == v,
                None => r is None,
            },
    {
        self.element.attr(name).map(|v| v.to_string())
    }
}

impl Document {
    /// The elements matching `css`, in document order (`Html::select`).
    #[verifier::external_body]
    pub(crate) fn select<'a>(&'a self, css: &Css) -> (r: Vec<Element<'a>>)
        ensures
            r@.len() == document_matches(self.source_view(), css.text_view()),
            forall|i: int|
                0 <= i < r@.len() ==> #[trigger] r@[i].src() == self.source_view() && r@[i].loc()
                    == seq![(css.text_view(), i as nat)],
    {
        self.html.select(&css.selector).enumerate().map(|(i, e)| Element {
            element: e,
            doc: self,
            path: vec![Step { css: css.text.clone(), index: i }],
        }).collect()
    }
}

/// A parsed absolute URL and its serialization.
pub struct BaseUrl {
    url: url::Url,
    text: String,
}

impl BaseUrl {
    /// The URL's serialization.
    pub closed spec fn text_view(&self) -> Seq<char> {
        self.text@
    }

    /// Parses an absolute URL (`Url::parse`).
    #[verifier::external_body]
    pub(crate) fn parse(s: &str) -> (r: Result<BaseUrl, String>)
        ensures
            match url_parse_outcome(s@) {
                Ok(t) => r matches Ok(u) && u.text_view() == t,
                Err(m) => r matches Err(x) && x@ == m,
            },
    {
        match url::Url::parse(s) {
            Ok(url) => {
                let text = url.as_str().to_string();
                Ok(BaseUrl { url, text })
            },
            Err(err) => Err(err.to_string()),
        }
    }

    /// Parses an absolute URL; one that cannot be parsed is reported as
    /// `InvalidUrl` with the input and the parser's message.
    pub fn new(s: &str) -> (r: Result<BaseUrl, crate::error::Error>)
        ensures
            match url_parse_outcome(s@) {
                Ok(t) => r matches Ok(u) && u.text_view() == t,
                Err(m) => r matches Err(crate::error::Error::InvalidUrl(x)) && x@ == s@ + ": "@ + m,
            },
    {
        match BaseUrl::parse(s) {
            Ok(u) => Ok(u),
            Err(m) => Err(crate::error::Error::InvalidUrl(crate::text::cat(crate::text::cat(s, ": ").as_str(), m.as_str()))),
        }
    }

    /// The URL's serialization.
    pub fn as_str(&self) -> (r: &str)
        ensures
            r@ == self.text_view(),
    {
        self.text.as_str()
    }

    /// Resolves `input` against this URL (`Url::join`), as text.
    #[verifier::external_body]
    pub(crate) fn join(&self, input: &str) -> (r: Option<String>)
        ensures
            match url_join_outcome(self.text_view(), input@) {
                Some(v) => r matches Some(x) && x@ == v,
                None => r is None,
            },
    {
        self.url.join(input).ok().map(String::from)
    }
}

#[verifier::external_type_specification]
#[verifier::external_body]
pub struct ExRegex(regex::Regex);

/// `Regex::new(p)` succeeds.
pub uninterp spec fn regex_compiles(p: Seq<char>) -> bool;

/// The text of capture group 1 of the first match of regex `p` in `text`
/// (`Regex::captures` then `get(1)`).
pub uninterp spec fn regex_first_group(p: Seq<char>, text: Seq<char>) -> Option<Seq<char>>;

/// A compiled regular expression and its source.
pub struct Pattern {
    re: regex::Regex,
    text: String,
}

impl Pattern {
    /// The pattern's source text.
    pub closed spec fn text_view(&self) -> Seq<char> {
        self.text@
    }

    /// Compiles a regular expression (`Regex::new`).
    #[verifier::external_body]
    pub(crate) fn new(p: &str) -> (r: Option<Pattern>)
        ensures
            match r {
                Some(x) => regex_compiles(p@) && x.text_view() == p@,
                None => !regex_compiles(p@),
            },
    {
        regex::Regex::new(p).ok().map(|re| Pattern { re, text: p.to_string() })
    }

    /// Capture group 1 of the first match in `text`.
    #[verifier::external_body]
    pub(crate) fn first_group(&self, text: &str) -> (r: Option<String>)
        ensures
            match regex_first_group(self.text_view(), text@) {
                Some(g) => r matches Some(x) && x@ == g,
                None => r is None,
            },
    {
        self.re.captures(text).and_then(|c| c.get(1)).map(|m| m.as_str().to_string())
    }
}

/// An ASCII letter or digit.
pub open spec fn is_ascii_alnum(c: char) -> bool {
    ('0' <= c && c <= '9') || ('A' <= c && c <= 'Z') || ('a' <= c && c <= 'z')
}

/// The UTF-8 encoding of `c`.
pub open spec fn utf8_bytes(c: char) -> Seq<u8> {
    let n = c as int;
    if n < 0x80 {
        seq![n as u8]
    } else if n < 0x800 {
        seq![(0xC0 + n / 64) as u8, (0x80 + n % 64) as u8]
    } else if n < 0x10000 {
        seq![(0xE0 + n / 4096) as u8, (0x80 + (n / 64) % 64) as u8, (0x80 + n % 64) as u8]
    } else {
        seq![
            (0xF0 + n / 262144) as u8,
            (0x80 + (n / 4096) % 64) as u8,
            (0x80 + (n / 64) % 64) as u8,
            (0x80 + n % 64) as u8,
        ]
    }
}

/// The upper-case hexadecimal digit of `d`, for `d` below 16.
pub open spec fn hex_upper(d: int) -> char {
    seq!['0', '1', '2', '3', '4', '5', '6', '7', '8', '9', 'A', 'B', 'C', 'D', 'E', 'F'][d]
}

/// Each byte written as `%` and two upper-case hexadecimal digits.
pub open spec fn escaped_bytes(bs: Seq<u8>) -> Seq<char>
    decreases bs.len(),
{
    if bs.len() == 0 {
        seq![]
    } else {
        seq!['%', hex_upper(bs[0] as int / 16), hex_upper(bs[0] as int % 16)] + escaped_bytes(
            bs.drop_first(),
        )
    }
}

/// `s` with every character that is not an ASCII letter or digit replaced
/// by the percent-escapes of its UTF-8 bytes.
pub open spec fn percent_encoded(s: Seq<char>) -> Seq<char>
    decreases s.len(),
{
    if s.len() == 0 {
        seq![]
    } else {
        (if is_ascii_alnum(s[0]) {
            seq![s[0]]
        } else {
            escaped_bytes(utf8_bytes(s[0]))
        }) + percent_encoded(s.drop_first())
    }
}

/// Percent-encodes every byte of the UTF-8 form of `s` that is not an ASCII
/// letter or digit (`utf8_percent_encode` with `NON_ALPHANUMERIC`, whose
/// bytes it escapes as `%XX` in upper-case hexadecimal; every non-ASCII byte
/// is escaped).
#[verifier::external_body]
pub(crate) fn percent_encode(s: &str) -> (r: String)
    ensures
        r@ == percent_encoded(s@),
{
    percent_encoding::utf8_percent_encode(s, percent_encoding::NON_ALPHANUMERIC).to_string()
}

/// The scheme of the URL serialized as `url` (`Url::scheme`): a URL's
/// serialization starts with its scheme and a `:`, and the scheme holds no
/// `:`, so the scheme is the text before the first `:`.
pub open spec fn url_scheme(url: Seq<char>) -> Seq<char> {
    match crate::text::find(url, ":"@) {
        Some(i) => url.take(i),
        None => url,
    }
}

/// The host of the URL serialized as `url`, if any (`Url::host_str`).
pub uninterp spec fn url_host(url: Seq<char>) -> Option<Seq<char>>;

impl BaseUrl {
    /// The URL's scheme (`Url::scheme`), the part of its serialization
    /// before the first `:`.
    #[verifier::external_body]
    pub(crate) fn scheme(&self) -> (r: String)
        ensures
            r@ == url_scheme(self.text_view()),
    {
        self.url.scheme().to_string()
    }

    /// The URL's host, if any.
    #[verifier::external_body]
    pub(crate) fn host(&self) -> (r: Option<String>)
        ensures
            match url_host(self.text_view()) {
                Some(h) => r matches Some(x) && x@ == h,
                None => r is None,
            },
    {
        self.url.host_str().map(|h| h.to_string())
    }
}

} // verus!
