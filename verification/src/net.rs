//! Request policy of the HTTP client: which failures are retried and after
//! how long, how failures and responses are reported, and which headers a
//! request carries. The transfers themselves happen outside the library.

use vstd::prelude::*;

use crate::config::Config;
use crate::dom::{url_host, url_parse_outcome, url_scheme, BaseUrl};
use crate::error::Error;
use crate::text::{
    blank, cat, chars_of, contains, contains_chars, is_blank, lower_chars, number_text, to_lower,
    trim, trimmed,
};

verus! {

/// Extra attempts after the first try for transient network failures.
pub const DEFAULT_RETRIES: u32 = 2;

/// Base delay between attempts, multiplied by the attempt number.
pub const RETRY_BASE_DELAY_MS: u64 = 400;

/// Some pattern of `pats` occurs in `s`.
pub open spec fn contains_any(s: Seq<char>, pats: Seq<Seq<char>>) -> bool {
    exists|j: int| 0 <= j < pats.len() && contains(s, #[trigger] pats[j])
}

fn contains_any_of(s: &[char], pats: &[&str]) -> (r: bool)
    ensures
        r == contains_any(s@, crate::support::strs_view(pats@)),
{
    let ghost ps = crate::support::strs_view(pats@);
    let mut j: usize = 0;
    while j < pats.len()
        invariant
            ps == crate::support::strs_view(pats@),
            j <= pats@.len(),
            forall|k: int| 0 <= k < j ==> !contains(s@, #[trigger] ps[k]),
        decreases pats.len() - j,
    {
        let p = chars_of(pats[j]);
        assert(ps[j as int] == pats@[j as int]@);
        if contains_chars(s, p.as_slice()) {
            return true;
        }
        j += 1;
    }
    false
}

/// Markers of a transient failure in an HTTP error message (lower case).
pub open spec fn retry_markers() -> Seq<Seq<char>> {
    seq![
        "超时"@,
        "timeout"@,
        "无法连接"@,
        "connect"@,
        "发送失败"@,
        "connection reset"@,
        "connection refused"@,
        "dns"@,
        "tls"@,
        "ssl"@,
        "broken pipe"@,
        "end of file"@,
        "error sending request"@,
    ]
}

/// Whether a failure is worth another attempt.
pub open spec fn retryable(e: Error) -> bool {
    match e {
        Error::Http(m) => contains_any(to_lower(m@), retry_markers()),
        _ => false,
    }
}

/// Whether a failure is worth another attempt: HTTP failures whose message
/// mentions a timeout, a connection, DNS or TLS trouble.
pub fn is_retryable(err: &Error) -> (r: bool)
    ensures
        r == retryable(*err),
{
    match err {
        Error::Http(msg) => {
            let m = chars_of(msg.as_str());
            let lower = lower_chars(m.as_slice());
            let pats: [&str; 13] = [
                "超时",
                "timeout",
                "无法连接",
                "connect",
                "发送失败",
                "connection reset",
                "connection refused",
                "dns",
                "tls",
                "ssl",
                "broken pipe",
                "end of file",
                "error sending request",
            ];
            assert(crate::support::strs_view(pats@) =~= retry_markers());
            contains_any_of(lower.as_slice(), pats.as_slice())
        },
        _ => false,
    }
}

/// Markers of an unreachable site in an error chain (lower case).
pub open spec fn unreachable_markers() -> Seq<Seq<char>> {
    seq![
        "error sending request"@,
        "connection refused"@,
        "connection reset"@,
        "network is unreachable"@,
        "no route to host"@,
        "name or service not known"@,
        "failed to lookup"@,
        "dns"@,
        "timed out"@,
        "timeout"@,
        "tls handshake"@,
        "certificate"@,
    ]
}

/// Whether an error chain suggests the site could not be reached.
pub fn detail_suggests_unreachable(detail: &str) -> (r: bool)
    ensures
        r == contains_any(to_lower(detail@), unreachable_markers()),
{
    let d = chars_of(detail);
    let lower = lower_chars(d.as_slice());
    let pats: [&str; 12] = [
        "error sending request",
        "connection refused",
        "connection reset",
        "network is unreachable",
        "no route to host",
        "name or service not known",
        "failed to lookup",
        "dns",
        "timed out",
        "timeout",
        "tls handshake",
        "certificate",
    ];
    assert(crate::support::strs_view(pats@) =~= unreachable_markers());
    contains_any_of(lower.as_slice(), pats.as_slice())
}

/// The user-facing message of a failed transfer.
pub open spec fn request_failure_message(
    is_timeout: bool,
    is_connect: bool,
    is_request: bool,
    detail: Seq<char>,
    url: Seq<char>,
) -> Seq<char> {
    let unreachable = contains_any(to_lower(detail), unreachable_markers());
    if is_timeout || (unreachable && contains(to_lower(detail), "timed out"@)) {
        "请求超时 · "@ + url + "\n原因："@ + detail
            + "\n提示：站点可能不可达、被墙、限流或暂时维护。可稍后重试、换书源，或在 config.toml 启用 [proxy]"@
    } else if is_connect || unreachable {
        "无法连接 · "@ + url + "\n原因："@ + detail
            + "\n提示：检查网络/DNS/防火墙；部分书源对 IP 有要求（见 so-novel 书源说明），可尝试代理或更换书源"@
    } else if is_request {
        "请求发送失败 · "@ + url + "\n原因："@ + detail
            + "\n提示：可能是 TLS/协议不兼容或网络中断，程序会自动重试；仍失败请换书源或开代理"@
    } else {
        "HTTP 失败 · "@ + url + "\n原因："@ + detail
    }
}

fn framed(head: &str, url: &str, detail: &str, tail: &str) -> (r: String)
    ensures
        r@ == head@ + url@ + "\n原因："@ + detail@ + tail@,
{
    let a = cat(head, url);
    let b = cat(a.as_str(), "\n原因：");
    let c = cat(b.as_str(), detail);
    cat(c.as_str(), tail)
}

/// Classifies a failed transfer from what the HTTP stack reported (timeout,
/// connect and request flags, and the error chain's text) into a message.
pub fn map_request_error(
    is_timeout: bool,
    is_connect: bool,
    is_request: bool,
    detail: &str,
    url: &str,
) -> (e: Error)
    ensures
        e matches Error::Http(m) && m@ == request_failure_message(
            is_timeout,
            is_connect,
            is_request,
            detail@,
            url@,
        ),
{
    let looks_unreachable = detail_suggests_unreachable(detail);
    let d = chars_of(detail);
    let lower = lower_chars(d.as_slice());
    let timed_out = contains_chars(lower.as_slice(), chars_of("timed out").as_slice());
    if is_timeout || (looks_unreachable && timed_out) {
        return Error::Http(
            framed(
                "请求超时 · ",
                url,
                detail,
                "\n提示：站点可能不可达、被墙、限流或暂时维护。可稍后重试、换书源，或在 config.toml 启用 [proxy]",
            ),
        );
    }
    if is_connect || looks_unreachable {
        return Error::Http(
            framed(
                "无法连接 · ",
                url,
                detail,
                "\n提示：检查网络/DNS/防火墙；部分书源对 IP 有要求（见 so-novel 书源说明），可尝试代理或更换书源",
            ),
        );
    }
    if is_request {
        return Error::Http(
            framed(
                "请求发送失败 · ",
                url,
                detail,
                "\n提示：可能是 TLS/协议不兼容或网络中断，程序会自动重试；仍失败请换书源或开代理",
            ),
        );
    }
    let a = cat("HTTP 失败 · ", url);
    let b = cat(a.as_str(), "\n原因：");
    Error::Http(cat(b.as_str(), detail))
}

/// The error chain's messages joined with ` ← `, the outermost one cut
/// before any ` for url ` suffix.
pub open spec fn error_chain_text(parts: Seq<Seq<char>>) -> Seq<char> {
    if parts.len() == 0 {
        Seq::empty()
    } else {
        let first = match crate::text::find(parts[0], " for url "@) {
            Some(i) => parts[0].take(i),
            None => parts[0],
        };
        crate::text::join(parts.update(0, first), " ← "@)
    }
}

/// Joins the messages of an error and its sources, outermost first.
pub fn join_error_chain(parts: &Vec<String>) -> (r: String)
    ensures
        r@ == error_chain_text(crate::toc::strings_view(parts@)),
{
    let ghost ps = crate::toc::strings_view(parts@);
    if parts.len() == 0 {
        return String::new();
    }
    let p0 = chars_of(parts[0].as_str());
    let marker = chars_of(" for url ");
    let first = match crate::text::find_in(p0.as_slice(), marker.as_slice()) {
        Some(i) => crate::text::slice_of(p0.as_slice(), 0, i),
        None => crate::text::slice_of(p0.as_slice(), 0, p0.len()),
    };
    assert(p0@.subrange(0, p0@.len() as int) =~= p0@);
    let ghost items = ps.update(0, first@);
    let sep = chars_of(" ← ");
    let mut out = first;
    let mut i: usize = 1;
    assert(items.take(1) =~= seq![first@]);
    while i < parts.len()
        invariant
            ps == crate::toc::strings_view(parts@),
            items == ps.update(0, first@),
            sep@ == " ← "@,
            1 <= i <= parts@.len(),
            out@ == crate::text::join(items.take(i as int), " ← "@),
        decreases parts.len() - i,
    {
        let part = chars_of(parts[i].as_str());
        assert(items[i as int] == part@);
        crate::text::push_all(&mut out, sep.as_slice());
        crate::text::push_all(&mut out, part.as_slice());
        proof {
            assert(items.take(i + 1).drop_last() =~= items.take(i as int));
            assert(items.take(i + 1).last() == part@);
        }
        i += 1;
    }
    assert(items.take(parts@.len() as int) =~= items);
    crate::text::string_of(out.as_slice())
}

/// The delay before the next attempt, or `None` to stop: stop on failures
/// that are not transient and after the last attempt; otherwise wait
/// `RETRY_BASE_DELAY_MS` times the attempt number.
pub fn retry_delay(attempt: u32, attempts: u32, err: &Error) -> (r: Option<u64>)
    ensures
        if !retryable(*err) || attempt == attempts {
            r is None
        } else {
            r == Some((RETRY_BASE_DELAY_MS * attempt) as u64)
        },
{
    if !is_retryable(err) || attempt == attempts {
        None
    } else {
        Some(RETRY_BASE_DELAY_MS * (attempt as u64))
    }
}

/// The per-request timeout in seconds: at least one.
pub fn request_timeout(timeout_secs: u64) -> (r: u64)
    ensures
        r == if timeout_secs >= 1 {
            timeout_secs
        } else {
            1
        },
{
    if timeout_secs >= 1 {
        timeout_secs
    } else {
        1
    }
}

/// Accepts a response body: a failure status or a blank body is an error.
pub fn check_response(status_ok: bool, status: &str, final_url: &str, body: String) -> (res: Result<
    String,
    Error,
>)
    ensures
        !status_ok ==> (res matches Err(Error::Http(m)) && m@ == "HTTP "@ + status@ + " · "@
            + final_url@ + "\n提示：站点可能限流、维护或拒绝访问，可稍后重试或换书源"@),
        status_ok && is_blank(body@) ==> (res matches Err(Error::Http(m)) && m@ == "响应为空 · "@
            + final_url@ + "\n提示：可能被反爬或搜索限流"@),
        status_ok && !is_blank(body@) ==> res == Ok::<String, Error>(body),
{
    if !status_ok {
        let a = cat(cat("HTTP ", status).as_str(), " · ");
        let b = cat(a.as_str(), final_url);
        return Err(Error::Http(cat(b.as_str(), "\n提示：站点可能限流、维护或拒绝访问，可稍后重试或换书源")));
    }
    if blank(body.as_str()) {
        let a = cat("响应为空 · ", final_url);
        return Err(Error::Http(cat(a.as_str(), "\n提示：可能被反爬或搜索限流")));
    }
    Ok(body)
}

/// The proxy URL a config asks for, if the proxy is enabled.
pub fn proxy_url(config: &Config) -> (r: Option<String>)
    ensures
        config.proxy.enabled ==> (r matches Some(u) && u@ == "http://"@ + trim(config.proxy.host@)
            + ":"@ + crate::text::decimal(config.proxy.port as nat)),
        !config.proxy.enabled ==> r is None,
{
    if !config.proxy.enabled {
        return None;
    }
    let host = trimmed(config.proxy.host.as_str());
    let a = cat(cat("http://", host.as_str()).as_str(), ":");
    Some(cat(a.as_str(), number_text(config.proxy.port as u64).as_str()))
}

/// The headers every request carries, apart from the user agent.
pub open spec fn fixed_headers(is_post: bool) -> Seq<(Seq<char>, Seq<char>)> {
    seq![
        ("accept"@, "text/html,application/xhtml+xml,application/xml;q=0.9,image/avif,image/webp,*/*;q=0.8"@),
        ("accept-language"@, "zh-CN,zh;q=0.9,en;q=0.8"@),
        ("connection"@, "keep-alive"@),
        ("cache-control"@, "no-cache"@),
        ("upgrade-insecure-requests"@, "1"@),
        ("sec-fetch-dest"@, "document"@),
        ("sec-fetch-mode"@, "navigate"@),
        ("sec-fetch-site"@, if is_post { "same-origin"@ } else { "none"@ }),
        ("sec-ch-ua"@, "\"Chromium\";v=\"131\", \"Not_A Brand\";v=\"24\""@),
        ("sec-ch-ua-mobile"@, "?0"@),
        ("sec-ch-ua-platform"@, "\"Windows\""@),
    ]
}

/// `Referer` (and for a POST, `Origin`) headers: the request URL's scheme
/// and host, when the URL parses.
pub open spec fn origin_headers(url: Seq<char>, is_post: bool) -> Seq<(Seq<char>, Seq<char>)> {
    match url_parse_outcome(url) {
        Err(_) => seq![],
        Ok(t) => {
            let origin = url_scheme(t) + "://"@ + match url_host(t) {
                Some(h) => h,
                None => Seq::empty(),
            };
            if is_post {
                seq![("referer"@, origin), ("origin"@, origin)]
            } else {
                seq![("referer"@, origin)]
            }
        },
    }
}

/// The `Cookie` header, when cookies are given and not blank.
pub open spec fn cookie_headers(cookies: Option<Seq<char>>) -> Seq<(Seq<char>, Seq<char>)> {
    match cookies {
        Some(c) => if is_blank(c) {
            seq![]
        } else {
            seq![("cookie"@, trim(c))]
        },
        None => seq![],
    }
}

fn header(name: &str, value: &str) -> (r: (String, String))
    ensures
        r.0@ == name@,
        r.1@ == value@,
{
    (name.to_owned(), value.to_owned())
}

/// The headers of a request to `url`, in insertion order, with the given
/// user agent (picked by the caller).
pub fn request_headers(url: &str, is_post: bool, cookies: Option<&str>, user_agent: &str) -> (r: Vec<
    (String, String),
>)
    ensures
        crate::form_data::fields_view(r@) == fixed_headers(is_post) + seq![
            ("user-agent"@, user_agent@),
        ] + origin_headers(url@, is_post) + cookie_headers(
            match cookies {
                Some(c) => Some(c@),
                None => None,
            },
        ),
{
    let mut h: Vec<(String, String)> = Vec::new();
    h.push(header("accept", "text/html,application/xhtml+xml,application/xml;q=0.9,image/avif,image/webp,*/*;q=0.8"));
    h.push(header("accept-language", "zh-CN,zh;q=0.9,en;q=0.8"));
    h.push(header("connection", "keep-alive"));
    h.push(header("cache-control", "no-cache"));
    h.push(header("upgrade-insecure-requests", "1"));
    h.push(header("sec-fetch-dest", "document"));
    h.push(header("sec-fetch-mode", "navigate"));
    h.push(header("sec-fetch-site", if is_post { "same-origin" } else { "none" }));
    h.push(header("sec-ch-ua", "\"Chromium\";v=\"131\", \"Not_A Brand\";v=\"24\""));
    h.push(header("sec-ch-ua-mobile", "?0"));
    h.push(header("sec-ch-ua-platform", "\"Windows\""));
    assert(crate::form_data::fields_view(h@) =~= fixed_headers(is_post));
    h.push(header("user-agent", user_agent));
    let ghost fixed = fixed_headers(is_post) + seq![("user-agent"@, user_agent@)];
    assert(crate::form_data::fields_view(h@) =~= fixed);
    let ghost cookie_view = match cookies {
        Some(c) => Some(c@),
        None => None,
    };
    if let Ok(parsed) = BaseUrl::parse(url) {
        let scheme = parsed.scheme();
        let host = match parsed.host() {
            Some(x) => x,
            None => String::new(),
        };
        let origin = cat(cat(scheme.as_str(), "://").as_str(), host.as_str());
        let ghost before = crate::form_data::fields_view(h@);
        h.push(header("referer", origin.as_str()));
        if is_post {
            h.push(header("origin", origin.as_str()));
        }
        assert(crate::form_data::fields_view(h@) =~= before + origin_headers(url@, is_post));
    } else {
        assert(origin_headers(url@, is_post) =~= Seq::<(Seq<char>, Seq<char>)>::empty());
        assert(crate::form_data::fields_view(h@) =~= fixed + origin_headers(url@, is_post));
    }
    let ghost mid = crate::form_data::fields_view(h@);
    assert(mid == fixed + origin_headers(url@, is_post));
    match cookies {
        Some(c) => {
            let t = trimmed(c);
            if t.as_str().unicode_len() > 0 {
                h.push(header("cookie", t.as_str()));
                assert(crate::form_data::fields_view(h@) =~= mid + cookie_headers(cookie_view));
            } else {
                assert(crate::form_data::fields_view(h@) =~= mid + cookie_headers(cookie_view));
            }
        },
        None => {
            assert(crate::form_data::fields_view(h@) =~= mid + cookie_headers(cookie_view));
        },
    }
    h
}

} // verus!
