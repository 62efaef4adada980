//! Application configuration: typed sections, defaults and validation.
//!
//! Reading and decoding `config.toml` happens outside the library; the
//! loader here receives what was found on disk and decides the outcome.

use vstd::prelude::*;

use crate::error::Error;

verus! {

/// Root configuration document.
#[derive(Debug, Clone, PartialEq)]
pub struct Config {
    pub app: AppSection,
    pub download: DownloadSection,
    pub source: SourceSection,
    pub crawl: CrawlSection,
    pub proxy: ProxySection,
    pub cookie: CookieSection,
}

#[derive(Debug, Clone, PartialEq)]
pub struct AppSection {
    pub auto_update: bool,
    pub gh_proxy: String,
    pub cf_bypass: String,
}

#[derive(Debug, Clone, PartialEq)]
pub struct DownloadSection {
    pub path: String,
    pub format: DownloadFormat,
    pub txt_encoding: String,
    pub preserve_chapter_cache: bool,
}

/// Supported export formats.
#[derive(Debug, Clone, Copy, PartialEq, Eq)]
pub enum DownloadFormat {
    Txt,
    Epub,
    Html,
    Pdf,
}

#[derive(Debug, Clone, PartialEq)]
pub struct SourceSection {
    /// Empty means auto-detect later.
    pub language: String,
    pub active_rules: String,
    /// `0` means unset.
    pub source_id: u32,
    /// `0` means unlimited.
    pub search_limit: u32,
    pub search_filter: bool,
}

#[derive(Debug, Clone, PartialEq)]
pub struct CrawlSection {
    /// `0` means automatic concurrency.
    pub concurrency: u32,
    pub min_interval_ms: u64,
    pub max_interval_ms: u64,
    pub retry: bool,
    pub max_retries: u32,
    pub retry_min_interval_ms: u64,
    pub retry_max_interval_ms: u64,
}

#[derive(Debug, Clone, PartialEq)]
pub struct ProxySection {
    pub enabled: bool,
    pub host: String,
    pub port: u16,
}

#[derive(Debug, Clone, PartialEq)]
pub struct CookieSection {
    pub qidian: String,
}

impl Default for AppSection {
    fn default() -> (r: Self)
        ensures
            !r.auto_update,
            r.gh_proxy@ == Seq::<char>::empty(),
            r.cf_bypass@ == Seq::<char>::empty(),
    {
        AppSection { auto_update: false, gh_proxy: String::new(), cf_bypass: String::new() }
    }
}

impl Default for DownloadFormat {
    fn default() -> (r: Self)
        ensures
            r == DownloadFormat::Epub,
    {
        DownloadFormat::Epub
    }
}

impl Default for DownloadSection {
    fn default() -> (r: Self)
        ensures
            r.path@ == "downloads"@,
            r.format == DownloadFormat::Epub,
            r.txt_encoding@ == "UTF-8"@,
            !r.preserve_chapter_cache,
    {
        DownloadSection {
            path: "downloads".to_string(),
            format: DownloadFormat::Epub,
            txt_encoding: "UTF-8".to_string(),
            preserve_chapter_cache: false,
        }
    }
}

impl Default for SourceSection {
    fn default() -> (r: Self)
        ensures
            r.language@ == Seq::<char>::empty(),
            r.active_rules@ == "main.json"@,
            r.source_id == 0,
            r.search_limit == 30,
            r.search_filter,
    {
        SourceSection {
            language: String::new(),
            active_rules: "main.json".to_string(),
            source_id: 0,
            search_limit: 30,
            search_filter: true,
        }
    }
}

impl Default for CrawlSection {
    fn default() -> (r: Self)
        ensures
            r.concurrency == 0,
            r.min_interval_ms == 200,
            r.max_interval_ms == 400,
            r.retry,
            r.max_retries == 3,
            r.retry_min_interval_ms == 2000,
            r.retry_max_interval_ms == 4000,
    {
        CrawlSection {
            concurrency: 0,
            min_interval_ms: 200,
            max_interval_ms: 400,
            retry: true,
            max_retries: 3,
            retry_min_interval_ms: 2000,
            retry_max_interval_ms: 4000,
        }
    }
}

impl Default for ProxySection {
    fn default() -> (r: Self)
        ensures
            !r.enabled,
            r.host@ == "127.0.0.1"@,
            r.port == 7890,
    {
        ProxySection { enabled: false, host: "127.0.0.1".to_string(), port: 7890 }
    }
}

impl Default for CookieSection {
    fn default() -> (r: Self)
        ensures
            r.qidian@ == Seq::<char>::empty(),
    {
        CookieSection { qidian: String::new() }
    }
}

/// The built-in settings used when no config file exists.
pub open spec fn is_default_config(c: Config) -> bool {
    &&& !c.app.auto_update
    &&& c.app.gh_proxy@ == Seq::<char>::empty()
    &&& c.app.cf_bypass@ == Seq::<char>::empty()
    &&& c.download.path@ == "downloads"@
    &&& c.download.format == DownloadFormat::Epub
    &&& c.download.txt_encoding@ == "UTF-8"@
    &&& !c.download.preserve_chapter_cache
    &&& c.source.language@ == Seq::<char>::empty()
    &&& c.source.active_rules@ == "main.json"@
    &&& c.source.source_id == 0
    &&& c.source.search_limit == 30
    &&& c.source.search_filter
    &&& c.crawl.concurrency == 0
    &&& c.crawl.min_interval_ms == 200
    &&& c.crawl.max_interval_ms == 400
    &&& c.crawl.retry
    &&& c.crawl.max_retries == 3
    &&& c.crawl.retry_min_interval_ms == 2000
    &&& c.crawl.retry_max_interval_ms == 4000
    &&& !c.proxy.enabled
    &&& c.proxy.host@ == "127.0.0.1"@
    &&& c.proxy.port == 7890
    &&& c.cookie.qidian@ == Seq::<char>::empty()
}

impl Default for Config {
    fn default() -> (r: Self)
        ensures
            is_default_config(r),
    {
        Config {
            app: AppSection::default(),
            download: DownloadSection::default(),
            source: SourceSection::default(),
            crawl: CrawlSection::default(),
            proxy: ProxySection::default(),
            cookie: CookieSection::default(),
        }
    }
}

/// The first cross-field constraint that `c` breaks, as its message.
pub open spec fn config_problem(c: Config) -> Option<Seq<char>> {
    if c.proxy.enabled && c.proxy.port == 0 {
        Some("proxy.enabled is true but proxy.port is 0"@)
    } else if c.crawl.max_interval_ms < c.crawl.min_interval_ms {
        Some("crawl.max_interval_ms must be >= min_interval_ms"@)
    } else if c.crawl.retry_max_interval_ms < c.crawl.retry_min_interval_ms {
        Some("crawl.retry_max_interval_ms must be >= retry_min_interval_ms"@)
    } else {
        None
    }
}

impl Config {
    /// Validates cross-field constraints after decoding.
    pub fn validate(&self) -> (res: Result<(), Error>)
        ensures
            match config_problem(*self) {
                None => res is Ok,
                Some(m) => res matches Err(Error::Message(x)) && x@ == m,
            },
    {
        self.download.format.validate()?;
        if self.proxy.enabled && self.proxy.port == 0 {
            return Err(Error::Message("proxy.enabled is true but proxy.port is 0".to_string()));
        }
        if self.crawl.max_interval_ms < self.crawl.min_interval_ms {
            return Err(
                Error::Message("crawl.max_interval_ms must be >= min_interval_ms".to_string()),
            );
        }
        if self.crawl.retry_max_interval_ms < self.crawl.retry_min_interval_ms {
            return Err(
                Error::Message(
                    "crawl.retry_max_interval_ms must be >= retry_min_interval_ms".to_string(),
                ),
            );
        }
        Ok(())
    }
}

impl DownloadFormat {
    /// Every format is accepted; an exporter may still refuse one later.
    fn validate(self) -> (res: Result<(), Error>)
        ensures
            res is Ok,
    {
        Ok(())
    }

    /// The lower-case name used in `config.toml`.
    pub fn as_str(self) -> (r: &'static str)
        ensures
            r@ == match self {
                DownloadFormat::Txt => "txt"@,
                DownloadFormat::Epub => "epub"@,
                DownloadFormat::Html => "html"@,
                DownloadFormat::Pdf => "pdf"@,
            },
    {
        match self {
            DownloadFormat::Txt => "txt",
            DownloadFormat::Epub => "epub",
            DownloadFormat::Html => "html",
            DownloadFormat::Pdf => "pdf",
        }
    }
}

/// Default config file name looked up in the working directory.
pub const DEFAULT_CONFIG_FILE: &'static str = "config.toml";

/// Which config path to load: the explicit path if one was given, else the
/// `NOVEL_BOOM_CONFIG` value when it is not blank, else `config.toml`.
pub fn resolve_config_path(override_path: Option<&str>, from_env: Option<&str>) -> (r: String)
    ensures
        r@ == match override_path {
            Some(p) => p@,
            None => match from_env {
                Some(e) => if !crate::text::is_blank(e@) {
                    e@
                } else {
                    "config.toml"@
                },
                None => "config.toml"@,
            },
        },
{
    if let Some(p) = override_path {
        return p.to_owned();
    }
    if let Some(e) = from_env {
        if !crate::text::blank(e) {
            return e.to_owned();
        }
    }
    DEFAULT_CONFIG_FILE.to_owned()
}

/// What the caller found when it looked for the config file.
pub enum ConfigSource {
    /// No file at the path.
    Missing,
    /// The file exists but could not be read; the I/O error's text.
    Unreadable(String),
    /// The file was read but is not a valid TOML config; the decoder's message.
    Malformed(String),
    /// The decoded document.
    Parsed(Config),
}

/// Loads the config found at `path`. A missing, unreadable, undecodable or
/// invalid file is an error.
pub fn load(path: &str, found: ConfigSource) -> (res: Result<Config, Error>)
    ensures
        match found {
            ConfigSource::Missing => res matches Err(Error::ConfigNotFound(p)) && p@ == path@,
            ConfigSource::Unreadable(m) => res matches Err(Error::Io(x)) && x@ == m@,
            ConfigSource::Malformed(m) => res matches Err(Error::InvalidConfig { path: p, message: x })
                && p@ == path@ && x@ == m@,
            ConfigSource::Parsed(c) => match config_problem(c) {
                None => res == Ok::<Config, Error>(c),
                Some(m) => res matches Err(Error::Message(x)) && x@ == m,
            },
        },
{
    match found {
        ConfigSource::Missing => Err(Error::ConfigNotFound(path.to_owned())),
        ConfigSource::Unreadable(m) => Err(Error::Io(m)),
        ConfigSource::Malformed(m) => Err(Error::InvalidConfig { path: path.to_owned(), message: m }),
        ConfigSource::Parsed(c) => {
            c.validate()?;
            Ok(c)
        },
    }
}

/// Loads the config if present; otherwise returns the built-in defaults.
/// A missing file is not an error; an invalid one still is.
pub fn load_or_default(path: &str, found: ConfigSource) -> (res: Result<Config, Error>)
    ensures
        match found {
            ConfigSource::Missing => res matches Ok(c) && is_default_config(c),
            ConfigSource::Unreadable(m) => res matches Err(Error::Io(x)) && x@ == m@,
            ConfigSource::Malformed(m) => res matches Err(Error::InvalidConfig { path: p, message: x })
                && p@ == path@ && x@ == m@,
            ConfigSource::Parsed(c) => match config_problem(c) {
                None => res == Ok::<Config, Error>(c),
                Some(m) => res matches Err(Error::Message(x)) && x@ == m,
            },
        },
{
    match found {
        ConfigSource::Missing => {
            let config = Config::default();
            proof {
                lemma_default_config_is_valid(config);
            }
            config.validate()?;
            Ok(config)
        },
        other => load(path, other),
    }
}

/// The built-in defaults pass validation.
pub proof fn lemma_default_config_is_valid(c: Config)
    requires
        is_default_config(c),
    ensures
        config_problem(c) is None,
{
}

} // verus!
