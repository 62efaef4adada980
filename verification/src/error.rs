//! Error values surfaced by the library.

use vstd::prelude::*;

use crate::text::cat;

verus! {

/// Domain and infrastructure errors. Paths and causes are carried as text.
#[derive(Debug, Clone)]
pub enum Error {
    ConfigNotFound(String),
    InvalidConfig { path: String, message: String },
    UnsupportedFormat(String),
    RulesNotFound(String),
    InvalidRules { path: String, message: String },
    SourceNotFound(u32),
    SourceDisabled(String),
    SearchNotSupported(String),
    UnsupportedFeature(String),
    InvalidSelector { selector: String, message: String },
    Http(String),
    InvalidUrl(String),
    Io(String),
    Message(String),
}


/// The text an error is shown with.
pub open spec fn error_text(e: Error) -> Seq<char> {
    match e {
        Error::ConfigNotFound(p) => "config file not found: "@ + p@,
        Error::InvalidConfig { path, message } => "invalid config at "@ + path@ + ": "@ + message@,
        Error::UnsupportedFormat(f) => "unsupported download format: "@ + f@,
        Error::RulesNotFound(p) => "rules file not found: "@ + p@,
        Error::InvalidRules { path, message } => "invalid rules at "@ + path@ + ": "@ + message@,
        Error::SourceNotFound(id) => "book source not found: id="@ + crate::text::decimal(id as nat),
        Error::SourceDisabled(n) => "book source is disabled: "@ + n@,
        Error::SearchNotSupported(n) => "book source does not support search: "@ + n@,
        Error::UnsupportedFeature(m) => "feature not supported yet: "@ + m@,
        Error::InvalidSelector { selector, message } => "invalid selector `"@ + selector@ + "`: "@
            + message@,
        Error::Http(m) => m@,
        Error::InvalidUrl(m) => "invalid URL: "@ + m@,
        Error::Io(m) => "I/O error: "@ + m@,
        Error::Message(m) => m@,
    }
}

impl Error {
    /// The text the error is shown with.
    pub fn message(&self) -> (r: String)
        ensures
            r@ == error_text(*self),
    {
        match self {
            Error::ConfigNotFound(p) => cat("config file not found: ", p.as_str()),
            Error::InvalidConfig { path, message } => cat(
                cat(cat("invalid config at ", path.as_str()).as_str(), ": ").as_str(),
                message.as_str(),
            ),
            Error::UnsupportedFormat(f) => cat("unsupported download format: ", f.as_str()),
            Error::RulesNotFound(p) => cat("rules file not found: ", p.as_str()),
            Error::InvalidRules { path, message } => cat(
                cat(cat("invalid rules at ", path.as_str()).as_str(), ": ").as_str(),
                message.as_str(),
            ),
            Error::SourceNotFound(id) => cat(
                "book source not found: id=",
                crate::text::number_text(*id as u64).as_str(),
            ),
            Error::SourceDisabled(n) => cat("book source is disabled: ", n.as_str()),
            Error::SearchNotSupported(n) => cat("book source does not support search: ", n.as_str()),
            Error::UnsupportedFeature(m) => cat("feature not supported yet: ", m.as_str()),
            Error::InvalidSelector { selector, message } => cat(
                cat(cat("invalid selector `", selector.as_str()).as_str(), "`: ").as_str(),
                message.as_str(),
            ),
            Error::Http(m) => m.clone(),
            Error::InvalidUrl(m) => cat("invalid URL: ", m.as_str()),
            Error::Io(m) => cat("I/O error: ", m.as_str()),
            Error::Message(m) => m.clone(),
        }
    }
}

} // verus!
