//! The errors that the library reports.
use vstd::prelude::*;

use crate::text::concat;

verus! {

/// What went wrong, with a message.
#[derive(Clone, Debug)]
pub enum AppError {
    /// A request could not be sent or answered (the transport's message).
    Network(String),
    /// A file could not be read or written (the system's message).
    Io(String),
    /// A value could not be turned into JSON or back (the parser's message).
    Json(String),
    /// A URL could not be parsed (the parser's message).
    Url(String),
    /// A page could not be parsed.
    HtmlParse(String),
    /// A remote API answered with an error or with something unreadable.
    Api(String),
    /// No mirror could be determined.
    MirrorResolution(String),
    /// A download failed.
    Download(String),
    /// Nothing was found.
    NotFound(String),
    /// A required setting is missing.
    Config(String),
    /// A parameter was missing or invalid.
    InvalidParam(String),
}

/// An error, with its message as characters.
pub enum AppErrorView {
    Network(Seq<char>),
    Io(Seq<char>),
    Json(Seq<char>),
    Url(Seq<char>),
    HtmlParse(Seq<char>),
    Api(Seq<char>),
    MirrorResolution(Seq<char>),
    Download(Seq<char>),
    NotFound(Seq<char>),
    Config(Seq<char>),
    InvalidParam(Seq<char>),
}

impl View for AppError {
    type V = AppErrorView;

    open spec fn view(&self) -> AppErrorView {
        match self {
            AppError::Network(m) => AppErrorView::Network(m@),
            AppError::Io(m) => AppErrorView::Io(m@),
            AppError::Json(m) => AppErrorView::Json(m@),
            AppError::Url(m) => AppErrorView::Url(m@),
            AppError::HtmlParse(m) => AppErrorView::HtmlParse(m@),
            AppError::Api(m) => AppErrorView::Api(m@),
            AppError::MirrorResolution(m) => AppErrorView::MirrorResolution(m@),
            AppError::Download(m) => AppErrorView::Download(m@),
            AppError::NotFound(m) => AppErrorView::NotFound(m@),
            AppError::Config(m) => AppErrorView::Config(m@),
            AppError::InvalidParam(m) => AppErrorView::InvalidParam(m@),
        }
    }
}

/// How an error reads: a label for its kind, then its message.
pub open spec fn error_text(e: AppErrorView) -> Seq<char> {
    match e {
        AppErrorView::Network(m) => "Network error: "@ + m,
        AppErrorView::Io(m) => "I/O error: "@ + m,
        AppErrorView::Json(m) => "JSON serialization error: "@ + m,
        AppErrorView::Url(m) => "URL parse error: "@ + m,
        AppErrorView::HtmlParse(m) => "HTML parsing error: "@ + m,
        AppErrorView::Api(m) => "API error: "@ + m,
        AppErrorView::MirrorResolution(m) => "Mirror resolution error: "@ + m,
        AppErrorView::Download(m) => "Download error: "@ + m,
        AppErrorView::NotFound(m) => "Not found: "@ + m,
        AppErrorView::Config(m) => "Missing configuration: "@ + m,
        AppErrorView::InvalidParam(m) => "Invalid parameter: "@ + m,
    }
}

impl AppError {
    /// The error as it reads to a user.
    pub fn message(&self) -> (r: String)
        ensures
            r@ == error_text(self@),
    {
        match self {
            AppError::Network(m) => concat("Network error: ", m.as_str()),
            AppError::Io(m) => concat("I/O error: ", m.as_str()),
            AppError::Json(m) => concat("JSON serialization error: ", m.as_str()),
            AppError::Url(m) => concat("URL parse error: ", m.as_str()),
            AppError::HtmlParse(m) => concat("HTML parsing error: ", m.as_str()),
            AppError::Api(m) => concat("API error: ", m.as_str()),
            AppError::MirrorResolution(m) => concat("Mirror resolution error: ", m.as_str()),
            AppError::Download(m) => concat("Download error: ", m.as_str()),
            AppError::NotFound(m) => concat("Not found: ", m.as_str()),
            AppError::Config(m) => concat("Missing configuration: ", m.as_str()),
            AppError::InvalidParam(m) => concat("Invalid parameter: ", m.as_str()),
        }
    }
}

} // verus!
