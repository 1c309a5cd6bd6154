//! Compiles Markdown documents (with optional front-matter metadata) into
//! platform-specific HTML for publishing platforms with distinct styling and
//! sanitization rules.
//!
//! The crate is organised leaf-first: `text` holds verified text-scanning
//! primitives, `compile` parses front matter and drives the Markdown
//! renderer, `pipeline` enriches a `Content`, and `wechat` / `zhihu` hold the
//! per-platform HTML adapters.

use vstd::prelude::*;

pub mod adapters;
pub mod cli;
pub mod compile;
pub mod config;
pub mod content;
pub mod pipeline;
pub mod rewrite;
pub mod text;
pub mod wechat;
pub mod zhihu;

verus! {

/// The error kinds the compilation and adaptation core can report.
#[derive(Debug, Clone)]
pub enum Error {
    /// Renderer or encoding failure while processing Markdown.
    Markdown(String),
    /// Failure while rewriting HTML.
    Html(String),
    /// Content violates a platform's hard constraint.
    Publishing(String),
    /// A configuration key or value was rejected.
    Config(String),
    /// A platform name that is not recognised.
    InvalidPlatform(String),
    /// Anything else.
    Other(String),
}

impl Error {
    /// The human-readable message carried by this error.
    pub fn message(&self) -> (r: String)
        ensures
            r@ == self.spec_message(),
    {
        match self {
            Error::Markdown(m) => m.clone(),
            Error::Html(m) => m.clone(),
            Error::Publishing(m) => m.clone(),
            Error::Config(m) => m.clone(),
            Error::InvalidPlatform(m) => m.clone(),
            Error::Other(m) => m.clone(),
        }
    }

    /// The message of this error, as a sequence of characters.
    pub open spec fn spec_message(&self) -> Seq<char> {
        match self {
            Error::Markdown(m) => m@,
            Error::Html(m) => m@,
            Error::Publishing(m) => m@,
            Error::Config(m) => m@,
            Error::InvalidPlatform(m) => m@,
            Error::Other(m) => m@,
        }
    }
}

} // verus!
