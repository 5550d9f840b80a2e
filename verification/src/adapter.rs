//! Design platform adapters: the common trait every adapter implements,
//! its source and error types, and the Figma adapter. Parsing real design
//! files is platform work outside this core; the adapter surface here is
//! the contract the platform layer programs against.

use vstd::prelude::*;
use crate::ir::OriginIR;

verus! {

/// Where a design file comes from.
#[derive(Clone, PartialEq, Eq, Debug)]
pub enum AdapterSource {
    /// A local file path.
    FilePath(String),
    /// A remote URL.
    Url(String),
    /// Raw bytes already in memory.
    Data(Vec<u8>),
}

/// What an adapter can fail with.
#[derive(Clone, PartialEq, Eq, Debug)]
pub enum AdapterError {
    /// The source did not parse.
    ParseError(String),
    /// The source could not be read.
    IoError(String),
    /// The source could not be fetched.
    NetworkError(String),
    /// The source uses a feature the adapter does not handle.
    UnsupportedFeature(String),
}

/// The common adapter surface: parse a source into the element
/// description. Implemented by each design platform's adapter; the
/// platform layer performs any reading or fetching and hands bytes in.
pub trait DesignAdapter {
    /// Parse a design source into the element description.
    fn parse(&self, source: AdapterSource) -> Result<OriginIR, AdapterError>;

    /// Whether this adapter supports hot reload.
    fn supports_hot_reload(&self) -> (r: bool) {
        false
    }
}

/// The Figma adapter.
pub struct FigmaAdapter {
    api_token: Option<String>,
}

impl FigmaAdapter {
    /// The API token the adapter holds, if one was supplied.
    pub closed spec fn spec_token(self) -> Option<Seq<char>> {
        match self.api_token {
            Option::Some(t) => Option::Some(t@),
            Option::None => Option::None,
        }
    }

    /// Whether an API token was supplied.
    pub open spec fn spec_has_token(self) -> bool {
        self.spec_token() is Some
    }

    /// An adapter without an API token, for local files.
    pub fn new() -> (r: FigmaAdapter)
        ensures
            r.spec_token() is None,
    {
        FigmaAdapter { api_token: None }
    }

    /// An adapter holding the given API token, for the platform's remote
    /// API.
    pub fn with_token(token: String) -> (r: FigmaAdapter)
        ensures
            r.spec_token() == Option::Some(token@),
    {
        FigmaAdapter { api_token: Some(token) }
    }
}

impl Default for FigmaAdapter {
    /// The same adapter `new` builds: no API token.
    fn default() -> (r: FigmaAdapter)
        ensures
            r.spec_token() is None,
    {
        FigmaAdapter::new()
    }
}

impl DesignAdapter for FigmaAdapter {
    /// Figma parsing is not implemented yet: every source is declined
    /// with an `UnsupportedFeature` error saying so.
    fn parse(&self, source: AdapterSource) -> (r: Result<OriginIR, AdapterError>)
        ensures
            r matches Err(e) && e matches AdapterError::UnsupportedFeature(m)
                && m@ == "Figma parsing not yet implemented"@,
    {
        Err(AdapterError::UnsupportedFeature("Figma parsing not yet implemented".to_owned()))
    }

    /// Figma supports hot reload through its plugin.
    fn supports_hot_reload(&self) -> (r: bool)
        ensures
            r,
    {
        true
    }
}

} // verus!
