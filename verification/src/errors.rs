//! The error kinds a scraping run can end with.

use vstd::prelude::*;
use vstd::string::StringExecFns;

verus! {

/// Why a run failed. Every kind is terminal: nothing is retried.
#[derive(Clone, Copy, Debug, PartialEq, Eq, Structural)]
pub enum ScrapeError {
    /// Transport, connection or body-read failure while fetching a page.
    Network,
    /// The URL matches none of the known site rules.
    UnsupportedSite,
    /// The CSS selector of the resolved rule failed to compile.
    Selector,
    /// A mean was requested over zero headlines.
    EmptyInput,
}

impl ScrapeError {
    /// A descriptive message for the error stream.
    pub fn message(&self) -> (r: String)
        ensures
            *self == ScrapeError::Network ==> r@ == "network request failed"@,
            *self == ScrapeError::UnsupportedSite ==> r@ == "no extraction rule for this site"@,
            *self == ScrapeError::Selector ==> r@ == "selector failed to compile"@,
            *self == ScrapeError::EmptyInput ==> r@ == "no headlines to aggregate"@,
    {
        match self {
            ScrapeError::Network => String::from_str("network request failed"),
            ScrapeError::UnsupportedSite => String::from_str("no extraction rule for this site"),
            ScrapeError::Selector => String::from_str("selector failed to compile"),
            ScrapeError::EmptyInput => String::from_str("no headlines to aggregate"),
        }
    }
}

} // verus!
