//! The site rule table: which CSS selector and text source belong to each
//! known news site, and how a URL resolves to its rule.

use vstd::prelude::*;
use vstd::string::StringExecFns;
use crate::errors::ScrapeError;
use crate::text::contains_seq;
use crate::text::contains_str;
use crate::text::match_at;

verus! {

/// How headline text is pulled from a matched element: from its descendant
/// text content, or from one named attribute.
#[derive(Debug, Clone, PartialEq, Eq)]
pub enum ExtractionRule {
    /// Take the element's descendant text, joined by single spaces.
    Text { selector: String },
    /// Take the named attribute's value; an absent attribute reads as "".
    Attribute { selector: String, attribute: String },
}

impl View for ExtractionRule {
    type V = (Seq<char>, Option<Seq<char>>);

    open spec fn view(&self) -> Self::V {
        match self {
            ExtractionRule::Text { selector } => (selector@, None),
            ExtractionRule::Attribute { selector, attribute } => (selector@, Some(attribute@)),
        }
    }
}

/// The rule table as a function of the URL: substring containment against
/// the known domains, checked in table order, first match wins.
pub open spec fn spec_resolve(url: Seq<char>) -> Option<(Seq<char>, Option<Seq<char>>)> {
    if contains_seq(url, "nytimes.com"@) {
        Some(("p.indicate-hover"@, None))
    } else if contains_seq(url, "theguardian.com"@) {
        Some(("a.dcr-lv2v9o"@, Some("aria-label"@)))
    } else if contains_seq(url, "bbc.com"@) {
        Some(("h2[data-testid='card-headline']"@, None))
    } else if contains_seq(url, "nature.com"@) {
        Some(("a.c-card__link"@, None))
    } else if contains_seq(url, "economist.com"@) {
        Some(("a[data-analytics]"@, None))
    } else {
        None
    }
}

/// Map a URL to its extraction rule, or fail with `UnsupportedSite` when
/// the URL contains none of the five known domains.
pub fn resolve(url: &str) -> (r: Result<ExtractionRule, ScrapeError>)
    ensures
        match spec_resolve(url@) {
            Some(rule) => r is Ok && r->Ok_0@ == rule,
            None => r == Err::<ExtractionRule, ScrapeError>(ScrapeError::UnsupportedSite),
        },
        (!contains_seq(url@, "nytimes.com"@) && !contains_seq(url@, "theguardian.com"@)
            && !contains_seq(url@, "bbc.com"@) && !contains_seq(url@, "nature.com"@)
            && !contains_seq(url@, "economist.com"@)) ==> r == Err::<
            ExtractionRule,
            ScrapeError,
        >(ScrapeError::UnsupportedSite),
{
    if contains_str(url, "nytimes.com") {
        Ok(ExtractionRule::Text { selector: String::from_str("p.indicate-hover") })
    } else if contains_str(url, "theguardian.com") {
        Ok(
            ExtractionRule::Attribute {
                selector: String::from_str("a.dcr-lv2v9o"),
                attribute: String::from_str("aria-label"),
            },
        )
    } else if contains_str(url, "bbc.com") {
        Ok(ExtractionRule::Text { selector: String::from_str("h2[data-testid='card-headline']") })
    } else if contains_str(url, "nature.com") {
        Ok(ExtractionRule::Text { selector: String::from_str("a.c-card__link") })
    } else if contains_str(url, "economist.com") {
        Ok(ExtractionRule::Text { selector: String::from_str("a[data-analytics]") })
    } else {
        Err(ScrapeError::UnsupportedSite)
    }
}

/// The fixed source homepages of the all-sources mode, in the order they
/// are fetched and combined. Each resolves to a rule.
pub fn source_urls() -> (r: Vec<String>)
    ensures
        r@.len() == 5,
        r@[0]@ == "https://www.nytimes.com"@,
        r@[1]@ == "https://www.theguardian.com"@,
        r@[2]@ == "https://www.bbc.com"@,
        r@[3]@ == "https://www.nature.com"@,
        r@[4]@ == "https://www.economist.com"@,
        forall|k: int| 0 <= k < 5 ==> (#[trigger] spec_resolve(r@[k]@)) is Some,
{
    let mut v: Vec<String> = Vec::new();
    v.push(String::from_str("https://www.nytimes.com"));
    v.push(String::from_str("https://www.theguardian.com"));
    v.push(String::from_str("https://www.bbc.com"));
    v.push(String::from_str("https://www.nature.com"));
    v.push(String::from_str("https://www.economist.com"));
    proof {
        reveal_strlit("https://www.nytimes.com");
        reveal_strlit("nytimes.com");
        assert("https://www.nytimes.com"@.subrange(12, 23) =~= "nytimes.com"@);
        assert(match_at("https://www.nytimes.com"@, "nytimes.com"@, 12));
        reveal_strlit("https://www.theguardian.com");
        reveal_strlit("theguardian.com");
        assert("https://www.theguardian.com"@.subrange(12, 27) =~= "theguardian.com"@);
        assert(match_at("https://www.theguardian.com"@, "theguardian.com"@, 12));
        reveal_strlit("https://www.bbc.com");
        reveal_strlit("bbc.com");
        assert("https://www.bbc.com"@.subrange(12, 19) =~= "bbc.com"@);
        assert(match_at("https://www.bbc.com"@, "bbc.com"@, 12));
        reveal_strlit("https://www.nature.com");
        reveal_strlit("nature.com");
        assert("https://www.nature.com"@.subrange(12, 22) =~= "nature.com"@);
        assert(match_at("https://www.nature.com"@, "nature.com"@, 12));
        reveal_strlit("https://www.economist.com");
        reveal_strlit("economist.com");
        assert("https://www.economist.com"@.subrange(12, 25) =~= "economist.com"@);
        assert(match_at("https://www.economist.com"@, "economist.com"@, 12));
    }
    v
}

} // verus!
