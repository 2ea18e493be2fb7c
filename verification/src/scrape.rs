//! The extraction pipeline: parse fetched HTML, select the elements the
//! site's rule names, read their text or an attribute, and filter the
//! candidates down to headlines. HTML parsing and CSS selection are done
//! by the `scraper` crate behind trusted wrappers; everything around them
//! is verified.

use vstd::prelude::*;
use crate::errors::ScrapeError;
use crate::filter::filter_headlines;
use crate::filter::spec_filter;
use crate::filter::views_of;
use crate::rules::ExtractionRule;
use crate::rules::resolve;
use crate::rules::spec_resolve;

verus! {

#[verifier::external_type_specification]
#[verifier::external_body]
pub struct ExSelector(scraper::Selector);

#[verifier::external_type_specification]
#[verifier::external_body]
pub struct ExHtml(scraper::Html);

/// The selector string a compiled `Selector` was built from.
pub uninterp spec fn selector_source(sel: scraper::Selector) -> Seq<char>;

/// Whether `scraper::Selector::parse` accepts a selector string.
pub uninterp spec fn selector_parses(s: Seq<char>) -> bool;

/// The HTML text a parsed document was built from.
pub uninterp spec fn document_source(doc: scraper::Html) -> Seq<char>;

/// The elements of the document parsed from `html` that match the selector
/// parsed from `sel`, in document order, each read as its descendant text
/// nodes joined by single spaces.
pub uninterp spec fn selected_texts(html: Seq<char>, sel: Seq<char>) -> Seq<Seq<char>>;

/// Those same elements, each read as the value of attribute `attr`, an
/// absent attribute read as the empty string.
pub uninterp spec fn selected_attrs(html: Seq<char>, sel: Seq<char>, attr: Seq<char>) -> Seq<
    Seq<char>,
>;

/// Relies on `scraper::Selector::parse`: compiles a CSS selector group and
/// fails exactly on invalid selector syntax.
#[verifier::external_body]
fn compile_selector(s: &str) -> (r: Option<scraper::Selector>)
    ensures
        r is Some <==> selector_parses(s@),
        r matches Some(sel) ==> selector_source(sel) == s@,
{
    scraper::Selector::parse(s).ok()
}

/// Relies on `scraper::Html::parse_document`: standards-compliant HTML5
/// parsing with malformed-markup recovery; it never fails.
#[verifier::external_body]
fn parse_document(html: &str) -> (d: scraper::Html)
    ensures
        document_source(d) == html@,
{
    scraper::Html::parse_document(html)
}

/// Relies on `scraper::Html::select` and `scraper::ElementRef::text`: the
/// matched elements in document order, each mapped to its descendant text
/// joined by single spaces. The result depends on the document and the
/// selector alone.
#[verifier::external_body]
fn select_texts(d: &scraper::Html, sel: &scraper::Selector) -> (r: Vec<String>)
    ensures
        views_of(r@) == selected_texts(document_source(*d), selector_source(*sel)),
{
    d.select(sel).map(|e| e.text().collect::<Vec<_>>().join(" ")).collect()
}

/// Relies on `scraper::Html::select` and `scraper::ElementRef::attr`: the
/// matched elements in document order, each mapped to the named
/// attribute's value, an absent attribute read as the empty string.
#[verifier::external_body]
fn select_attrs(d: &scraper::Html, sel: &scraper::Selector, attr: &str) -> (r: Vec<String>)
    ensures
        views_of(r@) == selected_attrs(document_source(*d), selector_source(*sel), attr@),
{
    d.select(sel).map(|e| e.attr(attr).unwrap_or("").to_string()).collect()
}

/// The raw candidates a rule draws from a document: element text for a
/// text rule, attribute values for an attribute rule.
pub open spec fn spec_candidates(html: Seq<char>, rule: (Seq<char>, Option<Seq<char>>)) -> Seq<
    Seq<char>,
> {
    match rule.1 {
        None => selected_texts(html, rule.0),
        Some(a) => selected_attrs(html, rule.0, a),
    }
}

/// Run the whole per-page pipeline on already-fetched HTML: resolve the
/// URL's rule, extract the rule's candidates, filter them to headlines.
pub fn scrape_document(url: &str, html: &str) -> (r: Result<Vec<String>, ScrapeError>)
    ensures
        spec_resolve(url@) is None ==> r == Err::<Vec<String>, ScrapeError>(
            ScrapeError::UnsupportedSite,
        ),
        spec_resolve(url@) matches Some(rule) ==> ((!selector_parses(rule.0) ==> r == Err::<
            Vec<String>,
            ScrapeError,
        >(ScrapeError::Selector)) && (selector_parses(rule.0) ==> (r matches Ok(hs) && views_of(
            hs@,
        ) == spec_filter(spec_candidates(html@, rule))))),
{
    let rule = match resolve(url) {
        Ok(rule) => rule,
        Err(e) => {
            return Err(e);
        },
    };
    let doc = parse_document(html);
    let candidates: Vec<String> = match rule {
        ExtractionRule::Text { selector } => {
            let sel = match compile_selector(selector.as_str()) {
                Some(s) => s,
                None => {
                    return Err(ScrapeError::Selector);
                },
            };
            select_texts(&doc, &sel)
        },
        ExtractionRule::Attribute { selector, attribute } => {
            let sel = match compile_selector(selector.as_str()) {
                Some(s) => s,
                None => {
                    return Err(ScrapeError::Selector);
                },
            };
            select_attrs(&doc, &sel, attribute.as_str())
        },
    };
    Ok(filter_headlines(&candidates))
}

/// The views of a sequence of headline batches.
pub open spec fn batch_views(b: Seq<Vec<String>>) -> Seq<Seq<Seq<char>>> {
    Seq::new(b.len(), |i: int| views_of(b[i]@))
}

/// Concatenation of headline batches, batch order kept.
pub open spec fn spec_concat(batches: Seq<Seq<Seq<char>>>) -> Seq<Seq<char>>
    decreases batches.len(),
{
    if batches.len() == 0 {
        Seq::empty()
    } else {
        spec_concat(batches.drop_last()) + batches.last()
    }
}

/// Concatenate the per-source headline batches of the all-sources mode,
/// keeping source-list order and, within a source, extraction order.
pub fn combine_headlines(batches: &Vec<Vec<String>>) -> (r: Vec<String>)
    ensures
        views_of(r@) == spec_concat(batch_views(batches@)),
{
    let mut out: Vec<String> = Vec::new();
    let mut i: usize = 0;
    proof {
        assert(batch_views(batches@.take(0)) =~= Seq::<Seq<Seq<char>>>::empty());
        assert(views_of(out@) =~= Seq::<Seq<char>>::empty());
    }
    while i < batches.len()
        invariant
            i <= batches@.len(),
            views_of(out@) == spec_concat(batch_views(batches@.take(i as int))),
        decreases batches@.len() - i,
    {
        let ghost entered = out@;
        let batch = &batches[i];
        let mut j: usize = 0;
        while j < batch.len()
            invariant
                i < batches@.len(),
                batch == &batches@[i as int],
                j <= batch@.len(),
                views_of(out@) == views_of(entered) + views_of(batch@.take(j as int)),
            decreases batch@.len() - j,
        {
            out.push(batch[j].clone());
            proof {
                assert(views_of(batch@.take(j as int + 1)) =~= views_of(
                    batch@.take(j as int),
                ).push(batch@[j as int]@));
                assert(views_of(out@) =~= (views_of(entered) + views_of(
                    batch@.take(j as int),
                )).push(batch@[j as int]@));
            }
            j = j + 1;
        }
        proof {
            assert(batch@.take(batch@.len() as int) =~= batch@);
            let bv = batch_views(batches@.take(i as int));
            assert(batch_views(batches@.take(i as int + 1)) =~= bv.push(views_of(batches@[i as int]@)));
            assert(batch_views(batches@.take(i as int + 1)).drop_last() =~= bv);
        }
        i = i + 1;
    }
    proof {
        assert(batches@.take(batches@.len() as int) =~= batches@);
    }
    out
}

} // verus!
