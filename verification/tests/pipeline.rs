use headlines::errors::ScrapeError;
use headlines::rules::resolve;
use headlines::rules::source_urls;
use headlines::rules::ExtractionRule;
use headlines::scrape::combine_headlines;
use headlines::scrape::scrape_document;

#[test]
fn resolve_unknown_site_fails() {
    assert_eq!(
        resolve("https://example.com/news"),
        Err(ScrapeError::UnsupportedSite)
    );
    assert_eq!(resolve(""), Err(ScrapeError::UnsupportedSite));
    assert_eq!(
        resolve("https://www.nytimes.org"),
        Err(ScrapeError::UnsupportedSite)
    );
}

fn selector_of(rule: &ExtractionRule) -> &str {
    match rule {
        ExtractionRule::Text { selector } => selector.as_str(),
        ExtractionRule::Attribute { selector, .. } => selector.as_str(),
    }
}

#[test]
fn resolve_each_known_site() {
    let nyt = resolve("https://www.nytimes.com").unwrap();
    assert_eq!(selector_of(&nyt), "p.indicate-hover");
    assert!(matches!(nyt, ExtractionRule::Text { .. }));

    let guardian = resolve("https://www.theguardian.com").unwrap();
    assert_eq!(selector_of(&guardian), "a.dcr-lv2v9o");
    match &guardian {
        ExtractionRule::Attribute { attribute, .. } => assert_eq!(attribute, "aria-label"),
        ExtractionRule::Text { .. } => panic!("guardian rule must read an attribute"),
    }

    let bbc = resolve("https://www.bbc.com").unwrap();
    assert_eq!(selector_of(&bbc), "h2[data-testid='card-headline']");
    assert!(matches!(bbc, ExtractionRule::Text { .. }));

    let nature = resolve("https://www.nature.com").unwrap();
    assert_eq!(selector_of(&nature), "a.c-card__link");
    assert!(matches!(nature, ExtractionRule::Text { .. }));

    let economist = resolve("https://www.economist.com").unwrap();
    assert_eq!(selector_of(&economist), "a[data-analytics]");
    assert!(matches!(economist, ExtractionRule::Text { .. }));
}

#[test]
fn resolve_first_match_wins() {
    let rule = resolve("https://www.nytimes.com/path?ref=theguardian.com").unwrap();
    assert_eq!(selector_of(&rule), "p.indicate-hover");
}

#[test]
fn source_list_is_fixed_and_ordered() {
    let sources = source_urls();
    assert_eq!(
        sources,
        vec![
            "https://www.nytimes.com".to_string(),
            "https://www.theguardian.com".to_string(),
            "https://www.bbc.com".to_string(),
            "https://www.nature.com".to_string(),
            "https://www.economist.com".to_string(),
        ]
    );
    for s in &sources {
        assert!(resolve(s).is_ok());
    }
}

#[test]
fn scenario_nytimes_page() {
    let html = "<p class=\"indicate-hover css-abc\">Big Win For Team</p>\
                <p class=\"indicate-hover css-x\">Ok</p>\
                <p class=\"other\">Spelling Bee</p>";
    let headlines = scrape_document("https://www.nytimes.com", html).unwrap();
    assert_eq!(headlines, vec!["Big Win For Team".to_string()]);
}

#[test]
fn scenario_guardian_attribute_sourced() {
    let html = "<a class=\"dcr-lv2v9o\" aria-label=\"Market Crash Fears Grow\">x</a>";
    let headlines = scrape_document("https://www.theguardian.com", html).unwrap();
    assert_eq!(headlines, vec!["Market Crash Fears Grow".to_string()]);
}

#[test]
fn guardian_missing_attribute_reads_empty() {
    let html = "<a class=\"dcr-lv2v9o\">Anchor Text Here</a>";
    let headlines = scrape_document("https://www.theguardian.com", html).unwrap();
    assert_eq!(headlines, Vec::<String>::new());
}

#[test]
fn bbc_attribute_presence_selector() {
    let html = "<h2 data-testid=\"card-headline\">Markets Rally Again</h2>\
                <h2 data-testid=\"other\">Quiet Day Everywhere</h2>";
    let headlines = scrape_document("https://www.bbc.com", html).unwrap();
    assert_eq!(headlines, vec!["Markets Rally Again".to_string()]);
}

#[test]
fn scrape_unknown_site_fails() {
    let html = "<p class=\"indicate-hover\">Big Win For Team</p>";
    assert_eq!(
        scrape_document("https://unknown.example", html),
        Err(ScrapeError::UnsupportedSite)
    );
}

#[test]
fn scrape_denylisted_and_single_word_dropped() {
    let html = "<p class=\"indicate-hover\">The Crossword</p>\
                <p class=\"indicate-hover\">Read full edition</p>\
                <p class=\"indicate-hover\">Standalone</p>\
                <p class=\"indicate-hover\">A Real Story Survives</p>";
    let headlines = scrape_document("https://www.nytimes.com", html).unwrap();
    assert_eq!(headlines, vec!["A Real Story Survives".to_string()]);
}

#[test]
fn scrape_keeps_duplicates_in_order() {
    let html = "<p class=\"indicate-hover\">Twice Told Tale</p>\
                <p class=\"indicate-hover\">Twice Told Tale</p>";
    let headlines = scrape_document("https://www.nytimes.com", html).unwrap();
    assert_eq!(
        headlines,
        vec!["Twice Told Tale".to_string(), "Twice Told Tale".to_string()]
    );
}

#[test]
fn combine_keeps_source_order() {
    let batches = vec![
        vec!["First Source Story".to_string()],
        vec![],
        vec![
            "Third Source Story".to_string(),
            "Third Source Encore".to_string(),
        ],
    ];
    let combined = combine_headlines(&batches);
    assert_eq!(
        combined,
        vec![
            "First Source Story".to_string(),
            "Third Source Story".to_string(),
            "Third Source Encore".to_string(),
        ]
    );
}

#[test]
fn error_messages_are_descriptive() {
    assert_eq!(ScrapeError::Network.message(), "network request failed");
    assert_eq!(
        ScrapeError::UnsupportedSite.message(),
        "no extraction rule for this site"
    );
    assert_eq!(ScrapeError::Selector.message(), "selector failed to compile");
    assert_eq!(ScrapeError::EmptyInput.message(), "no headlines to aggregate");
}
