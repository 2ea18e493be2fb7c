use headlines::errors::ScrapeError;
use headlines::scrape::combine_headlines;
use headlines::sentiment::aggregate;
use headlines::sentiment::SCORE_SCALE;

#[test]
fn aggregate_of_empty_input_is_an_error() {
    let headlines: Vec<String> = Vec::new();
    let scores: Vec<i64> = Vec::new();
    let r = aggregate(&headlines, &scores);
    assert!(matches!(r, Err(ScrapeError::EmptyInput)));
}

#[test]
fn aggregate_keeps_length_order_and_sum() {
    let headlines = vec![
        "Quiet Markets Today".to_string(),
        "Terrible Storm Hits Coast".to_string(),
    ];
    let scores: Vec<i64> = vec![2500, -10000];
    let report = aggregate(&headlines, &scores).unwrap();
    assert_eq!(report.results.len(), 2);
    assert_eq!(report.results[0].headline, "Quiet Markets Today");
    assert_eq!(report.results[0].score, 2500);
    assert_eq!(report.results[1].headline, "Terrible Storm Hits Coast");
    assert_eq!(report.results[1].score, -10000);
    assert_eq!(report.score_sum, -7500);
}

#[test]
fn three_scores_average_to_zero() {
    // scores 0.5, -0.5 and 0.0 in fixed point: the mean is exactly 0
    let headlines = vec![
        "Good News Everyone".to_string(),
        "Bad News Everyone".to_string(),
        "Plain News Everyone".to_string(),
    ];
    let scores: Vec<i64> = vec![SCORE_SCALE / 2, -SCORE_SCALE / 2, 0];
    let report = aggregate(&headlines, &scores).unwrap();
    assert_eq!(report.score_sum, 0);
    let average = report.score_sum as f64 / (report.results.len() as f64 * SCORE_SCALE as f64);
    assert_eq!(average, 0.0);
}

#[test]
fn all_sources_empty_yields_empty_then_error() {
    // every simulated source produced nothing
    let batches: Vec<Vec<String>> = vec![vec![], vec![], vec![], vec![], vec![]];
    let combined = combine_headlines(&batches);
    assert_eq!(combined, Vec::<String>::new());
    let scores: Vec<i64> = Vec::new();
    let r = aggregate(&combined, &scores);
    assert!(matches!(r, Err(ScrapeError::EmptyInput)));
}
