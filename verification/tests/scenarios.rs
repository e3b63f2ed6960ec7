//! End-to-end scenarios: raw lines in, emitted lines out, with the metric
//! evaluated by the test harness exactly as a caller of the library would.

use fzq::buffer::Fzq;
use fzq::filter::StreamFilter;
use fzq::key::KeyConfig;
use fzq::metric::Metric;

fn score(metric: Metric, a: &str, b: &str) -> f64 {
    match metric {
        Metric::DamerauLevenshtein => strsim::normalized_damerau_levenshtein(a, b),
        Metric::Levenshtein => strsim::normalized_levenshtein(a, b),
        Metric::Jaro => strsim::jaro(a, b),
        Metric::JaroWinkler => strsim::jaro_winkler(a, b),
    }
}

fn verdicts(filter: &StreamFilter, key: &str, threshold: f64) -> Vec<bool> {
    let metric = filter.current_metric();
    filter
        .buffered()
        .iter()
        .map(|buffered| score(metric, key, buffered) >= threshold)
        .collect()
}

struct Options {
    metric: Metric,
    threshold: f64,
    capacity: usize,
    cfg: KeyConfig,
    all_similar: bool,
    line_number: bool,
}

impl Options {
    fn new() -> Options {
        Options {
            metric: Metric::Jaro,
            threshold: 0.85,
            capacity: 100,
            cfg: KeyConfig {
                skip_fields: None,
                skip_chars: None,
                check_chars: None,
                ignore_case: false,
            },
            all_similar: false,
            line_number: false,
        }
    }
}

fn run(lines: &[&str], options: &Options) -> Vec<String> {
    let mut fzq = Fzq::new();
    fzq.buffer_size(options.capacity);
    fzq.metric(options.metric);
    let mut filter = StreamFilter::new(fzq, options.cfg, options.all_similar, options.line_number);
    let mut out: Vec<String> = Vec::new();
    let mut processed: usize = 0;
    for line in lines {
        let key = filter.derive(line);
        let sims = verdicts(&filter, &key, options.threshold);
        assert!(sims.len() == filter.buffered().len());
        assert!(processed < usize::MAX);
        processed += 1;
        if let Some(text) = filter.step(line, &sims) {
            out.push(text);
        }
    }
    out
}

#[test]
fn filter_content_in_file() {
    let out = run(
        &["A test", "test 1", "Actual content", "More content", "test 2", "Another test"],
        &Options::new(),
    );
    assert_eq!(out, vec!["A test", "test 1", "Actual content", "More content", "Another test"]);
}

#[test]
fn filter_content_on_stdin() {
    let out = run(&["test 1", "test 2", "test 3", "end"], &Options::new());
    assert_eq!(out, vec!["test 1", "end"]);
}

#[test]
fn metric_option() {
    let mut options = Options::new();
    options.metric = Metric::DamerauLevenshtein;
    let out = run(&["test text 1", "test text 2", "test text 3", "end"], &options);
    assert_eq!(out, vec!["test text 1", "end"]);
}

#[test]
fn threshold_option() {
    let mut options = Options::new();
    options.threshold = 0.99;
    let out = run(&["test 1", "test 2", "test 3", "end"], &options);
    assert_eq!(out, vec!["test 1", "test 2", "test 3", "end"]);
}

#[test]
fn buffer_size_option() {
    let mut options = Options::new();
    options.capacity = 1;
    let out = run(&["test 1", "test 2", "foobar 1", "foobar 2", "test 3", "end"], &options);
    assert_eq!(out, vec!["test 1", "foobar 1", "test 3", "end"]);
}

#[test]
fn line_number_option() {
    let mut options = Options::new();
    options.line_number = true;
    let out = run(&["test 1", "test 2", "test 3", "end"], &options);
    assert_eq!(out, vec!["1:test 1", "4:end"]);
}

#[test]
fn check_chars_option() {
    let mut options = Options::new();
    options.cfg.check_chars = Some(5);
    let out = run(&["test asdf 1", "test foobar 2", "test hahaha 3", "end"], &options);
    assert_eq!(out, vec!["test asdf 1", "end"]);
}

#[test]
fn check_chars_option_multi_byte() {
    let mut options = Options::new();
    options.cfg.check_chars = Some(4);
    let out = run(
        &["ははは\u{3000}asdf 1", "ははは\u{3000}foobar 2", "ははは\u{3000}hahaha 3", "end"],
        &options,
    );
    assert_eq!(out, vec!["ははは\u{3000}asdf 1", "end"]);
}

#[test]
fn skip_chars_option() {
    let mut options = Options::new();
    options.cfg.skip_chars = Some(5);
    let out = run(
        &["asdfg test text 1", "hahah test text 2", "lorem test text 3", "end"],
        &options,
    );
    assert_eq!(out, vec!["asdfg test text 1", "end"]);
}

#[test]
fn skip_chars_option_multi_byte() {
    let mut options = Options::new();
    options.cfg.skip_chars = Some(6);
    let out = run(
        &[
            "あいうえお\u{3000}テスト\u{3000}テキスト\u{3000}１",
            "かきくけこ\u{3000}テスト\u{3000}テキスト\u{3000}２",
            "さしすせそ\u{3000}テスト\u{3000}テキスト\u{3000}３",
            "終わり",
        ],
        &options,
    );
    assert_eq!(out, vec!["あいうえお\u{3000}テスト\u{3000}テキスト\u{3000}１", "終わり"]);
}

#[test]
fn skip_fields_option() {
    let mut options = Options::new();
    options.cfg.skip_fields = Some(1);
    let out = run(
        &["asdf test text 1", "hahaha test text 2", "lorem test text 3", "end"],
        &options,
    );
    assert_eq!(out, vec!["asdf test text 1", "end"]);
}

#[test]
fn skip_fields_option_multi_byte() {
    let mut options = Options::new();
    options.cfg.skip_fields = Some(1);
    let out = run(
        &[
            "あいうえお テスト テキスト １",
            "かきく テスト テキスト ２",
            "さしすせ テスト テキスト ３",
            "終わり",
        ],
        &options,
    );
    assert_eq!(out, vec!["あいうえお テスト テキスト １", "終わり"]);
}

#[test]
fn ignore_case_option() {
    let mut options = Options::new();
    options.cfg.ignore_case = true;
    let out = run(&["test 1", "TEST 2", "tEsT 3", "end"], &options);
    assert_eq!(out, vec!["test 1", "end"]);
}

#[test]
fn all_similar_option() {
    let mut options = Options::new();
    options.all_similar = true;
    let out = run(&["test 1", "test 2", "test 3", "end"], &options);
    assert_eq!(out, vec!["test 2", "test 3"]);
}

#[test]
fn novel_lines_scenario() {
    let mut fzq = Fzq::new();
    let mut results: Vec<bool> = Vec::new();
    for line in ["test 1", "test 2", "hello", "test 3"] {
        let sims: Vec<bool> = fzq
            .buffered()
            .iter()
            .map(|buffered| strsim::jaro(line, buffered) >= 0.85)
            .collect();
        results.push(fzq.is_similar(line, &sims));
    }
    assert_eq!(results, vec![false, true, false, true]);

    let out = run(&["test 1", "test 2", "hello", "test 3"], &Options::new());
    assert_eq!(out, vec!["test 1", "hello"]);
}

#[test]
fn exact_duplicates_at_threshold_one() {
    let mut options = Options::new();
    options.threshold = 1.0;
    let out = run(&["alpha", "alpha", "alpba", "alpha"], &options);
    assert_eq!(out, vec!["alpha", "alpba"]);
}
