use pdf_reader::highlight::highlight;
use pdf_reader::search::{search_pages, SearchResult};

fn scenario_pages() -> Vec<String> {
    vec!["Alpha".to_string(), "Beta\nbeta again".to_string(), "Gamma".to_string()]
}

#[test]
fn search_is_case_insensitive_and_ordered() {
    let results = search_pages(&scenario_pages(), "beta");
    assert_eq!(
        results,
        vec![SearchResult { page: 1, line: 0 }, SearchResult { page: 1, line: 1 }]
    );
}

#[test]
fn search_uppercase_query_matches_lowercase_text() {
    let results = search_pages(&scenario_pages(), "BETA");
    assert_eq!(results.len(), 2);
    assert_eq!(results[0], SearchResult { page: 1, line: 0 });
}

#[test]
fn search_twice_yields_identical_results() {
    let first = search_pages(&scenario_pages(), "a");
    let second = search_pages(&scenario_pages(), "a");
    assert_eq!(first, second);
    for w in first.windows(2) {
        assert!(w[0].page < w[1].page || (w[0].page == w[1].page && w[0].line < w[1].line));
    }
}

#[test]
fn search_absent_query_yields_nothing() {
    assert!(search_pages(&scenario_pages(), "zzz").is_empty());
}

#[test]
fn search_yields_one_result_per_matching_line() {
    let pages = vec!["beta beta beta".to_string()];
    let results = search_pages(&pages, "beta");
    assert_eq!(results, vec![SearchResult { page: 0, line: 0 }]);
}

fn concat_spans(line: &str, query: &str) -> String {
    let mut out = String::new();
    for span in highlight(line, query) {
        out.push_str(&span.text);
    }
    out
}

#[test]
fn highlight_round_trip_reproduces_the_line() {
    let cases = [
        ("Beta beta again", "beta"),
        ("Beta beta again", "BETA"),
        ("no match here", "zzz"),
        ("", "x"),
        ("anything", ""),
        ("aaa", "aa"),
        ("edgeedge", "edge"),
    ];
    for (line, query) in cases {
        assert_eq!(concat_spans(line, query), line);
    }
}

#[test]
fn highlight_marks_nonoverlapping_leftmost_matches() {
    let spans = highlight("Beta beta again", "beta");
    let parts: Vec<(String, bool)> = spans.iter().map(|s| (s.text.clone(), s.matched)).collect();
    assert_eq!(
        parts,
        vec![
            ("Beta".to_string(), true),
            (" ".to_string(), false),
            ("beta".to_string(), true),
            (" again".to_string(), false),
        ]
    );
}

#[test]
fn highlight_absent_query_is_one_plain_span() {
    let spans = highlight("some line", "nope");
    assert_eq!(spans.len(), 1);
    assert!(!spans[0].matched);
    assert_eq!(spans[0].text, "some line");
}

#[test]
fn highlight_empty_query_is_one_plain_span() {
    let spans = highlight("some line", "");
    assert_eq!(spans.len(), 1);
    assert!(!spans[0].matched);
    assert_eq!(spans[0].text, "some line");
}

#[test]
fn highlight_overlapping_occurrences_do_not_overlap() {
    let spans = highlight("aaa", "aa");
    let parts: Vec<(String, bool)> = spans.iter().map(|s| (s.text.clone(), s.matched)).collect();
    assert_eq!(parts, vec![("aa".to_string(), true), ("a".to_string(), false)]);
}

#[test]
fn highlight_match_at_line_end_has_no_trailing_span() {
    let spans = highlight("go edge", "edge");
    let parts: Vec<(String, bool)> = spans.iter().map(|s| (s.text.clone(), s.matched)).collect();
    assert_eq!(parts, vec![("go ".to_string(), false), ("edge".to_string(), true)]);
}
