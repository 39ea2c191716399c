use pdf_reader::pagination::{format_pdf_content, split_into_pages};

#[test]
fn form_feed_segments_become_pages() {
    let pages = split_into_pages("Alpha\n\x0CBeta\nbeta again\n\x0CGamma");
    assert_eq!(pages, vec!["Alpha".to_string(), "Beta\nbeta again".to_string(), "Gamma".to_string()]);
}

#[test]
fn form_feed_empty_segments_are_dropped() {
    let pages = split_into_pages("one\x0C   \n  \x0Ctwo");
    assert_eq!(pages, vec!["one".to_string(), "two".to_string()]);
}

#[test]
fn form_feed_all_empty_falls_back_to_one_page() {
    let pages = split_into_pages("\x0C \x0C\n");
    assert_eq!(pages, vec![String::new()]);
}

#[test]
fn chunking_yields_ceiling_of_lines_over_page_size() {
    let mut text = String::new();
    for i in 0..120 {
        text.push_str(&format!("line {i}\n"));
    }
    let pages = split_into_pages(&text);
    assert_eq!(pages.len(), 3);
    assert_eq!(pages[0].lines().count(), 50);
    assert_eq!(pages[1].lines().count(), 50);
    assert_eq!(pages[2].lines().count(), 20);
    assert!(pages[0].starts_with("line 0\n"));
    assert!(pages[2].ends_with("line 119"));
}

#[test]
fn short_input_is_one_page() {
    let pages = split_into_pages("a\nb\nc");
    assert_eq!(pages, vec!["a\nb\nc".to_string()]);
}

#[test]
fn all_whitespace_input_yields_exactly_one_empty_page() {
    let pages = split_into_pages("  \n\t \n   ");
    assert_eq!(pages, vec![String::new()]);
}

#[test]
fn empty_input_yields_one_empty_page() {
    let pages = split_into_pages("");
    assert_eq!(pages, vec![String::new()]);
}

#[test]
fn trailing_newline_changes_nothing() {
    assert_eq!(split_into_pages("a\nb\n"), split_into_pages("a\nb"));
}

#[test]
fn normalization_trims_and_drops_empty_lines() {
    assert_eq!(format_pdf_content("  a  \n\n\t\n b "), "a\nb");
    assert_eq!(format_pdf_content(""), "");
    assert_eq!(format_pdf_content(" \n \n"), "");
    assert_eq!(format_pdf_content("plain"), "plain");
}

#[test]
fn blank_lines_are_removed_inside_chunks() {
    let pages = split_into_pages("x\n\n\ny\n");
    assert_eq!(pages, vec!["x\ny".to_string()]);
}
