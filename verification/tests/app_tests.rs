use pdf_reader::app::{App, InputMode, Key};
use pdf_reader::pagination::split_into_pages;

fn three_pages() -> App {
    App::new(vec!["Alpha".to_string(), "Beta\nbeta again".to_string(), "Gamma".to_string()])
}

fn type_chars(app: &mut App, s: &str) {
    for c in s.chars() {
        app.handle_key(Key::Char(c));
    }
}

#[test]
fn new_starts_clean() {
    let app = three_pages();
    assert_eq!(app.current_page, 0);
    assert_eq!(app.scroll_offset, 0);
    assert!(!app.should_quit);
    assert_eq!(app.input_mode, InputMode::Normal);
    assert!(app.input_buffer.is_empty());
    assert!(app.search_query.is_empty());
    assert!(app.search_results.is_empty());
    assert_eq!(app.current_search_result, 0);
    assert!(app.status_message.is_empty());
}

#[test]
fn jump_to_page_bounds() {
    let mut app = three_pages();
    app.jump_to_page(0);
    assert_eq!(app.current_page, 0);
    assert_eq!(app.status_message.as_str(), "Invalid page number: 0");
    app.jump_to_page(4);
    assert_eq!(app.current_page, 0);
    assert_eq!(app.status_message.as_str(), "Invalid page number: 4");
    app.jump_to_page(1);
    assert_eq!(app.current_page, 0);
    assert_eq!(app.status_message.as_str(), "Jumped to page 1");
    app.jump_to_page(3);
    assert_eq!(app.current_page, 2);
    assert_eq!(app.status_message.as_str(), "Jumped to page 3");
}

#[test]
fn scroll_up_saturates_at_zero() {
    let mut app = three_pages();
    app.scroll_up();
    app.scroll_up();
    assert_eq!(app.scroll_offset, 0);
    app.scroll_down();
    app.scroll_down();
    assert_eq!(app.scroll_offset, 2);
    app.scroll_up();
    app.scroll_up();
    app.scroll_up();
    assert_eq!(app.scroll_offset, 0);
}

#[test]
fn page_changes_reset_scroll() {
    let mut app = three_pages();
    app.scroll_down();
    app.scroll_down();
    app.next_page();
    assert_eq!(app.current_page, 1);
    assert_eq!(app.scroll_offset, 0);
    app.scroll_down();
    app.prev_page();
    assert_eq!(app.current_page, 0);
    assert_eq!(app.scroll_offset, 0);
}

#[test]
fn next_page_at_last_page_is_a_no_op() {
    let mut app = three_pages();
    app.jump_to_page(3);
    app.scroll_down();
    app.next_page();
    assert_eq!(app.current_page, 2);
    assert_eq!(app.scroll_offset, 1);
}

#[test]
fn prev_page_at_first_page_is_a_no_op() {
    let mut app = three_pages();
    app.scroll_down();
    app.prev_page();
    assert_eq!(app.current_page, 0);
    assert_eq!(app.scroll_offset, 1);
}

#[test]
fn home_and_end_jump_to_first_and_last_page() {
    let mut app = three_pages();
    app.handle_key(Key::End);
    assert_eq!(app.current_page, 2);
    assert_eq!(app.scroll_offset, 0);
    app.handle_key(Key::Home);
    assert_eq!(app.current_page, 0);
}

fn searched(query: &str) -> App {
    let mut app = App::new(vec![
        "x one".to_string(),
        "nothing\nx two".to_string(),
        "x three".to_string(),
    ]);
    app.handle_key(Key::Char('/'));
    type_chars(&mut app, query);
    app.handle_key(Key::Enter);
    app
}

#[test]
fn result_cycling_wraps_around() {
    let mut app = searched("x");
    assert_eq!(app.search_results.len(), 3);
    assert_eq!(app.current_search_result, 0);
    app.next_search_result();
    assert_eq!(app.current_search_result, 1);
    app.next_search_result();
    assert_eq!(app.current_search_result, 2);
    app.next_search_result();
    assert_eq!(app.current_search_result, 0);
    app.prev_search_result();
    assert_eq!(app.current_search_result, 2);
}

#[test]
fn cycling_with_no_results_is_a_no_op() {
    let mut app = three_pages();
    app.next_search_result();
    app.prev_search_result();
    assert_eq!(app.current_search_result, 0);
    assert_eq!(app.current_page, 0);
    assert!(app.status_message.is_empty());
}

#[test]
fn going_to_a_result_sets_page_and_scroll() {
    let mut app = searched("x");
    assert_eq!(app.current_page, 0);
    assert_eq!(app.scroll_offset, 0);
    assert_eq!(app.status_message.as_str(), "Result 1 of 3 for 'x'");
    app.next_search_result();
    assert_eq!(app.current_page, 1);
    assert_eq!(app.scroll_offset, 0);
    assert_eq!(app.status_message.as_str(), "Result 2 of 3 for 'x'");
}

#[test]
fn result_scroll_looks_back_five_lines() {
    let mut text = String::new();
    for i in 0..30 {
        text.push_str(&format!("filler {i}\n"));
    }
    text.push_str("needle\n");
    let mut app = App::new(split_into_pages(&text));
    app.handle_key(Key::Char('/'));
    type_chars(&mut app, "needle");
    app.handle_key(Key::Enter);
    assert_eq!(app.search_results.len(), 1);
    assert_eq!(app.scroll_offset, 30 - 5);
}

#[test]
fn end_to_end_scenario() {
    let pages = split_into_pages("Alpha\n\x0CBeta\nbeta again\n\x0CGamma");
    assert_eq!(
        pages,
        vec!["Alpha".to_string(), "Beta\nbeta again".to_string(), "Gamma".to_string()]
    );
    let mut app = App::new(pages);
    app.handle_key(Key::Char('/'));
    type_chars(&mut app, "beta");
    app.handle_key(Key::Enter);
    assert_eq!(app.search_results.len(), 2);
    assert_eq!(app.search_results[0].page, 1);
    assert_eq!(app.search_results[0].line, 0);
    assert_eq!(app.search_results[1].page, 1);
    assert_eq!(app.search_results[1].line, 1);
    assert_eq!(app.current_page, 1);
    assert_eq!(app.scroll_offset, 0);
}

#[test]
fn page_jump_keys_drive_the_state_machine() {
    let mut app = three_pages();
    app.handle_key(Key::Char('g'));
    assert_eq!(app.input_mode, InputMode::PageJump);
    assert_eq!(app.status_message.as_str(), "Enter page number:");
    app.handle_key(Key::Char('a'));
    assert!(app.input_buffer.is_empty());
    app.handle_key(Key::Char('2'));
    assert_eq!(app.input_buffer.as_str(), "2");
    app.handle_key(Key::Enter);
    assert_eq!(app.input_mode, InputMode::Normal);
    assert!(app.input_buffer.is_empty());
    assert_eq!(app.current_page, 1);
    assert_eq!(app.status_message.as_str(), "Jumped to page 2");
}

#[test]
fn page_jump_with_empty_buffer_reports_invalid() {
    let mut app = three_pages();
    app.handle_key(Key::Char('g'));
    app.handle_key(Key::Enter);
    assert_eq!(app.input_mode, InputMode::Normal);
    assert_eq!(app.current_page, 0);
    assert_eq!(app.status_message.as_str(), "Invalid page number");
}

#[test]
fn empty_search_submission_reports_it() {
    let mut app = three_pages();
    app.handle_key(Key::Char('/'));
    assert_eq!(app.status_message.as_str(), "Enter search term:");
    app.handle_key(Key::Enter);
    assert_eq!(app.input_mode, InputMode::Normal);
    assert_eq!(app.status_message.as_str(), "Search query is empty");
    assert!(app.search_results.is_empty());
}

#[test]
fn search_without_matches_reports_it() {
    let mut app = three_pages();
    app.handle_key(Key::Char('/'));
    type_chars(&mut app, "zzz");
    app.handle_key(Key::Enter);
    assert_eq!(app.status_message.as_str(), "No results found for 'zzz'");
    assert_eq!(app.current_page, 0);
}

#[test]
fn backspace_edits_the_buffer() {
    let mut app = three_pages();
    app.handle_key(Key::Char('/'));
    type_chars(&mut app, "ab");
    app.handle_key(Key::Backspace);
    assert_eq!(app.input_buffer.as_str(), "a");
    app.handle_key(Key::Backspace);
    app.handle_key(Key::Backspace);
    assert!(app.input_buffer.is_empty());
}

#[test]
fn esc_cancels_input_capture() {
    let mut app = three_pages();
    app.handle_key(Key::Char('g'));
    app.handle_key(Key::Char('9'));
    app.handle_key(Key::Esc);
    assert_eq!(app.input_mode, InputMode::Normal);
    assert!(app.input_buffer.is_empty());
    assert!(app.status_message.is_empty());
    assert_eq!(app.current_page, 0);
}

#[test]
fn esc_clears_an_active_search_then_quits() {
    let mut app = searched("x");
    assert!(!app.search_query.is_empty());
    app.handle_key(Key::Esc);
    assert!(app.search_query.is_empty());
    assert!(app.search_results.is_empty());
    assert_eq!(app.status_message.as_str(), "Search cleared");
    assert!(!app.should_quit);
    app.handle_key(Key::Esc);
    assert!(app.should_quit);
}

#[test]
fn q_sets_the_quit_flag() {
    let mut app = three_pages();
    app.handle_key(Key::Char('q'));
    assert!(app.should_quit);
    assert_eq!(app.current_page, 0);
}

#[test]
fn navigation_keys_in_normal_mode() {
    let mut app = three_pages();
    app.handle_key(Key::Right);
    assert_eq!(app.current_page, 1);
    app.handle_key(Key::Char('n'));
    assert_eq!(app.current_page, 2);
    app.handle_key(Key::Left);
    assert_eq!(app.current_page, 1);
    app.handle_key(Key::Char('p'));
    assert_eq!(app.current_page, 0);
    app.handle_key(Key::Down);
    app.handle_key(Key::Char('j'));
    assert_eq!(app.scroll_offset, 2);
    app.handle_key(Key::Up);
    app.handle_key(Key::Char('k'));
    assert_eq!(app.scroll_offset, 0);
}

#[test]
fn unrecognized_keys_are_ignored() {
    let mut app = three_pages();
    app.handle_key(Key::Other);
    app.handle_key(Key::Char('z'));
    assert_eq!(app.current_page, 0);
    assert_eq!(app.input_mode, InputMode::Normal);
    assert!(app.status_message.is_empty());
}
