use pdf_reader::app::{App, Key};
use pdf_reader::render::render_model;
use pdf_reader::text::{parse_usize, to_chars, usize_to_string};

fn two_pages() -> App {
    App::new(vec!["a\nb\nc".to_string(), "second".to_string()])
}

#[test]
fn header_shows_page_indicator_in_normal_mode() {
    let app = two_pages();
    let model = render_model(&app);
    assert_eq!(model.header.as_str(), "PDF Reader - Page 1 of 2");
}

#[test]
fn header_shows_prompts_while_capturing_input() {
    let mut app = two_pages();
    app.handle_key(Key::Char('g'));
    app.handle_key(Key::Char('1'));
    app.handle_key(Key::Char('2'));
    let model = render_model(&app);
    assert_eq!(model.header.as_str(), "Enter page number (1-2): 12");
    app.handle_key(Key::Esc);
    app.handle_key(Key::Char('/'));
    app.handle_key(Key::Char('h'));
    app.handle_key(Key::Char('i'));
    let model = render_model(&app);
    assert_eq!(model.header.as_str(), "Search: hi");
}

#[test]
fn footer_depends_on_mode_and_active_search() {
    let mut app = two_pages();
    let model = render_model(&app);
    assert!(model.footer.contains("q/Esc (quit)"));
    assert!(!model.footer.contains("next/prev result"));
    app.handle_key(Key::Char('/'));
    let model = render_model(&app);
    assert_eq!(model.footer.as_str(), "Enter (submit) | Esc (cancel) | Backspace (delete)");
    app.handle_key(Key::Char('a'));
    app.handle_key(Key::Enter);
    let model = render_model(&app);
    assert!(model.footer.contains("F/B (next/prev result)"));
    assert!(model.footer.contains("Esc (clear search)"));
}

#[test]
fn status_line_is_shown_only_when_needed() {
    let mut app = two_pages();
    let model = render_model(&app);
    assert!(model.status.is_none());
    app.handle_key(Key::Char('g'));
    let model = render_model(&app);
    assert_eq!(model.status.as_deref(), Some("Enter page number:"));
    app.handle_key(Key::Esc);
    let model = render_model(&app);
    assert!(model.status.is_none());
    app.jump_to_page(2);
    let model = render_model(&app);
    assert_eq!(model.status.as_deref(), Some("Jumped to page 2"));
}

#[test]
fn visible_lines_start_at_the_scroll_offset() {
    let mut app = two_pages();
    let model = render_model(&app);
    assert_eq!(model.lines.len(), 3);
    assert_eq!(model.lines[0].len(), 1);
    assert_eq!(model.lines[0][0].text.as_str(), "a");
    app.scroll_down();
    let model = render_model(&app);
    assert_eq!(model.lines.len(), 2);
    assert_eq!(model.lines[0][0].text.as_str(), "b");
    app.scroll_down();
    app.scroll_down();
    app.scroll_down();
    let model = render_model(&app);
    assert!(model.lines.is_empty());
}

#[test]
fn visible_lines_carry_highlight_spans() {
    let mut app = App::new(vec!["Beta beta".to_string()]);
    app.handle_key(Key::Char('/'));
    app.handle_key(Key::Char('b'));
    app.handle_key(Key::Char('e'));
    app.handle_key(Key::Enter);
    let model = render_model(&app);
    assert_eq!(model.lines.len(), 1);
    let parts: Vec<(String, bool)> =
        model.lines[0].iter().map(|s| (s.text.clone(), s.matched)).collect();
    assert_eq!(
        parts,
        vec![
            ("Be".to_string(), true),
            ("ta ".to_string(), false),
            ("be".to_string(), true),
            ("ta".to_string(), false),
        ]
    );
}

#[test]
fn empty_document_renders_no_lines() {
    let app = App::new(Vec::new());
    let model = render_model(&app);
    assert!(model.lines.is_empty());
    assert_eq!(model.header.as_str(), "PDF Reader - Page 1 of 0");
}

#[test]
fn decimal_rendering_and_parsing_agree() {
    assert_eq!(usize_to_string(0).as_str(), "0");
    assert_eq!(usize_to_string(7).as_str(), "7");
    assert_eq!(usize_to_string(105).as_str(), "105");
    assert_eq!(parse_usize(&to_chars("105")), Some(105));
    assert_eq!(parse_usize(&to_chars("0")), Some(0));
    assert_eq!(parse_usize(&to_chars("")), None);
    assert_eq!(parse_usize(&to_chars("12a")), None);
    assert_eq!(parse_usize(&to_chars("99999999999999999999999999")), None);
}
