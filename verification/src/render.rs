//! The render model: a pure projection of the viewer state into the
//! abstract content a terminal surface draws — a header line, the visible
//! highlighted lines of the current page, a footer hint, and an optional
//! status line. No escape sequences or layout arithmetic happen here.

use vstd::prelude::*;

use crate::app::{App, InputMode};
use crate::highlight::{highlight, highlight_spec, Span, SpanV};
use crate::text::{dec_digits, from_chars, spec_lines, split_lines, to_chars, usize_to_string};

verus! {

/// What the terminal surface is asked to draw for one frame.
pub struct RenderModel {
    pub header: String,
    pub lines: Vec<Vec<Span>>,
    pub footer: String,
    pub status: Option<String>,
}

/// The header line: the input prompt while capturing input, otherwise the
/// page indicator.
pub open spec fn header_spec(app: App) -> Seq<char> {
    match app.input_mode {
        InputMode::PageJump => "Enter page number (1-"@ + dec_digits(app.pages@.len() as nat)
            + "): "@ + app.input_buffer@,
        InputMode::Search => "Search: "@ + app.input_buffer@,
        InputMode::Normal => "PDF Reader - Page "@ + dec_digits(app.current_page as nat + 1)
            + " of "@ + dec_digits(app.pages@.len() as nat),
    }
}

/// The footer hint for the active mode.
pub open spec fn footer_spec(app: App) -> Seq<char> {
    if app.input_mode is Normal {
        if app.search_query@.len() > 0 {
            "g (goto page) | / (search) | F/B (next/prev result) | \u{2190}/\u{2192} (pages) | \u{2191}/\u{2193} (scroll) | Home/End | Esc (clear search) | q (quit)"@
        } else {
            "g (goto page) | / (search) | \u{2190}/\u{2192} (pages) | \u{2191}/\u{2193} (scroll) | Home/End | q/Esc (quit)"@
        }
    } else {
        "Enter (submit) | Esc (cancel) | Backspace (delete)"@
    }
}

/// The status line is drawn while capturing input or while a status message
/// stands.
pub open spec fn status_shown(app: App) -> bool {
    !(app.input_mode is Normal) || app.status_message@.len() > 0
}

/// The lines of the current page from the scroll offset on; nothing when the
/// document is empty.
pub open spec fn visible_lines(app: App) -> Seq<Seq<char>> {
    if app.pages@.len() == 0 {
        Seq::empty()
    } else {
        let ls = spec_lines(app.pages.deep_view()[app.current_page as int]);
        if app.scroll_offset as int <= ls.len() {
            ls.skip(app.scroll_offset as int)
        } else {
            Seq::empty()
        }
    }
}

/// Each visible line carved into its highlight spans for the active query.
pub open spec fn visible_spans(app: App) -> Seq<Seq<SpanV>> {
    visible_lines(app).map_values(|l: Seq<char>| highlight_spec(l, app.search_query@))
}

/// Projects the viewer state into the frame content: header, visible
/// highlighted lines, footer hint, and the status line when one is shown.
pub fn render_model(app: &App) -> (r: RenderModel)
    requires
        app.wf(),
    ensures
        r.header@ == header_spec(*app),
        r.footer@ == footer_spec(*app),
        r.lines.deep_view() == visible_spans(*app),
        match r.status {
            Some(s) => status_shown(*app) && s@ == app.status_message@,
            None => !status_shown(*app),
        },
{
    let header = match app.input_mode {
        InputMode::PageJump => {
            let mut h = String::from_str("Enter page number (1-");
            let total = usize_to_string(app.pages.len());
            h.append(total.as_str());
            h.append("): ");
            h.append(app.input_buffer.as_str());
            assert(h@ =~= header_spec(*app));
            h
        },
        InputMode::Search => {
            let mut h = String::from_str("Search: ");
            h.append(app.input_buffer.as_str());
            assert(h@ =~= header_spec(*app));
            h
        },
        InputMode::Normal => {
            let mut h = String::from_str("PDF Reader - Page ");
            let page_count = app.pages.len();
            assert(app.current_page < page_count || app.current_page == 0);
            let cur = usize_to_string(app.current_page + 1);
            h.append(cur.as_str());
            h.append(" of ");
            let total = usize_to_string(app.pages.len());
            h.append(total.as_str());
            assert(h@ =~= header_spec(*app));
            h
        },
    };
    let mut lines: Vec<Vec<Span>> = Vec::new();
    let ghost vl = visible_lines(*app);
    let ghost f = |l: Seq<char>| highlight_spec(l, app.search_query@);
    if app.pages.len() > 0 {
        let page_chars = to_chars(app.pages[app.current_page].as_str());
        proof {
            assert(app.pages.deep_view()[app.current_page as int] =~= app.pages@[app.current_page as int]@);
        }
        let page_lines = split_lines(&page_chars);
        let start = if app.scroll_offset <= page_lines.len() {
            app.scroll_offset
        } else {
            page_lines.len()
        };
        proof {
            if app.scroll_offset > page_lines@.len() {
                assert(vl =~= page_lines.deep_view().skip(page_lines@.len() as int));
            }
        }
        let mut i: usize = start;
        assert(lines.deep_view() =~~= vl.subrange(0, 0).map_values(f));
        while i < page_lines.len()
            invariant
                start <= i <= page_lines@.len(),
                page_lines.deep_view().len() == page_lines@.len(),
                vl == page_lines.deep_view().skip(start as int),
                f == (|l: Seq<char>| highlight_spec(l, app.search_query@)),
                lines.deep_view() == vl.subrange(0, i - start).map_values(f),
            decreases page_lines@.len() - i,
        {
            proof {
                assert(page_lines.deep_view()[i as int] =~= page_lines@[i as int]@);
                assert(vl[i - start] == page_lines.deep_view()[i as int]);
            }
            let line_str = from_chars(&page_lines[i]);
            let spans = highlight(line_str.as_str(), app.search_query.as_str());
            let ghost prev = lines.deep_view();
            lines.push(spans);
            proof {
                assert(lines.deep_view() =~~= prev.push(highlight_spec(
                    page_lines@[i as int]@,
                    app.search_query@,
                )));
                let k = i - start;
                assert(vl.subrange(0, k + 1).drop_last() =~= vl.subrange(0, k as int));
                assert(vl.subrange(0, k + 1).map_values(f) =~~= vl.subrange(0, k as int).map_values(
                    f,
                ).push(f(vl[k as int])));
            }
            i = i + 1;
        }
        proof {
            assert(vl.subrange(0, page_lines@.len() - start) =~= vl);
        }
    } else {
        proof {
            assert(lines.deep_view() =~~= visible_spans(*app));
        }
    }
    let footer = if matches!(app.input_mode, InputMode::Normal) {
        if app.search_query.unicode_len() > 0 {
            String::from_str(
                "g (goto page) | / (search) | F/B (next/prev result) | \u{2190}/\u{2192} (pages) | \u{2191}/\u{2193} (scroll) | Home/End | Esc (clear search) | q (quit)",
            )
        } else {
            String::from_str(
                "g (goto page) | / (search) | \u{2190}/\u{2192} (pages) | \u{2191}/\u{2193} (scroll) | Home/End | q/Esc (quit)",
            )
        }
    } else {
        String::from_str("Enter (submit) | Esc (cancel) | Backspace (delete)")
    };
    let show_status = !matches!(app.input_mode, InputMode::Normal)
        || app.status_message.unicode_len() > 0;
    let status = if show_status {
        Some(app.status_message.clone())
    } else {
        None
    };
    RenderModel { header, lines, footer, status }
}

} // verus!
