//! The application state: the paginated document, the navigation position,
//! the active search session, and the input-mode state machine that
//! interprets key events. Every mutation is bound-checked against the
//! document, invalid input becomes a status message, and the well-formedness
//! invariant `wf` is preserved by every operation.

use vstd::prelude::*;

use crate::search::{
    results_ordered, results_valid, search_pages, search_spec, SearchResult,
};
use crate::text::{
    dec_digits, digits_value, from_chars, is_digit_char, lower_of, parse_usize, to_chars,
};

verus! {

/// How a key event is interpreted: direct navigation, or editing the page
/// number or search query being typed.
#[derive(Clone, Copy, PartialEq, Eq, Structural, Debug)]
pub enum InputMode {
    Normal,
    PageJump,
    Search,
}

/// A key event handed in by the terminal surface.
#[derive(Clone, Copy, PartialEq, Eq, Structural, Debug)]
pub enum Key {
    Char(char),
    Enter,
    Esc,
    Backspace,
    Left,
    Right,
    Up,
    Down,
    Home,
    End,
    Other,
}

/// The status line text after a successful page jump.
pub open spec fn status_jumped(n: nat) -> Seq<char> {
    "Jumped to page "@ + dec_digits(n)
}

/// The status line text after a jump to an out-of-range page number.
pub open spec fn status_invalid_page(n: nat) -> Seq<char> {
    "Invalid page number: "@ + dec_digits(n)
}

/// The status line text after a jump submission that is not a number.
pub open spec fn status_invalid_input() -> Seq<char> {
    "Invalid page number"@
}

pub open spec fn status_enter_page() -> Seq<char> {
    "Enter page number:"@
}

pub open spec fn status_enter_search() -> Seq<char> {
    "Enter search term:"@
}

pub open spec fn status_empty_query() -> Seq<char> {
    "Search query is empty"@
}

/// The status line text when a query matches nowhere.
pub open spec fn status_no_results(q: Seq<char>) -> Seq<char> {
    "No results found for '"@ + q + "'"@
}

/// The status line text while standing on result `i` of `n` for query `q`.
pub open spec fn status_result(i: nat, n: nat, q: Seq<char>) -> Seq<char> {
    "Result "@ + dec_digits(i) + " of "@ + dec_digits(n) + " for '"@ + q + "'"@
}

pub open spec fn status_search_cleared() -> Seq<char> {
    "Search cleared"@
}

/// The whole viewer state: the immutable document, the navigation position,
/// the quit flag, the input-capturing state, and the search session.
pub struct App {
    pub pages: Vec<String>,
    pub current_page: usize,
    pub scroll_offset: usize,
    pub should_quit: bool,
    pub input_mode: InputMode,
    pub input_buffer: String,
    pub search_query: String,
    pub search_results: Vec<SearchResult>,
    pub current_search_result: usize,
    pub status_message: String,
}

impl App {
    /// Well-formedness: the page index is valid whenever the document is
    /// non-empty; the stored results are exactly the search of the stored
    /// query, ordered and in bounds; the result cursor is valid whenever
    /// results exist; and the input buffer is empty in normal mode and all
    /// digits in page-jump mode.
    pub open spec fn wf(&self) -> bool {
        &&& self.pages@.len() > 0 ==> (self.current_page as int) < self.pages@.len()
        &&& self.pages@.len() == 0 ==> self.current_page == 0
        &&& self.search_query@.len() == 0 ==> self.search_results@.len() == 0
        &&& self.search_query@.len() > 0 ==> self.search_results@ == search_spec(
            self.pages.deep_view(),
            lower_of(self.search_query@),
        )
        &&& results_ordered(self.search_results@)
        &&& results_valid(self.search_results@, self.pages.deep_view())
        &&& self.search_results@.len() > 0 ==> (self.current_search_result as int)
            < self.search_results@.len()
        &&& self.input_mode is Normal ==> self.input_buffer@.len() == 0
        &&& self.input_mode is PageJump ==> forall|i: int|
            0 <= i < self.input_buffer@.len() ==> is_digit_char(self.input_buffer@[i])
    }

    /// A fresh viewer over the given pages: first page, no scroll, normal
    /// mode, no search, no status.
    pub fn new(pdf_content: Vec<String>) -> (r: App)
        ensures
            r.wf(),
            r.pages == pdf_content,
            r.current_page == 0,
            r.scroll_offset == 0,
            !r.should_quit,
            r.input_mode is Normal,
            r.input_buffer@.len() == 0,
            r.search_query@.len() == 0,
            r.search_results@.len() == 0,
            r.current_search_result == 0,
            r.status_message@.len() == 0,
    {
        App {
            pages: pdf_content,
            current_page: 0,
            scroll_offset: 0,
            should_quit: false,
            input_mode: InputMode::Normal,
            input_buffer: String::new(),
            search_query: String::new(),
            search_results: Vec::new(),
            current_search_result: 0,
            status_message: String::new(),
        }
    }
}

pub open spec fn unchanged_doc(pre: App, post: App) -> bool {
    post.pages == pre.pages
}

pub open spec fn unchanged_nav(pre: App, post: App) -> bool {
    post.current_page == pre.current_page && post.scroll_offset == pre.scroll_offset
}

pub open spec fn unchanged_quit(pre: App, post: App) -> bool {
    post.should_quit == pre.should_quit
}

pub open spec fn unchanged_input(pre: App, post: App) -> bool {
    post.input_mode == pre.input_mode && post.input_buffer == pre.input_buffer
}

pub open spec fn unchanged_search(pre: App, post: App) -> bool {
    post.search_query == pre.search_query && post.search_results == pre.search_results
        && post.current_search_result == pre.current_search_result
}

pub open spec fn unchanged_status(pre: App, post: App) -> bool {
    post.status_message == pre.status_message
}

/// Moving one page forward: advances unless already on the last page, and
/// resets the scroll offset exactly when the page changes.
pub open spec fn next_page_effect(pre: App, post: App) -> bool {
    &&& if pre.current_page + 1 < pre.pages@.len() {
        post.current_page == pre.current_page + 1 && post.scroll_offset == 0
    } else {
        unchanged_nav(pre, post)
    }
    &&& unchanged_doc(pre, post)
    &&& unchanged_quit(pre, post)
    &&& unchanged_input(pre, post)
    &&& unchanged_search(pre, post)
    &&& unchanged_status(pre, post)
}

/// Moving one page back: retreats unless already on the first page, and
/// resets the scroll offset exactly when the page changes.
pub open spec fn prev_page_effect(pre: App, post: App) -> bool {
    &&& if pre.current_page > 0 {
        post.current_page == pre.current_page - 1 && post.scroll_offset == 0
    } else {
        unchanged_nav(pre, post)
    }
    &&& unchanged_doc(pre, post)
    &&& unchanged_quit(pre, post)
    &&& unchanged_input(pre, post)
    &&& unchanged_search(pre, post)
    &&& unchanged_status(pre, post)
}

pub open spec fn scroll_down_effect(pre: App, post: App) -> bool {
    &&& post.current_page == pre.current_page
    &&& post.scroll_offset == pre.scroll_offset + 1
    &&& unchanged_doc(pre, post)
    &&& unchanged_quit(pre, post)
    &&& unchanged_input(pre, post)
    &&& unchanged_search(pre, post)
    &&& unchanged_status(pre, post)
}

/// Scrolling up saturates at offset zero.
pub open spec fn scroll_up_effect(pre: App, post: App) -> bool {
    &&& post.current_page == pre.current_page
    &&& post.scroll_offset == (if pre.scroll_offset > 0 {
        pre.scroll_offset - 1
    } else {
        0
    })
    &&& unchanged_doc(pre, post)
    &&& unchanged_quit(pre, post)
    &&& unchanged_input(pre, post)
    &&& unchanged_search(pre, post)
    &&& unchanged_status(pre, post)
}

pub open spec fn quit_effect(pre: App, post: App) -> bool {
    &&& post.should_quit
    &&& unchanged_doc(pre, post)
    &&& unchanged_nav(pre, post)
    &&& unchanged_input(pre, post)
    &&& unchanged_search(pre, post)
    &&& unchanged_status(pre, post)
}

/// A one-indexed page jump: valid numbers move to that page, reset scroll
/// and confirm; anything else leaves navigation untouched and reports the
/// invalid number. The input-capturing fields are not touched here.
pub open spec fn jump_outcome(pre: App, post: App, n: int) -> bool {
    &&& if 1 <= n <= pre.pages@.len() {
        post.current_page == n - 1 && post.scroll_offset == 0 && post.status_message@
            == status_jumped(n as nat)
    } else {
        unchanged_nav(pre, post) && post.status_message@ == status_invalid_page(n as nat)
    }
    &&& unchanged_doc(pre, post)
    &&& unchanged_quit(pre, post)
    &&& unchanged_search(pre, post)
}

pub open spec fn start_page_jump_effect(pre: App, post: App) -> bool {
    &&& post.input_mode is PageJump
    &&& post.input_buffer@.len() == 0
    &&& post.status_message@ == status_enter_page()
    &&& unchanged_doc(pre, post)
    &&& unchanged_nav(pre, post)
    &&& unchanged_quit(pre, post)
    &&& unchanged_search(pre, post)
}

pub open spec fn start_search_effect(pre: App, post: App) -> bool {
    &&& post.input_mode is Search
    &&& post.input_buffer@.len() == 0
    &&& post.status_message@ == status_enter_search()
    &&& unchanged_doc(pre, post)
    &&& unchanged_nav(pre, post)
    &&& unchanged_quit(pre, post)
    &&& unchanged_search(pre, post)
}

/// What running the search with the current buffer does to everything but
/// the input-capturing fields: an empty buffer only reports; otherwise the
/// buffer becomes the query, its matches become the session results, and
/// either the zero-result message is shown or the view moves to the first
/// result.
pub open spec fn search_outcome(pre: App, post: App) -> bool {
    &&& if pre.input_buffer@.len() == 0 {
        unchanged_nav(pre, post) && unchanged_search(pre, post) && post.status_message@
            == status_empty_query()
    } else {
        let rs = search_spec(pre.pages.deep_view(), lower_of(pre.input_buffer@));
        &&& post.search_query == pre.input_buffer
        &&& post.search_results@ == rs
        &&& if rs.len() == 0 {
            &&& unchanged_nav(pre, post)
            &&& post.current_search_result == pre.current_search_result
            &&& post.status_message@ == status_no_results(pre.input_buffer@)
        } else {
            &&& post.current_search_result == 0
            &&& post.current_page == rs[0].page
            &&& post.scroll_offset == (if rs[0].line >= 5 {
                rs[0].line - 5
            } else {
                0
            })
            &&& post.status_message@ == status_result(1, rs.len(), pre.input_buffer@)
        }
    }
    &&& unchanged_doc(pre, post)
    &&& unchanged_quit(pre, post)
}

/// Moving the view to the result under the cursor: sets the page, scrolls to
/// five lines above the match (saturating at the top), and reports which
/// result is shown; with no results nothing happens.
pub open spec fn go_to_result_effect(pre: App, post: App) -> bool {
    &&& if (pre.current_search_result as int) < pre.search_results@.len() {
        let res = pre.search_results@[pre.current_search_result as int];
        &&& post.current_page == res.page
        &&& post.scroll_offset == (if res.line >= 5 {
            res.line - 5
        } else {
            0
        })
        &&& post.status_message@ == status_result(
            pre.current_search_result as nat + 1,
            pre.search_results@.len(),
            pre.search_query@,
        )
    } else {
        unchanged_nav(pre, post) && unchanged_status(pre, post)
    }
    &&& unchanged_doc(pre, post)
    &&& unchanged_quit(pre, post)
    &&& unchanged_input(pre, post)
    &&& unchanged_search(pre, post)
}

/// Cycling forward wraps modulo the number of results; with no results it is
/// a no-op.
pub open spec fn next_result_effect(pre: App, post: App) -> bool {
    if pre.search_results@.len() > 0 {
        let nc = (pre.current_search_result + 1) % (pre.search_results@.len() as int);
        let res = pre.search_results@[nc];
        &&& post.current_search_result == nc
        &&& post.search_query == pre.search_query
        &&& post.search_results == pre.search_results
        &&& post.current_page == res.page
        &&& post.scroll_offset == (if res.line >= 5 {
            res.line - 5
        } else {
            0
        })
        &&& post.status_message@ == status_result(
            nc as nat + 1,
            pre.search_results@.len(),
            pre.search_query@,
        )
        &&& unchanged_doc(pre, post)
        &&& unchanged_quit(pre, post)
        &&& unchanged_input(pre, post)
    } else {
        post == pre
    }
}

/// Cycling backward wraps from the first result to the last; with no
/// results it is a no-op.
pub open spec fn prev_result_effect(pre: App, post: App) -> bool {
    if pre.search_results@.len() > 0 {
        let nc = if pre.current_search_result == 0 {
            pre.search_results@.len() - 1
        } else {
            pre.current_search_result - 1
        };
        let res = pre.search_results@[nc];
        &&& post.current_search_result == nc
        &&& post.search_query == pre.search_query
        &&& post.search_results == pre.search_results
        &&& post.current_page == res.page
        &&& post.scroll_offset == (if res.line >= 5 {
            res.line - 5
        } else {
            0
        })
        &&& post.status_message@ == status_result(
            nc as nat + 1,
            pre.search_results@.len(),
            pre.search_query@,
        )
        &&& unchanged_doc(pre, post)
        &&& unchanged_quit(pre, post)
        &&& unchanged_input(pre, post)
    } else {
        post == pre
    }
}

/// Cancelling input capture returns to normal mode, discards the buffer and
/// clears the status, without touching navigation or the search session.
pub open spec fn cancel_input_effect(pre: App, post: App) -> bool {
    &&& post.input_mode is Normal
    &&& post.input_buffer@.len() == 0
    &&& post.status_message@.len() == 0
    &&& unchanged_doc(pre, post)
    &&& unchanged_nav(pre, post)
    &&& unchanged_quit(pre, post)
    &&& unchanged_search(pre, post)
}

/// Clearing the search session empties the query, results and cursor and
/// reports it.
pub open spec fn clear_search_effect(pre: App, post: App) -> bool {
    &&& post.search_query@.len() == 0
    &&& post.search_results@.len() == 0
    &&& post.current_search_result == 0
    &&& post.status_message@ == status_search_cleared()
    &&& unchanged_doc(pre, post)
    &&& unchanged_nav(pre, post)
    &&& unchanged_quit(pre, post)
    &&& unchanged_input(pre, post)
}

/// Typing a character: appended to the buffer while capturing input, except
/// that page-jump mode silently discards anything but a decimal digit;
/// ignored in normal mode.
pub open spec fn handle_input_effect(pre: App, post: App, c: char) -> bool {
    &&& post.input_buffer@ == (match pre.input_mode {
        InputMode::PageJump => if is_digit_char(c) {
            pre.input_buffer@.push(c)
        } else {
            pre.input_buffer@
        },
        InputMode::Search => pre.input_buffer@.push(c),
        InputMode::Normal => pre.input_buffer@,
    })
    &&& post.input_mode == pre.input_mode
    &&& unchanged_doc(pre, post)
    &&& unchanged_nav(pre, post)
    &&& unchanged_quit(pre, post)
    &&& unchanged_search(pre, post)
    &&& unchanged_status(pre, post)
}

/// Deleting the last buffered character, if any.
pub open spec fn backspace_effect(pre: App, post: App) -> bool {
    &&& post.input_buffer@ == (if pre.input_buffer@.len() > 0 {
        pre.input_buffer@.drop_last()
    } else {
        pre.input_buffer@
    })
    &&& post.input_mode == pre.input_mode
    &&& unchanged_doc(pre, post)
    &&& unchanged_nav(pre, post)
    &&& unchanged_quit(pre, post)
    &&& unchanged_search(pre, post)
    &&& unchanged_status(pre, post)
}

/// Submitting the buffer: in page-jump mode a numeric buffer becomes a page
/// jump and anything else reports an invalid number; in search mode the
/// buffer is searched; both return to normal mode with the buffer cleared;
/// in normal mode nothing happens.
pub open spec fn submit_effect(pre: App, post: App) -> bool {
    match pre.input_mode {
        InputMode::Normal => post == pre,
        InputMode::PageJump => {
            &&& post.input_mode is Normal
            &&& post.input_buffer@.len() == 0
            &&& if pre.input_buffer@.len() > 0 && (forall|i: int|
                0 <= i < pre.input_buffer@.len() ==> is_digit_char(pre.input_buffer@[i]))
                && digits_value(pre.input_buffer@) <= usize::MAX {
                jump_outcome(pre, post, digits_value(pre.input_buffer@) as int)
            } else {
                unchanged_nav(pre, post) && unchanged_doc(pre, post) && unchanged_quit(pre, post)
                    && unchanged_search(pre, post) && post.status_message@
                    == status_invalid_input()
            }
        },
        InputMode::Search => {
            &&& post.input_mode is Normal
            &&& post.input_buffer@.len() == 0
            &&& search_outcome(pre, post)
        },
    }
}

pub open spec fn go_to_home_effect(pre: App, post: App) -> bool {
    &&& post.current_page == 0
    &&& post.scroll_offset == 0
    &&& unchanged_doc(pre, post)
    &&& unchanged_quit(pre, post)
    &&& unchanged_input(pre, post)
    &&& unchanged_search(pre, post)
    &&& unchanged_status(pre, post)
}

pub open spec fn go_to_end_effect(pre: App, post: App) -> bool {
    &&& post.current_page == (if pre.pages@.len() > 0 {
        pre.pages@.len() - 1
    } else {
        0
    })
    &&& post.scroll_offset == 0
    &&& unchanged_doc(pre, post)
    &&& unchanged_quit(pre, post)
    &&& unchanged_input(pre, post)
    &&& unchanged_search(pre, post)
    &&& unchanged_status(pre, post)
}

/// The whole key-event state machine: how one key event transforms the
/// state, according to the active mode.
pub open spec fn key_transition(pre: App, post: App, key: Key) -> bool {
    if pre.input_mode is Normal {
        match key {
            Key::Char(c) => {
                if c == 'q' {
                    quit_effect(pre, post)
                } else if c == 'n' {
                    next_page_effect(pre, post)
                } else if c == 'p' {
                    prev_page_effect(pre, post)
                } else if c == 'j' {
                    scroll_down_effect(pre, post)
                } else if c == 'k' {
                    scroll_up_effect(pre, post)
                } else if c == 'g' {
                    start_page_jump_effect(pre, post)
                } else if c == '/' {
                    start_search_effect(pre, post)
                } else if c == 'F' {
                    next_result_effect(pre, post)
                } else if c == 'B' {
                    prev_result_effect(pre, post)
                } else {
                    post == pre
                }
            },
            Key::Esc => if pre.search_query@.len() > 0 {
                clear_search_effect(pre, post)
            } else {
                quit_effect(pre, post)
            },
            Key::Right => next_page_effect(pre, post),
            Key::Left => prev_page_effect(pre, post),
            Key::Down => scroll_down_effect(pre, post),
            Key::Up => scroll_up_effect(pre, post),
            Key::Home => go_to_home_effect(pre, post),
            Key::End => go_to_end_effect(pre, post),
            _ => post == pre,
        }
    } else {
        match key {
            Key::Enter => submit_effect(pre, post),
            Key::Esc => cancel_input_effect(pre, post),
            Key::Backspace => backspace_effect(pre, post),
            Key::Char(c) => handle_input_effect(pre, post, c),
            _ => post == pre,
        }
    }
}

impl App {
    pub fn next_page(&mut self)
        requires
            old(self).wf(),
        ensures
            final(self).wf(),
            next_page_effect(*old(self), *final(self)),
    {
        let len = self.pages.len();
        if len > 0 && self.current_page < len - 1 {
            self.current_page = self.current_page + 1;
            self.scroll_offset = 0;
        }
    }

    pub fn prev_page(&mut self)
        requires
            old(self).wf(),
        ensures
            final(self).wf(),
            prev_page_effect(*old(self), *final(self)),
    {
        if self.current_page > 0 {
            self.current_page = self.current_page - 1;
            self.scroll_offset = 0;
        }
    }

    pub fn scroll_down(&mut self)
        requires
            old(self).wf(),
            old(self).scroll_offset < usize::MAX,
        ensures
            final(self).wf(),
            scroll_down_effect(*old(self), *final(self)),
    {
        self.scroll_offset = self.scroll_offset + 1;
    }

    pub fn scroll_up(&mut self)
        requires
            old(self).wf(),
        ensures
            final(self).wf(),
            scroll_up_effect(*old(self), *final(self)),
    {
        if self.scroll_offset > 0 {
            self.scroll_offset = self.scroll_offset - 1;
        }
    }

    pub fn quit(&mut self)
        requires
            old(self).wf(),
        ensures
            final(self).wf(),
            quit_effect(*old(self), *final(self)),
    {
        self.should_quit = true;
    }

    pub fn jump_to_page(&mut self, page_num: usize)
        requires
            old(self).wf(),
        ensures
            final(self).wf(),
            jump_outcome(*old(self), *final(self), page_num as int),
            unchanged_input(*old(self), *final(self)),
    {
        if page_num > 0 && page_num <= self.pages.len() {
            self.current_page = page_num - 1;
            self.scroll_offset = 0;
            let mut msg = String::from_str("Jumped to page ");
            let num = crate::text::usize_to_string(page_num);
            msg.append(num.as_str());
            self.status_message = msg;
            assert(self.status_message@ =~= status_jumped(page_num as nat));
        } else {
            let mut msg = String::from_str("Invalid page number: ");
            let num = crate::text::usize_to_string(page_num);
            msg.append(num.as_str());
            self.status_message = msg;
            assert(self.status_message@ =~= status_invalid_page(page_num as nat));
        }
    }

    pub fn start_page_jump(&mut self)
        requires
            old(self).wf(),
        ensures
            final(self).wf(),
            start_page_jump_effect(*old(self), *final(self)),
    {
        self.input_mode = InputMode::PageJump;
        self.input_buffer = String::new();
        self.status_message = String::from_str("Enter page number:");
    }

    pub fn start_search(&mut self)
        requires
            old(self).wf(),
        ensures
            final(self).wf(),
            start_search_effect(*old(self), *final(self)),
    {
        self.input_mode = InputMode::Search;
        self.input_buffer = String::new();
        self.status_message = String::from_str("Enter search term:");
    }

    /// Runs the search for the buffered query over the whole document.
    pub fn execute_search(&mut self)
        requires
            old(self).wf(),
        ensures
            final(self).wf(),
            search_outcome(*old(self), *final(self)),
            unchanged_input(*old(self), *final(self)),
    {
        if self.input_buffer.unicode_len() == 0 {
            self.status_message = String::from_str("Search query is empty");
            return;
        }
        self.search_query = self.input_buffer.clone();
        let results = search_pages(&self.pages, self.search_query.as_str());
        self.search_results = results;
        if self.search_results.len() == 0 {
            let mut msg = String::from_str("No results found for '");
            msg.append(self.search_query.as_str());
            msg.append("'");
            self.status_message = msg;
            assert(self.status_message@ =~= status_no_results(old(self).input_buffer@));
        } else {
            self.current_search_result = 0;
            self.go_to_search_result();
        }
    }

    /// Moves the view to the search result under the cursor.
    pub fn go_to_search_result(&mut self)
        requires
            old(self).wf(),
        ensures
            final(self).wf(),
            go_to_result_effect(*old(self), *final(self)),
    {
        if self.current_search_result < self.search_results.len() {
            let res = self.search_results[self.current_search_result];
            self.current_page = res.page;
            self.scroll_offset = if res.line >= 5 {
                res.line - 5
            } else {
                0
            };
            let mut msg = String::from_str("Result ");
            let num = crate::text::usize_to_string(self.current_search_result + 1);
            msg.append(num.as_str());
            msg.append(" of ");
            let total = crate::text::usize_to_string(self.search_results.len());
            msg.append(total.as_str());
            msg.append(" for '");
            msg.append(self.search_query.as_str());
            msg.append("'");
            self.status_message = msg;
            assert(self.status_message@ =~= status_result(
                old(self).current_search_result as nat + 1,
                old(self).search_results@.len(),
                old(self).search_query@,
            ));
        }
    }

    pub fn next_search_result(&mut self)
        requires
            old(self).wf(),
        ensures
            final(self).wf(),
            next_result_effect(*old(self), *final(self)),
    {
        if self.search_results.len() > 0 {
            self.current_search_result = (self.current_search_result + 1)
                % self.search_results.len();
            self.go_to_search_result();
        }
    }

    pub fn prev_search_result(&mut self)
        requires
            old(self).wf(),
        ensures
            final(self).wf(),
            prev_result_effect(*old(self), *final(self)),
    {
        if self.search_results.len() > 0 {
            self.current_search_result = if self.current_search_result == 0 {
                self.search_results.len() - 1
            } else {
                self.current_search_result - 1
            };
            self.go_to_search_result();
        }
    }

    pub fn cancel_input(&mut self)
        requires
            old(self).wf(),
        ensures
            final(self).wf(),
            cancel_input_effect(*old(self), *final(self)),
    {
        self.input_mode = InputMode::Normal;
        self.input_buffer = String::new();
        self.status_message = String::new();
    }

    pub fn clear_search(&mut self)
        requires
            old(self).wf(),
        ensures
            final(self).wf(),
            clear_search_effect(*old(self), *final(self)),
    {
        self.search_query = String::new();
        self.search_results = Vec::new();
        self.current_search_result = 0;
        self.status_message = String::from_str("Search cleared");
    }

    pub fn handle_input(&mut self, c: char)
        requires
            old(self).wf(),
        ensures
            final(self).wf(),
            handle_input_effect(*old(self), *final(self), c),
    {
        match self.input_mode {
            InputMode::PageJump => {
                if crate::text::char_is_digit(c) {
                    self.input_buffer.push(c);
                }
            },
            InputMode::Search => {
                self.input_buffer.push(c);
            },
            InputMode::Normal => {},
        }
    }

    pub fn submit_input(&mut self)
        requires
            old(self).wf(),
        ensures
            final(self).wf(),
            submit_effect(*old(self), *final(self)),
    {
        match self.input_mode {
            InputMode::PageJump => {
                let buf = to_chars(self.input_buffer.as_str());
                match parse_usize(&buf) {
                    Some(page_num) => {
                        self.jump_to_page(page_num);
                    },
                    None => {
                        self.status_message = String::from_str("Invalid page number");
                    },
                }
                self.input_mode = InputMode::Normal;
                self.input_buffer = String::new();
            },
            InputMode::Search => {
                self.execute_search();
                self.input_mode = InputMode::Normal;
                self.input_buffer = String::new();
            },
            InputMode::Normal => {},
        }
    }

    pub fn backspace(&mut self)
        requires
            old(self).wf(),
        ensures
            final(self).wf(),
            backspace_effect(*old(self), *final(self)),
    {
        let mut buf = to_chars(self.input_buffer.as_str());
        if buf.len() > 0 {
            let _ = buf.pop();
        }
        self.input_buffer = from_chars(&buf);
    }

    pub fn go_to_home(&mut self)
        requires
            old(self).wf(),
        ensures
            final(self).wf(),
            go_to_home_effect(*old(self), *final(self)),
    {
        self.current_page = 0;
        self.scroll_offset = 0;
    }

    pub fn go_to_end(&mut self)
        requires
            old(self).wf(),
        ensures
            final(self).wf(),
            go_to_end_effect(*old(self), *final(self)),
    {
        if self.pages.len() > 0 {
            self.current_page = self.pages.len() - 1;
        } else {
            self.current_page = 0;
        }
        self.scroll_offset = 0;
    }

    /// Applies one key event according to the active mode.
    pub fn handle_key(&mut self, key: Key)
        requires
            old(self).wf(),
            old(self).input_mode is Normal && (key == Key::Down || key == Key::Char('j'))
                ==> old(self).scroll_offset < usize::MAX,
        ensures
            final(self).wf(),
            key_transition(*old(self), *final(self), key),
    {
        match self.input_mode {
            InputMode::Normal => {
                match key {
                    Key::Char(c) => {
                        if c == 'q' {
                            self.quit();
                        } else if c == 'n' {
                            self.next_page();
                        } else if c == 'p' {
                            self.prev_page();
                        } else if c == 'j' {
                            self.scroll_down();
                        } else if c == 'k' {
                            self.scroll_up();
                        } else if c == 'g' {
                            self.start_page_jump();
                        } else if c == '/' {
                            self.start_search();
                        } else if c == 'F' {
                            self.next_search_result();
                        } else if c == 'B' {
                            self.prev_search_result();
                        }
                    },
                    Key::Esc => {
                        if self.search_query.unicode_len() > 0 {
                            self.clear_search();
                        } else {
                            self.quit();
                        }
                    },
                    Key::Right => self.next_page(),
                    Key::Left => self.prev_page(),
                    Key::Down => self.scroll_down(),
                    Key::Up => self.scroll_up(),
                    Key::Home => self.go_to_home(),
                    Key::End => self.go_to_end(),
                    _ => {},
                }
            },
            InputMode::PageJump | InputMode::Search => {
                match key {
                    Key::Enter => self.submit_input(),
                    Key::Esc => self.cancel_input(),
                    Key::Backspace => self.backspace(),
                    Key::Char(c) => self.handle_input(c),
                    _ => {},
                }
            },
        }
    }
}

} // verus!
