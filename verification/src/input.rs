//! What a key does: the navigator's state machine and the scroll commands.

use crate::cursor::{Cursor, SearchState};
use crate::find::{link_target, FindMode};
use crate::model::{clamp_i16, saturating_mul, Model};
use crate::patterns::escaped_text;
use crate::search::searched_unit;
use crate::strings::{pop_char, push_char};
use crate::widget_sources::{rows, WidgetSource};
use vstd::prelude::*;

verus! {

/// A key of the keyboard, as far as the viewer tells keys apart.
#[derive(Debug, Clone, Copy, PartialEq, Eq, Structural)]
pub enum Key {
    Char(char),
    Backspace,
    Esc,
    Enter,
    Up,
    Down,
    PageUp,
    PageDown,
    F(u8),
    Other,
}

/// A key that was pressed, and whether Control was held with it.
#[derive(Debug, Clone, Copy, PartialEq, Eq, Structural)]
pub struct KeyPress {
    pub key: Key,
    pub control: bool,
}

/// What is left to do for the surroundings after a key.
#[derive(Debug)]
pub enum KeyOutcome {
    /// Nothing: the state holds all that the key did.
    Handled,
    /// Leave the viewer.
    Quit,
    /// Read the file again and parse it anew.
    Reload,
    /// Open the link with this address.
    OpenLink(String),
    /// Show or hide the log.
    ToggleLog,
}

/// Whether every unit of `after` is the unit of `before` at its place once a
/// search for `needle` has run over it.
pub open spec fn searched_store(
    before: Seq<WidgetSource<'_>>,
    after: Seq<WidgetSource<'_>>,
    needle: Seq<char>,
) -> bool {
    &&& after.len() == before.len()
    &&& forall|i: int|
        0 <= i < before.len() ==> searched_unit(
            before[i],
            #[trigger] after[i],
            Some((escaped_text(needle), true)),
        )
}

/// The digit that a character stands for.
pub open spec fn digit_of(c: char) -> Option<int> {
    if '0' as u32 <= c as u32 <= '9' as u32 {
        Some(c as u32 - '0' as u32)
    } else {
        None
    }
}

/// Half of `x + 1`, rounded to zero: half a page of `x` rows, rounded up
/// where the page has an odd number of rows.
pub open spec fn half_up_of(x: int) -> int {
    if x + 1 >= 0 {
        (x + 1) / 2
    } else {
        -((-(x + 1)) / 2)
    }
}

/// A tenth of `x`, rounded to zero.
pub open spec fn tenth_of(x: int) -> int {
    if x >= 0 {
        x / 10
    } else {
        -((-x) / 10)
    }
}

/// Half a page: `(x + 1) / 2`, rounded to zero.
pub fn half_up(x: i16) -> (half: i16)
    requires
        x < i16::MAX,
    ensures
        half == half_up_of(x as int),
        -16384 <= half <= 16384,
{
    let next: i16 = x + 1;
    if next >= 0 {
        next / 2
    } else {
        let wide: i32 = -(next as i32);
        -((wide / 2) as i16)
    }
}

/// A tenth of a count, rounded to zero.
pub fn tenth(x: i16) -> (part: i16)
    ensures
        part == tenth_of(x as int),
{
    if x >= 0 {
        x / 10
    } else {
        let wide: i32 = -(x as i32);
        -((wide / 10) as i16)
    }
}

impl<'a> Model<'a> {
    /// Whether a search is being typed: keys go to the needle.
    pub open spec fn is_typing(&self) -> bool {
        self.cursor matches Cursor::Search(state, _) && !state.accepted
    }

    /// The rows that a page key scrolls by: two less than the screen shows.
    pub open spec fn page_rows(&self) -> int {
        self.visible_rows() - 2
    }

    /// Where `G` without a count leads: so far down that the last row of the
    /// document is the last row shown.
    pub open spec fn bottom(&self) -> int {
        let shown = if self.visible_rows() >= 2 {
            self.visible_rows() - 1
        } else {
            u16::MAX as int
        };
        if rows(self.sources@) >= shown {
            rows(self.sources@) - shown
        } else {
            0
        }
    }

    /// Whether the state is one for `scroll_by` and all else is as in
    /// `before`, but for the pending count, which is used up.
    pub open spec fn scrolled_from(&self, before: &Model<'a>, lines: int) -> bool {
        &&& self.scroll == before.scrolled(lines as i16)
        &&& self.scroll_by_mul == 0
        &&& self.cursor == before.cursor
        &&& self.sources == before.sources
    }

    /// Whether the state is the one after a step of the cursor from
    /// `before`.
    pub open spec fn stepped_from(&self, before: &Model<'a>, mode: FindMode) -> bool {
        &&& self.cursor == before.stepped_cursor(mode)
        &&& self.scroll == match before.stepped_cursor(mode).spec_pointer() {
            Some(pointer) => before.brought_into_view(pointer.id),
            None => before.scroll as int,
        }
        &&& self.sources == before.sources
    }

    /// Whether a page key can be handled: the rows can be scrolled, and the
    /// rows of the screen can be counted in an `i16`.
    pub open spec fn can_page(&self) -> bool {
        self.can_scroll() && self.visible_rows() <= i16::MAX
    }

    /// Whether `press` can be handled. The keys that scroll need rows that
    /// can be counted for scrolling; the page keys also a screen whose rows
    /// can be counted in an `i16`; the keys that step the cursor need rows
    /// that can be counted as the navigator counts them; `G` without a count
    /// needs rows that can be counted and a screen of another height than
    /// one row. Every other key can be handled in every state.
    pub open spec fn can_handle(&self, press: KeyPress) -> bool {
        if self.is_typing() {
            press.key == Key::Enter ==> self.can_jump()
        } else {
            match press.key {
                Key::Char(c) => if c == 'q' || (c == 'c' && press.control) || c == 'r' {
                    true
                } else if c == 'j' || c == 'k' {
                    self.can_scroll()
                } else if c == 'd' || c == 'u' || c == 'f' || c == ' ' || c == 'b' {
                    self.can_page()
                } else if c == 'G' && self.scroll_by_mul == 0 {
                    rows(self.sources@) <= u16::MAX && self.visible_rows() != 1
                } else if c == 'n' || c == 'N' {
                    self.can_jump()
                } else {
                    true
                },
                Key::Up => self.can_scroll(),
                Key::Down => self.can_scroll(),
                Key::PageUp => self.can_page(),
                Key::PageDown => self.can_page(),
                _ => true,
            }
        }
    }

    /// Whether `press` can be handled, for a caller to find out before it
    /// hands the key on.
    pub fn check_can_handle(&self, press: KeyPress) -> (fits: bool)
        ensures
            fits == self.can_handle(press),
    {
        let typing = match &self.cursor {
            Cursor::Search(state, _) => !state.accepted,
            _ => false,
        };
        let visible = self.inner_height(self.screen_size.height);
        if typing {
            return match press.key {
                Key::Enter => self.check_can_jump(),
                _ => true,
            };
        }
        match press.key {
            Key::Char(c) => {
                if c == 'q' || (c == 'c' && press.control) || c == 'r' {
                    true
                } else if c == 'j' || c == 'k' {
                    self.check_can_scroll()
                } else if c == 'd' || c == 'u' || c == 'f' || c == ' ' || c == 'b' {
                    self.check_can_scroll() && visible <= 32767
                } else if c == 'G' && self.scroll_by_mul == 0 {
                    self.counted_rows(65535).is_some() && visible != 1
                } else if c == 'n' || c == 'N' {
                    self.check_can_jump()
                } else {
                    true
                }
            },
            Key::Up => self.check_can_scroll(),
            Key::Down => self.check_can_scroll(),
            Key::PageUp => self.check_can_scroll() && visible <= 32767,
            Key::PageDown => self.check_can_scroll() && visible <= 32767,
            _ => true,
        }
    }

    /// The rows that a page key scrolls by.
    fn page_scroll_count(&self) -> (page: i16)
        requires
            self.visible_rows() <= i16::MAX,
        ensures
            page == self.page_rows(),
    {
        self.inner_height(self.screen_size.height) as i16 - 2
    }

    /// A key while a search is being typed. A character joins the needle and
    /// Backspace takes its last one off, and the document is searched anew.
    /// Enter accepts the search and moves to the first match. Escape drops a
    /// pending count, or else the search.
    fn search_key(&mut self, press: KeyPress) -> (outcome: KeyOutcome)
        requires
            old(self).can_handle(press),
            old(self).is_typing(),
        ensures
            outcome is Handled,
            old(self).typed(final(self), press),
    {
        match press.key {
            Key::Char(c) => {
                let needle = match &mut self.cursor {
                    Cursor::Search(state, _) => {
                        push_char(&mut state.needle, c);
                        state.needle.clone()
                    },
                    _ => String::new(),
                };
                self.add_searches(Some(needle));
            },
            Key::Backspace => {
                let needle = match &mut self.cursor {
                    Cursor::Search(state, _) => {
                        let _ = pop_char(&mut state.needle);
                        state.needle.clone()
                    },
                    _ => String::new(),
                };
                self.add_searches(Some(needle));
            },
            Key::Esc => {
                if self.scroll_by_mul == 0 {
                    self.cursor = Cursor::Idle;
                } else {
                    self.scroll_by_mul = 0;
                }
            },
            Key::Enter => {
                match &mut self.cursor {
                    Cursor::Search(state, _) => {
                        state.accepted = true;
                    },
                    _ => {},
                }
                self.cursor_next();
            },
            _ => {},
        }
        KeyOutcome::Handled
    }

    /// A key while no search is being typed: leaving, reloading, scrolling,
    /// the count that scales the next scroll, starting a search, stepping
    /// the cursor, following a link.
    fn command_key(&mut self, press: KeyPress) -> (outcome: KeyOutcome)
        requires
            old(self).can_handle(press),
            !old(self).is_typing(),
        ensures
            old(self).commanded(final(self), press, outcome),
    {
        match press.key {
            Key::Char(c) => {
                if c == 'q' || (c == 'c' && press.control) {
                    return KeyOutcome::Quit;
                }
                if c == 'r' {
                    return KeyOutcome::Reload;
                }
                if c == 'j' {
                    self.scroll_by(1);
                } else if c == 'k' {
                    self.scroll_by(-1);
                } else if c == 'd' {
                    self.scroll_by(half_up(self.page_scroll_count()));
                } else if c == 'u' {
                    self.scroll_by(-half_up(self.page_scroll_count()));
                } else if c == 'f' || c == ' ' {
                    self.scroll_by(self.page_scroll_count());
                } else if c == 'b' {
                    self.scroll_by(-self.page_scroll_count());
                } else if c == 'G' && self.scroll_by_mul == 0 {
                    let visible = self.inner_height(self.screen_size.height);
                    let shown: u16 = if visible >= 2 {
                        visible - 1
                    } else {
                        65535
                    };
                    self.scroll = self.total_lines().saturating_sub(shown);
                } else if c == 'g' || c == 'G' {
                    let count: i16 = if self.scroll_by_mul > 1 {
                        self.scroll_by_mul
                    } else {
                        1
                    };
                    self.scroll = (count - 1) as u16;
                    self.scroll_by_mul = 0;
                } else if c == '/' {
                    self.cursor = Cursor::Search(SearchState::default(), None);
                    self.scroll_by_mul = 0;
                } else if c == 'n' {
                    self.cursor_next();
                } else if c == 'N' {
                    self.cursor_prev();
                } else {
                    let code = c as u32;
                    if 48 <= code && code <= 57 {
                        let digit: i16 = (code - 48) as i16;
                        let tenfold = saturating_mul(self.scroll_by_mul, 10);
                        let wide: i32 = tenfold as i32 + digit as i32;
                        self.scroll_by_mul = if wide > 32767 {
                            32767
                        } else {
                            wide as i16
                        };
                    }
                }
                KeyOutcome::Handled
            },
            Key::Down => {
                self.scroll_by(1);
                KeyOutcome::Handled
            },
            Key::Up => {
                self.scroll_by(-1);
                KeyOutcome::Handled
            },
            Key::PageDown => {
                self.scroll_by(self.page_scroll_count());
                KeyOutcome::Handled
            },
            Key::PageUp => {
                self.scroll_by(-self.page_scroll_count());
                KeyOutcome::Handled
            },
            Key::F(number) => {
                if number == 11 {
                    KeyOutcome::ToggleLog
                } else {
                    KeyOutcome::Handled
                }
            },
            Key::Enter => {
                let url = match &self.cursor {
                    Cursor::Links(pointer) => self.sources.find_link(pointer),
                    _ => None,
                };
                match url {
                    Some(url) => KeyOutcome::OpenLink(url),
                    None => KeyOutcome::Handled,
                }
            },
            Key::Esc => {
                if self.scroll_by_mul == 0 {
                    let leave = match &self.cursor {
                        Cursor::Search(state, _) => state.accepted,
                        Cursor::Links(_) => true,
                        Cursor::Idle => false,
                    };
                    if leave {
                        self.cursor = Cursor::Idle;
                    }
                } else {
                    self.scroll_by_mul = 0;
                }
                KeyOutcome::Handled
            },
            Key::Backspace => {
                self.scroll_by_mul = tenth(self.scroll_by_mul);
                KeyOutcome::Handled
            },
            Key::Other => KeyOutcome::Handled,
        }
    }

    /// Whether `after` and `outcome` are what `press` leads to while no
    /// search is being typed.
    pub open spec fn commanded(&self, after: &Model<'a>, press: KeyPress, outcome: KeyOutcome) -> bool {
        let page = self.page_rows();
        let half = half_up_of(page);
        let still = after.cursor == self.cursor && after.scroll == self.scroll
            && after.scroll_by_mul == self.scroll_by_mul && after.sources == self.sources;
        &&& after.bg == self.bg
        &&& after.screen_size == self.screen_size
        &&& after.padding == self.padding
        &&& after.document_id == self.document_id
        &&& match press.key {
            Key::Char(c) => if c == 'q' || (c == 'c' && press.control) {
                still && outcome is Quit
            } else if c == 'r' {
                still && outcome is Reload
            } else {
                &&& outcome is Handled
                &&& if c == 'j' {
                    after.scrolled_from(self, 1)
                } else if c == 'k' {
                    after.scrolled_from(self, -1)
                } else if c == 'd' {
                    after.scrolled_from(self, half)
                } else if c == 'u' {
                    after.scrolled_from(self, -half)
                } else if c == 'f' || c == ' ' {
                    after.scrolled_from(self, page)
                } else if c == 'b' {
                    after.scrolled_from(self, -page)
                } else if c == 'G' && self.scroll_by_mul == 0 {
                    &&& after.scroll == self.bottom()
                    &&& after.scroll_by_mul == 0
                    &&& after.cursor == self.cursor
                    &&& after.sources == self.sources
                } else if c == 'g' || c == 'G' {
                    &&& after.scroll == if self.scroll_by_mul > 1 {
                        self.scroll_by_mul - 1
                    } else {
                        0
                    }
                    &&& after.scroll_by_mul == 0
                    &&& after.cursor == self.cursor
                    &&& after.sources == self.sources
                } else if c == '/' {
                    &&& after.cursor matches Cursor::Search(state, None)
                    &&& state.needle@.len() == 0
                    &&& !state.accepted
                    &&& after.scroll_by_mul == 0
                    &&& after.scroll == self.scroll
                    &&& after.sources == self.sources
                } else if c == 'n' {
                    after.stepped_from(self, FindMode::Next)
                } else if c == 'N' {
                    after.stepped_from(self, FindMode::Prev)
                } else {
                    &&& after.scroll_by_mul == match digit_of(c) {
                        Some(digit) => clamp_i16(clamp_i16(self.scroll_by_mul * 10) + digit),
                        None => self.scroll_by_mul as int,
                    }
                    &&& after.cursor == self.cursor
                    &&& after.scroll == self.scroll
                    &&& after.sources == self.sources
                }
            },
            Key::Down => outcome is Handled && after.scrolled_from(self, 1),
            Key::Up => outcome is Handled && after.scrolled_from(self, -1),
            Key::PageDown => outcome is Handled && after.scrolled_from(self, page),
            Key::PageUp => outcome is Handled && after.scrolled_from(self, -page),
            Key::F(number) => still && if number == 11 {
                outcome is ToggleLog
            } else {
                outcome is Handled
            },
            Key::Enter => still && match self.cursor {
                Cursor::Links(pointer) => match link_target(self.sources@, pointer) {
                    Some(address) => outcome matches KeyOutcome::OpenLink(url) && url@ == address,
                    None => outcome is Handled,
                },
                _ => outcome is Handled,
            },
            Key::Esc => {
                &&& outcome is Handled
                &&& after.scroll_by_mul == 0
                &&& after.scroll == self.scroll
                &&& after.sources == self.sources
                &&& after.cursor == if self.scroll_by_mul == 0 && !(self.cursor is Idle) {
                    Cursor::Idle
                } else {
                    self.cursor
                }
            },
            Key::Backspace => {
                &&& outcome is Handled
                &&& after.scroll_by_mul == tenth_of(self.scroll_by_mul as int)
                &&& after.cursor == self.cursor
                &&& after.scroll == self.scroll
                &&& after.sources == self.sources
            },
            Key::Other => still && outcome is Handled,
        }
    }

    /// What a key does to the state, and what it leaves to do. While a
    /// search is being typed, keys edit the needle; otherwise they are
    /// commands.
    pub fn handle_key(&mut self, press: KeyPress) -> (outcome: KeyOutcome)
        requires
            old(self).can_handle(press),
        ensures
            old(self).is_typing() ==> outcome is Handled && old(self).typed(final(self), press),
            !old(self).is_typing() ==> old(self).commanded(final(self), press, outcome),
    {
        let typing = match &self.cursor {
            Cursor::Search(state, _) => !state.accepted,
            _ => false,
        };
        if typing {
            self.search_key(press)
        } else {
            self.command_key(press)
        }
    }

    /// The state with the search accepted.
    pub open spec fn accepted(&self) -> Model<'a> {
        match self.cursor {
            Cursor::Search(state, pointer) => Model {
                cursor: Cursor::Search(SearchState { needle: state.needle, accepted: true }, pointer),
                ..*self
            },
            _ => *self,
        }
    }

    /// Whether `after` is the state that `press` leads to while a search is
    /// being typed.
    pub open spec fn typed(&self, after: &Model<'a>, press: KeyPress) -> bool {
        &&& after.bg == self.bg
        &&& after.screen_size == self.screen_size
        &&& after.padding == self.padding
        &&& after.document_id == self.document_id
        &&& self.cursor matches Cursor::Search(state, pointer)
        &&& match press.key {
            Key::Char(c) => {
                &&& after.cursor == Cursor::Search(
                    SearchState { needle: after.cursor->Search_0.needle, accepted: false },
                    pointer,
                )
                &&& after.cursor->Search_0.needle@ == state.needle@.push(c)
                &&& searched_store(self.sources@, after.sources@, state.needle@.push(c))
                &&& after.sources.evicted() == self.sources.evicted()
                &&& after.scroll == self.scroll
                &&& after.scroll_by_mul == self.scroll_by_mul
            },
            Key::Backspace => {
                &&& after.cursor == Cursor::Search(
                    SearchState { needle: after.cursor->Search_0.needle, accepted: false },
                    pointer,
                )
                &&& after.cursor->Search_0.needle@ == if state.needle@.len() > 0 {
                    state.needle@.drop_last()
                } else {
                    state.needle@
                }
                &&& searched_store(self.sources@, after.sources@, after.cursor->Search_0.needle@)
                &&& after.sources.evicted() == self.sources.evicted()
                &&& after.scroll == self.scroll
                &&& after.scroll_by_mul == self.scroll_by_mul
            },
            Key::Esc => {
                &&& after.cursor == if self.scroll_by_mul == 0 {
                    Cursor::Idle
                } else {
                    self.cursor
                }
                &&& after.scroll_by_mul == 0
                &&& after.scroll == self.scroll
                &&& after.sources == self.sources
            },
            Key::Enter => after.stepped_from(&self.accepted(), FindMode::Next),
            _ => {
                &&& after.cursor == self.cursor
                &&& after.scroll == self.scroll
                &&& after.scroll_by_mul == self.scroll_by_mul
                &&& after.sources == self.sources
            },
        }
    }
}

} // verus!
