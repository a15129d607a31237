//! The terminal's display state: scrollback, cursor, input line, suggestion panel and
//! toggles, and which lines are on screen. Drawing them is the caller's.
use vstd::prelude::*;
use crate::clock::now_millis;

verus! {

/// Colors and emphasis of a line.
#[derive(Debug, Clone, Copy)]
pub struct LineAttributes {
    pub foreground_color: Option<(u8, u8, u8)>,
    pub background_color: Option<(u8, u8, u8)>,
    pub bold: bool,
    pub italic: bool,
    pub underline: bool,
}

/// A line of output with the time it was added (milliseconds since the Unix epoch).
#[derive(Debug, Clone)]
pub struct TerminalLine {
    pub content: String,
    pub attributes: LineAttributes,
    pub timestamp: i64,
}

#[derive(Debug)]
pub struct UiState {
    pub terminal_content: Vec<TerminalLine>,
    pub cursor_position: (usize, usize),
    pub scroll_offset: usize,
    pub input_buffer: String,
    pub suggestions: Vec<String>,
    pub show_ai_panel: bool,
    pub show_file_explorer: bool,
    pub show_debug_panel: bool,
}

/// The display state of the terminal window.
#[derive(Debug)]
pub struct Renderer {
    pub ui_state: UiState,
}

/// `x` appended; when the result is longer than `limit`, its first `cut` entries dropped.
pub open spec fn append_capped<A>(s: Seq<A>, x: A, limit: int, cut: int) -> Seq<A> {
    if s.len() + 1 > limit {
        s.push(x).skip(cut)
    } else {
        s.push(x)
    }
}

impl Default for LineAttributes {
    fn default() -> (r: LineAttributes)
        ensures
            r == (LineAttributes {
                foreground_color: None,
                background_color: None,
                bold: false,
                italic: false,
                underline: false,
            }),
    {
        LineAttributes {
            foreground_color: None,
            background_color: None,
            bold: false,
            italic: false,
            underline: false,
        }
    }
}

fn drop_front<A>(v: &mut Vec<A>, k: usize)
    requires
        k <= old(v)@.len(),
    ensures
        final(v)@ == old(v)@.skip(k as int),
{
    let tail = v.split_off(k);
    *v = tail;
}

impl UiState {
    /// Nothing shown yet: no lines, cursor and scroll at the top, panels closed.
    pub fn new() -> (r: UiState)
        ensures
            r.terminal_content@.len() == 0,
            r.cursor_position == (0usize, 0usize),
            r.scroll_offset == 0,
            r.input_buffer@.len() == 0,
            r.suggestions@.len() == 0,
            !r.show_ai_panel && !r.show_file_explorer && !r.show_debug_panel,
    {
        UiState {
            terminal_content: Vec::new(),
            cursor_position: (0, 0),
            scroll_offset: 0,
            input_buffer: String::new(),
            suggestions: Vec::new(),
            show_ai_panel: false,
            show_file_explorer: false,
            show_debug_panel: false,
        }
    }
}

impl Renderer {
    pub fn new() -> (r: Renderer)
        ensures
            r.ui_state.terminal_content@.len() == 0,
            r.ui_state.cursor_position == (0usize, 0usize),
            r.ui_state.scroll_offset == 0,
            r.ui_state.input_buffer@.len() == 0,
            r.ui_state.suggestions@.len() == 0,
            !r.ui_state.show_ai_panel && !r.ui_state.show_file_explorer && !r.ui_state.show_debug_panel,
    {
        Renderer { ui_state: UiState::new() }
    }

    /// Appends a line stamped `timestamp`; past ten thousand lines the oldest thousand go.
    pub fn add_terminal_line_at(&mut self, content: String, attributes: LineAttributes, timestamp: i64)
        ensures
            final(self).ui_state.terminal_content@ == append_capped(
                old(self).ui_state.terminal_content@,
                TerminalLine { content, attributes, timestamp },
                10000,
                1000,
            ),
            final(self).ui_state.scroll_offset == old(self).ui_state.scroll_offset,
            final(self).ui_state.suggestions == old(self).ui_state.suggestions,
            final(self).ui_state.cursor_position == old(self).ui_state.cursor_position,
    {
        self.ui_state.terminal_content.push(TerminalLine { content, attributes, timestamp });
        if self.ui_state.terminal_content.len() > 10000 {
            drop_front(&mut self.ui_state.terminal_content, 1000);
        }
    }

    /// Appends a line stamped with the current time.
    pub fn add_terminal_line(&mut self, content: String, attributes: LineAttributes)
        ensures
            final(self).ui_state.terminal_content@.len() == (if old(self).ui_state.terminal_content@.len() + 1 > 10000 {
                old(self).ui_state.terminal_content@.len() + 1 - 1000
            } else {
                old(self).ui_state.terminal_content@.len() + 1int
            }),
            final(self).ui_state.terminal_content@.last().content == content,
            final(self).ui_state.terminal_content@.last().attributes == attributes,
            final(self).ui_state.terminal_content@.drop_last() == (if old(self).ui_state.terminal_content@.len() + 1 > 10000 {
                old(self).ui_state.terminal_content@.skip(1000)
            } else {
                old(self).ui_state.terminal_content@
            }),
    {
        let t = now_millis();
        self.add_terminal_line_at(content, attributes, t);
        proof {
            let s = old(self).ui_state.terminal_content@;
            let x = TerminalLine { content, attributes, timestamp: t };
            if s.len() + 1 > 10000 {
                assert(s.push(x).skip(1000).drop_last() =~= s.skip(1000));
            } else {
                assert(s.push(x).drop_last() =~= s);
            }
        }
    }

    pub fn set_cursor_position(&mut self, x: usize, y: usize)
        ensures
            final(self).ui_state.cursor_position == (x, y),
            final(self).ui_state.terminal_content == old(self).ui_state.terminal_content,
            final(self).ui_state.scroll_offset == old(self).ui_state.scroll_offset,
    {
        self.ui_state.cursor_position = (x, y);
    }

    pub fn set_input_buffer(&mut self, input: String)
        ensures
            final(self).ui_state.input_buffer == input,
            final(self).ui_state.cursor_position == old(self).ui_state.cursor_position,
    {
        self.ui_state.input_buffer = input;
    }

    /// Appends a suggestion; past ten the oldest five go.
    pub fn add_suggestion(&mut self, suggestion: String)
        ensures
            final(self).ui_state.suggestions@ == append_capped(old(self).ui_state.suggestions@, suggestion, 10, 5),
            final(self).ui_state.terminal_content == old(self).ui_state.terminal_content,
    {
        self.ui_state.suggestions.push(suggestion);
        if self.ui_state.suggestions.len() > 10 {
            drop_front(&mut self.ui_state.suggestions, 5);
        }
    }

    pub fn clear_suggestions(&mut self)
        ensures
            final(self).ui_state.suggestions@.len() == 0,
            final(self).ui_state.terminal_content == old(self).ui_state.terminal_content,
    {
        self.ui_state.suggestions.clear();
    }

    pub fn toggle_ai_panel(&mut self)
        ensures
            final(self).ui_state.show_ai_panel == !old(self).ui_state.show_ai_panel,
            final(self).ui_state.show_file_explorer == old(self).ui_state.show_file_explorer,
            final(self).ui_state.show_debug_panel == old(self).ui_state.show_debug_panel,
    {
        self.ui_state.show_ai_panel = !self.ui_state.show_ai_panel;
    }

    pub fn toggle_file_explorer(&mut self)
        ensures
            final(self).ui_state.show_file_explorer == !old(self).ui_state.show_file_explorer,
            final(self).ui_state.show_ai_panel == old(self).ui_state.show_ai_panel,
            final(self).ui_state.show_debug_panel == old(self).ui_state.show_debug_panel,
    {
        self.ui_state.show_file_explorer = !self.ui_state.show_file_explorer;
    }

    pub fn toggle_debug_panel(&mut self)
        ensures
            final(self).ui_state.show_debug_panel == !old(self).ui_state.show_debug_panel,
            final(self).ui_state.show_ai_panel == old(self).ui_state.show_ai_panel,
            final(self).ui_state.show_file_explorer == old(self).ui_state.show_file_explorer,
    {
        self.ui_state.show_debug_panel = !self.ui_state.show_debug_panel;
    }

    /// Scrolls toward the top by `lines`, stopping at the first line.
    pub fn scroll_up(&mut self, lines: usize)
        ensures
            final(self).ui_state.scroll_offset == (if old(self).ui_state.scroll_offset >= lines {
                (old(self).ui_state.scroll_offset - lines) as usize
            } else {
                0usize
            }),
            final(self).ui_state.terminal_content == old(self).ui_state.terminal_content,
    {
        self.ui_state.scroll_offset = if self.ui_state.scroll_offset >= lines {
            self.ui_state.scroll_offset - lines
        } else {
            0
        };
    }

    /// Scrolls toward the bottom by `lines`, stopping where the last screenful starts.
    pub fn scroll_down(&mut self, lines: usize)
        requires
            old(self).ui_state.scroll_offset + lines <= usize::MAX,
        ensures
            ({
                let len = old(self).ui_state.terminal_content@.len();
                let bottom = if len >= 24 { len - 24 } else { 0 };
                let wanted = old(self).ui_state.scroll_offset + lines;
                final(self).ui_state.scroll_offset == if wanted <= bottom { wanted } else { bottom }
            }),
            final(self).ui_state.terminal_content == old(self).ui_state.terminal_content,
    {
        let len = self.ui_state.terminal_content.len();
        let bottom = if len >= 24 {
            len - 24
        } else {
            0
        };
        let wanted = self.ui_state.scroll_offset + lines;
        self.ui_state.scroll_offset = if wanted <= bottom {
            wanted
        } else {
            bottom
        };
    }

    /// Indices of the lines on screen: from the scroll offset, at most 24 rows.
    pub fn visible_line_range(&self) -> (r: (usize, usize))
        ensures
            ({
                let len = self.ui_state.terminal_content@.len();
                let off = self.ui_state.scroll_offset;
                &&& r.0 == (if off <= len { off as int } else { len as int })
                &&& r.1 == (if off + 24 <= len { off + 24 } else { len as int })
                &&& r.0 <= r.1 <= len
            }),
    {
        let len = self.ui_state.terminal_content.len();
        let off = self.ui_state.scroll_offset;
        let start = if off <= len {
            off
        } else {
            len
        };
        let end = if off <= len && len - off >= 24 {
            off + 24
        } else {
            len
        };
        (start, end)
    }

    pub fn get_terminal_content(&self) -> (r: &Vec<TerminalLine>)
        ensures
            r@ == self.ui_state.terminal_content@,
    {
        &self.ui_state.terminal_content
    }

    pub fn get_cursor_position(&self) -> (r: (usize, usize))
        ensures
            r == self.ui_state.cursor_position,
    {
        self.ui_state.cursor_position
    }

    pub fn get_input_buffer(&self) -> (r: &String)
        ensures
            r@ == self.ui_state.input_buffer@,
    {
        &self.ui_state.input_buffer
    }

    pub fn get_suggestions(&self) -> (r: &Vec<String>)
        ensures
            r@ == self.ui_state.suggestions@,
    {
        &self.ui_state.suggestions
    }
}


/// The scrollback never exceeds ten thousand lines, nor the suggestion list ten, once they
/// start within bounds.
pub proof fn lemma_capped_stays_bounded<A>(s: Seq<A>, x: A, limit: int, cut: int)
    requires
        s.len() <= limit,
        1 <= cut <= limit,
    ensures
        append_capped(s, x, limit, cut).len() <= limit,
        append_capped(s, x, limit, cut).last() == x,
{
}

} // verus!
