//! The styled-text document model: the buffer of styled characters, the
//! cursor, the selection and the pending style, with the editing operations
//! that mutate them.

use vstd::prelude::*;

use crate::colors::{spec_palette_color, spec_palette_len, Color};

verus! {

/// Styling for a single character.
#[derive(Clone, Copy, Debug, PartialEq, Eq, Structural)]
pub struct CharStyle {
    pub fg: Color,
    pub bg: Color,
    pub bold: bool,
    pub italic: bool,
    pub underline: bool,
    pub strikethrough: bool,
    /// 0 = none, 1-3 = increasing dimness.
    pub dim_level: u8,
}

impl CharStyle {
    /// The default style: both colors reset, no decorations, no dimming.
    pub open spec fn spec_default() -> CharStyle {
        CharStyle {
            fg: Color::Reset,
            bg: Color::Reset,
            bold: false,
            italic: false,
            underline: false,
            strikethrough: false,
            dim_level: 0,
        }
    }

    /// The dim ordinal has exactly the four levels 0-3.
    pub open spec fn wf(self) -> bool {
        self.dim_level <= 3
    }
}

impl Default for CharStyle {
    fn default() -> (r: Self)
        ensures
            r == CharStyle::spec_default(),
    {
        CharStyle {
            fg: Color::Reset,
            bg: Color::Reset,
            bold: false,
            italic: false,
            underline: false,
            strikethrough: false,
            dim_level: 0,
        }
    }
}

/// A single character together with its style snapshot.
#[derive(Clone, Copy, Debug, PartialEq, Eq, Structural)]
pub struct StyledChar {
    pub ch: char,
    pub style: CharStyle,
}

impl StyledChar {
    /// A character with the default style.
    pub fn new(ch: char) -> (r: Self)
        ensures
            r == (StyledChar { ch, style: CharStyle::spec_default() }),
    {
        StyledChar { ch, style: CharStyle::default() }
    }

    /// A character with the given style.
    pub fn with_style(ch: char, style: CharStyle) -> (r: Self)
        ensures
            r == (StyledChar { ch, style }),
    {
        StyledChar { ch, style }
    }
}

/// Current input/interaction mode.
#[derive(Clone, Copy, Debug, PartialEq, Eq, Structural)]
pub enum Mode {
    Normal,
    Typing,
    Selecting,
}

/// Which panel is currently focused.
#[derive(Clone, Copy, Debug, PartialEq, Eq, Structural)]
pub enum Panel {
    Editor,
    FgColor,
    BgColor,
    Formatting,
}

impl Panel {
    /// The panel after this one in the cycle editor, foreground, background,
    /// formatting.
    pub fn next(&self) -> (r: Self)
        ensures
            r == (match *self {
                Panel::Editor => Panel::FgColor,
                Panel::FgColor => Panel::BgColor,
                Panel::BgColor => Panel::Formatting,
                Panel::Formatting => Panel::Editor,
            }),
    {
        match self {
            Panel::Editor => Panel::FgColor,
            Panel::FgColor => Panel::BgColor,
            Panel::BgColor => Panel::Formatting,
            Panel::Formatting => Panel::Editor,
        }
    }

    /// The panel before this one in the cycle.
    pub fn prev(&self) -> (r: Self)
        ensures
            r == (match *self {
                Panel::Editor => Panel::Formatting,
                Panel::FgColor => Panel::Editor,
                Panel::BgColor => Panel::FgColor,
                Panel::Formatting => Panel::BgColor,
            }),
    {
        match self {
            Panel::Editor => Panel::Formatting,
            Panel::FgColor => Panel::Editor,
            Panel::BgColor => Panel::FgColor,
            Panel::Formatting => Panel::BgColor,
        }
    }
}

/// How selection highlighting is displayed.
#[derive(Clone, Copy, Debug, PartialEq, Eq, Structural)]
pub enum SelectionHighlightMode {
    /// Reversed colors on selected text.
    Reversed,
    /// Underline-style markers on a separate line.
    Underline,
}

impl Default for SelectionHighlightMode {
    fn default() -> (r: Self)
        ensures
            r == SelectionHighlightMode::Reversed,
    {
        SelectionHighlightMode::Reversed
    }
}

/// The application state: the styled document plus the cursor, selection,
/// pending style, and the surrounding session settings.
pub struct App {
    /// The styled text buffer.
    pub text: Vec<StyledChar>,
    /// Current cursor position, always within `[0, text.len()]`.
    pub cursor_pos: usize,
    /// Optional selection range (start, end), inclusive, with start <= end.
    pub selection: Option<(usize, usize)>,
    /// Selection anchor while in selecting mode.
    pub selection_anchor: Option<usize>,
    /// Pending foreground color.
    pub current_fg: Color,
    /// Pending background color.
    pub current_bg: Color,
    /// Pending bold toggle.
    pub current_bold: bool,
    /// Pending italic toggle.
    pub current_italic: bool,
    /// Pending underline toggle.
    pub current_underline: bool,
    /// Pending strikethrough toggle.
    pub current_strikethrough: bool,
    /// Pending dim level (0-3).
    pub current_dim: u8,
    /// Current input mode.
    pub mode: Mode,
    /// Currently focused panel.
    pub active_panel: Panel,
    /// Color picker index for the foreground.
    pub fg_color_index: usize,
    /// Color picker index for the background.
    pub bg_color_index: usize,
    /// Status message to display.
    pub status_message: Option<String>,
    /// Whether the application should quit.
    pub should_quit: bool,
    /// Selection highlight display mode.
    pub selection_highlight_mode: SelectionHighlightMode,
}

impl App {
    /// The style that editing operations stamp onto characters.
    pub open spec fn pending_style(self) -> CharStyle {
        CharStyle {
            fg: self.current_fg,
            bg: self.current_bg,
            bold: self.current_bold,
            italic: self.current_italic,
            underline: self.current_underline,
            strikethrough: self.current_strikethrough,
            dim_level: self.current_dim,
        }
    }

    /// Consistency of the document state: the cursor stays within
    /// `[0, length]`, a selection exists exactly when its anchor does and
    /// only in selecting mode, its range is ordered and bounded, the pending
    /// dim level is one of the four levels, and every stored style is
    /// well formed.
    pub open spec fn wf(self) -> bool {
        &&& self.cursor_pos <= self.text@.len()
        &&& (self.selection is Some <==> self.selection_anchor is Some)
        &&& (match self.selection {
            Some(r) => r.0 <= r.1 <= self.text@.len() && self.mode == Mode::Selecting,
            None => true,
        })
        &&& (match self.selection_anchor {
            Some(a) => a <= self.text@.len(),
            None => true,
        })
        &&& self.current_dim <= 3
        &&& (forall|k: int| 0 <= k < self.text@.len() ==> (#[trigger] self.text@[k]).style.wf())
    }

    /// The state after moving the cursor to `c`: in selecting mode the
    /// selection is recomputed as anchor-to-cursor, never grown
    /// incrementally.
    pub open spec fn spec_with_cursor(self, c: usize) -> App {
        let moved = App { cursor_pos: c, ..self };
        if self.mode == Mode::Selecting {
            match self.selection_anchor {
                Some(a) => App {
                    selection: Some(
                        (
                            (if a <= c { a } else { c }),
                            (if a <= c { c } else { a }),
                        ),
                    ),
                    ..moved
                },
                None => moved,
            }
        } else {
            moved
        }
    }

    /// The state after dropping the selection: anchor and range cleared, and
    /// selecting mode left for normal mode.
    pub open spec fn spec_cleared(self) -> App {
        App {
            selection: None,
            selection_anchor: None,
            mode: if self.mode == Mode::Selecting { Mode::Normal } else { self.mode },
            ..self
        }
    }

    /// The text after an apply-style: the pending style is written onto the
    /// selected range (clamped to the valid indices), or onto the character
    /// at the cursor when there is no selection, or nowhere.
    pub open spec fn spec_apply_style_text(self) -> Seq<StyledChar> {
        let st = self.pending_style();
        let t = self.text@;
        match self.selection {
            Some(r) => spec_restyled(t, st, r.0 as int, if r.1 < t.len() { r.1 as int } else { t.len() - 1 }),
            None => if self.cursor_pos < t.len() {
                spec_restyled(t, st, self.cursor_pos as int, self.cursor_pos as int)
            } else {
                t
            },
        }
    }

    /// The startup state: an empty document, default pending style, editor
    /// panel focused, normal mode.
    pub open spec fn spec_is_initial(self) -> bool {
        &&& self.text@ == Seq::<StyledChar>::empty()
        &&& self.cursor_pos == 0
        &&& self.selection is None
        &&& self.selection_anchor is None
        &&& self.pending_style() == CharStyle::spec_default()
        &&& self.mode == Mode::Normal
        &&& self.active_panel == Panel::Editor
        &&& self.fg_color_index == 0
        &&& self.bg_color_index == 0
        &&& self.status_message is None
        &&& self.should_quit == false
        &&& self.selection_highlight_mode == SelectionHighlightMode::Reversed
    }

    pub fn new() -> (r: Self)
        ensures
            r.spec_is_initial(),
            r.wf(),
    {
        App::default()
    }
}

impl Default for App {
    fn default() -> (r: Self)
        ensures
            r.spec_is_initial(),
            r.wf(),
    {
        let r = App {
            text: Vec::new(),
            cursor_pos: 0,
            selection: None,
            selection_anchor: None,
            current_fg: Color::Reset,
            current_bg: Color::Reset,
            current_bold: false,
            current_italic: false,
            current_underline: false,
            current_strikethrough: false,
            current_dim: 0,
            mode: Mode::Normal,
            active_panel: Panel::Editor,
            fg_color_index: 0,
            bg_color_index: 0,
            status_message: None,
            should_quit: false,
            selection_highlight_mode: SelectionHighlightMode::Reversed,
        };
        proof {
            assert(r.text@ =~= Seq::<StyledChar>::empty());
        }
        r
    }
}

/// The pending-style and session fields that document edits never touch.
pub open spec fn same_config(a: App, b: App) -> bool {
    &&& a.current_fg == b.current_fg
    &&& a.current_bg == b.current_bg
    &&& a.current_bold == b.current_bold
    &&& a.current_italic == b.current_italic
    &&& a.current_underline == b.current_underline
    &&& a.current_strikethrough == b.current_strikethrough
    &&& a.current_dim == b.current_dim
    &&& same_session(a, b)
}

/// The session fields outside the document model proper.
pub open spec fn same_session(a: App, b: App) -> bool {
    &&& a.active_panel == b.active_panel
    &&& a.fg_color_index == b.fg_color_index
    &&& a.bg_color_index == b.bg_color_index
    &&& a.status_message == b.status_message
    &&& a.should_quit == b.should_quit
    &&& a.selection_highlight_mode == b.selection_highlight_mode
}

impl App {
    /// Insert a character at the cursor with the pending style, advance the
    /// cursor, and drop any selection.
    pub fn insert_char(&mut self, ch: char)
        requires
            old(self).wf(),
            old(self).text@.len() < usize::MAX,
        ensures
            final(self).wf(),
            final(self).text@ == old(self).text@.insert(
                old(self).cursor_pos as int,
                StyledChar { ch, style: old(self).pending_style() },
            ),
            final(self).cursor_pos == old(self).cursor_pos + 1,
            final(self).selection is None,
            final(self).selection_anchor is None,
            final(self).mode == old(self).spec_cleared().mode,
            same_config(*final(self), *old(self)),
    {
        let styled = StyledChar {
            ch,
            style: CharStyle {
                fg: self.current_fg,
                bg: self.current_bg,
                bold: self.current_bold,
                italic: self.current_italic,
                underline: self.current_underline,
                strikethrough: self.current_strikethrough,
                dim_level: self.current_dim,
            },
        };
        if self.cursor_pos >= self.text.len() {
            self.text.push(styled);
            proof {
                assert(self.text@ =~= old(self).text@.insert(
                    old(self).cursor_pos as int,
                    styled,
                ));
            }
        } else {
            self.text.insert(self.cursor_pos, styled);
        }
        self.cursor_pos = self.cursor_pos + 1;
        self.clear_selection();
    }

    /// Delete the character before the cursor; a no-op when the cursor is at
    /// the start.
    pub fn delete_char(&mut self)
        requires
            old(self).wf(),
        ensures
            final(self).wf(),
            old(self).cursor_pos > 0 ==> {
                &&& final(self).text@ == old(self).text@.remove(old(self).cursor_pos - 1)
                &&& final(self).cursor_pos == old(self).cursor_pos - 1
                &&& final(self).selection is None
                &&& final(self).selection_anchor is None
                &&& final(self).mode == old(self).spec_cleared().mode
                &&& same_config(*final(self), *old(self))
            },
            old(self).cursor_pos == 0 ==> *final(self) == *old(self),
    {
        if self.cursor_pos > 0 && !self.text.is_empty() {
            self.cursor_pos = self.cursor_pos - 1;
            self.text.remove(self.cursor_pos);
            self.clear_selection();
        }
    }

    /// Delete the character at the cursor; a no-op when the cursor is at the
    /// end.
    pub fn delete_char_forward(&mut self)
        requires
            old(self).wf(),
        ensures
            final(self).wf(),
            old(self).cursor_pos < old(self).text@.len() ==> {
                &&& final(self).text@ == old(self).text@.remove(old(self).cursor_pos as int)
                &&& final(self).cursor_pos == old(self).cursor_pos
                &&& final(self).selection is None
                &&& final(self).selection_anchor is None
                &&& final(self).mode == old(self).spec_cleared().mode
                &&& same_config(*final(self), *old(self))
            },
            old(self).cursor_pos >= old(self).text@.len() ==> *final(self) == *old(self),
    {
        if self.cursor_pos < self.text.len() {
            self.text.remove(self.cursor_pos);
            self.clear_selection();
        }
    }

    /// Recompute the selection as anchor-to-cursor while selecting.
    pub fn update_selection(&mut self)
        ensures
            *final(self) == old(self).spec_with_cursor(old(self).cursor_pos),
    {
        if self.mode == Mode::Selecting {
            if let Some(anchor) = self.selection_anchor {
                let start = if anchor <= self.cursor_pos { anchor } else { self.cursor_pos };
                let end = if anchor <= self.cursor_pos { self.cursor_pos } else { anchor };
                self.selection = Some((start, end));
            }
        }
    }

    /// Move the cursor left; a no-op at the start.
    pub fn move_left(&mut self)
        requires
            old(self).wf(),
        ensures
            final(self).wf(),
            old(self).cursor_pos > 0 ==> *final(self) == old(self).spec_with_cursor(
                (old(self).cursor_pos - 1) as usize,
            ),
            old(self).cursor_pos == 0 ==> *final(self) == *old(self),
    {
        if self.cursor_pos > 0 {
            self.cursor_pos = self.cursor_pos - 1;
            self.update_selection();
        }
    }

    /// Move the cursor right; a no-op at the end.
    pub fn move_right(&mut self)
        requires
            old(self).wf(),
        ensures
            final(self).wf(),
            old(self).cursor_pos < old(self).text@.len() ==> *final(self) == old(
                self,
            ).spec_with_cursor((old(self).cursor_pos + 1) as usize),
            old(self).cursor_pos >= old(self).text@.len() ==> *final(self) == *old(self),
    {
        if self.cursor_pos < self.text.len() {
            self.cursor_pos = self.cursor_pos + 1;
            self.update_selection();
        }
    }

    /// Move the cursor to the start of the document.
    pub fn move_to_start(&mut self)
        requires
            old(self).wf(),
        ensures
            final(self).wf(),
            *final(self) == old(self).spec_with_cursor(0),
    {
        self.cursor_pos = 0;
        self.update_selection();
    }

    /// Move the cursor to the end of the document.
    pub fn move_to_end(&mut self)
        requires
            old(self).wf(),
        ensures
            final(self).wf(),
            *final(self) == old(self).spec_with_cursor(old(self).text@.len() as usize),
    {
        self.cursor_pos = self.text.len();
        self.update_selection();
    }

    /// Enter selecting mode with the anchor and selection at the cursor.
    pub fn start_selection(&mut self)
        requires
            old(self).wf(),
        ensures
            final(self).wf(),
            *final(self) == (App {
                mode: Mode::Selecting,
                selection_anchor: Some(old(self).cursor_pos),
                selection: Some((old(self).cursor_pos, old(self).cursor_pos)),
                ..*old(self)
            }),
    {
        self.mode = Mode::Selecting;
        self.selection_anchor = Some(self.cursor_pos);
        self.selection = Some((self.cursor_pos, self.cursor_pos));
    }

    /// Drop the selection and its anchor, leaving selecting mode.
    pub fn clear_selection(&mut self)
        ensures
            *final(self) == old(self).spec_cleared(),
            old(self).wf() ==> final(self).wf(),
    {
        self.selection = None;
        self.selection_anchor = None;
        if self.mode == Mode::Selecting {
            self.mode = Mode::Normal;
        }
    }

    /// Write the pending style onto the selection (clamped to the valid
    /// indices), or onto the character at the cursor when there is no
    /// selection and the cursor references one; otherwise a no-op. The
    /// selection itself is kept.
    #[verifier::loop_isolation(false)]
    pub fn apply_style(&mut self)
        requires
            old(self).wf(),
        ensures
            final(self).wf(),
            final(self).text@ == old(self).spec_apply_style_text(),
            final(self).cursor_pos == old(self).cursor_pos,
            final(self).selection == old(self).selection,
            final(self).selection_anchor == old(self).selection_anchor,
            final(self).mode == old(self).mode,
            same_config(*final(self), *old(self)),
    {
        let st = CharStyle {
            fg: self.current_fg,
            bg: self.current_bg,
            bold: self.current_bold,
            italic: self.current_italic,
            underline: self.current_underline,
            strikethrough: self.current_strikethrough,
            dim_level: self.current_dim,
        };
        if let Some((s, e)) = self.selection {
            let n = self.text.len();
            let stop = if e < n { e + 1 } else { n };
            let ghost t0 = self.text@;
            let mut i = s;
            proof {
                assert(self.text@ =~= spec_restyled(t0, st, s as int, i - 1));
            }
            while i < stop
                invariant
                    s <= i,
                    i <= stop || i == s,
                    n == self.text@.len(),
                    self.text@ == spec_restyled(t0, st, s as int, i - 1),
                    self.cursor_pos == old(self).cursor_pos,
                    self.selection == old(self).selection,
                    self.selection_anchor == old(self).selection_anchor,
                    self.mode == old(self).mode,
                    same_config(*self, *old(self)),
                decreases stop - i,
            {
                let c = self.text[i].ch;
                self.text[i] = StyledChar { ch: c, style: st };
                proof {
                    assert(self.text@ =~= spec_restyled(t0, st, s as int, i as int));
                }
                i = i + 1;
            }
            proof {
                assert(self.text@ =~= old(self).spec_apply_style_text());
            }
        } else if self.cursor_pos < self.text.len() {
            let i = self.cursor_pos;
            let c = self.text[i].ch;
            self.text[i] = StyledChar { ch: c, style: st };
            proof {
                assert(self.text@ =~= old(self).spec_apply_style_text());
            }
        }
    }

    /// Flip the pending bold toggle, then apply the style immediately.
    pub fn toggle_bold(&mut self)
        requires
            old(self).wf(),
        ensures
            final(self).wf(),
            final(self).current_bold == !old(self).current_bold,
            final(self).text@ == (App {
                current_bold: !old(self).current_bold,
                ..*old(self)
            }).spec_apply_style_text(),
            final(self).cursor_pos == old(self).cursor_pos,
            final(self).selection == old(self).selection,
            final(self).selection_anchor == old(self).selection_anchor,
            final(self).mode == old(self).mode,
            final(self).current_fg == old(self).current_fg,
            final(self).current_bg == old(self).current_bg,
            final(self).current_italic == old(self).current_italic,
            final(self).current_underline == old(self).current_underline,
            final(self).current_strikethrough == old(self).current_strikethrough,
            final(self).current_dim == old(self).current_dim,
            same_session(*final(self), *old(self)),
    {
        self.current_bold = !self.current_bold;
        self.apply_style();
    }

    /// Flip the pending italic toggle, then apply the style immediately.
    pub fn toggle_italic(&mut self)
        requires
            old(self).wf(),
        ensures
            final(self).wf(),
            final(self).current_italic == !old(self).current_italic,
            final(self).text@ == (App {
                current_italic: !old(self).current_italic,
                ..*old(self)
            }).spec_apply_style_text(),
            final(self).cursor_pos == old(self).cursor_pos,
            final(self).selection == old(self).selection,
            final(self).selection_anchor == old(self).selection_anchor,
            final(self).mode == old(self).mode,
            final(self).current_fg == old(self).current_fg,
            final(self).current_bg == old(self).current_bg,
            final(self).current_bold == old(self).current_bold,
            final(self).current_underline == old(self).current_underline,
            final(self).current_strikethrough == old(self).current_strikethrough,
            final(self).current_dim == old(self).current_dim,
            same_session(*final(self), *old(self)),
    {
        self.current_italic = !self.current_italic;
        self.apply_style();
    }

    /// Flip the pending underline toggle, then apply the style immediately.
    pub fn toggle_underline(&mut self)
        requires
            old(self).wf(),
        ensures
            final(self).wf(),
            final(self).current_underline == !old(self).current_underline,
            final(self).text@ == (App {
                current_underline: !old(self).current_underline,
                ..*old(self)
            }).spec_apply_style_text(),
            final(self).cursor_pos == old(self).cursor_pos,
            final(self).selection == old(self).selection,
            final(self).selection_anchor == old(self).selection_anchor,
            final(self).mode == old(self).mode,
            final(self).current_fg == old(self).current_fg,
            final(self).current_bg == old(self).current_bg,
            final(self).current_bold == old(self).current_bold,
            final(self).current_italic == old(self).current_italic,
            final(self).current_strikethrough == old(self).current_strikethrough,
            final(self).current_dim == old(self).current_dim,
            same_session(*final(self), *old(self)),
    {
        self.current_underline = !self.current_underline;
        self.apply_style();
    }

    /// Flip the pending strikethrough toggle, then apply the style
    /// immediately.
    pub fn toggle_strikethrough(&mut self)
        requires
            old(self).wf(),
        ensures
            final(self).wf(),
            final(self).current_strikethrough == !old(self).current_strikethrough,
            final(self).text@ == (App {
                current_strikethrough: !old(self).current_strikethrough,
                ..*old(self)
            }).spec_apply_style_text(),
            final(self).cursor_pos == old(self).cursor_pos,
            final(self).selection == old(self).selection,
            final(self).selection_anchor == old(self).selection_anchor,
            final(self).mode == old(self).mode,
            final(self).current_fg == old(self).current_fg,
            final(self).current_bg == old(self).current_bg,
            final(self).current_bold == old(self).current_bold,
            final(self).current_italic == old(self).current_italic,
            final(self).current_underline == old(self).current_underline,
            final(self).current_dim == old(self).current_dim,
            same_session(*final(self), *old(self)),
    {
        self.current_strikethrough = !self.current_strikethrough;
        self.apply_style();
    }

    /// Advance the pending dim level through 0, 1, 2, 3 and back to 0, then
    /// apply the style immediately.
    pub fn cycle_dim(&mut self)
        requires
            old(self).wf(),
        ensures
            final(self).wf(),
            final(self).current_dim == (old(self).current_dim + 1) % 4,
            final(self).text@ == (App {
                current_dim: ((old(self).current_dim + 1) % 4) as u8,
                ..*old(self)
            }).spec_apply_style_text(),
            final(self).cursor_pos == old(self).cursor_pos,
            final(self).selection == old(self).selection,
            final(self).selection_anchor == old(self).selection_anchor,
            final(self).mode == old(self).mode,
            final(self).current_fg == old(self).current_fg,
            final(self).current_bg == old(self).current_bg,
            final(self).current_bold == old(self).current_bold,
            final(self).current_italic == old(self).current_italic,
            final(self).current_underline == old(self).current_underline,
            final(self).current_strikethrough == old(self).current_strikethrough,
            same_session(*final(self), *old(self)),
    {
        self.current_dim = (self.current_dim + 1) % 4;
        self.apply_style();
    }

    /// Switch between the two selection highlight display modes.
    pub fn toggle_selection_highlight_mode(&mut self)
        ensures
            *final(self) == (App {
                selection_highlight_mode: match old(self).selection_highlight_mode {
                    SelectionHighlightMode::Reversed => SelectionHighlightMode::Underline,
                    SelectionHighlightMode::Underline => SelectionHighlightMode::Reversed,
                },
                ..*old(self)
            }),
    {
        self.selection_highlight_mode = match self.selection_highlight_mode {
            SelectionHighlightMode::Reversed => SelectionHighlightMode::Underline,
            SelectionHighlightMode::Underline => SelectionHighlightMode::Reversed,
        };
    }

    /// Copy the style of the character at the cursor into the pending style
    /// and the color picker indices; a no-op when the cursor is at the end.
    pub fn load_style_from_cursor(&mut self)
        requires
            old(self).wf(),
        ensures
            final(self).wf(),
            old(self).cursor_pos < old(self).text@.len() ==> {
                &&& final(self).pending_style() == old(self).text@[old(self).cursor_pos as int].style
                &&& final(self).fg_color_index == crate::colors::spec_color_index_from_color(
                    old(self).text@[old(self).cursor_pos as int].style.fg,
                )
                &&& final(self).bg_color_index == crate::colors::spec_color_index_from_color(
                    old(self).text@[old(self).cursor_pos as int].style.bg,
                )
                &&& final(self).text@ == old(self).text@
                &&& final(self).cursor_pos == old(self).cursor_pos
                &&& final(self).selection == old(self).selection
                &&& final(self).selection_anchor == old(self).selection_anchor
                &&& final(self).mode == old(self).mode
                &&& final(self).active_panel == old(self).active_panel
                &&& final(self).status_message == old(self).status_message
                &&& final(self).should_quit == old(self).should_quit
                &&& final(self).selection_highlight_mode == old(self).selection_highlight_mode
            },
            old(self).cursor_pos >= old(self).text@.len() ==> *final(self) == *old(self),
    {
        if self.cursor_pos < self.text.len() {
            let style = self.text[self.cursor_pos].style;
            self.current_fg = style.fg;
            self.current_bg = style.bg;
            self.current_bold = style.bold;
            self.current_italic = style.italic;
            self.current_underline = style.underline;
            self.current_strikethrough = style.strikethrough;
            self.current_dim = style.dim_level;
            self.fg_color_index = crate::colors::color_index_from_color(style.fg);
            self.bg_color_index = crate::colors::color_index_from_color(style.bg);
        }
    }

    /// Restore the pending style and the color picker indices to their
    /// defaults.
    pub fn reset_style(&mut self)
        ensures
            *final(self) == (App {
                current_fg: Color::Reset,
                current_bg: Color::Reset,
                current_bold: false,
                current_italic: false,
                current_underline: false,
                current_strikethrough: false,
                current_dim: 0,
                fg_color_index: 0,
                bg_color_index: 0,
                ..*old(self)
            }),
            final(self).pending_style() == CharStyle::spec_default(),
            old(self).wf() ==> final(self).wf(),
    {
        self.current_fg = Color::Reset;
        self.current_bg = Color::Reset;
        self.current_bold = false;
        self.current_italic = false;
        self.current_underline = false;
        self.current_strikethrough = false;
        self.current_dim = 0;
        self.fg_color_index = 0;
        self.bg_color_index = 0;
    }

    /// Set the status message.
    pub fn set_status(&mut self, msg: String)
        ensures
            *final(self) == (App { status_message: Some(msg), ..*old(self) }),
    {
        self.status_message = Some(msg);
    }

    /// Clear the status message.
    pub fn clear_status(&mut self)
        ensures
            *final(self) == (App { status_message: None, ..*old(self) }),
    {
        self.status_message = None;
    }

    /// Whether an index lies within the current selection.
    pub fn is_selected(&self, pos: usize) -> (r: bool)
        ensures
            r == (match self.selection {
                Some(range) => range.0 <= pos <= range.1,
                None => false,
            }),
    {
        if let Some((start, end)) = self.selection {
            pos >= start && pos <= end
        } else {
            false
        }
    }
}

/// `t` with the characters at indices `s..=e` restyled to `st`; indices
/// outside the sequence are ignored, and an empty or inverted range changes
/// nothing.
pub open spec fn spec_restyled(t: Seq<StyledChar>, st: CharStyle, s: int, e: int) -> Seq<StyledChar> {
    Seq::new(
        t.len(),
        |k: int| if s <= k <= e { StyledChar { ch: t[k].ch, style: st } } else { t[k] },
    )
}

} // verus!
