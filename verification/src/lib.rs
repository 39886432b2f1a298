//! A verified core for composing styled terminal text.
//!
//! The library models a document of styled characters and transcodes it
//! between two external representations: an ANSI escape-coded string wrapped
//! in a shell `echo` invocation, and a versioned structured text format.

use vstd::prelude::*;

mod app;
mod colors;
mod export;
mod import;
mod roundtrip;
mod structured;
mod text;

pub use app::{App, CharStyle, Mode, Panel, SelectionHighlightMode, StyledChar};
pub use colors::{bg_ansi_code, bold_ansi_code, color_index_from_color, color_index_from_key,
    dim_ansi_code, fg_ansi_code, italic_ansi_code, palette_color, palette_len,
    strikethrough_ansi_code, underline_ansi_code, Color};
pub use export::generate_echo_command;
pub use import::{is_ron_format, parse_ansi, strip_echo_wrapper, ParseError, ParseState};
pub use structured::{decode_document, export_ron, import_ron, DecodeError, StyledDocument};

verus! {

} // verus!
