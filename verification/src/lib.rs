pub mod cli;
pub mod diff;
pub mod fixup;
pub mod git;
pub mod i18n;
pub mod selection;
pub mod text;
pub mod text_map;
pub mod tui;
