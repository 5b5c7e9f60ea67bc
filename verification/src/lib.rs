//! Verified core of a text expander: the keystroke ring buffer, text
//! transformations, configuration defaults and the decision logic of the
//! keyboard hook and the file-dialog quick switch.

pub mod buffer;
pub mod case_changer;
pub mod chars;
pub mod config;
pub mod hook;
pub mod i18n;
pub mod quick_switch;
pub mod text_utils;
pub mod ui;
pub mod unicode;
