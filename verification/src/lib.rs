//! Verified core of a small text editor: word counting and its display,
//! the recent-files list, configuration text, the debounce timers and the
//! decisions taken around saving, opening and closing documents.

pub mod config;
pub mod editor;
pub mod launch;
pub mod recent;
pub mod recent_laws;
pub mod thousands;
pub mod timers;
pub mod words;
