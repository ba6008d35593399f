//! An interactive single-selection menu: the selection state machine, the
//! key bindings that drive it and the lines that show it, with their
//! contracts. Reading keys and writing to the terminal is left to the caller.

pub mod keys;
pub mod line;
pub mod select;

pub use line::Line;
pub use select::{ConfigError, Select};

pub use keys::{
    classify, event_contains_key, event_matches_key, Event, KeyCode, KeyEvent, KeyModifiers,
    Outcome, SelectDialogKey,
};


