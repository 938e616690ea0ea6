//! Per-window keyboard-layout daemon core.
//!
//! The daemon watches a compositor's event stream and keeps, for every
//! window, the keyboard layout that was last active while that window had
//! focus.  When focus returns to a window, the stored layout is restored by
//! sending a switch command over a control channel.  This crate holds the
//! verified core: the layout value and its code table, the event parser,
//! the association table and dispatcher state machine, and the model of the
//! write-retry protocol used on the control channel.  Socket I/O and
//! logging live outside the crate.

pub mod channel;
pub mod events;
pub mod layout;
pub mod state;
pub mod text;
