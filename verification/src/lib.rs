//! The sampling-and-interaction engine of a live, single-screen process
//! monitor: the process snapshot model, the metrics derived from it, the
//! sorted and filtered table, the command interpreter and the key-driven
//! state machine that ties them together.
//!
//! Nothing here touches the operating system or the terminal. A caller reads
//! the process table and the keyboard, hands plain values to this crate and
//! draws what it gets back. Two things are taken from outside: the layout
//! solver of the terminal library, which cuts the screen into panes, and
//! the date and time library, which writes a time of day in the time zone
//! of the machine.

pub mod text;
pub mod record;
pub mod metrics;
pub mod snapshot;
pub mod ticks;
pub mod filter;
pub mod usage;
pub mod table;
pub mod order;
pub mod command;
pub mod event;
pub mod display;
pub mod layout;
pub mod state;
pub mod failure;
