//! The timekeeping core of a stopwatch appliance: elapsed time as a calendar
//! timestamp pinned to one year, its text for a two-row character display,
//! and the run/stop state machine that the button and wakeup interrupts
//! drive.

pub mod date_time;
pub mod lcd_writer;
pub mod machine;
pub mod rel_time;
pub mod text;

pub use date_time::DateTime;
pub use lcd_writer::{LcdCommand, LcdDriver, LcdWriter, WriteError};
pub use machine::{Action, Event, Phase, Stopwatch};
pub use rel_time::RelTime;
