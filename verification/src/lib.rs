//! Per-category event counters.
//!
//! A bank holds one counter for each value of an enumerable category type.
//! Recording an event against a category raises that counter's event count
//! by one and its running total by the event's amount; a snapshot lists the
//! `(count, total)` pair of every counter in the category's enumeration
//! order.
//!
//! A counter is two 64-bit cells that wrap around on overflow. Recording
//! goes through `&mut`, so a bank has one writer at a time, every snapshot
//! is of one instant, and the contracts say exactly what each counter holds
//! after each call.

pub mod status;
pub mod timer;
pub mod timers;
pub mod typed;

pub use status::Status;
pub use timer::Timer;
pub use timers::Timers;
pub use typed::TypedTimers;
