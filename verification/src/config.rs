//! Per-guild display settings.  Today every guild shares the same fixed
//! values; the guild identifier is the hook for per-guild settings later.

pub mod progress_bar;
pub mod queue;
