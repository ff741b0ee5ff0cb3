//! Moderation logic for a Discord server: durations, case records, spam
//! detection, channel purges and support tickets.
pub mod text;
pub mod util;
pub mod records;
pub mod pattern;
pub mod spam;
pub mod tickets;
pub mod purge;
pub mod cmds;
pub mod logging;
