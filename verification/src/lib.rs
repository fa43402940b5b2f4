//! Verified core of a Secret Santa event bot: the event phases, the table of
//! participants with their letters and gift assignments, and the decisions
//! that the bot's commands take on them.

pub mod phase;
pub mod users;
pub mod table_laws;
pub mod commands;
pub mod report;
pub mod running;
