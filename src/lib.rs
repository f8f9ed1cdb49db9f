//! Version-control attribution for an editor: routing of protocol messages,
//! resolution of the commit behind a line, and the stage / unstage commands.

pub mod text;
pub mod path;
pub mod date_time;
pub mod command;
pub mod blame;
pub mod message_state;
