//! Display commands for a scripting host: a notification, an alert or a
//! dialog is written as one statement of the host's language, and the host's
//! answer is read back into a report.

pub mod cli;
pub mod cmd;
pub mod decode;
pub mod parse;
pub mod record;
pub mod response;
pub mod text;
