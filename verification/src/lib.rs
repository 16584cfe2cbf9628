//! hydrangea: an IRC bot's commands and session logic, with their contracts.
//!
//! - `text`: searching, splitting, trimming, printing and parsing numbers.
//! - `store`: the bot's database, the lists and values it keeps.
//! - `message`: what the bot receives and sends, and how commands are found.
//! - `templates`, `words`, `abuse`: the template and word-list commands.
//! - `outside`: the calls into the template engine, the regex engine, the link
//!   finder, the URL parser, base64 and the random number generator.
//! - `chat`: the remaining commands.
//! - `session`: signing in, quitting, and the order of the commands.
//! - `laws`: what holds across commands.

pub mod text;
pub mod store;
pub mod message;
pub mod templates;
pub mod words;
pub mod outside;
pub mod abuse;
pub mod chat;
pub mod session;
pub mod laws;
