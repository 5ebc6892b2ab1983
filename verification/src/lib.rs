//! Verified core of a viewer for mailbox (MBOX) archives: splitting an
//! archive into messages, turning each message into an indexable document,
//! planning searches over the index, shaping the answers, and the state
//! machines that drive the browser interface.

pub mod compare;
pub mod dates;
pub mod email;
pub mod html;
pub mod json;
pub mod mail;
pub mod mbox;
pub mod search;
pub mod service;
pub mod shortcuts;
pub mod store;
pub mod text;
pub mod ui;
