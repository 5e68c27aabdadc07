//! What the operations promise, stated on what goes in and what comes out.

pub mod responder;
pub mod store;
pub mod enrolment;
pub mod certificates;
pub mod document;
pub mod records;
pub mod settings;
pub mod encoding;
pub mod time;
pub mod views;
pub mod operations;
