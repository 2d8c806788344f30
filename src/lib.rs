//! A document-to-PDF conversion gateway: the decisions and names that each
//! conversion request goes through, with the I/O left to the caller.

pub mod filename;
pub mod output;
pub mod workspace;
pub mod auth;
pub mod pipeline;
