//! The score language: note records, channels and the parser of listings.

pub mod channel;
pub mod listing;
pub mod note_record;
pub mod parser;
