//! Sound data and the filters that turn it into something the speaker can
//! play.

pub mod bakery;
pub mod filter;
pub mod freq_extractor;
pub mod note_matcher;
pub mod player;
pub mod wav_extractor;
pub mod wav_header;
