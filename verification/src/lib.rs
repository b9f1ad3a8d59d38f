//! Verified core of a PC-speaker synthesizer: timer divisors, the note model,
//! the score language, sample baking and the playback schedulers.

pub mod audio_classifier;
pub mod beeper;
pub mod bytes;
pub mod converter;
pub mod inpout;
pub mod iopl;
pub mod nano_sleep;
pub mod note;
pub mod params;
pub mod pipeline;
pub mod synth;
pub mod text;
pub mod wave;
pub mod winapi;
pub mod xm;
