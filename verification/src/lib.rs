//! Verified core of a channel vocoder.

pub mod audio;
pub mod dsp;
pub mod midi;
pub mod num;
pub mod screen;
pub mod select;
pub mod text;
pub mod tui;
