//! Media conversion manager: the bookkeeping behind a batch front end for
//! `ffmpeg` and `ffprobe`, with its rules stated and proved.

pub mod text;
pub mod codec;
pub mod std_calls;
pub mod state;
pub mod probe;
pub mod convert;
