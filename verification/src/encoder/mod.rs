//! Video encoding: how captured frames are handed to an H.264 encoder, and
//! what is made of what it gives back.

pub mod error;
pub mod h264;
pub mod pipeline;
pub mod pixels;
pub mod video;
