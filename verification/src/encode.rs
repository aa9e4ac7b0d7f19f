//! The encoding side of a recording, gathered under one path: reading the
//! encoder list, choosing an encoder and a container, and building the
//! `ffmpeg` command line.

pub use crate::args::{build_args, default_bitrate_for, ffmpeg_args, is_vaapi_codec};
pub use crate::codec::{choose_codec, encoders_from_output, is_whitespace, parse_encoders, pick_best};
pub use crate::path::container_for;
