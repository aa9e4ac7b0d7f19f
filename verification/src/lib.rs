//! Verified core of a screen recorder that drives `ffmpeg`.

mod args;
mod cli;
mod codec;
pub mod encode;
mod fps;
mod layout;
mod path;
pub mod vaapi;
mod text;
mod tui;

pub use args::{build_args, default_bitrate_for, ffmpeg_args, is_vaapi_codec};
pub use cli::{monitor_summary, progress_line, select_monitor, MonitorError};
pub use codec::{choose_codec, encoders_from_output, parse_encoders, pick_best};
pub use layout::{centered_rect, Area, Axis};
pub use path::container_for;
pub use vaapi::{device_path, drivers_path, intel_driver_dir, render_node_path};
pub use fps::{auto_fps, parse_fps_arg, parse_u32, FpsError, FpsRequest};
pub use text::{chars_of, decimal_string};
pub use tui::{
    after_frame, badge_color, clamp_scroll, classify, classify_lowered, control_labels, format_clock, frame_message, level_color,
    log_badge, FrameOutcome, Key, KeyCommand, LogBuffer, LogLevel, Tint, TuiState, LOG_CAPACITY,
};
