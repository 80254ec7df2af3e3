//! Verified core of a video trimming and downloading tool: rate limiting and
//! back-off for YouTube requests, job control, yt-dlp and FFmpeg command
//! lines, progress and version parsing, and the messages shown to the user.
pub mod args;
pub mod ffmpeg;
pub mod formats;
pub mod job_control;
pub mod models;
pub mod process_util;
pub mod progress;
pub mod rate_limit;
pub mod text;
pub mod ytdlp;
