//! Converting videos to GIFs with FFmpeg: the application's logic, with
//! contracts proved by Verus.
pub mod text;
pub mod path;
pub mod settings;
pub mod job;
pub mod ffmpeg;
pub mod clipboard;
pub mod event;
pub mod app;
pub mod ui;
pub mod complete;
pub mod worker;
