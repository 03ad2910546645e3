//! A terminal video-clipping controller: segments marked on a media
//! timeline, snapped to keyframes, exported losslessly, persisted per file.

pub mod text;
pub mod scan;
pub mod model;
pub mod paths;
pub mod session;
pub mod ffmpeg;
pub mod timeline;
pub mod input;
pub mod player;
pub mod export;
pub mod app;
pub mod laws;
