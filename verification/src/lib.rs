//! Verified core of a folder-to-WebP / web-video batch converter.
pub mod text;
pub mod paths;
pub mod video;
pub mod scan;
pub mod converter;
pub mod video_run;
pub mod image_job;
