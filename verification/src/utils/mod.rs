pub mod misc;
