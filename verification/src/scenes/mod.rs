pub mod story;
