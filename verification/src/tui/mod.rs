pub mod app;
pub mod keys;
pub mod screen;
pub mod views;
