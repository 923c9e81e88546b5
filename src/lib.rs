//! Per-device runtime of a Stream-Deck–class control surface daemon: the screen
//! stack, input edge detection, background composition, the content-addressed
//! render cache and the animation scheduler.
pub mod pixmap;
pub mod renderer;
pub mod cache;
pub mod screen;
pub mod animation;
pub mod input;
pub mod device;
pub mod compose;
pub mod runtime_core;
pub mod runtime;
pub mod requests;
