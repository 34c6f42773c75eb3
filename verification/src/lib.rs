pub mod hid;
pub mod input_capture;
pub mod keyboard;
pub mod sets;
pub mod swipe;
pub mod text;
pub mod whisper;
pub mod wvr;
pub mod ctl;
pub mod pos;
pub mod names;
pub mod clipboard;
pub mod metrics;
pub mod keymap;
