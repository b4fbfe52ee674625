//! QCapture: the rules of a screen recorder.
//!
//! The crate holds what the recorder decides and computes: the encoder command
//! lines, the geometry of frames, the timing of recordings, the annotation
//! timeline, the audio queues and the state machines behind its windows.
//! Devices, processes, files and drawing live in the program around it.

pub mod advanced;
pub mod annotate;
pub mod audio;
pub mod capture;
pub mod cli;
pub mod draw_panel;
pub mod editor;
pub mod encode;
pub mod frame;
pub mod gesture;
pub mod listing;
pub mod logs;
pub mod pace;
pub mod picker;
pub mod pump;
pub mod raster;
pub mod region;
pub mod search;
pub mod session;
pub mod settings;
pub mod single;
pub mod style;
pub mod text;
pub mod thread;
pub mod types;
pub mod ui;
pub mod widget;
