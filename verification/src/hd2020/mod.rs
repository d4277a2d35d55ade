//! HD2020 Gen6 realtime protocol: framing, monochrome bitmap encoding, and a
//! bundled bitmap font — all I/O-free. Rather than uploading an XML program,
//! the host rasterizes content to a monochrome bitmap and pushes it straight
//! to the panel.

pub mod bitmap;
pub mod font;
pub mod frame;

pub use bitmap::{measure, render, realtime_text_frame, MonoBitmap, TextLayout};
pub use frame::{Hd2020Cmd, Hd2020Frame, START};
