//! Verified wire protocol and client logic for Huidu full-colour LED
//! controller cards: SDK 2.0 binary framing, SDK XML fragmentation and message
//! bodies, the HD2020 Gen6 realtime protocol, and the screen builder.
//!
//! Everything here is I/O-free: bytes in, typed values out, and back. The
//! socket, the timers and the background heartbeat live in the application
//! crate that drives this library.

pub mod error;
pub mod frame;
pub mod codec;
pub mod file;
pub mod le;
pub mod fmt;
pub mod sdk_frame;
pub mod hd2020;
pub mod sdk;
pub mod screen;
pub mod probe;
pub mod config;
pub mod transport;
pub mod upload;
pub mod device;
pub mod digest;

pub use codec::HuiduCodec;
pub use config::DeviceConfig;
pub use error::{Error, ProtoError, ProtocolKind, Result};
pub use file::{FileContentAsk, FileContentReply, FileEndAsk, FileEndReply, FileStartAsk, FileStartReply};
pub use frame::{CmdCode, OwnedFrame};
pub use hd2020::TextLayout;
pub use screen::{Area, ClockConfig, Color, Effect, HAlign, Item, PlayControl, Program, Screen, TextConfig,
    TimeFormat, VAlign};
pub use sdk::messages::device_info::DeviceInfo;
pub use sdk::{SdkMethod, SdkResult};
pub use sdk_frame::{SdkFragment, SdkReassembler};
pub use upload::UploadProgress;
