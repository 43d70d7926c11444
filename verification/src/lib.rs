//! Driver core for small SPI-attached TFT panels.

pub mod bus;
pub mod color;
pub mod enums;
pub mod error;
pub mod job;
pub mod text;
pub mod tft_display;
pub mod tft_spi;

pub use crate::bus::{BusOp, Signal};
pub use crate::color::Color;
pub use crate::enums::{madctl, Command, ST7735MadControl, TFTMode, TFTPcbType, TFTRotate};
pub use crate::error::TftError;
pub use crate::job::{Frame, Job, Progress, Step};
pub use crate::tft_display::{DisplayState, TftDisplay};
pub use crate::tft_spi::InnerTftSpi;
