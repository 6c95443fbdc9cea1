//! The poll exchange: commands sent to a scanner and the responses it gives.
pub mod command;
pub mod response;

pub use command::{Command, CommandBuilder, Host, PollType};
pub use response::{
    ColorMode, FeederOrientation, FeederType, Format, Interrupt, Response, Size, Source, DPI,
};
