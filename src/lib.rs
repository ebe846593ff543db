//! Conversion between RESP wire values and the commands of an event-streaming service.

pub mod text;
pub mod stream;
pub mod resp;
pub mod command;
pub mod laws;

pub use command::{Command, RespCommandConvertError};
pub use resp::RespValue;
pub use stream::{ParseStreamError, Stream, StreamName, StreamNameError};
