//! A console for a device on an SPI bus: commands go out as frames, answers are
//! matched to the commands by number, and both are shown as rows of a table.

pub mod channel;
pub mod clock;
pub mod command;
pub mod console;
pub mod messages;
pub mod queue;
pub mod random;
pub mod reception;
pub mod screen;
pub mod text;
pub mod transmit;
pub mod wire;
