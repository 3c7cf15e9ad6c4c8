//! Byte-buffer viewer core: turns a line of text into bytes under an input
//! mode and renders those bytes through a fixed panel of encoders.

pub mod numeric;
pub mod registry;
pub mod resolve;
pub mod session;
pub mod transformer;
