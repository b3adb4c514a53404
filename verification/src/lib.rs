//! Terminal-output interpretation for testing text user interfaces.
//!
//! The crate reconstructs what a terminal shows from the bytes a program
//! writes to it, finds the Sixel graphics blocks embedded in that stream, and
//! offers the rectangle algebra and the polling decisions that tests build on.

pub mod geometry;
pub mod error;
pub mod raster;
pub mod extractor;
pub mod emulator;
pub mod text;
pub mod screen;
pub mod sixel;
pub mod wait;
pub mod lifecycle;

pub use error::{Result, TermTestError};
pub use extractor::{SixelRegion, SixelScanner};
pub use geometry::Rectangle;
pub use screen::ScreenState;
pub use sixel::{SixelCapture, SixelSequence};
pub use wait::{ConditionWaiter, DrainStep, SourceEvent, WaitStep};
