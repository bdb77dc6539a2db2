//! Serialises a motion-capture skeleton and its animation into BVH text.
//!
//! A [`Bvh`] holds the joints in pre-order, each with its nesting depth, and the
//! frames of channel values. [`WriteOptions`] turns it into the lines of a BVH
//! document, one line per pull, or into one byte string.

pub mod braces;
pub mod byte_string;
pub mod indent;
pub mod keywords;
pub mod laws;
pub mod layout;
pub mod model;
pub mod producer;
pub mod round_trip;
pub mod splitting;
pub mod terminator;
pub mod text;
pub mod write;

pub use indent::IndentStyle;
pub use model::{Bvh, ChannelKind, Joint, Number, Offset};
pub use producer::{BoneLine, MotionLine, WriteOptionsIterState};
pub use terminator::LineTerminator;
pub use write::{SinkAction, SinkEvent, TransferError, WriteOptions};
