//! Decoding of line-oriented GPS track recordings and reconstruction of the
//! absolute track they describe.
//!
//! A recording is a sequence of comma-separated tagged lines. Anchor lines carry
//! an absolute position and instant; delta lines carry a change relative to the
//! most recent anchor. The modules here split lines into fields, decode each
//! line into a [`record::Record`], and fold the records into track points.

pub mod archive;
pub mod number;
pub mod pipeline;
pub mod record;
pub mod summary;
pub mod text;
pub mod time;
pub mod track;
