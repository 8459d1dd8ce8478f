//! A codec for DF messages: a fixed binary header, a typed metadata block
//! and an optional opaque payload.
//!
//! `header` holds the wire layout of the header and its validation,
//! `message` assembles whole messages and reads them back, one stage at a
//! time, and `json` is the metadata codec.

pub mod bytes;
pub mod error;
pub mod header;
pub mod json;
pub mod message;
pub mod text;
