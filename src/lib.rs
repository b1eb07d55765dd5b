//! A browser for an ordered byte-keyed store: the codecs, the comparator,
//! the range scan, batch validation and command planning, verified.
pub mod batch;
pub mod codec;
pub mod command;
pub mod compare;
pub mod hex;
pub mod scan;
