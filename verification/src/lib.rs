//! Decoding of the dynamic-symbol bind metadata of a Mach-O binary.
//!
//! A dynamic linker resolves imported symbols by replaying a compact stream of
//! bind opcodes.  [`imports::BindInterpreter`] replays the eager and the lazy
//! stream of a binary and reports, as a list of [`imports::Import`], every bind
//! that the streams encode.  Nothing is written back: the binds are reported,
//! not performed.

pub mod error;
pub mod imports;
pub mod laws;
pub mod layout;
pub mod machine;
pub mod opcodes;
pub mod reader;
pub mod record;
