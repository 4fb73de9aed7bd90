//! Forward-error-correction file codec built on RaptorQ.
//!
//! A file is cut into blocks whose size keeps the codec's working set under a
//! memory ceiling; every block is encoded on its own, each emitted symbol is
//! stored under the hash of its bytes, and a layout manifest records where
//! each block belongs. Decoding walks the manifest, feeds whatever symbols can
//! still be read to the codec, checks every recovered block against its hash
//! and writes it back at its offset.
use vstd::prelude::*;

pub mod config;
pub mod error;
pub mod planner;
pub mod hash;
pub mod codec;
pub mod text;
pub mod file_io;
pub mod layout;
pub mod processor;
