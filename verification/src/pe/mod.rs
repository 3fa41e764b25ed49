//! PE/COFF handling: kernel image parsing and the direct loader.

pub mod fixtures;
pub mod kernel;
pub mod le;
pub mod loader;
