//! Block-granular storage primitives for a disk-resident database engine:
//! block identifiers, fixed-size page buffers with typed accessors, and the
//! arithmetic that maps block numbers to byte offsets in a file.

pub mod block;
pub mod codec;
pub mod config;
pub mod layout;
pub mod page;
