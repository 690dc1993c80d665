//! A region ("arena") allocator: objects are placed into large fixed-size
//! byte blocks by bumping a cursor, and each block is reclaimed in one piece.

pub mod layout;
pub mod raw_block;
pub mod arena_box;
pub mod single_chunk;
pub mod chunk_laws;
pub mod chunk_linked_list;
pub mod arena_allocator;
pub mod arena_laws;
pub mod error;
pub mod atomic_single;
pub mod misc;

pub use arena_allocator::{Arena, CHUNK_SIZE};
pub use arena_box::ArenaBox;
pub use atomic_single::AtomicSingleArena;
pub use chunk_linked_list::UnshrinkableLinkedList;
pub use error::ArenaError;
pub use single_chunk::SingleArena;
