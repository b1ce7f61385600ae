//! Directory-tree rendering: entry admission, project-type detection,
//! size formatting and the text and adjacency outputs of a traversal.

pub mod cli;
pub mod entry;
pub mod export;
pub mod filter;
pub mod style;
pub mod text;
pub mod tree;

pub use filter::ProjectType;
pub use tree::TreeData;
