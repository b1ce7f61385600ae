//! The settings a run of the tool is started with.

use vstd::prelude::*;

verus! {

/// Command-line settings: the root to walk (the current directory when
/// absent), the depth ceiling (0 for none), exclude patterns and the patterns a path must hold,
/// the export targets, whether to print the tree and whether to follow
/// symbolic links.
pub struct Args {
    pub path: Option<String>,
    pub max_depth: usize,
    pub exclude: Vec<String>,
    pub include_patterns: Vec<String>,
    pub png: Option<String>,
    pub mermaid: Option<String>,
    pub no_display: bool,
    pub follow_links: bool,
}

} // verus!
