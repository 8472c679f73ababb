//! A flat form of an index: distinct file names, paths, and for each name
//! the positions of its paths.

use vstd::prelude::*;

verus! {

/// Distinct file names, all paths, and for each name the positions in
/// `paths` of the paths that carry it.
pub struct CompactIndex {
    pub filenames: Vec<String>,
    pub paths: Vec<String>,
    pub filename_to_paths: Vec<Vec<usize>>,
}

} // verus!
