//! CLI options.

use vstd::prelude::*;

verus! {

/// Command-line options of the surrounding viewer: a single FBX file path.
#[derive(Debug, Clone)]
pub struct CliOpt {
    /// FBX file path.
    pub fbx_path: String,
}

impl CliOpt {
    /// Builds the options from the parsed path argument.
    pub fn new(fbx_path: String) -> (r: CliOpt)
        ensures
            r.fbx_path == fbx_path,
    {
        CliOpt { fbx_path }
    }
}

} // verus!
