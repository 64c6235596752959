use vstd::prelude::*;

verus! {

/// Folder used for the data files when `DATA_FOLDER` is not set.
pub const DATA_FOLDER: &'static str = "data";

} // verus!
