use vstd::prelude::*;

verus! {

/// Arguments of the command that dumps a project's posts as JSON files: the
/// project's handle and the directory to write into.
#[derive(Clone, Debug, PartialEq, Eq)]
pub struct Cohost2json {
    pub project_name: String,
    pub path_to_chosts: String,
}

} // verus!
