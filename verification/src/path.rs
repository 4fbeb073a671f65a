//! Where the checklist file is.

use vstd::prelude::*;

verus! {

/// The name of the checklist file in the home directory, with the separator
/// before it.
pub const DEFAULT_FILE: &'static str = "/.todo.md";

/// The path of the checklist file: the one that the user has set, or else the
/// default file in the home directory. There is none where the user has set no
/// path and the home directory is not known.
pub fn backing_file(chosen: Option<String>, home: Option<String>) -> (path: Option<String>)
    ensures
        match chosen {
            Some(file) => path matches Some(p) && p@ == file@,
            None => match home {
                Some(dir) => path matches Some(p) && p@ == dir@ + DEFAULT_FILE@,
                None => path is None,
            },
        },
{
    match chosen {
        Some(file) => Some(file),
        None => match home {
            Some(dir) => Some(dir.concat(DEFAULT_FILE)),
            None => None,
        },
    }
}

} // verus!
