//! Pure decision logic behind the two pass-through commands: the flat
//! directory listing and the script-execution bridge, plus the greeting.

use vstd::prelude::*;

verus! {

/// A flat listing of one directory level. `directories` is reserved for a
/// future nested listing and is always left empty: no recursive descent
/// is performed.
#[derive(Debug, PartialEq, Eq)]
pub struct DirectoryListing {
    pub files: Vec<String>,
    pub directories: Vec<DirectoryListing>,
}

/// Assembles the listing returned for one directory level: every entry
/// path, of whatever kind, goes into `files`, and `directories` stays
/// empty.
pub fn make_directory_listing(files: Vec<String>) -> (l: DirectoryListing)
    ensures
        l.files == files,
        l.directories@.len() == 0,
{
    DirectoryListing { files, directories: Vec::new() }
}

/// Decides what a finished interpreter run returns to the caller: the
/// captured standard output when the child exited with status zero, the
/// captured standard error as the failure text otherwise.
pub fn bridge_outcome(exit_ok: bool, stdout: String, stderr: String) -> (r: Result<String, String>)
    ensures
        exit_ok ==> r == Ok::<String, String>(stdout),
        !exit_ok ==> r == Err::<String, String>(stderr),
{
    if exit_ok {
        Ok(stdout)
    } else {
        Err(stderr)
    }
}

/// Builds the greeting returned for a name.
pub fn greet(name: &str) -> (r: String)
    ensures
        r@ == "Hello, "@ + name@ + "! You've been greeted from Rust!"@,
{
    let mut r = String::from_str("Hello, ");
    r.append(name);
    r.append("! You've been greeted from Rust!");
    r
}

} // verus!
