use vstd::prelude::*;
use vstd::string::StringExecFns;

verus! {

/// What to do with the search results after the user edited the inputs.
#[derive(Clone, Copy, Debug, PartialEq, Eq, Structural)]
pub enum SearchAction {
    /// Run the search again and replace the results.
    Run,
    /// Drop the results: there is nothing to search for.
    Clear,
    /// Leave the results as they are.
    Keep,
}

/// A directory entry is usable when it names a directory or is left empty
/// (the working directory).
pub open spec fn dir_usable(dir_text: Seq<char>, dir_exists: bool) -> bool {
    dir_exists || dir_text.len() == 0
}

pub open spec fn search_action_of(
    query_changed: bool,
    query: Seq<char>,
    dir_text: Seq<char>,
    dir_exists: bool,
) -> SearchAction {
    if query_changed && query.len() > 0 && dir_usable(dir_text, dir_exists) {
        SearchAction::Run
    } else if query.len() == 0 {
        SearchAction::Clear
    } else {
        SearchAction::Keep
    }
}

/// Whether the directory entry is usable; `dir_exists` tells whether it names
/// an existing directory.
pub fn is_dir_usable(dir_text: &str, dir_exists: bool) -> (r: bool)
    ensures
        r == dir_usable(dir_text@, dir_exists),
{
    dir_exists || dir_text.is_empty()
}

/// Decides what to do after a frame in which the query was edited or not.
pub fn decide_search(query_changed: bool, query: &str, dir_text: &str, dir_exists: bool) -> (r:
    SearchAction)
    ensures
        r == search_action_of(query_changed, query@, dir_text@, dir_exists),
{
    if query_changed && !query.is_empty() && is_dir_usable(dir_text, dir_exists) {
        SearchAction::Run
    } else if query.is_empty() {
        SearchAction::Clear
    } else {
        SearchAction::Keep
    }
}

/// The directory to search in: the entry, or `.` when it is empty.
pub fn search_directory(dir_text: &str) -> (r: String)
    ensures
        dir_text@.len() > 0 ==> r@ == dir_text@,
        dir_text@.len() == 0 ==> r@ == "."@,
{
    if dir_text.is_empty() {
        String::from_str(".")
    } else {
        String::from_str(dir_text)
    }
}

/// The arguments of the search tool: the pattern, colorized output, and the
/// number of worker threads.
pub fn search_args(query: &str) -> (r: Vec<String>)
    ensures
        r@.len() == 4,
        r@[0]@ == query@,
        r@[1]@ == "--pretty"@,
        r@[2]@ == "--threads"@,
        r@[3]@ == "8"@,
{
    let mut r: Vec<String> = Vec::new();
    r.push(String::from_str(query));
    r.push(String::from_str("--pretty"));
    r.push(String::from_str("--threads"));
    r.push(String::from_str("8"));
    r
}

} // verus!
