//! Line search with a configuration that owns its query and file name.

use crate::grep::{line_matches, matching, search, search_lines, text_file};
use vstd::prelude::*;

verus! {

/// The query to search for and the file to search in; upper and lower case
/// count as the same if `ignore_case` says so.
#[derive(Debug)]
pub struct Config {
    query: String,
    file_path: String,
    ignore_case: bool,
}

impl Config {
    /// The text searched for.
    pub closed spec fn query(&self) -> Seq<char> {
        self.query@
    }

    /// The name of the file searched in, without `./` and `.txt`.
    pub closed spec fn file_path(&self) -> Seq<char> {
        self.file_path@
    }

    /// Whether upper and lower case count as the same.
    pub closed spec fn ignore_case(&self) -> bool {
        self.ignore_case
    }

    /// Takes the query from the second argument and the file from the
    /// third; the first one is passed over.
    pub fn build(args: &[String], ignore_case: bool) -> (built: Result<Self, &'static str>)
        ensures
            args@.len() < 2 ==> (built matches Err(message) && message@
                == "Please provide query string!"@),
            args@.len() == 2 ==> (built matches Err(message) && message@
                == "Please provide file path!"@),
            args@.len() > 2 ==> {
                &&& built matches Ok(config)
                &&& config.query() == args@[1]@
                &&& config.file_path() == args@[2]@
                &&& config.ignore_case() == ignore_case
            },
    {
        if args.len() < 2 {
            return Err("Please provide query string!");
        }
        let query = args[1].clone();
        if args.len() < 3 {
            return Err("Please provide file path!");
        }
        let file_path = args[2].clone();
        Ok(Self { query, file_path, ignore_case })
    }

    /// The path of the file to read.
    pub fn file_name(&self) -> (path: String)
        ensures
            path@ == "./"@ + self.file_path() + ".txt"@,
    {
        text_file(self.file_path.as_str())
    }

    /// Whether `data` holds `query`.
    pub fn search(query: &str, data: &str, ignore_case: bool) -> (found: bool)
        ensures
            found == line_matches(query@, data@, ignore_case),
    {
        search(query, data, ignore_case)
    }

    /// The lines to print: those among `lines` that hold the query.
    pub fn matching_lines<'b>(&self, lines: &'b [String]) -> (found: Vec<&'b String>)
        ensures
            found@.len() == matching(lines@, self.query(), self.ignore_case()).len(),
            forall|i: int|
                0 <= i < found@.len() ==> *found@[i] == matching(
                    lines@,
                    self.query(),
                    self.ignore_case(),
                )[i],
    {
        search_lines(self.query.as_str(), lines, self.ignore_case)
    }
}

} // verus!
