//! Line search: which lines of a text hold a query.

use crate::text::{contains, lowercase, occurs_in};
use vstd::prelude::*;
use vstd::string::StringExecFns;

verus! {

/// The least number of arguments a search needs: the program's name, the
/// query and the file.
pub const MIN_ARGS: usize = 3;

/// `line` holds `query`; with `ignore_case`, it does so once both are put in
/// lower case.
pub open spec fn line_matches(query: Seq<char>, line: Seq<char>, ignore_case: bool) -> bool {
    if ignore_case {
        occurs_in(lowercase(query), lowercase(line))
    } else {
        occurs_in(query, line)
    }
}

/// Whether `line` holds `query`.
pub fn search(query: &str, line: &str, ignore_case: bool) -> (found: bool)
    ensures
        found == line_matches(query@, line@, ignore_case),
{
    if ignore_case {
        let lowered_line = line.to_lowercase();
        let lowered_query = query.to_lowercase();
        contains(lowered_line.as_str(), lowered_query.as_str())
    } else {
        contains(line, query)
    }
}

/// The lines among `lines` that hold `query`, in order.
pub open spec fn matching(lines: Seq<String>, query: Seq<char>, ignore_case: bool) -> Seq<String> {
    lines.filter(|line: String| line_matches(query, line@, ignore_case))
}

/// The lines among `lines` that hold `query`, in order.
pub fn search_lines<'b>(query: &str, lines: &'b [String], ignore_case: bool) -> (found: Vec<
    &'b String,
>)
    ensures
        found@.len() == matching(lines@, query@, ignore_case).len(),
        forall|i: int|
            0 <= i < found@.len() ==> *found@[i] == matching(lines@, query@, ignore_case)[i],
{
    let ghost holds = |line: String| line_matches(query@, line@, ignore_case);
    let mut found: Vec<&String> = Vec::new();
    let mut i: usize = 0;
    proof {
        reveal(Seq::filter);
        assert(lines@.take(0) =~= Seq::<String>::empty());
    }
    while i < lines.len()
        invariant
            i <= lines.len(),
            holds == |line: String| line_matches(query@, line@, ignore_case),
            found@.len() == lines@.take(i as int).filter(holds).len(),
            forall|j: int|
                0 <= j < found@.len() ==> *found@[j] == lines@.take(i as int).filter(holds)[j],
        decreases lines.len() - i,
    {
        proof {
            reveal(Seq::filter);
            assert(lines@.take(i + 1).drop_last() =~= lines@.take(i as int));
            assert(lines@.take(i + 1).last() == lines@[i as int]);
        }
        if search(query, lines[i].as_str(), ignore_case) {
            found.push(&lines[i]);
        }
        i += 1;
    }
    proof {
        assert(lines@.take(i as int) =~= lines@);
    }
    found
}

/// The path of the text file called `name`: `./`, the name, and `.txt`.
pub fn text_file(name: &str) -> (path: String)
    ensures
        path@ == "./"@ + name@ + ".txt"@,
{
    String::from_str("./").concat(name).concat(".txt")
}

/// What to search for and where, borrowed from the program's arguments.
#[derive(Debug)]
pub struct Config<'a> {
    query: &'a str,
    file_path: &'a str,
    ignore_case: bool,
}

impl<'a> Config<'a> {
    /// The text searched for.
    pub closed spec fn query(&self) -> Seq<char> {
        self.query@
    }

    /// The name of the file searched in, without `./` and `.txt`.
    pub closed spec fn file_path(&self) -> Seq<char> {
        self.file_path@
    }

    /// Whether upper and lower case count as the same.
    pub closed spec fn ignore_case(&self) -> bool {
        self.ignore_case
    }

    /// Takes the query and the file from the second and third argument.
    pub fn build(args: &'a [String], ignore_case: bool) -> (built: Result<Self, String>)
        ensures
            args@.len() < MIN_ARGS ==> (built matches Err(message) && message@
                == "Not enough args"@),
            args@.len() >= MIN_ARGS ==> {
                &&& built matches Ok(config)
                &&& config.query() == args@[1]@
                &&& config.file_path() == args@[2]@
                &&& config.ignore_case() == ignore_case
            },
    {
        if args.len() < 3 {
            Err(String::from_str("Not enough args"))
        } else {
            let query = args[1].as_str();
            let file_path = args[2].as_str();
            Ok(Self { query, file_path, ignore_case })
        }
    }

    /// The path of the file to read.
    pub fn file_name(&self) -> (path: String)
        ensures
            path@ == "./"@ + self.file_path() + ".txt"@,
    {
        text_file(self.file_path)
    }

    /// Whether `line` holds the query.
    pub fn matches(&self, line: &str) -> (found: bool)
        ensures
            found == line_matches(self.query(), line@, self.ignore_case()),
    {
        search(self.query, line, self.ignore_case)
    }

    /// The lines to print: those among `lines` that hold the query.
    pub fn matching_lines<'b>(&self, lines: &'b [String]) -> (found: Vec<&'b String>)
        ensures
            found@.len() == matching(lines@, self.query(), self.ignore_case()).len(),
            forall|i: int|
                0 <= i < found@.len() ==> *found@[i] == matching(
                    lines@,
                    self.query(),
                    self.ignore_case(),
                )[i],
    {
        search_lines(self.query, lines, self.ignore_case)
    }
}

} // verus!
