//! Searching a text for the lines that contain a query, with or without
//! regard to case.

use crate::seqs::lemma_filter_step;
use crate::text::contains;
use crate::text::is_substring;
use crate::text::lines;
use crate::text::lowercase;
use crate::text::slice_views;
use crate::text::split_lines;
use vstd::prelude::*;

verus! {

/// What a search needs to know: what to look for, where, and how.
pub struct Config {
    query: String,
    filename: String,
    case_sensitive: bool,
}

/// A configuration as plain values.
pub struct ConfigView {
    pub query: Seq<char>,
    pub filename: Seq<char>,
    pub case_sensitive: bool,
}

impl View for Config {
    type V = ConfigView;

    closed spec fn view(&self) -> ConfigView {
        ConfigView {
            query: self.query@,
            filename: self.filename@,
            case_sensitive: self.case_sensitive,
        }
    }
}

/// What `Config::new` makes of the arguments: the first is the program's own
/// name and is passed over, the second is the query, the third the file's name.
pub open spec fn parsed(args: Seq<String>, case_insensitive: bool) -> Result<
    ConfigView,
    Seq<char>,
> {
    if args.len() < 2 {
        Err("Didn't get a query string"@)
    } else if args.len() < 3 {
        Err("Didn't get a file name"@)
    } else {
        Ok(
            ConfigView {
                query: args[1]@,
                filename: args[2]@,
                case_sensitive: !case_insensitive,
            },
        )
    }
}

impl Config {
    /// Reads a configuration from the command line's arguments.
    /// `case_insensitive` says whether the user asked for a search without
    /// regard to case.
    pub fn new(args: &Vec<String>, case_insensitive: bool) -> (config: Result<
        Config,
        &'static str,
    >)
        ensures
            match config {
                Ok(c) => parsed(args@, case_insensitive) == Ok::<ConfigView, Seq<char>>(c@),
                Err(e) => parsed(args@, case_insensitive) == Err::<ConfigView, Seq<char>>(e@),
            },
    {
        if args.len() < 2 {
            return Err("Didn't get a query string");
        }
        let query = args[1].clone();
        if args.len() < 3 {
            return Err("Didn't get a file name");
        }
        let filename = args[2].clone();
        let case_sensitive = !case_insensitive;
        Ok(Config { query, filename, case_sensitive })
    }

    /// What to look for.
    pub fn query(&self) -> (query: &str)
        ensures
            query@ == self@.query,
    {
        self.query.as_str()
    }

    /// The name of the file to look in.
    pub fn filename(&self) -> (filename: &str)
        ensures
            filename@ == self@.filename,
    {
        self.filename.as_str()
    }

    /// Whether upper and lower case count as different.
    pub fn case_sensitive(&self) -> (sensitive: bool)
        ensures
            sensitive == self@.case_sensitive,
    {
        self.case_sensitive
    }
}

/// Whether `line` contains `query`.
pub open spec fn matches_query(query: Seq<char>) -> spec_fn(Seq<char>) -> bool {
    |line: Seq<char>| is_substring(query, line)
}

/// Whether `line` contains `query` when both are put in lowercase.
pub open spec fn matches_query_lowered(query: Seq<char>) -> spec_fn(Seq<char>) -> bool {
    |line: Seq<char>| is_substring(lowercase(query), lowercase(line))
}

/// Searches `contents`, the text of the file that `config` names, as
/// `config` asks: with regard to case or without.
pub fn run<'a>(config: &Config, contents: &'a str) -> (results: Vec<&'a str>)
    ensures
        config@.case_sensitive ==> slice_views(results@) == lines(contents@).filter(
            matches_query(config@.query),
        ),
        !config@.case_sensitive ==> slice_views(results@) == lines(contents@).filter(
            matches_query_lowered(config@.query),
        ),
{
    if config.case_sensitive {
        search(config.query.as_str(), contents)
    } else {
        search_case_insensitive(config.query.as_str(), contents)
    }
}

/// The lines of `contents` that contain `query`, in their order.
pub fn search<'a>(query: &str, contents: &'a str) -> (found: Vec<&'a str>)
    ensures
        slice_views(found@) == lines(contents@).filter(matches_query(query@)),
{
    let all = split_lines(contents);
    let ghost wanted = matches_query(query@);
    let mut found: Vec<&'a str> = Vec::new();
    let mut i: usize = 0;
    while i < all.len()
        invariant
            i <= all.len(),
            wanted == matches_query(query@),
            slice_views(found@) == slice_views(all@).take(i as int).filter(wanted),
        decreases all.len() - i,
    {
        let line = all[i];
        proof {
            lemma_filter_step(slice_views(all@), wanted, i as int);
            assert(slice_views(found@.push(line)) == slice_views(found@).push(line@));
        }
        if contains(line, query) {
            found.push(line);
        }
        i += 1;
    }
    assert(slice_views(all@).take(all@.len() as int) == slice_views(all@));
    found
}

/// The lines of `contents` that contain `query` when upper and lower case
/// count as the same, in their order.
pub fn search_case_insensitive<'a>(query: &str, contents: &'a str) -> (found: Vec<&'a str>)
    ensures
        slice_views(found@) == lines(contents@).filter(matches_query_lowered(query@)),
{
    let lowered = query.to_lowercase();
    let all = split_lines(contents);
    let ghost wanted = matches_query_lowered(query@);
    let mut found: Vec<&'a str> = Vec::new();
    let mut i: usize = 0;
    while i < all.len()
        invariant
            i <= all.len(),
            wanted == matches_query_lowered(query@),
            lowered@ == lowercase(query@),
            slice_views(found@) == slice_views(all@).take(i as int).filter(wanted),
        decreases all.len() - i,
    {
        let line = all[i];
        proof {
            lemma_filter_step(slice_views(all@), wanted, i as int);
            assert(slice_views(found@.push(line)) == slice_views(found@).push(line@));
        }
        if contains(line.to_lowercase().as_str(), lowered.as_str()) {
            found.push(line);
        }
        i += 1;
    }
    assert(slice_views(all@).take(all@.len() as int) == slice_views(all@));
    found
}

} // verus!
