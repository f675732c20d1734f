//! The line searcher: a validated configuration built from the program
//! arguments, and the two matching operations over a body of text.
//!
//! A line of the text is yielded exactly when it contains the query as a
//! contiguous substring, byte-for-byte for the case-sensitive operation and
//! after ASCII lowercasing of both sides for the case-insensitive one.
//! Yielded lines are slices of the input text, in input order, without
//! their terminators.

use vstd::prelude::*;

use crate::text::chars_of;
use crate::text::contains_sub;
use crate::text::has_substring;
use crate::text::lines_spec;
use crate::text::lower_seq;
use crate::text::lower_vec;
use crate::text::split_lines;
use crate::text::views_of;

verus! {

/// A line matches a query when it contains it as a contiguous substring.
pub open spec fn line_matches(l: Seq<char>, q: Seq<char>) -> bool {
    has_substring(l, q)
}

/// Case-insensitive matching: both sides are lowercased first.
pub open spec fn line_matches_insensitive(l: Seq<char>, q: Seq<char>) -> bool {
    has_substring(lower_seq(l), lower_seq(q))
}

/// The lines among `lines` that match `q`, in order.
pub open spec fn matches_of(lines: Seq<Seq<char>>, q: Seq<char>) -> Seq<Seq<char>> {
    lines.filter(|l: Seq<char>| line_matches(l, q))
}

/// The lines among `lines` that match `q` case-insensitively, in order.
pub open spec fn matches_of_insensitive(lines: Seq<Seq<char>>, q: Seq<char>) -> Seq<Seq<char>> {
    lines.filter(|l: Seq<char>| line_matches_insensitive(l, q))
}

/// Appending a line to a text's line sequence extends its matches with
/// that line exactly when the line matches.
proof fn lemma_matches_push(lines: Seq<Seq<char>>, l: Seq<char>, q: Seq<char>)
    ensures
        matches_of(lines.push(l), q) == if line_matches(l, q) {
            matches_of(lines, q).push(l)
        } else {
            matches_of(lines, q)
        },
{
    reveal(Seq::filter);
    assert(lines.push(l).drop_last() =~= lines);
    assert(lines.push(l).last() == l);
}

/// The case-insensitive counterpart of `lemma_matches_push`.
proof fn lemma_matches_insensitive_push(lines: Seq<Seq<char>>, l: Seq<char>, q: Seq<char>)
    ensures
        matches_of_insensitive(lines.push(l), q) == if line_matches_insensitive(l, q) {
            matches_of_insensitive(lines, q).push(l)
        } else {
            matches_of_insensitive(lines, q)
        },
{
    reveal(Seq::filter);
    assert(lines.push(l).drop_last() =~= lines);
    assert(lines.push(l).last() == l);
}

/// What `search` returns: the matching lines of `c`, in input order.
pub open spec fn search_spec(q: Seq<char>, c: Seq<char>) -> Seq<Seq<char>> {
    matches_of(lines_spec(c), q)
}

/// What `search_case_insensitive` returns.
pub open spec fn search_insensitive_spec(q: Seq<char>, c: Seq<char>) -> Seq<Seq<char>> {
    matches_of_insensitive(lines_spec(c), q)
}

/// The lines of `contents` that contain `query` as a contiguous substring,
/// in input order, each yielded verbatim and without its terminator.
pub fn search<'a>(query: &str, contents: &'a str) -> (r: Vec<&'a str>)
    ensures
        views_of(r@) == search_spec(query@, contents@),
{

    let qv = chars_of(query);
    let lines = split_lines(contents);
    let nl = lines.len();
    let mut results: Vec<&'a str> = Vec::new();
    for k in 0..nl
        invariant
            nl == lines@.len(),
            qv@ == query@,
            views_of(lines@) == lines_spec(contents@),
            views_of(results@) == matches_of(views_of(lines@).take(k as int), query@),
    {
        let line = lines[k];
        proof {
            assert(views_of(lines@)[k as int] == line@);
            assert(views_of(lines@).take(k + 1) =~= views_of(lines@).take(k as int).push(line@));
            lemma_matches_push(views_of(lines@).take(k as int), line@, query@);
        }
        let lv = chars_of(line);
        if contains_sub(&lv, &qv) {
            proof {
                assert(views_of(results@.push(line)) =~= views_of(results@).push(line@));
            }
            results.push(line);
        }
    }
    proof {
        assert(views_of(lines@).take(nl as int) =~= views_of(lines@));
    }
    results
}

/// The lines of `contents` that contain `query` after ASCII lowercasing of
/// both the line and the query; the yielded line is the original, not the
/// lowercased form.
pub fn search_case_insensitive<'a>(query: &str, contents: &'a str) -> (r: Vec<&'a str>)
    ensures
        views_of(r@) == search_insensitive_spec(query@, contents@),
{

    let qv = chars_of(query);
    let q_low = lower_vec(&qv);
    let lines = split_lines(contents);
    let nl = lines.len();
    let mut results: Vec<&'a str> = Vec::new();
    for k in 0..nl
        invariant
            nl == lines@.len(),
            q_low@ == lower_seq(query@),
            views_of(lines@) == lines_spec(contents@),
            views_of(results@) == matches_of_insensitive(views_of(lines@).take(k as int), query@),
    {
        let line = lines[k];
        proof {
            assert(views_of(lines@)[k as int] == line@);
            assert(views_of(lines@).take(k + 1) =~= views_of(lines@).take(k as int).push(line@));
            lemma_matches_insensitive_push(views_of(lines@).take(k as int), line@, query@);
        }
        let lv = chars_of(line);
        let l_low = lower_vec(&lv);
        if contains_sub(&l_low, &q_low) {
            proof {
                assert(views_of(results@.push(line)) =~= views_of(results@).push(line@));
            }
            results.push(line);
        }
    }
    proof {
        assert(views_of(lines@).take(nl as int) =~= views_of(lines@));
    }
    results
}

/// The searcher's configuration, fixed once per invocation: the query, the
/// path of the input file, and the case policy.
pub struct Config {
    pub query: String,
    pub file_path: String,
    pub ignore_case: bool,
}

impl Config {
    /// Build a configuration from the argument sequence as received from
    /// the operating system (the first element being the program name) and
    /// from the presence of the case-policy variable in the environment,
    /// probed by the caller. Fails exactly when fewer than two user
    /// arguments are present; extra arguments are ignored.
    pub fn build(args: &Vec<String>, ignore_case: bool) -> (r: Result<Config, &'static str>)
        ensures
            args@.len() >= 3 ==> (r matches Ok(c) && c.query@ == args@[1]@ && c.file_path@
                == args@[2]@ && c.ignore_case == ignore_case),
            args@.len() < 3 ==> (r matches Err(m) && m@ == "not enough arguments"@),
    {
        if args.len() < 3 {
            return Err("not enough arguments");
        }
        let query = args[1].clone();
        let file_path = args[2].clone();
        Ok(Config { query, file_path, ignore_case })
    }
}

/// An early stage of `Config::build`: the same extraction of the query and
/// the file path, with no argument check and the default case policy.
pub fn parse_config(args: &Vec<String>) -> (c: Config)
    requires
        args@.len() >= 3,
    ensures
        c.query@ == args@[1]@,
        c.file_path@ == args@[2]@,
        !c.ignore_case,
{
    let query = args[1].clone();
    let file_path = args[2].clone();
    Config { query, file_path, ignore_case: false }
}

/// What the runner prints for a configuration and a body of text: the
/// result of the matching operation selected by the case policy.
pub open spec fn run_matches_spec(ignore_case: bool, q: Seq<char>, c: Seq<char>) -> Seq<
    Seq<char>,
> {
    if ignore_case {
        search_insensitive_spec(q, c)
    } else {
        search_spec(q, c)
    }
}

/// The compute step of the runner: select the matching operation by the
/// case policy and apply it to the text read from the input file. The
/// caller performs the file read before and the printing after.
pub fn matching_lines<'a>(config: &Config, contents: &'a str) -> (r: Vec<&'a str>)
    ensures
        views_of(r@) == run_matches_spec(config.ignore_case, config.query@, contents@),
{
    if config.ignore_case {
        search_case_insensitive(config.query.as_str(), contents)
    } else {
        search(config.query.as_str(), contents)
    }
}

} // verus!
