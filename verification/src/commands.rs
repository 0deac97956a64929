//! The command builder: the argument lists handed to the external log tool
//! for each query, stated exactly, character for character.

use vstd::prelude::*;

use crate::numbers::dec_digits;
use crate::numbers::format_usize;

verus! {

/// The view of an optional branch restriction.
pub open spec fn opt_view(b: Option<&str>) -> Option<Seq<char>> {
    match b {
        Some(s) => Some(s@),
        None => None,
    }
}

/// The format argument: eight fields separated by the field delimiter.
pub open spec fn format_arg() -> Seq<char> {
    "--format=%H\x1f%h\x1f%s\x1f%an\x1f%ar\x1f%aI\x1f%P\x1f%D"@
}

/// Arguments of the paginated log query: at most `count` entries, `skip`
/// entries skipped, the eight-field format, graph drawing on, optionally
/// restricted to a branch.
pub open spec fn log_args_spec(count: int, skip: int, branch: Option<Seq<char>>) -> Seq<
    Seq<char>,
> {
    let base = seq![
        "log"@,
        "-"@ + dec_digits(count),
        "--skip="@ + dec_digits(skip),
        format_arg(),
        "--graph"@,
    ];
    match branch {
        Some(b) => base.push(b),
        None => base,
    }
}

/// Arguments of the recent-commits query: at most `count` entries, the
/// eight-field format, graph drawing on.
pub open spec fn recent_args_spec(count: int) -> Seq<Seq<char>> {
    seq![
        "log"@,
        "-"@ + dec_digits(count),
        "--skip="@ + dec_digits(0),
        format_arg(),
        "--graph"@,
    ]
}

/// Arguments of the total-count query: all commits reachable from the
/// current head.
pub open spec fn count_args_spec() -> Seq<Seq<char>> {
    seq!["rev-list"@, "--count"@, "HEAD"@]
}

/// Arguments of the message-search query: at most `count` entries, the
/// eight-field format, a case-insensitive message filter, no graph drawing.
pub open spec fn search_args_spec(query: Seq<char>, count: int) -> Seq<Seq<char>> {
    seq!["log"@, "-"@ + dec_digits(count), format_arg(), "--grep="@ + query, "-i"@]
}

/// Builds the argument list of the paginated log query.
pub fn log_args(count: usize, skip: usize, branch: Option<&str>) -> (args: Vec<String>)
    ensures
        args.deep_view() == log_args_spec(count as int, skip as int, opt_view(branch)),
{
    let mut args: Vec<String> = Vec::new();
    args.push(String::from_str("log"));
    args.push(String::from_str("-").concat(format_usize(count).as_str()));
    args.push(String::from_str("--skip=").concat(format_usize(skip).as_str()));
    args.push(String::from_str("--format=%H\x1f%h\x1f%s\x1f%an\x1f%ar\x1f%aI\x1f%P\x1f%D"));
    args.push(String::from_str("--graph"));
    match branch {
        Some(b) => {
            args.push(b.to_owned());
            proof {
                assert(args.deep_view() =~= log_args_spec(
                    count as int,
                    skip as int,
                    opt_view(branch),
                ));
            }
        },
        None => {
            proof {
                assert(args.deep_view() =~= log_args_spec(
                    count as int,
                    skip as int,
                    opt_view(branch),
                ));
            }
        },
    }
    args
}

/// Builds the argument list of the total-count query.
pub fn count_args() -> (args: Vec<String>)
    ensures
        args.deep_view() == count_args_spec(),
{
    let mut args: Vec<String> = Vec::new();
    args.push(String::from_str("rev-list"));
    args.push(String::from_str("--count"));
    args.push(String::from_str("HEAD"));
    proof {
        assert(args.deep_view() =~= count_args_spec());
    }
    args
}

/// Builds the argument list of the message-search query.
pub fn search_args(query: &str, count: usize) -> (args: Vec<String>)
    ensures
        args.deep_view() == search_args_spec(query@, count as int),
{
    let mut args: Vec<String> = Vec::new();
    args.push(String::from_str("log"));
    args.push(String::from_str("-").concat(format_usize(count).as_str()));
    args.push(String::from_str("--format=%H\x1f%h\x1f%s\x1f%an\x1f%ar\x1f%aI\x1f%P\x1f%D"));
    args.push(String::from_str("--grep=").concat(query));
    args.push(String::from_str("-i"));
    proof {
        assert(args.deep_view() =~= search_args_spec(query@, count as int));
    }
    args
}

} // verus!
