//! The query operations. Each one receives the external invoker as a
//! closure — run these arguments, return the captured output text or a
//! failure — builds the argument list for its query, hands it to the
//! invoker, and turns what comes back into records or a propagated
//! failure. The contracts pin the result to the invoker's answer: whatever
//! text the invoker returned for the stated arguments, the result is
//! exactly its parse; whatever failure it reported, the result is exactly
//! that failure.

use vstd::prelude::*;

use crate::commands::count_args;
use crate::commands::count_args_spec;
use crate::commands::log_args;
use crate::commands::log_args_spec;
use crate::commands::opt_view;
use crate::commands::recent_args_spec;
use crate::commands::search_args;
use crate::commands::search_args_spec;
use crate::entry::CommitEntry;
use crate::entry::CommitEntryView;
use crate::entry::GitError;
use crate::numbers::parse_usize;
use crate::numbers::parse_usize_spec;
use crate::parser::parse_log_output;
use crate::parser::parse_log_spec;
use crate::search::contains_ci;
use crate::search::contains_ci_str;
use crate::text::trim_of;
use crate::text::trim_str;

verus! {

/// The view of an invocation outcome: captured text, or diagnostic text.
pub open spec fn outcome_view(o: Result<String, String>) -> Result<Seq<char>, Seq<char>> {
    match o {
        Ok(t) => Ok(t@),
        Err(m) => Err(m@),
    }
}

/// The view of a query result carrying records.
pub open spec fn entries_result_view(r: Result<Vec<CommitEntry>, GitError>) -> Result<
    Seq<CommitEntryView>,
    Seq<char>,
> {
    match r {
        Ok(v) => Ok(v.deep_view()),
        Err(e) => Err(e.message@),
    }
}

/// The view of the total-count query result.
pub open spec fn count_result_view(r: Result<usize, GitError>) -> Result<int, Seq<char>> {
    match r {
        Ok(v) => Ok(v as int),
        Err(e) => Err(e.message@),
    }
}

/// What a log query yields from an invocation outcome: the parse of the
/// captured text, or the failure unchanged.
pub open spec fn log_result_spec(o: Result<Seq<char>, Seq<char>>) -> Result<
    Seq<CommitEntryView>,
    Seq<char>,
> {
    match o {
        Ok(t) => Ok(parse_log_spec(t)),
        Err(m) => Err(m),
    }
}

/// The records a search yields from a captured text: those records of the
/// parse whose message contains `q` case-insensitively, in order.
pub open spec fn search_entries_spec(q: Seq<char>, t: Seq<char>) -> Seq<CommitEntryView> {
    parse_log_spec(t).filter(|e: CommitEntryView| contains_ci(e.message, q))
}

/// What the search query yields from an invocation outcome: the parsed
/// records whose message contains the query case-insensitively, in order,
/// or the failure unchanged.
pub open spec fn search_result_spec(q: Seq<char>, o: Result<Seq<char>, Seq<char>>) -> Result<
    Seq<CommitEntryView>,
    Seq<char>,
> {
    match o {
        Ok(t) => Ok(search_entries_spec(q, t)),
        Err(m) => Err(m),
    }
}

/// What the total-count query yields from an invocation outcome: the
/// trimmed text read as a number, zero when it is no number, or the
/// failure unchanged.
pub open spec fn count_result_spec(o: Result<Seq<char>, Seq<char>>) -> Result<int, Seq<char>> {
    match o {
        Ok(t) => Ok(
            match parse_usize_spec(trim_of(t)) {
                Some(v) => v,
                None => 0,
            },
        ),
        Err(m) => Err(m),
    }
}

/// Fetches commit log entries with pagination and an optional branch
/// restriction, through the given invoker.
pub fn get_log<F: FnOnce(Vec<String>) -> Result<String, String>>(
    count: usize,
    skip: usize,
    branch: Option<&str>,
    run: F,
) -> (r: Result<Vec<CommitEntry>, GitError>)
    requires
        forall|a: Vec<String>|
            a.deep_view() == log_args_spec(count as int, skip as int, opt_view(branch))
                ==> #[trigger] call_requires(run, (a,)),
    ensures
        exists|a: Vec<String>, o: Result<String, String>|
            {
                &&& a.deep_view() == log_args_spec(count as int, skip as int, opt_view(branch))
                &&& #[trigger] call_ensures(run, (a,), o)
                &&& entries_result_view(r) == log_result_spec(outcome_view(o))
            },
{
    let args = log_args(count, skip, branch);
    let ghost gargs = args;
    let out = run(args);
    let ghost gout = out;
    match out {
        Ok(text) => {
            let entries = parse_log_output(text.as_str());
            proof {
                assert(call_ensures(run, (gargs,), gout) && entries_result_view(
                    Ok::<Vec<CommitEntry>, GitError>(entries),
                ) == log_result_spec(outcome_view(gout)));
            }
            Ok(entries)
        },
        Err(message) => {
            let e = GitError { message };
            proof {
                assert(call_ensures(run, (gargs,), gout) && entries_result_view(
                    Err::<Vec<CommitEntry>, GitError>(e),
                ) == log_result_spec(outcome_view(gout)));
            }
            Err(e)
        },
    }
}

/// Fetches the last `count` commits: the log query with nothing skipped
/// and no branch restriction.
pub fn get_recent_commits<F: FnOnce(Vec<String>) -> Result<String, String>>(
    count: usize,
    run: F,
) -> (r: Result<Vec<CommitEntry>, GitError>)
    requires
        forall|a: Vec<String>|
            a.deep_view() == recent_args_spec(count as int) ==> #[trigger] call_requires(
                run,
                (a,),
            ),
    ensures
        exists|a: Vec<String>, o: Result<String, String>|
            {
                &&& a.deep_view() == recent_args_spec(count as int)
                &&& #[trigger] call_ensures(run, (a,), o)
                &&& entries_result_view(r) == log_result_spec(outcome_view(o))
            },
{
    proof {
        crate::laws::lemma_recent_delegates_to_log(count as int);
    }
    get_log(count, 0, None, run)
}

/// Counts the commits reachable from the current head, through the given
/// invoker; text that is no number counts as zero.
pub fn commit_count<F: FnOnce(Vec<String>) -> Result<String, String>>(run: F) -> (r: Result<
    usize,
    GitError,
>)
    requires
        forall|a: Vec<String>|
            a.deep_view() == count_args_spec() ==> #[trigger] call_requires(run, (a,)),
    ensures
        exists|a: Vec<String>, o: Result<String, String>|
            {
                &&& a.deep_view() == count_args_spec()
                &&& #[trigger] call_ensures(run, (a,), o)
                &&& count_result_view(r) == count_result_spec(outcome_view(o))
            },
{
    let args = count_args();
    let ghost gargs = args;
    let out = run(args);
    let ghost gout = out;
    match out {
        Ok(text) => {
            let trimmed = trim_str(text.as_str());
            let n = match parse_usize(trimmed) {
                Some(v) => v,
                None => 0,
            };
            proof {
                assert(call_ensures(run, (gargs,), gout) && count_result_view(
                    Ok::<usize, GitError>(n),
                ) == count_result_spec(outcome_view(gout)));
            }
            Ok(n)
        },
        Err(message) => {
            let e = GitError { message };
            proof {
                assert(call_ensures(run, (gargs,), gout) && count_result_view(
                    Err::<usize, GitError>(e),
                ) == count_result_spec(outcome_view(gout)));
            }
            Err(e)
        },
    }
}

/// Searches commits by message text, through the given invoker: of the
/// records the invoker's output parses to, exactly those whose message
/// contains `query` case-insensitively are returned, in order.
pub fn search_commits<F: FnOnce(Vec<String>) -> Result<String, String>>(
    query: &str,
    count: usize,
    run: F,
) -> (r: Result<Vec<CommitEntry>, GitError>)
    requires
        forall|a: Vec<String>|
            a.deep_view() == search_args_spec(query@, count as int) ==> #[trigger] call_requires(
                run,
                (a,),
            ),
    ensures
        exists|a: Vec<String>, o: Result<String, String>|
            {
                &&& a.deep_view() == search_args_spec(query@, count as int)
                &&& #[trigger] call_ensures(run, (a,), o)
                &&& entries_result_view(r) == search_result_spec(query@, outcome_view(o))
            },
{
    let args = search_args(query, count);
    let ghost gargs = args;
    let out = run(args);
    let ghost gout = out;
    match out {
        Ok(text) => {
            let parsed = parse_log_output(text.as_str());
            let ghost full = parsed.deep_view();
            let ghost pred = (|e: CommitEntryView| contains_ci(e.message, query@));
            let mut rest = parsed;
            let mut kept: Vec<CommitEntry> = Vec::new();
            proof {
                assert(full.take(0) =~= Seq::<CommitEntryView>::empty());
                reveal_with_fuel(Seq::filter, 1);
                assert(kept.deep_view() =~= full.take(0).filter(pred));
                assert(rest.deep_view() =~= full.skip(0));
            }
            while rest.len() > 0
                invariant
                    rest.deep_view().len() == rest.len(),
                    full.len() >= rest.len(),
                    rest.deep_view() == full.skip(full.len() - rest.len() as int),
                    kept.deep_view() == full.take(full.len() - rest.len() as int).filter(pred),
                    pred == (|e: CommitEntryView| contains_ci(e.message, query@)),
                decreases rest.len(),
            {
                let ghost k = full.len() - rest.len() as int;
                let ghost old_rest = rest@;
                let ghost old_dv = rest.deep_view();
                let e = rest.remove(0);
                proof {
                    assert(e.deep_view() == old_dv[0]);
                    assert(old_dv[0] == full.skip(k)[0]);
                    assert(full.skip(k)[0] == full[k]);
                    assert(e.deep_view() == full[k]);
                    assert(forall|j: int|
                        0 <= j < rest@.len() ==> rest@[j] == old_rest[j + 1]);
                    assert(forall|j: int|
                        0 <= j < rest@.len() ==> rest.deep_view()[j] == old_dv[j + 1]);
                    assert(forall|j: int|
                        0 <= j < rest@.len() ==> #[trigger] old_dv[j + 1] == full[k + 1 + j]);
                    assert(rest.deep_view() =~= full.skip(k + 1));
                    assert(full.take(k + 1).drop_last() =~= full.take(k));
                    assert(full.take(k + 1).last() == full[k]);
                    reveal_with_fuel(Seq::filter, 2);
                }
                if contains_ci_str(e.message.as_str(), query) {
                    kept.push(e);
                    proof {
                        assert(kept.deep_view() =~= full.take(k + 1).filter(pred));
                    }
                } else {
                    proof {
                        assert(full.take(k + 1).filter(pred) =~= full.take(k).filter(pred));
                    }
                }
            }
            proof {
                assert(full.take(full.len() as int) =~= full);
                assert(call_ensures(run, (gargs,), gout) && entries_result_view(
                    Ok::<Vec<CommitEntry>, GitError>(kept),
                ) == search_result_spec(query@, outcome_view(gout)));
            }
            Ok(kept)
        },
        Err(message) => {
            let e = GitError { message };
            proof {
                assert(call_ensures(run, (gargs,), gout) && entries_result_view(
                    Err::<Vec<CommitEntry>, GitError>(e),
                ) == search_result_spec(query@, outcome_view(gout)));
            }
            Err(e)
        },
    }
}

} // verus!
