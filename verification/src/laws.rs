//! The general guarantees of the library, each stated and proved once over
//! the same spec functions that the executable functions' contracts use.

use vstd::prelude::*;

use crate::commands::log_args_spec;
use crate::commands::recent_args_spec;
use crate::entry::CommitEntryView;
use crate::parser::data_of;
use crate::parser::graph_of;
use crate::parser::parse_line_spec;
use crate::parser::SEPARATOR;
use crate::query::count_result_spec;
use crate::query::log_result_spec;
use crate::query::search_entries_spec;
use crate::query::search_result_spec;
use crate::search::contains_ci;
use crate::text::is_glyph;
use crate::text::lemma_graph_len_at;
use crate::text::lemma_graph_len_bounds;
use crate::text::split_at_char;

verus! {

/// Splitting any line into its graph-drawing prefix and its data segment,
/// then rejoining the two, reproduces the line exactly.
pub proof fn lemma_split_rejoin(l: Seq<char>)
    ensures
        graph_of(l) + data_of(l) == l,
{
    lemma_graph_len_bounds(l);
    assert(graph_of(l) + data_of(l) =~= l);
}

/// A line composed solely of graph glyphs yields no record.
pub proof fn lemma_all_glyphs_no_record(l: Seq<char>)
    requires
        forall|i: int| 0 <= i < l.len() ==> is_glyph(l[i]),
    ensures
        parse_line_spec(l) is None,
{
    lemma_graph_len_at(l, l.len() as int);
    assert(data_of(l) =~= Seq::<char>::empty());
}

/// A line whose data segment splits into fewer than eight fields yields no
/// record.
pub proof fn lemma_short_data_no_record(l: Seq<char>)
    requires
        split_at_char(data_of(l), SEPARATOR).len() < 8,
    ensures
        parse_line_spec(l) is None,
{
}

/// The recent-commits query is a pure delegation: its argument list is
/// exactly the paginated log query's with nothing skipped and no branch
/// restriction, so identical external output gives identical records.
pub proof fn lemma_recent_delegates_to_log(count: int)
    ensures
        recent_args_spec(count) == log_args_spec(count, 0, None),
{
    assert(recent_args_spec(count) =~= log_args_spec(count, 0, None));
}

/// The search query returns only records whose message contains the query
/// case-insensitively.
pub proof fn lemma_search_only_matching(q: Seq<char>, t: Seq<char>, i: int)
    requires
        0 <= i < search_entries_spec(q, t).len(),
    ensures
        contains_ci(search_entries_spec(q, t)[i].message, q),
{
    crate::parser::parse_log_spec(t).filter_lemma(|e: CommitEntryView| contains_ci(e.message, q));
}

/// A failure reported by the invoker propagates out of every query
/// unchanged: no records, no count, no partial result.
pub proof fn lemma_failure_propagates(q: Seq<char>, m: Seq<char>)
    ensures
        log_result_spec(Err(m)) == Err::<Seq<CommitEntryView>, Seq<char>>(m),
        search_result_spec(q, Err(m)) == Err::<Seq<CommitEntryView>, Seq<char>>(m),
        count_result_spec(Err(m)) == Err::<int, Seq<char>>(m),
{
}

} // verus!
