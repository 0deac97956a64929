//! The line parser: splits one output line of the external log tool into a
//! graph-drawing prefix and a delimited data segment, decodes the data
//! segment into the eight record fields, and assembles whole batches while
//! silently dropping lines that do not carry a full record.

use vstd::prelude::*;

use crate::entry::CommitEntry;
use crate::entry::CommitEntryView;
use crate::text::graph_len;
use crate::text::is_glyph;
use crate::text::lemma_graph_len_at;
use crate::text::split_at_char;
use crate::text::split_str;

verus! {

/// Delimiter between record fields: a non-printable character that the
/// external tool guarantees never occurs inside a field value.
pub const SEPARATOR: char = '\x1f';

/// The graph-drawing prefix of a line: its longest leading run of glyphs.
pub open spec fn graph_of(l: Seq<char>) -> Seq<char> {
    l.subrange(0, graph_len(l))
}

/// The data segment of a line: everything after the graph-drawing prefix.
pub open spec fn data_of(l: Seq<char>) -> Seq<char> {
    l.subrange(graph_len(l), l.len() as int)
}

/// A line stripped of one trailing carriage return, if it has one.
pub open spec fn strip_cr(l: Seq<char>) -> Seq<char> {
    if l.len() > 0 && l.last() == '\r' {
        l.drop_last()
    } else {
        l
    }
}

/// The lines of a text: pieces between newline characters, a final line
/// ending being optional, each line stripped of one trailing carriage
/// return.
pub open spec fn lines_of(s: Seq<char>) -> Seq<Seq<char>> {
    let raw = split_at_char(s, '\n');
    let kept = if raw.len() > 0 && raw.last().len() == 0 {
        raw.drop_last()
    } else {
        raw
    };
    kept.map_values(|l: Seq<char>| strip_cr(l))
}

/// The parent list encoded in the seventh field: the space-separated
/// identifiers, in order, empty pieces dropped.
pub open spec fn parents_of(f: Seq<char>) -> Seq<Seq<char>> {
    split_at_char(f, ' ').filter(|t: Seq<char>| t.len() > 0)
}

/// The record a single line yields: `None` when the line is all glyphs or
/// its data segment has fewer than eight delimited fields, otherwise the
/// record assembled from the fields, the decoded parent list, and the
/// graph-drawing prefix.
pub open spec fn parse_line_spec(l: Seq<char>) -> Option<CommitEntryView> {
    let data = data_of(l);
    if data.len() == 0 {
        None
    } else {
        let fields = split_at_char(data, SEPARATOR);
        if fields.len() < 8 {
            None
        } else {
            Some(
                CommitEntryView {
                    hash: fields[0],
                    short_hash: fields[1],
                    message: fields[2],
                    author: fields[3],
                    date: fields[4],
                    date_iso: fields[5],
                    parents: parents_of(fields[6]),
                    refs: fields[7],
                    graph: graph_of(l),
                },
            )
        }
    }
}

/// The records of a sequence of lines, in line order, lines that yield no
/// record omitted.
pub open spec fn parse_lines_spec(ls: Seq<Seq<char>>) -> Seq<CommitEntryView>
    decreases ls.len(),
{
    if ls.len() == 0 {
        Seq::<CommitEntryView>::empty()
    } else {
        let init = parse_lines_spec(ls.drop_last());
        match parse_line_spec(ls.last()) {
            Some(e) => init.push(e),
            None => init,
        }
    }
}

/// All records parsed from one captured output text.
pub open spec fn parse_log_spec(out: Seq<char>) -> Seq<CommitEntryView> {
    parse_lines_spec(lines_of(out))
}

/// Whether `c` belongs to the graph glyph set.
fn glyph_char(c: char) -> (b: bool)
    ensures
        b == is_glyph(c),
{
    c == '*' || c == '|' || c == '/' || c == '\\' || c == ' ' || c == '_'
}

/// Splits a line into its graph-drawing prefix and its data segment;
/// rejoining the two parts gives back the line.
pub fn split_graph_and_data(line: &str) -> (r: (&str, &str))
    ensures
        r.0@ == graph_of(line@),
        r.1@ == data_of(line@),
        r.0@ + r.1@ == line@,
{
    proof {
        crate::laws::lemma_split_rejoin(line@);
    }
    let n = line.unicode_len();
    let mut i: usize = 0;
    while i < n && glyph_char(line.get_char(i))
        invariant
            i <= n == line@.len(),
            forall|j: int| 0 <= j < i ==> is_glyph(line@[j]),
        decreases n - i,
    {
        i += 1;
    }
    proof {
        lemma_graph_len_at(line@, i as int);
    }
    (line.substring_char(0, i), line.substring_char(i, n))
}

/// Decodes the parent field: the space-separated pieces, empties dropped.
fn split_parents(f: &str) -> (ps: Vec<String>)
    ensures
        ps.deep_view() == parents_of(f@),
{
    let raw = split_str(f, ' ');
    let mut ps: Vec<String> = Vec::new();
    let mut i: usize = 0;
    proof {
        assert(raw.deep_view().take(0) =~= Seq::<Seq<char>>::empty());
        reveal_with_fuel(Seq::filter, 1);
    }
    while i < raw.len()
        invariant
            i <= raw.len(),
            raw.deep_view() == split_at_char(f@, ' '),
            raw.deep_view().len() == raw.len(),
            ps.deep_view() == raw.deep_view().take(i as int).filter(
                (|t: Seq<char>| t.len() > 0),
            ),
        decreases raw.len() - i,
    {
        let ghost pred = (|t: Seq<char>| t.len() > 0);
        proof {
            assert(raw.deep_view().take(i + 1).drop_last() =~= raw.deep_view().take(i as int));
            assert(raw.deep_view().take(i + 1).last() == raw.deep_view()[i as int]);
            reveal_with_fuel(Seq::filter, 2);
        }
        if !raw[i].as_str().is_empty() {
            ps.push(raw[i].clone());
            proof {
                assert(ps.deep_view() =~= raw.deep_view().take(i + 1).filter(pred));
            }
        } else {
            proof {
                assert(raw.deep_view().take(i + 1).filter(pred) =~= raw.deep_view().take(
                    i as int,
                ).filter(pred));
            }
        }
        i += 1;
    }
    proof {
        assert(raw.deep_view().take(raw.deep_view().len() as int) =~= raw.deep_view());
    }
    ps
}

/// The lines of a captured output text, as owned strings.
fn lines_vec(s: &str) -> (ls: Vec<String>)
    ensures
        ls.deep_view() == lines_of(s@),
{
    let mut raw = split_str(s, '\n');
    proof {
        crate::text::lemma_split_at_char_len(s@, '\n');
    }
    if raw[raw.len() - 1].as_str().is_empty() {
        let ghost before = raw.deep_view();
        raw.pop();
        proof {
            assert(raw.deep_view() =~= before.drop_last());
        }
    }
    let ghost kept = raw.deep_view();
    let mut ls: Vec<String> = Vec::new();
    let mut i: usize = 0;
    proof {
        assert(ls.deep_view() =~= kept.take(0).map_values(|l: Seq<char>| strip_cr(l)));
    }
    while i < raw.len()
        invariant
            i <= raw.len(),
            raw.deep_view() == kept,
            kept.len() == raw.len(),
            ls.deep_view() == kept.take(i as int).map_values(|l: Seq<char>| strip_cr(l)),
        decreases raw.len() - i,
    {
        let line = &raw[i];
        let m = line.as_str().unicode_len();
        let ghost old_dv = ls.deep_view();
        if m > 0 && line.as_str().get_char(m - 1) == '\r' {
            ls.push(line.as_str().substring_char(0, m - 1).to_owned());
            proof {
                assert(strip_cr(kept[i as int]) =~= kept[i as int].subrange(0, m - 1));
            }
        } else {
            ls.push(line.clone());
            proof {
                assert(strip_cr(kept[i as int]) =~= kept[i as int]);
            }
        }
        proof {
            assert(ls.deep_view() =~= old_dv.push(strip_cr(kept[i as int])));
            assert(ls.deep_view() =~= kept.take(i + 1).map_values(|l: Seq<char>| strip_cr(l)));
        }
        i += 1;
    }
    proof {
        assert(kept.take(kept.len() as int) =~= kept);
    }
    ls
}

/// Parses one line into a record, or nothing when the line is all glyphs
/// or short of fields.
fn parse_line(line: &str) -> (r: Option<CommitEntry>)
    ensures
        r.deep_view() == parse_line_spec(line@),
{
    let (graph, data) = split_graph_and_data(line);
    if data.is_empty() {
        return None;
    }
    let fields = split_str(data, SEPARATOR);
    if fields.len() < 8 {
        return None;
    }
    let parents = split_parents(fields[6].as_str());
    let e = CommitEntry {
        hash: fields[0].clone(),
        short_hash: fields[1].clone(),
        message: fields[2].clone(),
        author: fields[3].clone(),
        date: fields[4].clone(),
        date_iso: fields[5].clone(),
        parents,
        refs: fields[7].clone(),
        graph: graph.to_owned(),
    };
    Some(e)
}

/// Parses a whole captured output text into the ordered sequence of records
/// its lines yield; malformed lines are dropped, never reported.
pub fn parse_log_output(output: &str) -> (entries: Vec<CommitEntry>)
    ensures
        entries.deep_view() == parse_log_spec(output@),
{
    let lines = lines_vec(output);
    let mut entries: Vec<CommitEntry> = Vec::new();
    let mut i: usize = 0;
    proof {
        assert(entries.deep_view() =~= parse_lines_spec(lines.deep_view().take(0)));
    }
    while i < lines.len()
        invariant
            i <= lines.len(),
            lines.deep_view() == lines_of(output@),
            lines.deep_view().len() == lines.len(),
            entries.deep_view() == parse_lines_spec(lines.deep_view().take(i as int)),
        decreases lines.len() - i,
    {
        proof {
            assert(lines.deep_view().take(i + 1).drop_last() =~= lines.deep_view().take(i as int));
            assert(lines.deep_view().take(i + 1).last() == lines.deep_view()[i as int]);
        }
        match parse_line(lines[i].as_str()) {
            Some(e) => {
                entries.push(e);
                proof {
                    assert(entries.deep_view() =~= parse_lines_spec(
                        lines.deep_view().take(i + 1),
                    ));
                }
            },
            None => {
                proof {
                    assert(entries.deep_view() =~= parse_lines_spec(
                        lines.deep_view().take(i + 1),
                    ));
                }
            },
        }
        i += 1;
    }
    proof {
        assert(lines.deep_view().take(lines.deep_view().len() as int) =~= lines.deep_view());
    }
    entries
}

} // verus!
