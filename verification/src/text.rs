//! Character-level text utilities shared by the parser: the glyph set of
//! the topology drawing, splitting on a delimiter character, and trimming
//! of surrounding whitespace.

use vstd::prelude::*;

verus! {

/// Characters that may form the graph-drawing prefix of a log line.
pub open spec fn is_glyph(c: char) -> bool {
    c == '*' || c == '|' || c == '/' || c == '\\' || c == ' ' || c == '_'
}

/// Whitespace characters recognised when trimming tool output.
pub open spec fn is_space(c: char) -> bool {
    c == ' ' || c == '\t' || c == '\n' || c == '\r'
}

/// Length of the longest prefix of `s` made of graph glyphs.
pub open spec fn graph_len(s: Seq<char>) -> int
    decreases s.len(),
{
    if s.len() == 0 {
        0
    } else if !is_glyph(s[0]) {
        0
    } else {
        1 + graph_len(s.drop_first())
    }
}

pub proof fn lemma_graph_len_bounds(s: Seq<char>)
    ensures
        0 <= graph_len(s) <= s.len(),
    decreases s.len(),
{
    if s.len() != 0 && is_glyph(s[0]) {
        lemma_graph_len_bounds(s.drop_first());
    }
}

/// A position `i` whose prefix is all glyphs and which is either the end of
/// the line or a non-glyph character is exactly the glyph-prefix length.
pub proof fn lemma_graph_len_at(s: Seq<char>, i: int)
    requires
        0 <= i <= s.len(),
        forall|j: int| 0 <= j < i ==> is_glyph(s[j]),
        i == s.len() || !is_glyph(s[i]),
    ensures
        graph_len(s) == i,
    decreases i,
{
    if i == 0 {
        if s.len() != 0 {
            assert(!is_glyph(s[0]));
        }
    } else {
        assert(is_glyph(s[0]));
        let t = s.drop_first();
        assert(forall|j: int| 0 <= j < i - 1 ==> t[j] == s[j + 1] && is_glyph(s[j + 1]));
        if i < s.len() {
            assert(t[i - 1] == s[i]);
        }
        lemma_graph_len_at(t, i - 1);
    }
}

/// Length of the longest prefix of `s` made of whitespace.
pub open spec fn ws_prefix_len(s: Seq<char>) -> int
    decreases s.len(),
{
    if s.len() == 0 {
        0
    } else if !is_space(s[0]) {
        0
    } else {
        1 + ws_prefix_len(s.drop_first())
    }
}

/// Length of the longest suffix of `s` made of whitespace.
pub open spec fn ws_suffix_len(s: Seq<char>) -> int
    decreases s.len(),
{
    if s.len() == 0 {
        0
    } else if !is_space(s.last()) {
        0
    } else {
        1 + ws_suffix_len(s.drop_last())
    }
}

/// `s` with its leading and trailing whitespace removed.
pub open spec fn trim_of(s: Seq<char>) -> Seq<char> {
    let t = s.subrange(ws_prefix_len(s), s.len() as int);
    t.subrange(0, t.len() - ws_suffix_len(t))
}

pub proof fn lemma_ws_prefix_at(s: Seq<char>, i: int)
    requires
        0 <= i <= s.len(),
        forall|j: int| 0 <= j < i ==> is_space(s[j]),
        i == s.len() || !is_space(s[i]),
    ensures
        ws_prefix_len(s) == i,
    decreases i,
{
    if i == 0 {
        if s.len() != 0 {
            assert(!is_space(s[0]));
        }
    } else {
        assert(is_space(s[0]));
        let t = s.drop_first();
        assert(forall|j: int| 0 <= j < i - 1 ==> t[j] == s[j + 1] && is_space(s[j + 1]));
        if i < s.len() {
            assert(t[i - 1] == s[i]);
        }
        lemma_ws_prefix_at(t, i - 1);
    }
}

pub proof fn lemma_ws_suffix_at(s: Seq<char>, k: int)
    requires
        0 <= k <= s.len(),
        forall|j: int| k <= j < s.len() ==> is_space(s[j]),
        k == 0 || !is_space(s[k - 1]),
    ensures
        ws_suffix_len(s) == s.len() - k,
    decreases s.len(),
{
    if k == s.len() {
        if s.len() != 0 {
            assert(!is_space(s.last()));
        }
    } else {
        assert(is_space(s.last()));
        let t = s.drop_last();
        assert(forall|j: int| k <= j < t.len() ==> t[j] == s[j] && is_space(s[j]));
        lemma_ws_suffix_at(t, k);
    }
}

/// Whether `c` is whitespace.
fn space_char(c: char) -> (b: bool)
    ensures
        b == is_space(c),
{
    c == ' ' || c == '\t' || c == '\n' || c == '\r'
}

/// Removes leading and trailing whitespace.
pub fn trim_str(s: &str) -> (r: &str)
    ensures
        r@ == trim_of(s@),
{
    let n = s.unicode_len();
    let mut a: usize = 0;
    while a < n && space_char(s.get_char(a))
        invariant
            a <= n == s@.len(),
            forall|j: int| 0 <= j < a ==> is_space(s@[j]),
        decreases n - a,
    {
        a += 1;
    }
    proof {
        lemma_ws_prefix_at(s@, a as int);
    }
    let mut b: usize = n;
    while b > a && space_char(s.get_char(b - 1))
        invariant
            a <= b <= n == s@.len(),
            forall|j: int| b <= j < n ==> is_space(s@[j]),
        decreases b,
    {
        b -= 1;
    }
    proof {
        let t = s@.subrange(a as int, n as int);
        assert(forall|j: int| b - a <= j < t.len() ==> t[j] == s@[j + a] && is_space(s@[j + a]));
        if b > a {
            assert(t[b - a - 1] == s@[b - 1]);
        }
        lemma_ws_suffix_at(t, b - a);
        assert(trim_of(s@) =~= s@.subrange(a as int, b as int));
    }
    s.substring_char(a, b)
}

/// All pieces of `s` between occurrences of `sep`, in order; occurrences of
/// `sep` are not part of any piece, and empty pieces are kept, so the result
/// always holds one more piece than `s` holds separators.
pub open spec fn split_at_char(s: Seq<char>, sep: char) -> Seq<Seq<char>>
    decreases s.len(),
{
    if s.len() == 0 {
        seq![Seq::<char>::empty()]
    } else {
        let rest = split_at_char(s.drop_last(), sep);
        if s.last() == sep {
            rest.push(Seq::<char>::empty())
        } else {
            rest.update(rest.len() - 1, rest.last().push(s.last()))
        }
    }
}

pub proof fn lemma_split_at_char_len(s: Seq<char>, sep: char)
    ensures
        split_at_char(s, sep).len() >= 1,
    decreases s.len(),
{
    if s.len() != 0 {
        lemma_split_at_char_len(s.drop_last(), sep);
    }
}

/// Splits `s` on every occurrence of `sep`, keeping empty pieces.
pub fn split_str(s: &str, sep: char) -> (parts: Vec<String>)
    ensures
        parts.deep_view() == split_at_char(s@, sep),
{
    let n = s.unicode_len();
    let mut parts: Vec<String> = Vec::new();
    let mut start: usize = 0;
    let mut i: usize = 0;
    proof {
        assert(s@.take(0) =~= Seq::<char>::empty());
        assert(s@.subrange(0, 0) =~= Seq::<char>::empty());
        assert(split_at_char(Seq::<char>::empty(), sep) =~= Seq::<Seq<char>>::empty().push(
            Seq::<char>::empty(),
        ));
    }
    while i < n
        invariant
            n == s@.len(),
            start <= i <= n,
            split_at_char(s@.take(i as int), sep) == parts.deep_view().push(
                s@.subrange(start as int, i as int),
            ),
        decreases n - i,
    {
        let c = s.get_char(i);
        proof {
            assert(s@.take(i + 1).drop_last() =~= s@.take(i as int));
            assert(s@.take(i + 1).last() == s@[i as int]);
        }
        if c == sep {
            let piece = s.substring_char(start, i).to_owned();
            let ghost old_parts = parts.deep_view();
            parts.push(piece);
            proof {
                assert(parts.deep_view() =~= old_parts.push(s@.subrange(start as int, i as int)));
                assert(split_at_char(s@.take(i + 1), sep) =~= parts.deep_view().push(
                    Seq::<char>::empty(),
                ));
                assert(s@.subrange(i + 1, i + 1) =~= Seq::<char>::empty());
            }
            start = i + 1;
        } else {
            proof {
                let prev = split_at_char(s@.take(i as int), sep);
                lemma_split_at_char_len(s@.take(i as int), sep);
                assert(prev.last() == s@.subrange(start as int, i as int));
                assert(prev.update(prev.len() - 1, prev.last().push(s@[i as int]))
                    =~= parts.deep_view().push(s@.subrange(start as int, i as int).push(
                    s@[i as int],
                )));
                assert(s@.subrange(start as int, i as int).push(s@[i as int]) =~= s@.subrange(
                    start as int,
                    i + 1,
                ));
            }
        }
        i += 1;
    }
    proof {
        assert(s@.take(n as int) =~= s@);
    }
    let last = s.substring_char(start, n).to_owned();
    let ghost old_parts = parts.deep_view();
    parts.push(last);
    proof {
        assert(parts.deep_view() =~= old_parts.push(s@.subrange(start as int, n as int)));
    }
    parts
}

} // verus!
