//! Case-insensitive message matching for the search query: letters of the
//! basic Latin range compare without regard to case, every other character
//! compares verbatim.

use vstd::prelude::*;

verus! {

/// `c` folded to lower case when it is an upper-case Latin letter.
pub open spec fn lower_char(c: char) -> char {
    if 65 <= c as u32 && c as u32 <= 90 {
        (((c as u32) + 32) as u8) as char
    } else {
        c
    }
}

/// Whether the characters of `q` occur in `m` starting at position `i`,
/// compared case-insensitively.
pub open spec fn match_at(m: Seq<char>, q: Seq<char>, i: int) -> bool {
    &&& 0 <= i
    &&& i + q.len() <= m.len()
    &&& forall|k: int| 0 <= k < q.len() ==> lower_char(m[i + k]) == lower_char(q[k])
}

/// Whether `m` contains `q` case-insensitively; an empty `q` is contained
/// in every text.
pub open spec fn contains_ci(m: Seq<char>, q: Seq<char>) -> bool {
    exists|i: int| match_at(m, q, i)
}

/// `c` folded to lower case.
fn lower_char_exec(c: char) -> (r: char)
    ensures
        r == lower_char(c),
{
    let u = c as u32;
    if 65 <= u && u <= 90 {
        ((u + 32) as u8) as char
    } else {
        c
    }
}

/// Whether `q` occurs in `m` at position `i`, case-insensitively.
fn match_at_str(m: &str, q: &str, i: usize) -> (r: bool)
    requires
        i + q@.len() <= m@.len(),
    ensures
        r == match_at(m@, q@, i as int),
{
    let ml = m.unicode_len();
    let ql = q.unicode_len();
    let mut k: usize = 0;
    while k < ql
        invariant
            ml == m@.len(),
            i + q@.len() <= m@.len(),
            ql == q@.len(),
            k <= ql,
            forall|t: int| 0 <= t < k ==> lower_char(m@[i + t]) == lower_char(q@[t]),
        decreases ql - k,
    {
        if lower_char_exec(m.get_char(i + k)) != lower_char_exec(q.get_char(k)) {
            proof {
                assert(lower_char(m@[i + k]) != lower_char(q@[k as int]));
            }
            return false;
        }
        k += 1;
    }
    true
}

/// Whether `m` contains `q` case-insensitively.
pub fn contains_ci_str(m: &str, q: &str) -> (r: bool)
    ensures
        r == contains_ci(m@, q@),
{
    let ml = m.unicode_len();
    let ql = q.unicode_len();
    if ql > ml {
        proof {
            assert(forall|i: int| !match_at(m@, q@, i));
        }
        return false;
    }
    let mut i: usize = 0;
    while i <= ml - ql
        invariant
            ql <= ml == m@.len(),
            ql == q@.len(),
            i <= ml - ql + 1,
            forall|j: int| 0 <= j < i ==> !match_at(m@, q@, j),
        decreases ml - ql + 1 - i,
    {
        if match_at_str(m, q, i) {
            proof {
                assert(contains_ci(m@, q@));
            }
            return true;
        }
        i += 1;
    }
    proof {
        assert(forall|j: int| 0 <= j <= ml - ql ==> !match_at(m@, q@, j));
        assert(forall|j: int| !match_at(m@, q@, j));
    }
    false
}

} // verus!
