//! String logic shared by the indexing and query sides: equality, final
//! path components, extension splitting, and substring occurrence counting.

use vstd::prelude::*;
use vstd::string::StrSliceExecFns;

verus! {

/// Index of the last occurrence of `c` in `s`, if any.
pub open spec fn spec_last_index_of(s: Seq<char>, c: char) -> Option<int>
    decreases s.len(),
{
    if s.len() <= 0 {
        None::<int>
    } else if s[s.len() - 1] == c {
        Some(s.len() - 1)
    } else {
        spec_last_index_of(s.drop_last(), c)
    }
}

/// `spec_last_index_of` points at an occurrence of `c` with none after it;
/// `None` means `c` does not occur at all.
pub proof fn lemma_last_index_of(s: Seq<char>, c: char)
    ensures
        match spec_last_index_of(s, c) {
            Some(i) => 0 <= i < s.len() && s[i] == c && (forall|j: int|
                i < j < s.len() ==> s[j] != c),
            None => forall|j: int| 0 <= j < s.len() ==> s[j] != c,
        },
    decreases s.len(),
{
    if s.len() > 0 && s[s.len() - 1] != c {
        lemma_last_index_of(s.drop_last(), c);
        assert forall|j: int| 0 <= j < s.len() - 1 implies s.drop_last()[j] == s[j] by {}
    }
}

/// Index of the last occurrence of `c` in `s`, if any.
pub fn last_index_of(s: &str, c: char) -> (r: Option<usize>)
    ensures
        match r {
            Some(i) => {
                &&& spec_last_index_of(s@, c) == Some(i as int)
                &&& (i as nat) < s@.len()
                &&& s@[i as int] == c
                &&& forall|j: int| i < j < s@.len() ==> s@[j] != c
            },
            None => {
                &&& spec_last_index_of(s@, c).is_none()
                &&& forall|j: int| 0 <= j < s@.len() ==> s@[j] != c
            },
        },
{
    let len = s.unicode_len();
    let mut i: usize = len;
    proof {
        assert(s@.subrange(0, len as int) =~= s@);
    }
    while i > 0
        invariant
            i <= len,
            len == s@.len(),
            spec_last_index_of(s@, c) == spec_last_index_of(s@.subrange(0, i as int), c),
        decreases i,
    {
        i = i - 1;
        let ch = s.get_char(i);
        proof {
            assert(s@.subrange(0, i + 1)[i as int] == s@[i as int]);
        }
        if ch == c {
            proof {
                lemma_last_index_of(s@, c);
            }
            return Some(i);
        }
        proof {
            assert(s@.subrange(0, i + 1).drop_last() =~= s@.subrange(0, i as int));
        }
    }
    proof {
        assert(s@.subrange(0, 0).len() == 0);
        lemma_last_index_of(s@, c);
    }
    None
}

/// The extension of a file name: what follows the last `'.'`.
/// A name without a dot has no extension.
pub open spec fn spec_extension(s: Seq<char>) -> Option<Seq<char>> {
    match spec_last_index_of(s, '.') {
        Some(i) => Some(s.subrange(i + 1, s.len() as int)),
        None => None,
    }
}

/// The extension of a file name: what follows the last `'.'`.
pub fn extension_of(s: &str) -> (r: Option<&str>)
    ensures
        match r {
            Some(e) => spec_extension(s@) == Some(e@),
            None => spec_extension(s@).is_none(),
        },
{
    let len = s.unicode_len();
    match last_index_of(s, '.') {
        Some(i) => Some(s.substring_char(i + 1, len)),
        None => None,
    }
}

/// The final component of a path: what follows the last `'/'`, or the whole
/// string when it has no separator.
pub open spec fn spec_file_name(s: Seq<char>) -> Seq<char> {
    match spec_last_index_of(s, '/') {
        Some(i) => s.subrange(i + 1, s.len() as int),
        None => s,
    }
}

/// The final component of a path.
pub fn file_name_of(s: &str) -> (r: &str)
    ensures
        r@ == spec_file_name(s@),
{
    let len = s.unicode_len();
    match last_index_of(s, '/') {
        Some(i) => s.substring_char(i + 1, len),
        None => s,
    }
}

/// Character-for-character string equality.
pub fn str_eq(a: &str, b: &str) -> (r: bool)
    ensures
        r == (a@ == b@),
{
    let a_len = a.unicode_len();
    let b_len = b.unicode_len();
    if a_len != b_len {
        return false;
    }
    let mut i: usize = 0;
    while i < a_len
        invariant
            i <= a_len,
            a_len == a@.len(),
            a_len == b@.len(),
            forall|j: int| 0 <= j < i ==> a@[j] == b@[j],
        decreases a_len - i,
    {
        if a.get_char(i) != b.get_char(i) {
            return false;
        }
        i = i + 1;
    }
    proof {
        assert(a@ =~= b@);
    }
    true
}

/// The query `q` occurs in `body` starting at character position `i`.
pub open spec fn match_at(body: Seq<char>, q: Seq<char>, i: int) -> bool {
    &&& 0 <= i
    &&& i + q.len() <= body.len()
    &&& body.subrange(i, i + q.len() as int) == q
}

/// Number of positions `i < upto` at which `q` occurs in `body`.
pub open spec fn spec_occurrences(body: Seq<char>, q: Seq<char>, upto: int) -> nat
    decreases upto,
{
    if upto <= 0 {
        0
    } else {
        spec_occurrences(body, q, upto - 1) + (if match_at(body, q, upto - 1) {
            1nat
        } else {
            0nat
        })
    }
}

/// Number of positions at which `q` occurs in `body`.
pub open spec fn occurrence_total(body: Seq<char>, q: Seq<char>) -> nat {
    spec_occurrences(body, q, body.len() - q.len() + 1)
}

/// The query occurs somewhere in the body.
pub open spec fn contains_query(body: Seq<char>, q: Seq<char>) -> bool {
    exists|i: int| match_at(body, q, i)
}

/// The occurrence count up to `upto` is positive exactly when `q` occurs at
/// some position below `upto`.
pub proof fn lemma_occurrences_positive(body: Seq<char>, q: Seq<char>, upto: int)
    ensures
        spec_occurrences(body, q, upto) > 0 <==> exists|i: int| i < upto && match_at(body, q, i),
    decreases upto,
{
    if upto > 0 {
        lemma_occurrences_positive(body, q, upto - 1);
        if match_at(body, q, upto - 1) {
            assert(upto - 1 < upto && match_at(body, q, upto - 1));
        } else {
            if exists|i: int| i < upto && match_at(body, q, i) {
                let i = choose|i: int| i < upto && match_at(body, q, i);
                assert(i < upto - 1 && match_at(body, q, i));
            }
        }
    }
}

/// The total occurrence count is positive exactly when `q` occurs in `body`.
pub proof fn lemma_occurrence_total_positive(body: Seq<char>, q: Seq<char>)
    ensures
        occurrence_total(body, q) > 0 <==> contains_query(body, q),
{
    lemma_occurrences_positive(body, q, body.len() - q.len() + 1);
    if contains_query(body, q) {
        let i = choose|i: int| match_at(body, q, i);
        assert(i < body.len() - q.len() + 1 && match_at(body, q, i));
    }
}

/// Whether `q` occurs anywhere in `body`.
pub fn contains_match(body: &str, q: &str) -> (r: bool)
    requires
        q@.len() >= 1,
    ensures
        r == contains_query(body@, q@),
{
    let n = occurrence_count(body, q);
    proof {
        lemma_occurrence_total_positive(body@, q@);
    }
    n > 0
}

/// Whether `q` occurs in `body` starting at character position `i`.
fn check_match_at(body: &str, q: &str, i: usize, q_len: usize) -> (r: bool)
    requires
        q_len == q@.len(),
        i + q_len <= body@.len(),
        body@.len() <= usize::MAX,
    ensures
        r == match_at(body@, q@, i as int),
{
    let mut j: usize = 0;
    while j < q_len
        invariant
            q_len == q@.len(),
            i + q_len <= body@.len(),
            body@.len() <= usize::MAX,
            j <= q_len,
            forall|k: int| 0 <= k < j ==> body@[i + k] == q@[k],
        decreases q_len - j,
    {
        if body.get_char(i + j) != q.get_char(j) {
            proof {
                assert(body@.subrange(i as int, i + q_len)[j as int] == body@[i + j]);
            }
            return false;
        }
        j = j + 1;
    }
    proof {
        assert(body@.subrange(i as int, i + q_len) =~= q@);
    }
    true
}

/// Counts the positions at which `q` occurs in `body`.
pub fn occurrence_count(body: &str, q: &str) -> (n: usize)
    requires
        q@.len() >= 1,
    ensures
        n == occurrence_total(body@, q@),
{
    let body_len = body.unicode_len();
    let q_len = q.unicode_len();
    if q_len > body_len {
        return 0;
    }
    let last = body_len - q_len;
    let mut n: usize = 0;
    let mut i: usize = 0;
    while i <= last
        invariant
            q_len == q@.len(),
            body_len == body@.len(),
            1 <= q_len <= body_len,
            last == body_len - q_len,
            i <= last + 1,
            n <= i,
            n == spec_occurrences(body@, q@, i as int),
        decreases last + 1 - i,
    {
        if check_match_at(body, q, i, q_len) {
            n = n + 1;
        }
        i = i + 1;
    }
    n
}

} // verus!
