//! Searching for the first occurrence of an element in a sequence, with an
//! executable counterpart for searching characters in string slices.

use vstd::prelude::*;

verus! {

/// Least index `i >= from` with `s[i] == x`, or `-1` when no such index exists
/// (also when `from` is out of range).
pub open spec fn find_from<T>(s: Seq<T>, x: T, from: int) -> int
    decreases s.len() - from,
{
    if from < 0 || from >= s.len() {
        -1
    } else if s[from] == x {
        from
    } else {
        find_from(s, x, from + 1)
    }
}

/// When `x` occurs nowhere at or after `from`, the search reports `-1`.
pub proof fn lemma_find_from_none<T>(s: Seq<T>, x: T, from: int)
    requires
        forall|j: int| from <= j < s.len() ==> s[j] != x,
    ensures
        find_from(s, x, from) == -1,
    decreases s.len() - from,
{
    if 0 <= from < s.len() {
        lemma_find_from_none(s, x, from + 1);
    }
}

/// When `x` first occurs at index `i` among the indices at or after `from`,
/// the search reports exactly `i`.
pub proof fn lemma_find_from_found<T>(s: Seq<T>, x: T, from: int, i: int)
    requires
        0 <= from <= i < s.len(),
        s[i] == x,
        forall|j: int| from <= j < i ==> s[j] != x,
    ensures
        find_from(s, x, from) == i,
    decreases i - from,
{
    if from < i {
        lemma_find_from_found(s, x, from + 1, i);
    }
}

/// What a non-negative search result means: it is an occurrence of `x`, and
/// the first one at or after `from`.
pub proof fn lemma_find_from_props<T>(s: Seq<T>, x: T, from: int)
    requires
        0 <= from,
    ensures
        ({
            let r = find_from(s, x, from);
            &&& r == -1 ==> forall|j: int| from <= j < s.len() ==> s[j] != x
            &&& r != -1 ==> from <= r < s.len() && s[r] == x && (forall|j: int|
                from <= j < r ==> s[j] != x)
        }),
    decreases s.len() - from,
{
    if from < s.len() && s[from] != x {
        lemma_find_from_props(s, x, from + 1);
    }
}

/// Finds the first occurrence of the character `x` in `s` at or after the
/// character index `from`.
pub fn find_char_from(s: &str, x: char, from: usize) -> (r: Option<usize>)
    requires
        from <= s@.len(),
    ensures
        s@.len() <= usize::MAX,
        match r {
            Some(i) => from <= i < s@.len() && find_from(s@, x, from as int) == i as int,
            None => find_from(s@, x, from as int) == -1,
        },
{
    let n = s.unicode_len();
    let mut i = from;
    while i < n
        invariant
            from <= i <= n,
            n == s@.len(),
            forall|j: int| from <= j < i ==> s@[j] != x,
        decreases n - i,
    {
        if s.get_char(i) == x {
            proof {
                lemma_find_from_found(s@, x, from as int, i as int);
            }
            return Some(i);
        }
        i = i + 1;
    }
    proof {
        lemma_find_from_none(s@, x, from as int);
    }
    None
}

/// Finds the first occurrence of the byte `x` in `v` at or after `from`.
pub fn find_byte_from(v: &Vec<u8>, x: u8, from: usize) -> (r: Option<usize>)
    requires
        from <= v@.len(),
    ensures
        match r {
            Some(i) => from <= i < v@.len() && find_from(v@, x, from as int) == i as int,
            None => find_from(v@, x, from as int) == -1,
        },
{
    let n = v.len();
    let mut i = from;
    while i < n
        invariant
            from <= i <= n,
            n == v@.len(),
            forall|j: int| from <= j < i ==> v@[j] != x,
        decreases n - i,
    {
        if v[i] == x {
            proof {
                lemma_find_from_found(v@, x, from as int, i as int);
            }
            return Some(i);
        }
        i = i + 1;
    }
    proof {
        lemma_find_from_none(v@, x, from as int);
    }
    None
}

} // verus!
