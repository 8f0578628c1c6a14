//! Small verified string utilities: appending a character, equality,
//! prefix tests and first-occurrence substring search.

use vstd::prelude::*;

verus! {

/// Relies on String::push: appends exactly the given character to the end.
#[verifier::external_body]
pub fn push_char(s: &mut String, c: char)
    ensures
        final(s)@ == old(s)@.push(c),
{
    s.push(c);
}

/// True when `pat` occurs in `s` starting at index `i`.
pub open spec fn occurs_at(s: Seq<char>, pat: Seq<char>, i: int) -> bool {
    &&& 0 <= i
    &&& i + pat.len() <= s.len()
    &&& s.subrange(i, i + pat.len()) == pat
}

/// Index of the first occurrence of `pat` in `s`, if any.
pub open spec fn first_occur(s: Seq<char>, pat: Seq<char>) -> Option<int>
    decreases s.len(),
{
    if pat.len() > s.len() {
        None
    } else if occurs_at(s, pat, 0) {
        Some(0int)
    } else if s.len() == 0 {
        None
    } else {
        match first_occur(s.drop_first(), pat) {
            Some(i) => Some(i + 1),
            None => None,
        }
    }
}

/// `pat` occurs somewhere in `s`.
pub open spec fn contains_sub(s: Seq<char>, pat: Seq<char>) -> bool {
    first_occur(s, pat) is Some
}

proof fn lemma_occurs_shift(s: Seq<char>, pat: Seq<char>, j: int)
    requires
        s.len() > 0,
        0 <= j,
    ensures
        occurs_at(s.drop_first(), pat, j) <==> occurs_at(s, pat, j + 1),
{
    if j + pat.len() <= s.drop_first().len() {
        assert(s.drop_first().subrange(j, j + pat.len()) =~= s.subrange(
            j + 1,
            j + 1 + pat.len(),
        ));
        assert(occurs_at(s.drop_first(), pat, j) <==> occurs_at(s, pat, j + 1));
    } else {
        assert(!occurs_at(s.drop_first(), pat, j));
        assert(s.drop_first().len() == s.len() - 1);
        assert(!occurs_at(s, pat, j + 1));
    }
}

/// `first_occur` returns the least index at which `pat` occurs, and `None`
/// exactly when `pat` occurs nowhere.
pub proof fn lemma_first_occur(s: Seq<char>, pat: Seq<char>)
    ensures
        match first_occur(s, pat) {
            Some(i) => occurs_at(s, pat, i) && forall|j: int|
                0 <= j < i ==> !occurs_at(s, pat, j),
            None => forall|j: int| !occurs_at(s, pat, j),
        },
    decreases s.len(),
{
    if pat.len() > s.len() {
        assert forall|j: int| !occurs_at(s, pat, j) by {}
    } else if occurs_at(s, pat, 0) {
    } else if s.len() == 0 {
        assert forall|j: int| !occurs_at(s, pat, j) by {}
    } else {
        lemma_first_occur(s.drop_first(), pat);
        match first_occur(s.drop_first(), pat) {
            Some(i) => {
                assert(occurs_at(s.drop_first(), pat, i));
                lemma_occurs_shift(s, pat, i);
                assert(occurs_at(s, pat, i + 1));
                assert forall|j: int| 0 <= j < i + 1 implies !occurs_at(s, pat, j) by {
                    if j > 0 {
                        assert(!occurs_at(s.drop_first(), pat, j - 1));
                        lemma_occurs_shift(s, pat, j - 1);
                    }
                }
            },
            None => {
                assert forall|j: int| !occurs_at(s, pat, j) by {
                    if j > 0 {
                        assert(!occurs_at(s.drop_first(), pat, j - 1));
                        lemma_occurs_shift(s, pat, j - 1);
                    }
                }
            },
        }
    }
}

/// Character-for-character string equality.
pub fn str_eq(a: &str, b: &str) -> (r: bool)
    ensures
        r == (a@ == b@),
{
    let n = a.unicode_len();
    let m = b.unicode_len();
    if n != m {
        proof {
            assert(a@ != b@) by {
                assert(a@.len() != b@.len());
            }
        }
        return false;
    }
    let mut i: usize = 0;
    while i < n
        invariant
            n == a@.len(),
            n == b@.len(),
            i <= n,
            forall|k: int| 0 <= k < i ==> a@[k] == b@[k],
        decreases n - i,
    {
        if a.get_char(i) != b.get_char(i) {
            return false;
        }
        i += 1;
    }
    proof {
        assert(a@ =~= b@);
    }
    true
}

/// Whether `s` starts with `pat`.
pub fn has_prefix(s: &str, pat: &str) -> (r: bool)
    ensures
        r == occurs_at(s@, pat@, 0),
{
    let n = s.unicode_len();
    let m = pat.unicode_len();
    if m > n {
        return false;
    }
    let mut i: usize = 0;
    while i < m
        invariant
            n == s@.len(),
            m == pat@.len(),
            m <= n,
            i <= m,
            forall|k: int| 0 <= k < i ==> s@[k] == pat@[k],
        decreases m - i,
    {
        if s.get_char(i) != pat.get_char(i) {
            proof {
                assert(s@.subrange(0, pat@.len() as int)[i as int] != pat@[i as int]);
            }
            return false;
        }
        i += 1;
    }
    proof {
        assert(s@.subrange(0, pat@.len() as int) =~= pat@);
    }
    true
}

/// Index of the first occurrence of `pat` in `s`, as executable code.
pub fn find_sub(s: &str, pat: &str) -> (r: Option<usize>)
    ensures
        match r {
            Some(i) => first_occur(s@, pat@) == Some(i as int),
            None => first_occur(s@, pat@) is None,
        },
{
    let n = s.unicode_len();
    let m = pat.unicode_len();
    if m > n {
        proof {
            lemma_first_occur(s@, pat@);
        }
        return None;
    }
    if m == 0 {
        proof {
            assert(s@.subrange(0, 0) =~= pat@);
            lemma_first_occur(s@, pat@);
        }
        return Some(0);
    }
    let mut i: usize = 0;
    while i <= n - m
        invariant
            n == s@.len(),
            m == pat@.len(),
            0 < m <= n,
            i <= n - m + 1,
            forall|j: int| 0 <= j < i ==> !occurs_at(s@, pat@, j),
        decreases n - m + 1 - i,
    {
        let mut j: usize = 0;
        let mut matched = true;
        while j < m
            invariant
                n == s@.len(),
                m == pat@.len(),
                m <= n,
                i + m <= n,
                j <= m,
                matched ==> forall|k: int| 0 <= k < j ==> s@[i + k] == pat@[k],
                !matched ==> !occurs_at(s@, pat@, i as int),
            decreases m - j,
        {
            if s.get_char(i + j) != pat.get_char(j) {
                proof {
                    assert(s@.subrange(i as int, i + pat@.len())[j as int] != pat@[j as int]);
                }
                matched = false;
                j = m;
            } else {
                j += 1;
            }
        }
        if matched {
            proof {
                assert(s@.subrange(i as int, i + pat@.len()) =~= pat@);
                assert(occurs_at(s@, pat@, i as int));
                lemma_first_occur(s@, pat@);
                match first_occur(s@, pat@) {
                    Some(f) => {
                        assert(!(f < i)) by {
                            assert(occurs_at(s@, pat@, f));
                        }
                        assert(!(i < f)) by {
                            assert(occurs_at(s@, pat@, i as int));
                        }
                    },
                    None => {
                        assert(occurs_at(s@, pat@, i as int));
                    },
                }
            }
            return Some(i);
        }
        i += 1;
    }
    proof {
        lemma_first_occur(s@, pat@);
        assert forall|j: int| !occurs_at(s@, pat@, j) by {
            if 0 <= j && j + pat@.len() <= s@.len() {
                assert(j < i);
            }
        }
    }
    None
}

/// `contains_sub`, as executable code.
pub fn contains(s: &str, pat: &str) -> (r: bool)
    ensures
        r == contains_sub(s@, pat@),
{
    match find_sub(s, pat) {
        Some(_) => true,
        None => false,
    }
}

} // verus!
