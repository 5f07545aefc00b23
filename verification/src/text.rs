//! Small helpers on strings.

use crate::counting::{first_match, is_first, lemma_first_match_is, lemma_first_match_none};
use vstd::prelude::*;
use vstd::string::{StrSliceExecFns, StringExecFns};

verus! {

/// Whether two string slices hold the same characters.
pub fn same_text(a: &str, b: &str) -> (r: bool)
    ensures
        r == (a@ == b@),
{
    let x = String::from_str(a);
    let y = String::from_str(b);
    x == y
}

/// The concatenation `left + sep + right`.
pub fn join3(left: &str, sep: &str, right: &str) -> (r: String)
    ensures
        r@ == left@ + sep@ + right@,
{
    let mut out = String::from_str(left);
    out.append(sep);
    out.append(right);
    out
}

/// Whether `s` begins with `prefix`.
pub open spec fn starts_with_spec(s: Seq<char>, prefix: Seq<char>) -> bool {
    prefix.len() <= s.len() && s.subrange(0, prefix.len() as int) == prefix
}

/// Whether `s` begins with `prefix`.
pub fn starts_with(s: &str, prefix: &str) -> (r: bool)
    ensures
        r == starts_with_spec(s@, prefix@),
{
    let n: usize = prefix.unicode_len();
    if s.unicode_len() < n {
        return false;
    }
    same_text(s.substring_char(0, n), prefix)
}

/// The predicate of the character `c`.
pub open spec fn is_char(c: char) -> spec_fn(char) -> bool {
    |x: char| x == c
}

/// Whether `i` is the last place of `s` that holds `c`.
pub open spec fn is_last_char(s: Seq<char>, c: char, i: int) -> bool {
    &&& 0 <= i < s.len()
    &&& s[i] == c
    &&& forall|j: int| i < j < s.len() ==> s[j] != c
}

/// The first place of `s` that holds `c`, if there is one.
pub fn find_char(s: &str, c: char) -> (r: Option<usize>)
    ensures
        match r {
            Some(i) => first_match(s@, is_char(c)) == Some(i as int),
            None => first_match(s@, is_char(c)) is None,
        },
{
    let n: usize = s.unicode_len();
    let mut i: usize = 0;
    while i < n
        invariant
            i <= n,
            n == s@.len(),
            forall|j: int| 0 <= j < i ==> !is_char(c)(#[trigger] s@[j]),
        decreases n - i,
    {
        if s.get_char(i) == c {
            proof {
                assert(is_first(s@, is_char(c), i as int));
                lemma_first_match_is(s@, is_char(c), i as int);
            }
            return Some(i);
        }
        i = i + 1;
    }
    proof {
        lemma_first_match_none(s@, is_char(c));
    }
    None
}

/// The last place of `s` that holds `c`, if there is one.
pub fn rfind_char(s: &str, c: char) -> (r: Option<usize>)
    ensures
        match r {
            Some(i) => is_last_char(s@, c, i as int),
            None => !s@.contains(c),
        },
{
    let n: usize = s.unicode_len();
    let mut i: usize = n;
    while i > 0
        invariant
            i <= n,
            n == s@.len(),
            forall|j: int| i <= j < n ==> s@[j] != c,
        decreases i,
    {
        i = i - 1;
        if s.get_char(i) == c {
            return Some(i);
        }
    }
    None
}

/// The first two of the parts that the dots of `s` divide it into, where
/// it has a dot.
pub open spec fn first_two_parts(s: Seq<char>) -> Option<(Seq<char>, Seq<char>)> {
    match first_match(s, is_char('.')) {
        None => None,
        Some(i) => {
            let rest = s.subrange(i + 1, s.len() as int);
            match first_match(rest, is_char('.')) {
                Some(j) => Some((s.subrange(0, i), rest.subrange(0, j))),
                None => Some((s.subrange(0, i), rest)),
            }
        },
    }
}

/// The first two of the parts that the dots of `s` divide it into, where
/// it has a dot.
pub fn split_first_two(s: &str) -> (r: Option<(String, String)>)
    ensures
        match r {
            Some((a, b)) => first_two_parts(s@) == Some((a@, b@)),
            None => first_two_parts(s@) is None,
        },
{
    let n: usize = s.unicode_len();
    match find_char(s, '.') {
        None => None,
        Some(i) => {
            proof {
                lemma_first_match_found(s@, is_char('.'));
            }
            let head = s.substring_char(0, i);
            let rest = s.substring_char(i + 1, n);
            match find_char(rest, '.') {
                Some(j) => {
                    proof {
                        lemma_first_match_found(rest@, is_char('.'));
                    }
                    Some((String::from_str(head), String::from_str(rest.substring_char(0, j))))
                },
                None => Some((String::from_str(head), String::from_str(rest))),
            }
        },
    }
}

/// A first place lies within the sequence.
pub proof fn lemma_first_match_found<T>(s: Seq<T>, p: spec_fn(T) -> bool)
    ensures
        first_match(s, p) is Some ==> is_first(s, p, first_match(s, p)->0),
{
}

/// Where some item satisfies the predicate there is a first place.
pub proof fn lemma_some_match<T>(s: Seq<T>, p: spec_fn(T) -> bool, j: int)
    requires
        0 <= j < s.len(),
        p(s[j]),
    ensures
        first_match(s, p) is Some,
    decreases j,
{
    if exists|i: int| 0 <= i < j && p(s[i]) {
        let i = choose|i: int| 0 <= i < j && p(s[i]);
        lemma_some_match(s, p, i);
    } else {
        assert(is_first(s, p, j));
    }
}

} // verus!
