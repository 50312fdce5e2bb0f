//! Words and prefixes of a line of text.

use vstd::prelude::*;
use vstd::slice::{slice_subrange, slice_to_vec};

verus! {

/// Whether `b` separates words: a space, a tab, a line feed, a vertical tab,
/// a form feed or a carriage return.
pub open spec fn is_blank(b: u8) -> bool {
    b == 32 || (9 <= b <= 13)
}

/// Whether `s` begins with `p`.
pub open spec fn has_prefix(s: Seq<u8>, p: Seq<u8>) -> bool {
    s.len() >= p.len() && s.subrange(0, p.len() as int) == p
}

/// The first position from `pos` on that holds no blank, or the length of `s`.
pub open spec fn word_start(s: Seq<u8>, pos: int) -> int
    decreases s.len() - pos,
{
    if pos < 0 || pos >= s.len() {
        s.len() as int
    } else if !is_blank(s[pos]) {
        pos
    } else {
        word_start(s, pos + 1)
    }
}

/// The first position from `pos` on that holds a blank, or the length of `s`.
pub open spec fn word_end(s: Seq<u8>, pos: int) -> int
    decreases s.len() - pos,
{
    if pos < 0 || pos >= s.len() {
        s.len() as int
    } else if is_blank(s[pos]) {
        pos
    } else {
        word_end(s, pos + 1)
    }
}

/// The `k`-th word of `s` from `pos` on, counting from zero.
pub open spec fn word(s: Seq<u8>, pos: int, k: nat) -> Option<Seq<u8>>
    decreases k,
{
    let a = word_start(s, pos);
    if a >= s.len() {
        None
    } else if k == 0 {
        Some(s.subrange(a, word_end(s, a)))
    } else {
        word(s, word_end(s, a), (k - 1) as nat)
    }
}

/// Tells whether `s` begins with `p`.
pub fn starts_with(s: &[u8], p: &[u8]) -> (r: bool)
    ensures
        r == has_prefix(s@, p@),
{
    if s.len() < p.len() {
        return false;
    }
    let mut i: usize = 0;
    while i < p.len()
        invariant
            i <= p@.len() <= s@.len(),
            forall|j: int| 0 <= j < i ==> s@[j] == p@[j],
        decreases p.len() - i,
    {
        if s[i] != p[i] {
            assert(s@.subrange(0, p@.len() as int)[i as int] != p@[i as int]);
            return false;
        }
        i += 1;
    }
    assert(s@.subrange(0, p@.len() as int) =~= p@);
    true
}

/// Tells whether `a` and `b` hold the same bytes.
pub fn same(a: &[u8], b: &[u8]) -> (r: bool)
    ensures
        r == (a@ == b@),
{
    if a.len() != b.len() {
        return false;
    }
    let r = starts_with(a, b);
    assert(a@.subrange(0, a@.len() as int) =~= a@);
    r
}

fn blank(b: u8) -> (r: bool)
    ensures
        r == is_blank(b),
{
    b == 32 || (9 <= b && b <= 13)
}

/// Returns the `k`-th word of `s`, counting from zero.
pub fn nth_word(s: &[u8], k: usize) -> (r: Option<Vec<u8>>)
    ensures
        match r {
            Some(w) => word(s@, 0, k as nat) == Some(w@),
            None => word(s@, 0, k as nat) is None,
        },
{
    let n: usize = s.len();
    let mut pos: usize = 0;
    let mut left: usize = k;
    loop
        invariant
            pos <= n,
            n == s@.len(),
            left <= k,
            word(s@, pos as int, left as nat) == word(s@, 0, k as nat),
        decreases left,
    {
        let mut a: usize = pos;
        while a < n && blank(s[a])
            invariant
                pos <= a <= n,
                n == s@.len(),
                word_start(s@, a as int) == word_start(s@, pos as int),
            decreases n - a,
        {
            a += 1;
        }
        if a >= n {
            return None;
        }
        let mut b: usize = a;
        while b < n && !blank(s[b])
            invariant
                a <= b <= n,
                n == s@.len(),
                word_end(s@, b as int) == word_end(s@, a as int),
            decreases n - b,
        {
            b += 1;
        }
        if left == 0 {
            return Some(slice_to_vec(slice_subrange(s, a, b)));
        }
        left -= 1;
        pos = b;
    }
}

} // verus!
