//! The policy that turns a resource identifier into a 64-bit cache key.
//!
//! Every character of the identifier that is a base-36 digit adds its digit
//! value to the key; every other character is skipped. The key is therefore
//! blind to the order of the characters and to their case, and identifiers
//! collide easily.

use vstd::prelude::*;

verus! {

/// The value of `c` read as a base-36 digit: `0`-`9` count 0 to 9, and the
/// letters `a`-`z`, in either case, count 10 to 35. No other character is a
/// digit.
pub open spec fn digit_of(c: char) -> Option<u32> {
    if '0' <= c <= '9' {
        Some((c as u32 - '0' as u32) as u32)
    } else if 'a' <= c <= 'z' {
        Some((c as u32 - 'a' as u32 + 10) as u32)
    } else if 'A' <= c <= 'Z' {
        Some((c as u32 - 'A' as u32 + 10) as u32)
    } else {
        None
    }
}

/// What `c` adds to a key: its digit value, or nothing if it is no digit.
pub open spec fn weight(c: char) -> nat {
    match digit_of(c) {
        Some(d) => d as nat,
        None => 0,
    }
}

/// The sum of the digit values of the characters of `s`.
pub open spec fn digit_sum(s: Seq<char>) -> nat
    decreases s.len(),
{
    if s.len() == 0 {
        0
    } else {
        digit_sum(s.drop_last()) + weight(s.last())
    }
}

/// The key of the identifier `s`: its digit sum, reduced to 64 bits.
pub open spec fn key_of(s: Seq<char>) -> u64 {
    (digit_sum(s) % 0x1_0000_0000_0000_0000) as u64
}

/// Computes the base-36 digit that `c` stands for, if any.
pub fn base36_digit(c: char) -> (digit: Option<u32>)
    ensures
        digit == digit_of(c),
{
    if '0' <= c && c <= '9' {
        Some(c as u32 - '0' as u32)
    } else if 'a' <= c && c <= 'z' {
        Some(c as u32 - 'a' as u32 + 10)
    } else if 'A' <= c && c <= 'Z' {
        Some(c as u32 - 'A' as u32 + 10)
    } else {
        None
    }
}

/// The digit sum of two strings joined is the sum of their digit sums.
pub proof fn lemma_digit_sum_concat(a: Seq<char>, b: Seq<char>)
    ensures
        digit_sum(a + b) == digit_sum(a) + digit_sum(b),
    decreases b.len(),
{
    if b.len() > 0 {
        assert((a + b).drop_last() =~= a + b.drop_last());
        lemma_digit_sum_concat(a, b.drop_last());
    }
}

/// Taking one character out of a string lowers the digit sum by what that
/// character weighs.
pub proof fn lemma_digit_sum_remove(s: Seq<char>, i: int)
    requires
        0 <= i < s.len(),
    ensures
        digit_sum(s) == digit_sum(s.remove(i)) + weight(s[i]),
{
    let head = s.take(i);
    let tail = s.skip(i + 1);
    assert(s =~= head.push(s[i]) + tail);
    assert(head.push(s[i]).drop_last() =~= head);
    lemma_digit_sum_concat(head.push(s[i]), tail);
    lemma_digit_sum_concat(head, tail);
}

/// No character weighs more than 35, so the digit sum of a string is at most
/// 35 times its length.
pub proof fn lemma_digit_sum_bound(s: Seq<char>)
    ensures
        digit_sum(s) <= 35 * s.len(),
    decreases s.len(),
{
    if s.len() > 0 {
        lemma_digit_sum_bound(s.drop_last());
    }
}

/// Where 35 times the length of a string fits in 64 bits, its key is its
/// digit sum itself: the reduction to 64 bits changes nothing there.
pub proof fn lemma_key_is_digit_sum(s: Seq<char>)
    requires
        35 * s.len() <= u64::MAX,
    ensures
        key_of(s) == digit_sum(s),
{
    lemma_digit_sum_bound(s);
}

/// The key is blind to the order of the characters: two strings made of the
/// same characters, each as often in one as in the other, have the same key.
pub proof fn lemma_key_ignores_order(a: Seq<char>, b: Seq<char>)
    requires
        a.to_multiset() == b.to_multiset(),
    ensures
        digit_sum(a) == digit_sum(b),
        key_of(a) == key_of(b),
    decreases a.len(),
{
    a.to_multiset_ensures();
    b.to_multiset_ensures();
    if a.len() > 0 {
        let last = a.last();
        assert(a.to_multiset().count(last) > 0);
        let i = b.index_of(last);
        assert(a.drop_last() =~= a.remove(a.len() - 1));
        lemma_key_ignores_order(a.drop_last(), b.remove(i));
        lemma_digit_sum_remove(b, i);
    }
}

/// The key is blind to every character that is no base-36 digit: taking such
/// a character out of a string leaves the key as it was.
pub proof fn lemma_key_ignores_non_digits(s: Seq<char>, i: int)
    requires
        0 <= i < s.len(),
        digit_of(s[i]) is None,
    ensures
        key_of(s.remove(i)) == key_of(s),
{
    lemma_digit_sum_remove(s, i);
}

/// The key is blind to the case of letters: putting a letter's other case in
/// its place leaves the key as it was.
pub proof fn lemma_key_ignores_case(s: Seq<char>, i: int, lower: char, upper: char)
    requires
        0 <= i < s.len(),
        'a' <= lower <= 'z',
        upper as u32 + 32 == lower as u32,
        s[i] == lower || s[i] == upper,
    ensures
        key_of(s.update(i, lower)) == key_of(s),
        key_of(s.update(i, upper)) == key_of(s),
{
    lemma_digit_sum_remove(s, i);
    lemma_digit_sum_remove(s.update(i, lower), i);
    lemma_digit_sum_remove(s.update(i, upper), i);
    assert(s.update(i, lower).remove(i) =~= s.remove(i));
    assert(s.update(i, upper).remove(i) =~= s.remove(i));
}

} // verus!
