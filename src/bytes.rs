//! Byte-level helpers shared by the object formats: searching for a
//! delimiter, comparing, copying and decimal numerals.
use vstd::prelude::*;

verus! {

/// The first index `k >= i` with `b[k] == c`, or `b.len()` when there is none.
pub open spec fn first_from(b: Seq<u8>, i: int, c: u8) -> int
    decreases b.len() - i,
{
    if i >= b.len() {
        b.len() as int
    } else if b[i] == c {
        i
    } else {
        first_from(b, i + 1, c)
    }
}

pub proof fn lemma_first_from(b: Seq<u8>, i: int, c: u8)
    requires
        0 <= i <= b.len(),
    ensures
        i <= first_from(b, i, c) <= b.len(),
        first_from(b, i, c) < b.len() ==> b[first_from(b, i, c)] == c,
        forall|k: int| i <= k < first_from(b, i, c) ==> b[k] != c,
    decreases b.len() - i,
{
    if i < b.len() && b[i] != c {
        lemma_first_from(b, i + 1, c);
    }
}

/// If no byte of `b[i..j]` is `c` and `b[j] == c`, the search from `i` stops at `j`.
pub proof fn lemma_first_from_at(b: Seq<u8>, i: int, j: int, c: u8)
    requires
        0 <= i <= j <= b.len(),
        j < b.len() ==> b[j] == c,
        forall|k: int| i <= k < j ==> b[k] != c,
    ensures
        first_from(b, i, c) == j,
    decreases j - i,
{
    if i < j {
        lemma_first_from_at(b, i + 1, j, c);
    }
}

/// Index of the first `c` at or after `start`, or `b.len()`.
pub fn find_byte(b: &[u8], start: usize, c: u8) -> (r: usize)
    requires
        start <= b@.len(),
    ensures
        r == first_from(b@, start as int, c),
        start <= r <= b@.len(),
{
    proof {
        lemma_first_from(b@, start as int, c);
    }
    let mut j: usize = start;
    while j < b.len()
        invariant
            start <= j <= b@.len(),
            first_from(b@, start as int, c) == first_from(b@, j as int, c),
        decreases b@.len() - j,
    {
        if b[j] == c {
            return j;
        }
        j = j + 1;
    }
    j
}

/// Whether two byte strings are equal.
pub fn bytes_eq(a: &[u8], b: &[u8]) -> (r: bool)
    ensures
        r == (a@ == b@),
{
    if a.len() != b.len() {
        return false;
    }
    let mut i: usize = 0;
    while i < a.len()
        invariant
            a@.len() == b@.len(),
            i <= a@.len(),
            forall|k: int| 0 <= k < i ==> a@[k] == b@[k],
        decreases a@.len() - i,
    {
        if a[i] != b[i] {
            return false;
        }
        i = i + 1;
    }
    assert(a@ =~= b@);
    true
}

/// A copy of `b[from..to]`.
pub fn copy_range(b: &[u8], from: usize, to: usize) -> (r: Vec<u8>)
    requires
        from <= to <= b@.len(),
    ensures
        r@ == b@.subrange(from as int, to as int),
{
    let mut r: Vec<u8> = Vec::new();
    let mut i: usize = from;
    while i < to
        invariant
            from <= i <= to <= b@.len(),
            r@ == b@.subrange(from as int, i as int),
        decreases to - i,
    {
        r.push(b[i]);
        i = i + 1;
        assert(r@ =~= b@.subrange(from as int, i as int));
    }
    r
}

/// Appends the bytes of `src` to `dst`.
pub fn append_bytes(dst: &mut Vec<u8>, src: &[u8])
    ensures
        final(dst)@ == old(dst)@ + src@,
{
    let mut i: usize = 0;
    while i < src.len()
        invariant
            i <= src@.len(),
            dst@ == old(dst)@ + src@.subrange(0, i as int),
        decreases src@.len() - i,
    {
        dst.push(src[i]);
        i = i + 1;
        assert(dst@ =~= old(dst)@ + src@.subrange(0, i as int));
    }
    assert(src@.subrange(0, src@.len() as int) =~= src@);
}

pub open spec fn is_digit(c: u8) -> bool {
    48 <= c <= 57
}

pub open spec fn all_digits(s: Seq<u8>) -> bool {
    forall|k: int| 0 <= k < s.len() ==> is_digit(#[trigger] s[k])
}

/// The canonical decimal numeral of `n`: no sign, no leading zeros.
pub open spec fn dec_digits(n: nat) -> Seq<u8>
    decreases n,
{
    if n < 10 {
        seq![(48 + n) as u8]
    } else {
        dec_digits(n / 10) + seq![(48 + n % 10) as u8]
    }
}

/// The value of a string of decimal digits (leading zeros allowed).
pub open spec fn dec_value(s: Seq<u8>) -> nat
    decreases s.len(),
{
    if s.len() == 0 {
        0
    } else {
        dec_value(s.drop_last()) * 10 + (s.last() - 48) as nat
    }
}

pub proof fn lemma_dec_digits(n: nat)
    ensures
        dec_digits(n).len() >= 1,
        all_digits(dec_digits(n)),
        dec_value(dec_digits(n)) == n,
    decreases n,
{
    if n >= 10 {
        lemma_dec_digits(n / 10);
        let d = dec_digits(n);
        assert(d.drop_last() =~= dec_digits(n / 10));
        assert(d.last() == (48 + n % 10) as u8);
        assert(n == (n / 10) * 10 + n % 10);
        assert(dec_value(d) == dec_value(d.drop_last()) * 10 + (d.last() - 48) as nat);
    } else {
        let d = dec_digits(n);
        assert(d.drop_last() =~= Seq::<u8>::empty());
        assert(dec_value(d.drop_last()) == 0);
    }
}

/// A digit string is worth at least as much as any of its prefixes.
pub proof fn lemma_dec_value_prefix(s: Seq<u8>, j: int)
    requires
        0 <= j <= s.len(),
        all_digits(s),
    ensures
        dec_value(s.subrange(0, j)) <= dec_value(s),
    decreases s.len(),
{
    if j < s.len() {
        let t = s.drop_last();
        assert(all_digits(t));
        assert(s.subrange(0, j) =~= t.subrange(0, j));
        lemma_dec_value_prefix(t, j);
    } else {
        assert(s.subrange(0, j) =~= s);
    }
}

/// The canonical decimal numeral of `n`.
pub fn decimal(n: usize) -> (r: Vec<u8>)
    ensures
        r@ == dec_digits(n as nat),
    decreases n,
{
    if n < 10 {
        vec![(48 + n) as u8]
    } else {
        let mut v = decimal(n / 10);
        v.push((48 + n % 10) as u8);
        v
    }
}

} // verus!
