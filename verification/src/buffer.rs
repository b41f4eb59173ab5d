//! Small helpers for building byte vectors.

use vstd::prelude::*;

verus! {

/// `n` copies of `value`.
pub open spec fn fill(value: u8, n: int) -> Seq<u8> {
    Seq::new(n as nat, |i: int| value)
}

/// Appends the bytes of `s` to `v`.
pub fn extend_bytes(v: &mut Vec<u8>, s: &[u8])
    ensures
        final(v)@ == old(v)@ + s@,
{
    let mut i: usize = 0;
    while i < s.len()
        invariant
            0 <= i <= s@.len(),
            v@ == old(v)@ + s@.subrange(0, i as int),
        decreases s@.len() - i,
    {
        v.push(s[i]);
        i = i + 1;
        assert(s@.subrange(0, i as int) == s@.subrange(0, i - 1) + seq![s@[i - 1]]);
    }
    assert(s@.subrange(0, s@.len() as int) == s@);
}

/// Appends `n` copies of `value` to `v`.
pub fn extend_fill(v: &mut Vec<u8>, n: usize, value: u8)
    ensures
        final(v)@ == old(v)@ + fill(value, n as int),
{
    let mut i: usize = 0;
    while i < n
        invariant
            0 <= i <= n,
            v@ == old(v)@ + fill(value, i as int),
        decreases n - i,
    {
        v.push(value);
        i = i + 1;
        assert(fill(value, i as int) == fill(value, i - 1) + seq![value]);
    }
}

} // verus!
