//! Small vector helpers shared by the argument systems: prefixes, tails and
//! byte-transcript concatenation.
use vstd::prelude::*;

verus! {

/// The elements of `v` after the first one.
pub fn vec_tail<T: Copy>(v: &Vec<T>) -> (r: Vec<T>)
    requires
        v@.len() >= 1,
    ensures
        r@ == v@.subrange(1, v@.len() as int),
{
    let mut r: Vec<T> = Vec::new();
    let mut i: usize = 1;
    while i < v.len()
        invariant
            1 <= i <= v@.len(),
            r@ == v@.subrange(1, i as int),
        decreases v@.len() - i,
    {
        r.push(v[i]);
        proof {
            assert(r@ =~= v@.subrange(1, i + 1));
        }
        i = i + 1;
    }
    proof {
        assert(r@ =~= v@.subrange(1, v@.len() as int));
    }
    r
}

/// The elements of `v` from position `n` on.
pub fn vec_skip<T: Copy>(v: &Vec<T>, n: usize) -> (r: Vec<T>)
    requires
        n <= v@.len(),
    ensures
        r@ == v@.skip(n as int),
{
    let mut r: Vec<T> = Vec::new();
    let mut i: usize = n;
    while i < v.len()
        invariant
            n <= i <= v@.len(),
            r@ == v@.subrange(n as int, i as int),
        decreases v@.len() - i,
    {
        r.push(v[i]);
        proof {
            assert(r@ =~= v@.subrange(n as int, i + 1));
        }
        i = i + 1;
    }
    proof {
        assert(r@ =~= v@.skip(n as int));
    }
    r
}

/// The first `n` elements of `v`.
pub fn vec_take<T: Copy>(v: &Vec<T>, n: usize) -> (r: Vec<T>)
    requires
        n <= v@.len(),
    ensures
        r@ == v@.take(n as int),
{
    let mut r: Vec<T> = Vec::new();
    let mut i: usize = 0;
    while i < n
        invariant
            i <= n,
            n <= v@.len(),
            r@ == v@.take(i as int),
        decreases n - i,
    {
        r.push(v[i]);
        proof {
            assert(r@ =~= v@.take(i + 1));
        }
        i = i + 1;
    }
    r
}

/// Appends all of `src` to `dst`.
pub fn bytes_extend(dst: &mut Vec<u8>, src: &Vec<u8>)
    ensures
        final(dst)@ == old(dst)@ + src@,
{
    let mut i: usize = 0;
    while i < src.len()
        invariant
            i <= src@.len(),
            dst@ == old(dst)@ + src@.take(i as int),
        decreases src@.len() - i,
    {
        dst.push(src[i]);
        proof {
            assert(dst@ =~= old(dst)@ + src@.take(i + 1));
        }
        i = i + 1;
    }
    proof {
        assert(dst@ =~= old(dst)@ + src@);
    }
}

} // verus!
