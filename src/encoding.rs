use vstd::prelude::*;

verus! {

/// The `n` low-order bytes of `x`, least significant first.
pub open spec fn le(x: nat, n: nat) -> Seq<u8>
    decreases n,
{
    if n == 0 {
        Seq::empty()
    } else {
        seq![(x % 256) as u8].add(le(x / 256, (n - 1) as nat))
    }
}

/// Each value of `s` as four little-endian bytes, one after the other.
pub open spec fn u32s_le(s: Seq<u32>) -> Seq<u8>
    decreases s.len(),
{
    if s.len() == 0 {
        Seq::empty()
    } else {
        u32s_le(s.drop_last()).add(le(s.last() as nat, 4))
    }
}

pub proof fn lemma_le_len(x: nat, n: nat)
    ensures
        le(x, n).len() == n,
    decreases n,
{
    if n > 0 {
        lemma_le_len(x / 256, (n - 1) as nat);
    }
}

pub proof fn lemma_u32s_le_len(s: Seq<u32>)
    ensures
        u32s_le(s).len() == 4 * s.len(),
    decreases s.len(),
{
    if s.len() > 0 {
        lemma_u32s_le_len(s.drop_last());
        lemma_le_len(s.last() as nat, 4);
    }
}

/// Appends the `n` low-order bytes of `x` to `out`, least significant first.
pub fn le_bytes(out: &mut Vec<u8>, x: usize, n: usize)
    ensures
        final(out)@ == old(out)@ + le(x as nat, n as nat),
{
    let mut v: usize = x;
    let mut k: usize = 0;
    while k < n
        invariant
            k <= n,
            out@ + le(v as nat, (n - k) as nat) == old(out)@ + le(x as nat, n as nat),
        decreases n - k,
    {
        let ghost before = out@;
        out.push((v % 256) as u8);
        proof {
            assert(le(v as nat, (n - k) as nat) == seq![(v % 256) as u8].add(
                le((v / 256) as nat, (n - k - 1) as nat),
            ));
            assert(out@ + le((v / 256) as nat, (n - k - 1) as nat) =~= before + le(
                v as nat,
                (n - k) as nat,
            ));
        }
        v = v / 256;
        k = k + 1;
    }
}

/// Appends each value of `s` to `out` as four little-endian bytes.
pub fn u32s_le_bytes(out: &mut Vec<u8>, s: &[u32])
    ensures
        final(out)@ == old(out)@ + u32s_le(s@),
{
    let mut i: usize = 0;
    while i < s.len()
        invariant
            i <= s@.len(),
            out@ == old(out)@ + u32s_le(s@.subrange(0, i as int)),
        decreases s@.len() - i,
    {
        let ghost before = out@;
        le_bytes(out, s[i] as usize, 4);
        proof {
            let t = s@.subrange(0, i + 1);
            assert(t.drop_last() =~= s@.subrange(0, i as int));
            assert(t.last() == s@[i as int]);
            assert(out@ =~= old(out)@ + u32s_le(t));
        }
        i = i + 1;
    }
    assert(s@.subrange(0, s@.len() as int) =~= s@);
}

} // verus!
