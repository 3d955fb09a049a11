//! Folding of the magnitude spectrum of a real-valued block: the upper half
//! of such a spectrum mirrors the lower half, so only the first `N / 2 + 1`
//! bins carry information (bin 0 is DC, bin `N / 2` is Nyquist).
use vstd::prelude::*;

verus! {

/// Number of samples in one block, and the length of the transform.
pub const SAMPLE_BLOCK_LEN: usize = 1024;

/// Number of bins kept when folding a spectrum of `n` bins.
pub open spec fn folded_len(n: nat) -> nat {
    n / 2 + 1
}

/// The non-redundant lower half of a spectrum.
pub open spec fn folded<T>(spectrum: Seq<T>) -> Seq<T> {
    spectrum.subrange(0, folded_len(spectrum.len()) as int)
}

/// Number of bins kept when folding a spectrum of `n` bins.
pub fn folded_len_of(n: usize) -> (r: usize)
    ensures
        r == folded_len(n as nat),
{
    n / 2 + 1
}

/// Keeps the first `data.len() / 2 + 1` bins of a spectrum, dropping the
/// mirrored upper half.
pub fn remove_mirroring<T: Copy>(data: &[T]) -> (r: Vec<T>)
    requires
        data@.len() >= 1,
    ensures
        r@ == folded(data@),
{
    let len = folded_len_of(data.len());
    let mut out: Vec<T> = Vec::with_capacity(len);
    let mut i: usize = 0;
    while i < len
        invariant
            len == folded_len(data@.len() as nat),
            len <= data@.len(),
            i <= len,
            out@ == data@.subrange(0, i as int),
        decreases len - i,
    {
        out.push(data[i]);
        i = i + 1;
        assert(out@ =~= data@.subrange(0, i as int));
    }
    out
}

/// Folding a spectrum of even, non-zero length `N` keeps exactly `N / 2 + 1`
/// bins, with the DC bin first and the Nyquist bin last.
pub proof fn lemma_folding_keeps_dc_and_nyquist<T>(spectrum: Seq<T>)
    requires
        spectrum.len() > 0,
        spectrum.len() % 2 == 0,
    ensures
        folded(spectrum).len() == spectrum.len() / 2 + 1,
        folded(spectrum)[0] == spectrum[0],
        folded(spectrum)[(spectrum.len() / 2) as int] == spectrum[(spectrum.len() / 2) as int],
{
}

} // verus!
