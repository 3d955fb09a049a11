//! The five perceptual frequency bands and the mapping of a frequency onto
//! an index of a folded magnitude spectrum.
use vstd::prelude::*;
use vstd::arithmetic::div_mod::lemma_div_is_ordered;
use vstd::arithmetic::mul::lemma_mul_inequality;

verus! {

/// The edges of the band table in Hz: band `i` spans `band_edge(i)` to
/// `band_edge(i + 1)`.
pub open spec fn band_edge(i: int) -> nat {
    if i <= 0 {
        20
    } else if i == 1 {
        140
    } else if i == 2 {
        400
    } else if i == 3 {
        2600
    } else if i == 4 {
        5200
    } else {
        14000
    }
}

/// Number of bands in the table.
pub const BAND_COUNT: usize = 5;

/// One of the five fixed perceptual bands.
#[derive(Clone, Copy, Debug, PartialEq, Eq, Structural)]
pub enum Band {
    Bass,
    LowMid,
    Mid,
    HighMid,
    Treble,
}

impl Band {
    /// Position of the band in the ascending table.
    pub open spec fn position(self) -> int {
        match self {
            Band::Bass => 0,
            Band::LowMid => 1,
            Band::Mid => 2,
            Band::HighMid => 3,
            Band::Treble => 4,
        }
    }

    /// Lower edge of the band in Hz.
    pub fn low_hz(self) -> (r: u32)
        ensures
            r == band_edge(self.position()),
    {
        match self {
            Band::Bass => 20,
            Band::LowMid => 140,
            Band::Mid => 400,
            Band::HighMid => 2600,
            Band::Treble => 5200,
        }
    }

    /// Upper edge of the band in Hz.
    pub fn high_hz(self) -> (r: u32)
        ensures
            r == band_edge(self.position() + 1),
    {
        match self {
            Band::Bass => 140,
            Band::LowMid => 400,
            Band::Mid => 2600,
            Band::HighMid => 5200,
            Band::Treble => 14000,
        }
    }

    /// Display name of the band.
    pub fn name(self) -> (r: &'static str)
        ensures
            self == Band::Bass ==> r@ == "Bass"@,
            self == Band::LowMid ==> r@ == "LowMid"@,
            self == Band::Mid ==> r@ == "Mid"@,
            self == Band::HighMid ==> r@ == "HighMid"@,
            self == Band::Treble ==> r@ == "Treble"@,
    {
        match self {
            Band::Bass => "Bass",
            Band::LowMid => "LowMid",
            Band::Mid => "Mid",
            Band::HighMid => "HighMid",
            Band::Treble => "Treble",
        }
    }

    /// The frequency range of the band.
    pub fn range(self) -> (r: FrequencyBand)
        ensures
            r.band == self,
            r.low_hz == band_edge(self.position()),
            r.high_hz == band_edge(self.position() + 1),
            r.wf(),
    {
        FrequencyBand { band: self, low_hz: self.low_hz(), high_hz: self.high_hz() }
    }
}

/// A named frequency range; `low_hz < high_hz` for every band of the table.
#[derive(Clone, Copy, Debug)]
pub struct FrequencyBand {
    pub band: Band,
    pub low_hz: u32,
    pub high_hz: u32,
}

impl FrequencyBand {
    pub open spec fn wf(&self) -> bool {
        self.low_hz < self.high_hz
    }
}

/// The band table, ascending: bass, low-mid, mid, high-mid, treble.
pub fn frequency_bands() -> (r: Vec<FrequencyBand>)
    ensures
        r@.len() == BAND_COUNT,
        forall|i: int|
            0 <= i < BAND_COUNT ==> {
                &&& (#[trigger] r@[i]).band.position() == i
                &&& r@[i].low_hz == band_edge(i)
                &&& r@[i].high_hz == band_edge(i + 1)
                &&& r@[i].wf()
            },
{
    vec![
        Band::Bass.range(),
        Band::LowMid.range(),
        Band::Mid.range(),
        Band::HighMid.range(),
        Band::Treble.range(),
    ]
}

/// The spectrum index of `freq_hz`: `round(freq_hz / nyquist * folded_len)`,
/// rounding halves up, clamped to `[0, folded_len - 1]`, where
/// `nyquist = sample_rate / 2` in integer division. With a zero Nyquist
/// frequency any positive frequency lands on the last bin.
pub open spec fn bin_index(freq_hz: nat, sample_rate: nat, folded_len: nat) -> nat {
    let nyquist = sample_rate / 2;
    let last = (folded_len - 1) as nat;
    if nyquist == 0 {
        if freq_hz == 0 {
            0
        } else {
            last
        }
    } else {
        let rounded = (2 * (freq_hz * folded_len) + nyquist) / (2 * nyquist);
        if rounded > last {
            last
        } else {
            rounded
        }
    }
}

/// Maps a frequency onto an index of a folded spectrum of `folded_len` bins.
pub fn frequency_to_bin(freq_hz: u32, sample_rate: u32, folded_len: usize) -> (r: usize)
    requires
        folded_len >= 1,
    ensures
        r == bin_index(freq_hz as nat, sample_rate as nat, folded_len as nat),
        r < folded_len,
{
    let nyquist: u32 = sample_rate / 2;
    let last: usize = folded_len - 1;
    if nyquist == 0 {
        if freq_hz == 0 {
            0
        } else {
            last
        }
    } else {
        let f: u128 = freq_hz as u128;
        let l: u128 = folded_len as u128;
        let n: u128 = nyquist as u128;
        assert(f * l <= 0xffff_ffffu128 * 0xffff_ffff_ffff_ffffu128) by (nonlinear_arith)
            requires
                f <= 0xffff_ffffu128,
                l <= 0xffff_ffff_ffff_ffffu128,
        ;
        let fl: u128 = f * l;
        let rounded: u128 = (2 * fl + n) / (2 * n);
        if rounded > last as u128 {
            last
        } else {
            rounded as usize
        }
    }
}

/// The inclusive bin range `[low, high]` of a band in a folded spectrum of
/// `folded_len` bins at `sample_rate`; never empty.
pub fn band_bins(band: &FrequencyBand, sample_rate: u32, folded_len: usize) -> (r: (usize, usize))
    requires
        band.wf(),
        folded_len >= 1,
    ensures
        r.0 == bin_index(band.low_hz as nat, sample_rate as nat, folded_len as nat),
        r.1 == bin_index(band.high_hz as nat, sample_rate as nat, folded_len as nat),
        r.0 <= r.1,
        r.1 < folded_len,
{
    let low = frequency_to_bin(band.low_hz, sample_rate, folded_len);
    let high = frequency_to_bin(band.high_hz, sample_rate, folded_len);
    proof {
        lemma_bin_index_monotonic_in_frequency(
            band.low_hz as nat,
            band.high_hz as nat,
            sample_rate as nat,
            folded_len as nat,
        );
    }
    (low, high)
}

/// The bin ranges of the five bands of the table, in table order.
pub fn band_bin_ranges(sample_rate: u32, folded_len: usize) -> (r: Vec<(usize, usize)>)
    requires
        folded_len >= 1,
    ensures
        r@.len() == BAND_COUNT,
        forall|i: int|
            0 <= i < BAND_COUNT ==> {
                &&& (#[trigger] r@[i]).0 == bin_index(band_edge(i), sample_rate as nat, folded_len as nat)
                &&& r@[i].1 == bin_index(band_edge(i + 1), sample_rate as nat, folded_len as nat)
                &&& r@[i].0 <= r@[i].1
                &&& r@[i].1 < folded_len
            },
{
    let bands = frequency_bands();
    let mut ranges: Vec<(usize, usize)> = Vec::new();
    let mut i: usize = 0;
    while i < bands.len()
        invariant
            bands@.len() == BAND_COUNT,
            forall|j: int|
                0 <= j < BAND_COUNT ==> {
                    &&& (#[trigger] bands@[j]).low_hz == band_edge(j)
                    &&& bands@[j].high_hz == band_edge(j + 1)
                    &&& bands@[j].wf()
                },
            folded_len >= 1,
            i <= bands@.len(),
            ranges@.len() == i,
            forall|j: int|
                0 <= j < i ==> {
                    &&& (#[trigger] ranges@[j]).0 == bin_index(band_edge(j), sample_rate as nat, folded_len as nat)
                    &&& ranges@[j].1 == bin_index(band_edge(j + 1), sample_rate as nat, folded_len as nat)
                    &&& ranges@[j].0 <= ranges@[j].1
                    &&& ranges@[j].1 < folded_len
                },
        decreases bands@.len() - i,
    {
        let range = band_bins(&bands[i], sample_rate, folded_len);
        ranges.push(range);
        i = i + 1;
    }
    ranges
}

/// A higher frequency never maps to a lower bin.
pub proof fn lemma_bin_index_monotonic_in_frequency(
    f1: nat,
    f2: nat,
    sample_rate: nat,
    folded_len: nat,
)
    requires
        f1 <= f2,
        folded_len >= 1,
    ensures
        bin_index(f1, sample_rate, folded_len) <= bin_index(f2, sample_rate, folded_len),
        bin_index(f2, sample_rate, folded_len) < folded_len,
{
    let n = sample_rate / 2;
    if n > 0 {
        lemma_mul_inequality(f1 as int, f2 as int, folded_len as int);
        lemma_div_is_ordered(
            (2 * (f1 * folded_len) + n) as int,
            (2 * (f2 * folded_len) + n) as int,
            (2 * n) as int,
        );
    }
}

/// Raising the sample rate never moves a frequency to a higher bin: each
/// band edge index is non-increasing in the sample rate.
pub proof fn lemma_bin_index_antitone_in_sample_rate(
    freq_hz: nat,
    rate1: nat,
    rate2: nat,
    folded_len: nat,
)
    requires
        rate1 <= rate2,
        folded_len >= 1,
    ensures
        bin_index(freq_hz, rate2, folded_len) <= bin_index(freq_hz, rate1, folded_len),
{
    let n1 = rate1 / 2;
    let n2 = rate2 / 2;
    let x = freq_hz * folded_len;
    if n1 > 0 {
        assert(n1 <= n2) by (nonlinear_arith)
            requires
                rate1 <= rate2,
                n1 == rate1 / 2,
                n2 == rate2 / 2,
        ;
        let q2 = (2 * x + n2) / (2 * n2);
        assert(q2 * (2 * n2) <= 2 * x + n2) by (nonlinear_arith)
            requires
                n2 > 0,
                q2 == (2 * x + n2) / (2 * n2),
        ;
        assert(q2 * (2 * n1) <= 2 * x + n1) by (nonlinear_arith)
            requires
                0 < n1 <= n2,
                q2 * (2 * n2) <= 2 * x + n2,
        ;
        assert(q2 <= (2 * x + n1) / (2 * n1)) by (nonlinear_arith)
            requires
                n1 > 0,
                q2 * (2 * n1) <= 2 * x + n1,
        ;
    } else if freq_hz == 0 {
        if n2 > 0 {
            assert(x == 0);
            assert((2 * x + n2) / (2 * n2) == 0) by (nonlinear_arith)
                requires
                    x == 0,
                    n2 > 0,
            ;
        }
    }
}

/// The band table is ascending and contiguous: every band has
/// `low_hz < high_hz`, and each band starts where the previous one ends.
/// At the common sample rates 44100 Hz and 48000 Hz, with the 513-bin folded
/// spectrum of a 1024-sample block, every band covers at least two bins.
pub proof fn lemma_band_table_ordered()
    ensures
        forall|i: int| 0 <= i < BAND_COUNT ==> #[trigger] band_edge(i) < band_edge(i + 1),
        forall|i: int|
            0 <= i < BAND_COUNT ==> bin_index(#[trigger] band_edge(i), 44100, 513)
                < bin_index(band_edge(i + 1), 44100, 513),
        forall|i: int|
            0 <= i < BAND_COUNT ==> bin_index(#[trigger] band_edge(i), 48000, 513)
                < bin_index(band_edge(i + 1), 48000, 513),
{
    assert(bin_index(20, 44100, 513) == 0) by {
        assert(42570nat / 44100nat == 0nat) by (nonlinear_arith);
    }
    assert(bin_index(140, 44100, 513) == 3) by {
        assert(165690nat / 44100nat == 3nat) by (nonlinear_arith);
    }
    assert(bin_index(400, 44100, 513) == 9) by {
        assert(432450nat / 44100nat == 9nat) by (nonlinear_arith);
    }
    assert(bin_index(2600, 44100, 513) == 60) by {
        assert(2689650nat / 44100nat == 60nat) by (nonlinear_arith);
    }
    assert(bin_index(5200, 44100, 513) == 121) by {
        assert(5357250nat / 44100nat == 121nat) by (nonlinear_arith);
    }
    assert(bin_index(14000, 44100, 513) == 326) by {
        assert(14386050nat / 44100nat == 326nat) by (nonlinear_arith);
    }
    assert(bin_index(20, 48000, 513) == 0) by {
        assert(44520nat / 48000nat == 0nat) by (nonlinear_arith);
    }
    assert(bin_index(140, 48000, 513) == 3) by {
        assert(167640nat / 48000nat == 3nat) by (nonlinear_arith);
    }
    assert(bin_index(400, 48000, 513) == 9) by {
        assert(434400nat / 48000nat == 9nat) by (nonlinear_arith);
    }
    assert(bin_index(2600, 48000, 513) == 56) by {
        assert(2691600nat / 48000nat == 56nat) by (nonlinear_arith);
    }
    assert(bin_index(5200, 48000, 513) == 111) by {
        assert(5359200nat / 48000nat == 111nat) by (nonlinear_arith);
    }
    assert(bin_index(14000, 48000, 513) == 299) by {
        assert(14388000nat / 48000nat == 299nat) by (nonlinear_arith);
    }
}

} // verus!
