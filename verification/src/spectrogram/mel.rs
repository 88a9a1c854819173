//! The mel stage: validation, boundary points, the filter-bank builder, and
//! the sequential and parallel drivers.
use crate::error::ConfigError;
use crate::spectrogram::frames::freq_bins_of;
use crate::spectrogram::layout::has_shape;
use crate::spectrogram::projector::{apply_filter_bank, frames_of, is_mel_projection, is_rectangular, par_apply_filter_bank};
use vstd::prelude::*;

verus! {

/// The two common Hz-to-mel formulas.
#[derive(Debug, Clone, Copy, PartialEq, Eq, Structural)]
pub enum MelScale {
    HTK,
    Slaney,
}

/// Number of filters that `points` boundary points delimit: each filter takes
/// three consecutive points, so two points fewer than given.
pub open spec fn filters_of(points: int) -> int {
    if points >= 2 {
        points - 2
    } else {
        0
    }
}

/// Validates the size and the band of a filter bank before anything is built:
/// there must be at least one filter, and `f_min` must be below `f_max`. The
/// size is checked first; the bounds are compared only when there is a filter.
pub fn validate_mel<T: Copy, L: Fn(T, T) -> bool>(n_mels: usize, f_min: T, f_max: T, below: &L) -> (r:
    Result<(), ConfigError>)
    requires
        call_requires(*below, (f_min, f_max)),
    ensures
        n_mels == 0 ==> r == Err::<(), _>(ConfigError::ZeroMels),
        n_mels > 0 ==> match r {
            Ok(_) => call_ensures(*below, (f_min, f_max), true),
            Err(e) => e == ConfigError::EmptyBand && call_ensures(*below, (f_min, f_max), false),
        },
{
    if n_mels == 0 {
        return Err(ConfigError::ZeroMels);
    }
    let band_rises = below(f_min, f_max);
    if !band_rises {
        Err(ConfigError::EmptyBand)
    } else {
        Ok(())
    }
}

/// `points` holds the `n_mels + 2` boundary points of a bank of `n_mels`
/// filters: point `i` is what `point` returns for index `i` and last index
/// `n_mels + 1`.
pub open spec fn is_boundaries<T, B: Fn(usize, usize) -> T>(
    n_mels: int,
    point: B,
    points: Seq<T>,
) -> bool {
    &&& points.len() == n_mels + 2
    &&& forall|i: int|
        0 <= i < n_mels + 2 ==> call_ensures(
            point,
            (i as usize, (n_mels + 1) as usize),
            #[trigger] points[i],
        )
}

/// Lays out the boundary points of a bank of `n_mels` filters: `n_mels + 2`
/// points in index order. `point` computes point `i` of `last + 1` evenly
/// spaced ones from `(i, last)`; with `i == 0` it gives the lower edge of the
/// band and with `i == last` the upper edge.
pub fn mel_boundaries<T, B: Fn(usize, usize) -> T>(n_mels: usize, point: &B) -> (r: Result<
    Vec<T>,
    ConfigError,
>)
    requires
        n_mels <= usize::MAX - 2,
        forall|i: usize, last: usize| call_requires(*point, (i, last)),
    ensures
        r is Err <==> n_mels == 0,
        r matches Err(e) ==> e == ConfigError::ZeroMels,
        r matches Ok(points) ==> is_boundaries(n_mels as int, *point, points@),
{
    if n_mels == 0 {
        return Err(ConfigError::ZeroMels);
    }
    let n: usize = n_mels + 2;
    let last: usize = n_mels + 1;
    let mut points: Vec<T> = Vec::new();
    let mut i: usize = 0;
    while i < n
        invariant
            i <= n,
            n == n_mels + 2,
            last == n_mels + 1,
            points@.len() == i,
            forall|i: usize, last: usize| call_requires(*point, (i, last)),
            forall|j: int|
                0 <= j < i ==> call_ensures(*point, (j as usize, last), #[trigger] points@[j]),
        decreases n - i,
    {
        let v = point(i, last);
        points.push(v);
        i += 1;
    }
    Ok(points)
}

/// `points` holds the boundary points of the chosen scale: those of
/// `htk_point` for `HTK`, those of `slaney_point` for `Slaney`.
pub open spec fn is_scaled_boundaries<T, B1: Fn(usize, usize) -> T, B2: Fn(usize, usize) -> T>(
    n_mels: int,
    mel_scale: MelScale,
    htk_point: B1,
    slaney_point: B2,
    points: Seq<T>,
) -> bool {
    match mel_scale {
        MelScale::HTK => is_boundaries(n_mels, htk_point, points),
        MelScale::Slaney => is_boundaries(n_mels, slaney_point, points),
    }
}

/// What the order test may answer for the two edges of filter `i`: the lower
/// edge `points[i]` against the upper edge `points[i + 2]`.
pub open spec fn edges_answer<T, L: Fn(T, T) -> bool>(
    points: Seq<T>,
    below: L,
    i: int,
    answer: bool,
) -> bool {
    call_ensures(below, (points[i], points[i + 2]), answer)
}

/// The order test can be called on every pair of boundary points.
pub open spec fn order_accepts<T, L: Fn(T, T) -> bool>(points: Seq<T>, below: L) -> bool {
    forall|i: int, j: int|
        0 <= i < points.len() && 0 <= j < points.len() ==> call_requires(
            below,
            (#[trigger] points[i], #[trigger] points[j]),
        )
}

/// The lower edge of every filter is below its upper edge.
pub open spec fn all_edges_rise<T, L: Fn(T, T) -> bool>(points: Seq<T>, below: L) -> bool {
    forall|i: int|
        0 <= i < filters_of(points.len() as int) ==> #[trigger] edges_answer(points, below, i, true)
}

/// The lower edge of some filter is not below its upper edge.
pub open spec fn some_edge_falls<T, L: Fn(T, T) -> bool>(points: Seq<T>, below: L) -> bool {
    exists|i: int|
        0 <= i < filters_of(points.len() as int) && #[trigger] edges_answer(points, below, i, false)
}

/// Rejects a set of mel boundary points that cannot delimit a filter bank:
/// fewer than three points give no filter, and a filter whose lower edge is not
/// strictly below its upper edge has a zero normaliser.
pub fn check_boundaries<T: Copy, L: Fn(T, T) -> bool>(points: &[T], below: &L) -> (r: Result<
    (),
    ConfigError,
>)
    requires
        order_accepts(points@, *below),
    ensures
        points@.len() < 3 ==> r == Err::<(), _>(ConfigError::ZeroMels),
        r is Ok ==> all_edges_rise(points@, *below),
        r == Err::<(), _>(ConfigError::DegenerateMelSpacing) ==> some_edge_falls(points@, *below),
        r is Err ==> r == Err::<(), _>(ConfigError::ZeroMels) || r == Err::<(), _>(
            ConfigError::DegenerateMelSpacing,
        ),
        r == Err::<(), _>(ConfigError::ZeroMels) ==> points@.len() < 3,
{
    if points.len() < 3 {
        return Err(ConfigError::ZeroMels);
    }
    let n: usize = points.len() - 2;
    let mut i: usize = 0;
    while i < n
        invariant
            i <= n,
            n == points@.len() - 2,
            order_accepts(points@, *below),
            forall|j: int| 0 <= j < i ==> #[trigger] edges_answer(points@, *below, j, true),
        decreases n - i,
    {
        let rising = below(points[i], points[i + 2]);
        assert(edges_answer(points@, *below, i as int, rising));
        if !rising {
            return Err(ConfigError::DegenerateMelSpacing);
        }
        i += 1;
    }
    Ok(())
}

/// `freqs` holds the centre frequency of every bin of a transform of size
/// `n_fft`: `n_fft / 2 + 1` values, value `j` being what `bin_freq` returns
/// for `j`.
pub open spec fn is_bin_frequencies<T, F: Fn(usize) -> T>(
    n_fft: int,
    bin_freq: F,
    freqs: Seq<T>,
) -> bool {
    &&& freqs.len() == freq_bins_of(n_fft)
    &&& forall|j: int|
        0 <= j < freq_bins_of(n_fft) ==> call_ensures(bin_freq, (j as usize,), #[trigger] freqs[j])
}

/// Tabulates the centre frequencies of the `n_fft / 2 + 1` bins.
pub fn bin_frequencies<T, F: Fn(usize) -> T>(n_fft: usize, bin_freq: &F) -> (freqs: Vec<T>)
    requires
        forall|j: usize| call_requires(*bin_freq, (j,)),
    ensures
        is_bin_frequencies(n_fft as int, *bin_freq, freqs@),
{
    let n_bins: usize = n_fft / 2 + 1;
    let mut freqs: Vec<T> = Vec::new();
    let mut j: usize = 0;
    while j < n_bins
        invariant
            j <= n_bins,
            n_bins == freq_bins_of(n_fft as int),
            freqs@.len() == j,
            forall|j: usize| call_requires(*bin_freq, (j,)),
            forall|g: int| 0 <= g < j ==> call_ensures(*bin_freq, (g as usize,), #[trigger] freqs@[g]),
        decreases n_bins - j,
    {
        let f = bin_freq(j);
        freqs.push(f);
        j += 1;
    }
    freqs
}

/// `bank` has one row per filter and one entry per frequency bin, and entry
/// `[i][j]` is what `weight` returns for the lower edge, peak and upper edge of
/// filter `i` and the centre frequency of bin `j`.
pub open spec fn is_filter_bank<T, K: Fn(T, T, T, T) -> T>(
    mel_freqs: Seq<T>,
    fft_freqs: Seq<T>,
    weight: K,
    bank: Seq<Vec<T>>,
) -> bool {
    &&& has_shape(bank, filters_of(mel_freqs.len() as int), fft_freqs.len() as int)
    &&& forall|i: int, j: int|
        0 <= i < filters_of(mel_freqs.len() as int) && 0 <= j < fft_freqs.len() ==> call_ensures(
            weight,
            (mel_freqs[i], mel_freqs[i + 1], mel_freqs[i + 2], fft_freqs[j]),
            #[trigger] bank[i]@[j],
        )
}

/// Builds the filter matrix `[n_mels][n_freq_bins]` from `n_mels + 2` boundary
/// frequencies and the bin centre frequencies. Filter `i` spans boundary points
/// `i`, `i + 1` and `i + 2`.
pub fn build_filter_bank<T: Copy, K: Fn(T, T, T, T) -> T>(
    mel_freqs: &[T],
    fft_freqs: &[T],
    weight: &K,
) -> (bank: Vec<Vec<T>>)
    requires
        forall|a: T, b: T, c: T, d: T| call_requires(*weight, (a, b, c, d)),
    ensures
        is_filter_bank(mel_freqs@, fft_freqs@, *weight, bank@),
{
    let n_mels: usize = if mel_freqs.len() >= 2 {
        mel_freqs.len() - 2
    } else {
        0
    };
    let n_bins: usize = fft_freqs.len();
    let mut bank: Vec<Vec<T>> = Vec::new();
    let mut i: usize = 0;
    while i < n_mels
        invariant
            i <= n_mels,
            n_mels == filters_of(mel_freqs@.len() as int),
            n_bins == fft_freqs@.len(),
            forall|a: T, b: T, c: T, d: T| call_requires(*weight, (a, b, c, d)),
            has_shape(bank@, i as int, n_bins as int),
            forall|g: int, j: int|
                0 <= g < i && 0 <= j < n_bins ==> call_ensures(
                    *weight,
                    (mel_freqs@[g], mel_freqs@[g + 1], mel_freqs@[g + 2], fft_freqs@[j]),
                    #[trigger] bank@[g]@[j],
                ),
        decreases n_mels - i,
    {
        let mut row: Vec<T> = Vec::new();
        let mut j: usize = 0;
        while j < n_bins
            invariant
                j <= n_bins,
                i < n_mels,
                n_mels == filters_of(mel_freqs@.len() as int),
                n_bins == fft_freqs@.len(),
                forall|a: T, b: T, c: T, d: T| call_requires(*weight, (a, b, c, d)),
                row@.len() == j,
                forall|h: int|
                    0 <= h < j ==> call_ensures(
                        *weight,
                        (
                            mel_freqs@[i as int],
                            mel_freqs@[i + 1],
                            mel_freqs@[i + 2],
                            fft_freqs@[h],
                        ),
                        #[trigger] row@[h],
                    ),
            decreases n_bins - j,
        {
            let w = weight(mel_freqs[i], mel_freqs[i + 1], mel_freqs[i + 2], fft_freqs[j]);
            row.push(w);
            j += 1;
        }
        bank.push(row);
        i += 1;
    }
    bank
}

/// What building a filter bank ends in. The rules are checked in this order:
/// no filter at all; a band whose lower edge is not below its upper edge; a
/// filter whose edges do not rise. Only then is the bank built, from the
/// boundary points of the chosen scale and the centre frequencies of the
/// `n_fft / 2 + 1` bins.
pub open spec fn is_bank_outcome<
    T,
    L: Fn(T, T) -> bool,
    B1: Fn(usize, usize) -> T,
    B2: Fn(usize, usize) -> T,
    F: Fn(usize) -> T,
    K: Fn(T, T, T, T) -> T,
>(
    n_fft: int,
    n_mels: int,
    f_min: T,
    f_max: T,
    mel_scale: MelScale,
    below: L,
    htk_point: B1,
    slaney_point: B2,
    bin_freq: F,
    weight: K,
    r: Result<Vec<Vec<T>>, ConfigError>,
) -> bool {
    if n_mels == 0 {
        r matches Err(e) && e == ConfigError::ZeroMels
    } else {
        match r {
            Ok(bank) => {
                &&& call_ensures(below, (f_min, f_max), true)
                &&& exists|points: Seq<T>, freqs: Seq<T>|
                    {
                        &&& #[trigger] is_scaled_boundaries(
                            n_mels,
                            mel_scale,
                            htk_point,
                            slaney_point,
                            points,
                        )
                        &&& all_edges_rise(points, below)
                        &&& #[trigger] is_bin_frequencies(n_fft, bin_freq, freqs)
                        &&& is_filter_bank(points, freqs, weight, bank@)
                    }
            },
            Err(ConfigError::EmptyBand) => call_ensures(below, (f_min, f_max), false),
            Err(ConfigError::DegenerateMelSpacing) => {
                &&& call_ensures(below, (f_min, f_max), true)
                &&& exists|points: Seq<T>|
                    {
                        &&& #[trigger] is_scaled_boundaries(
                            n_mels,
                            mel_scale,
                            htk_point,
                            slaney_point,
                            points,
                        )
                        &&& some_edge_falls(points, below)
                    }
            },
            Err(_) => false,
        }
    }
}

/// The kernels of the filter-bank builder can be called on every argument.
pub open spec fn bank_kernels_accept<
    T,
    L: Fn(T, T) -> bool,
    B1: Fn(usize, usize) -> T,
    B2: Fn(usize, usize) -> T,
    F: Fn(usize) -> T,
    K: Fn(T, T, T, T) -> T,
>(below: L, htk_point: B1, slaney_point: B2, bin_freq: F, weight: K) -> bool {
    &&& forall|a: T, b: T| call_requires(below, (a, b))
    &&& forall|i: usize, last: usize| call_requires(htk_point, (i, last))
    &&& forall|i: usize, last: usize| call_requires(slaney_point, (i, last))
    &&& forall|j: usize| call_requires(bin_freq, (j,))
    &&& forall|a: T, b: T, c: T, d: T| call_requires(weight, (a, b, c, d))
}

/// The mel filter-bank builder: validates the size and the band, lays out the
/// `n_mels + 2` boundary points of the chosen scale, rejects degenerate
/// spacing, and builds the `[n_mels][n_fft / 2 + 1]` matrix of weights.
pub fn create_mel_filter_bank<
    T: Copy,
    L: Fn(T, T) -> bool,
    B1: Fn(usize, usize) -> T,
    B2: Fn(usize, usize) -> T,
    F: Fn(usize) -> T,
    K: Fn(T, T, T, T) -> T,
>(
    n_fft: usize,
    n_mels: usize,
    f_min: T,
    f_max: T,
    mel_scale: MelScale,
    below: &L,
    htk_point: &B1,
    slaney_point: &B2,
    bin_freq: &F,
    weight: &K,
) -> (r: Result<Vec<Vec<T>>, ConfigError>)
    requires
        n_mels <= usize::MAX - 2,
        bank_kernels_accept(*below, *htk_point, *slaney_point, *bin_freq, *weight),
    ensures
        is_bank_outcome(
            n_fft as int,
            n_mels as int,
            f_min,
            f_max,
            mel_scale,
            *below,
            *htk_point,
            *slaney_point,
            *bin_freq,
            *weight,
            r,
        ),
        r matches Ok(bank) ==> has_shape(bank@, n_mels as int, n_fft / 2 + 1),
{
    match validate_mel(n_mels, f_min, f_max, below) {
        Err(e) => {
            return Err(e);
        },
        Ok(_) => {},
    }
    let laid_out = match mel_scale {
        MelScale::HTK => mel_boundaries(n_mels, htk_point),
        MelScale::Slaney => mel_boundaries(n_mels, slaney_point),
    };
    let points = match laid_out {
        Ok(points) => points,
        Err(e) => {
            return Err(e);
        },
    };
    assert(is_scaled_boundaries(n_mels as int, mel_scale, *htk_point, *slaney_point, points@));
    match check_boundaries(points.as_slice(), below) {
        Err(e) => Err(e),
        Ok(_) => {
            let freqs = bin_frequencies(n_fft, bin_freq);
            let bank = build_filter_bank(points.as_slice(), freqs.as_slice(), weight);
            Ok(bank)
        },
    }
}

/// The mel stage: builds the filter bank, as `create_mel_filter_bank` does,
/// and applies it to the spectrogram. Nothing is projected when the bank is
/// rejected.
pub fn convert_to_mel<
    T: Copy,
    L: Fn(T, T) -> bool,
    B1: Fn(usize, usize) -> T,
    B2: Fn(usize, usize) -> T,
    F: Fn(usize) -> T,
    K: Fn(T, T, T, T) -> T,
    A: Fn(T, T, T) -> T,
>(
    spectrogram: &Vec<Vec<T>>,
    n_fft: usize,
    n_mels: usize,
    f_min: T,
    f_max: T,
    mel_scale: MelScale,
    zero: T,
    below: &L,
    htk_point: &B1,
    slaney_point: &B2,
    bin_freq: &F,
    weight: &K,
    accumulate: &A,
) -> (r: Result<Vec<Vec<T>>, ConfigError>)
    requires
        is_rectangular(spectrogram@),
        n_mels <= usize::MAX - 2,
        bank_kernels_accept(*below, *htk_point, *slaney_point, *bin_freq, *weight),
        forall|a: T, x: T, y: T| call_requires(*accumulate, (a, x, y)),
    ensures
        match r {
            Ok(out) => {
                &&& exists|bank: Vec<Vec<T>>|
                    {
                        &&& is_bank_outcome(
                            n_fft as int,
                            n_mels as int,
                            f_min,
                            f_max,
                            mel_scale,
                            *below,
                            *htk_point,
                            *slaney_point,
                            *bin_freq,
                            *weight,
                            Ok::<Vec<Vec<T>>, ConfigError>(bank),
                        )
                        &&& #[trigger] is_mel_projection(
                            spectrogram@,
                            bank@,
                            zero,
                            *accumulate,
                            out@,
                        )
                    }
                &&& has_shape(out@, n_mels as int, frames_of(spectrogram@))
            },
            Err(e) => is_bank_outcome(
                n_fft as int,
                n_mels as int,
                f_min,
                f_max,
                mel_scale,
                *below,
                *htk_point,
                *slaney_point,
                *bin_freq,
                *weight,
                Err::<Vec<Vec<T>>, ConfigError>(e),
            ),
        },
{
    match create_mel_filter_bank(
        n_fft,
        n_mels,
        f_min,
        f_max,
        mel_scale,
        below,
        htk_point,
        slaney_point,
        bin_freq,
        weight,
    ) {
        Err(e) => Err(e),
        Ok(bank) => {
            let out = apply_filter_bank(spectrogram, &bank, zero, accumulate);
            proof {
                assert(exists|b: Vec<Vec<T>>|
                    {
                        &&& is_bank_outcome(
                            n_fft as int,
                            n_mels as int,
                            f_min,
                            f_max,
                            mel_scale,
                            *below,
                            *htk_point,
                            *slaney_point,
                            *bin_freq,
                            *weight,
                            Ok::<Vec<Vec<T>>, ConfigError>(b),
                        )
                        &&& #[trigger] is_mel_projection(
                            spectrogram@,
                            b@,
                            zero,
                            *accumulate,
                            out@,
                        )
                    });
            }
            Ok(out)
        },
    }
}

/// The parallel mel stage: as `convert_to_mel`, with the projection spread
/// over the worker pool.
pub fn par_convert_to_mel<T, L, B1, B2, F, K, A>(
    spectrogram: &Vec<Vec<T>>,
    n_fft: usize,
    n_mels: usize,
    f_min: T,
    f_max: T,
    mel_scale: MelScale,
    zero: T,
    below: &L,
    htk_point: &B1,
    slaney_point: &B2,
    bin_freq: &F,
    weight: &K,
    accumulate: &A,
) -> (r: Result<Vec<Vec<T>>, ConfigError>) where
    T: Copy + Send + Sync,
    L: Fn(T, T) -> bool,
    B1: Fn(usize, usize) -> T,
    B2: Fn(usize, usize) -> T,
    F: Fn(usize) -> T,
    K: Fn(T, T, T, T) -> T,
    A: Fn(T, T, T) -> T + Sync,

    requires
        is_rectangular(spectrogram@),
        n_mels <= usize::MAX - 2,
        bank_kernels_accept(*below, *htk_point, *slaney_point, *bin_freq, *weight),
        forall|a: T, x: T, y: T| call_requires(*accumulate, (a, x, y)),
    ensures
        match r {
            Ok(out) => {
                &&& exists|bank: Vec<Vec<T>>|
                    {
                        &&& is_bank_outcome(
                            n_fft as int,
                            n_mels as int,
                            f_min,
                            f_max,
                            mel_scale,
                            *below,
                            *htk_point,
                            *slaney_point,
                            *bin_freq,
                            *weight,
                            Ok::<Vec<Vec<T>>, ConfigError>(bank),
                        )
                        &&& #[trigger] is_mel_projection(
                            spectrogram@,
                            bank@,
                            zero,
                            *accumulate,
                            out@,
                        )
                    }
                &&& has_shape(out@, n_mels as int, frames_of(spectrogram@))
            },
            Err(e) => is_bank_outcome(
                n_fft as int,
                n_mels as int,
                f_min,
                f_max,
                mel_scale,
                *below,
                *htk_point,
                *slaney_point,
                *bin_freq,
                *weight,
                Err::<Vec<Vec<T>>, ConfigError>(e),
            ),
        },
{
    match create_mel_filter_bank(
        n_fft,
        n_mels,
        f_min,
        f_max,
        mel_scale,
        below,
        htk_point,
        slaney_point,
        bin_freq,
        weight,
    ) {
        Err(e) => Err(e),
        Ok(bank) => {
            let out = par_apply_filter_bank(spectrogram, &bank, zero, accumulate);
            proof {
                assert(exists|b: Vec<Vec<T>>|
                    {
                        &&& is_bank_outcome(
                            n_fft as int,
                            n_mels as int,
                            f_min,
                            f_max,
                            mel_scale,
                            *below,
                            *htk_point,
                            *slaney_point,
                            *bin_freq,
                            *weight,
                            Ok::<Vec<Vec<T>>, ConfigError>(b),
                        )
                        &&& #[trigger] is_mel_projection(
                            spectrogram@,
                            b@,
                            zero,
                            *accumulate,
                            out@,
                        )
                    });
            }
            Ok(out)
        },
    }
}

} // verus!
