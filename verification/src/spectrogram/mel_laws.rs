//! What the contracts of the filter-bank builder and the projector imply.
use crate::spectrogram::layout::column;
use crate::spectrogram::mel::{filters_of, is_filter_bank};
use crate::spectrogram::projector::{accumulates_to, frames_of, is_mel_projection, terms_of};
use vstd::prelude::*;

verus! {

/// The multiply-accumulate step gives one result for each triple of arguments.
pub open spec fn accumulate_is_function<T, A: Fn(T, T, T) -> T>(accumulate: A) -> bool {
    forall|a: T, x: T, y: T, r1: T, r2: T|
        #[trigger] call_ensures(accumulate, (a, x, y), r1) && #[trigger] call_ensures(
            accumulate,
            (a, x, y),
            r2,
        ) ==> r1 == r2
}

/// With a step that is a function, a fold over the same pairs reaches exactly
/// one value.
pub proof fn lemma_accumulation_unique<T, A: Fn(T, T, T) -> T>(
    accumulate: A,
    zero: T,
    xs: Seq<T>,
    ys: Seq<T>,
    n: int,
    a: T,
    b: T,
)
    requires
        accumulate_is_function(accumulate),
        accumulates_to(accumulate, zero, xs, ys, n, a),
        accumulates_to(accumulate, zero, xs, ys, n, b),
    ensures
        a == b,
    decreases n,
{
    if n > 0 {
        let pa = choose|prev: T|
            {
                &&& accumulates_to(accumulate, zero, xs, ys, n - 1, prev)
                &&& #[trigger] call_ensures(accumulate, (prev, xs[n - 1], ys[n - 1]), a)
            };
        let pb = choose|prev: T|
            {
                &&& accumulates_to(accumulate, zero, xs, ys, n - 1, prev)
                &&& #[trigger] call_ensures(accumulate, (prev, xs[n - 1], ys[n - 1]), b)
            };
        lemma_accumulation_unique(accumulate, zero, xs, ys, n - 1, pa, pb);
    }
}

/// The contract of the projector determines its output: when the
/// multiply-accumulate step is a function, any two matrices that are mel
/// projections of the same spectrogram under the same filters agree in every
/// entry, whichever axis the work was split along.
pub proof fn lemma_projection_unique<T, A: Fn(T, T, T) -> T>(
    spectrogram: Seq<Vec<T>>,
    filters: Seq<Vec<T>>,
    zero: T,
    accumulate: A,
    out1: Seq<Vec<T>>,
    out2: Seq<Vec<T>>,
)
    requires
        accumulate_is_function(accumulate),
        is_mel_projection(spectrogram, filters, zero, accumulate, out1),
        is_mel_projection(spectrogram, filters, zero, accumulate, out2),
    ensures
        out1.len() == out2.len(),
        forall|i: int| 0 <= i < out1.len() ==> (#[trigger] out1[i])@ == out2[i]@,
{
    let n_frames = frames_of(spectrogram);
    assert forall|i: int| 0 <= i < out1.len() implies (#[trigger] out1[i])@ == out2[i]@ by {
        assert(out2[i]@.len() == n_frames);
        assert forall|t: int| 0 <= t < n_frames implies out1[i]@[t] == out2[i]@[t] by {
            lemma_accumulation_unique(
                accumulate,
                zero,
                column(spectrogram, t),
                filters[i]@,
                terms_of(spectrogram.len() as int, filters[i]@.len() as int),
                out1[i]@[t],
                out2[i]@[t],
            );
        }
        assert(out1[i]@ =~= out2[i]@);
    }
}

/// Each row of a filter bank has contiguous support: between two bins with a
/// weight other than `zero` there is no bin with weight `zero`. This holds
/// when the bin frequencies increase along `before`, an order that is
/// transitive, and the kernel gives a weight other than `zero` exactly to the
/// frequencies strictly between the lower and the upper edge of the filter.
pub proof fn lemma_support_is_contiguous<T, K: Fn(T, T, T, T) -> T>(
    mel_freqs: Seq<T>,
    fft_freqs: Seq<T>,
    weight: K,
    zero: T,
    before: spec_fn(T, T) -> bool,
    bank: Seq<Vec<T>>,
    i: int,
    a: int,
    b: int,
    c: int,
)
    requires
        is_filter_bank(mel_freqs, fft_freqs, weight, bank),
        forall|x: T, y: T, z: T| #[trigger] before(x, y) && #[trigger] before(y, z) ==> before(x, z),
        forall|j: int, k: int|
            0 <= j < k < fft_freqs.len() ==> before(#[trigger] fft_freqs[j], #[trigger] fft_freqs[k]),
        forall|lo: T, peak: T, hi: T, f: T, w: T|
            #[trigger] call_ensures(weight, (lo, peak, hi, f), w) ==> (w != zero <==> before(lo, f)
                && before(f, hi)),
        0 <= i < filters_of(mel_freqs.len() as int),
        0 <= a <= b <= c < fft_freqs.len(),
        bank[i]@[a] != zero,
        bank[i]@[c] != zero,
    ensures
        bank[i]@[b] != zero,
{
    let lo = mel_freqs[i];
    let peak = mel_freqs[i + 1];
    let hi = mel_freqs[i + 2];
    assert(call_ensures(weight, (lo, peak, hi, fft_freqs[a]), bank[i]@[a]));
    assert(call_ensures(weight, (lo, peak, hi, fft_freqs[b]), bank[i]@[b]));
    assert(call_ensures(weight, (lo, peak, hi, fft_freqs[c]), bank[i]@[c]));
    assert(before(lo, fft_freqs[a]));
    assert(before(fft_freqs[c], hi));
    if a < b {
        assert(before(fft_freqs[a], fft_freqs[b]));
    }
    if b < c {
        assert(before(fft_freqs[b], fft_freqs[c]));
    }
    assert(before(lo, fft_freqs[b]));
    assert(before(fft_freqs[b], hi));
}

/// Every weight of a filter bank has whatever property the kernel gives to all
/// of its results: with a kernel that never returns a negative weight, no entry
/// of the bank is negative.
pub proof fn lemma_bank_keeps_kernel_property<T, K: Fn(T, T, T, T) -> T>(
    mel_freqs: Seq<T>,
    fft_freqs: Seq<T>,
    weight: K,
    holds: spec_fn(T) -> bool,
    bank: Seq<Vec<T>>,
)
    requires
        is_filter_bank(mel_freqs, fft_freqs, weight, bank),
        forall|lo: T, peak: T, hi: T, f: T, w: T|
            #[trigger] call_ensures(weight, (lo, peak, hi, f), w) ==> holds(w),
    ensures
        forall|i: int, j: int|
            0 <= i < bank.len() && 0 <= j < bank[i]@.len() ==> holds(#[trigger] bank[i]@[j]),
{
    assert forall|i: int, j: int| 0 <= i < bank.len() && 0 <= j < bank[i]@.len() implies holds(
        #[trigger] bank[i]@[j],
    ) by {
        assert(call_ensures(
            weight,
            (mel_freqs[i], mel_freqs[i + 1], mel_freqs[i + 2], fft_freqs[j]),
            bank[i]@[j],
        ));
    }
}

} // verus!
