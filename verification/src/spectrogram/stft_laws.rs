//! What the contract of the spectrogram engine implies.
use crate::spectrogram::frames::{lemma_counted_frames_are_full, StftParams};
use crate::spectrogram::layout::column;
use crate::spectrogram::stft::{
    is_bin_row, is_engine_output, is_frame_buffer, is_frame_row, is_spectrogram,
    is_typed_spectrogram, is_window, SpectrogramType,
};
use vstd::prelude::*;

verus! {

/// The taper gives one result for each pair of arguments.
pub open spec fn taper_is_function<T, C, W: Fn(T, T) -> C>(taper: W) -> bool {
    forall|a: T, b: T, c1: C, c2: C|
        #[trigger] call_ensures(taper, (a, b), c1) && #[trigger] call_ensures(taper, (a, b), c2)
            ==> c1 == c2
}

/// The transform gives spectra with the same entries for buffers with the same
/// entries.
pub open spec fn transform_is_function<C, X: Fn(Vec<C>) -> Vec<C>>(transform: X) -> bool {
    forall|b1: Vec<C>, b2: Vec<C>, s1: Vec<C>, s2: Vec<C>|
        b1@ == b2@ && #[trigger] call_ensures(transform, (b1,), s1) && #[trigger] call_ensures(
            transform,
            (b2,),
            s2,
        ) ==> s1@ == s2@
}

/// The measure gives one result for each argument.
pub open spec fn measure_is_function<C, T, M: Fn(C) -> T>(measure: M) -> bool {
    forall|c: C, r1: T, r2: T|
        #[trigger] call_ensures(measure, (c,), r1) && #[trigger] call_ensures(measure, (c,), r2)
            ==> r1 == r2
}

/// With a taper that is a function, a frame has exactly one buffer.
pub proof fn lemma_frame_buffer_unique<T, C, W: Fn(T, T) -> C>(
    p: StftParams,
    audio: Seq<T>,
    window: Seq<T>,
    k: int,
    zero: C,
    taper: W,
    buf1: Seq<C>,
    buf2: Seq<C>,
)
    requires
        taper_is_function(taper),
        is_frame_buffer(p, audio, window, k, zero, taper, buf1),
        is_frame_buffer(p, audio, window, k, zero, taper, buf2),
    ensures
        buf1 == buf2,
{
    assert(buf1 =~= buf2);
}

/// With a measure that is a function, a spectrum has exactly one row of bins.
pub proof fn lemma_bin_row_unique<C, T, M: Fn(C) -> T>(
    spectrum: Seq<C>,
    n_bins: int,
    fill: T,
    measure: M,
    row1: Seq<T>,
    row2: Seq<T>,
)
    requires
        measure_is_function(measure),
        is_bin_row(spectrum, n_bins, fill, measure, row1),
        is_bin_row(spectrum, n_bins, fill, measure, row2),
    ensures
        row1 == row2,
{
    assert(row1 =~= row2);
}

/// With kernels that are functions, a frame has exactly one spectrogram column.
pub proof fn lemma_frame_row_unique<
    T,
    C,
    W: Fn(T, T) -> C,
    X: Fn(Vec<C>) -> Vec<C>,
    M: Fn(C) -> T,
>(
    p: StftParams,
    audio: Seq<T>,
    window: Seq<T>,
    k: int,
    zero: C,
    fill: T,
    taper: W,
    transform: X,
    measure: M,
    row1: Seq<T>,
    row2: Seq<T>,
)
    requires
        taper_is_function(taper),
        transform_is_function(transform),
        measure_is_function(measure),
        is_frame_row(p, audio, window, k, zero, fill, taper, transform, measure, row1),
        is_frame_row(p, audio, window, k, zero, fill, taper, transform, measure, row2),
    ensures
        row1 == row2,
{
    if p.frame_start(k) > audio.len() {
        assert(row1 =~= row2);
    } else {
        let (b1, s1) = choose|b: Vec<C>, s: Vec<C>|
            {
                &&& is_frame_buffer(p, audio, window, k, zero, taper, b@)
                &&& #[trigger] call_ensures(transform, (b,), s)
                &&& is_bin_row(s@, p.freq_bins(), fill, measure, row1)
            };
        let (b2, s2) = choose|b: Vec<C>, s: Vec<C>|
            {
                &&& is_frame_buffer(p, audio, window, k, zero, taper, b@)
                &&& #[trigger] call_ensures(transform, (b,), s)
                &&& is_bin_row(s@, p.freq_bins(), fill, measure, row2)
            };
        lemma_frame_buffer_unique(p, audio, window, k, zero, taper, b1@, b2@);
        assert(s1@ == s2@);
        lemma_bin_row_unique(s1@, p.freq_bins(), fill, measure, row1, row2);
    }
}

/// The contract of the engine determines its output: when the kernels are
/// functions, any two matrices that are spectrograms of the same signal under
/// the same configuration agree in every entry. Whatever order the frames are
/// computed in, and by however many workers, the result is the same.
pub proof fn lemma_spectrogram_unique<
    T,
    C,
    W: Fn(T, T) -> C,
    X: Fn(Vec<C>) -> Vec<C>,
    M: Fn(C) -> T,
>(
    p: StftParams,
    audio: Seq<T>,
    window: Seq<T>,
    zero: C,
    fill: T,
    taper: W,
    transform: X,
    measure: M,
    out1: Seq<Vec<T>>,
    out2: Seq<Vec<T>>,
)
    requires
        taper_is_function(taper),
        transform_is_function(transform),
        measure_is_function(measure),
        is_spectrogram(p, audio, window, zero, fill, taper, transform, measure, out1),
        is_spectrogram(p, audio, window, zero, fill, taper, transform, measure, out2),
    ensures
        out1.len() == out2.len(),
        forall|f: int| 0 <= f < out1.len() ==> (#[trigger] out1[f])@ == out2[f]@,
{
    let n_frames = p.frame_count(audio.len() as int);
    assert forall|f: int| 0 <= f < out1.len() implies (#[trigger] out1[f])@ == out2[f]@ by {
        assert(out2[f]@.len() == n_frames);
        assert forall|t: int| 0 <= t < n_frames implies out1[f]@[t] == out2[f]@[t] by {
            let c1 = column(out1, t);
            let c2 = column(out2, t);
            lemma_frame_row_unique(
                p,
                audio,
                window,
                t,
                zero,
                fill,
                taper,
                transform,
                measure,
                c1,
                c2,
            );
            assert(c1[f] == out1[f]@[t]);
            assert(c2[f] == out2[f]@[t]);
        }
        assert(out1[f]@ =~= out2[f]@);
    }
}

/// A silent signal gives a silent spectrogram, provided the kernels keep
/// silence: the taper turns the silent sample into `zero`, the transform turns
/// an all-`zero` buffer into an all-`zero` spectrum, and the measure of `zero`
/// is `fill`. Then every entry of the spectrogram is `fill`: neither the
/// padding nor the layout brings in anything else.
pub proof fn lemma_silence_stays_silent<
    T,
    C,
    W: Fn(T, T) -> C,
    X: Fn(Vec<C>) -> Vec<C>,
    M: Fn(C) -> T,
>(
    p: StftParams,
    audio: Seq<T>,
    window: Seq<T>,
    silence: T,
    zero: C,
    fill: T,
    taper: W,
    transform: X,
    measure: M,
    out: Seq<Vec<T>>,
)
    requires
        p.valid(),
        window.len() == p.win_length,
        forall|i: int| 0 <= i < audio.len() ==> #[trigger] audio[i] == silence,
        forall|w: T, c: C| #[trigger] call_ensures(taper, (silence, w), c) ==> c == zero,
        forall|b: Vec<C>, s: Vec<C>|
            (forall|i: int| 0 <= i < b@.len() ==> #[trigger] b@[i] == zero) && #[trigger] call_ensures(
                transform,
                (b,),
                s,
            ) ==> (forall|i: int| 0 <= i < s@.len() ==> #[trigger] s@[i] == zero),
        forall|r: T| #[trigger] call_ensures(measure, (zero,), r) ==> r == fill,
        is_spectrogram(p, audio, window, zero, fill, taper, transform, measure, out),
    ensures
        forall|f: int, t: int|
            0 <= f < p.freq_bins() && 0 <= t < p.frame_count(audio.len() as int)
                ==> #[trigger] out[f]@[t] == fill,
{
    let len = audio.len() as int;
    assert forall|f: int, t: int|
        0 <= f < p.freq_bins() && 0 <= t < p.frame_count(len) implies #[trigger] out[f]@[t]
        == fill by {
        let row = column(out, t);
        assert(is_frame_row(p, audio, window, t, zero, fill, taper, transform, measure, row));
        assert(row[f] == out[f]@[t]);
        lemma_counted_frames_are_full(p, len, t);
        let (b, s) = choose|b: Vec<C>, s: Vec<C>|
            {
                &&& is_frame_buffer(p, audio, window, t, zero, taper, b@)
                &&& #[trigger] call_ensures(transform, (b,), s)
                &&& is_bin_row(s@, p.freq_bins(), fill, measure, row)
            };
        let start = p.frame_start(t);
        let offset = p.offset();
        assert forall|i: int| 0 <= i < b@.len() implies #[trigger] b@[i] == zero by {
            if offset <= i < offset + p.win_length {
                assert(audio[start + i - offset] == silence);
            }
        }
        if f < s@.len() {
            assert(s@[f] == zero);
            assert(call_ensures(measure, (s@[f],), row[f]));
        }
    }
}

/// The magnitude and the power spectrogram measure the same bins: when the
/// taper and the transform are functions, and `related` holds between the
/// magnitude and the power of every bin value and of the fill, then it holds
/// between the two spectrograms entry by entry. With `related(m, p)` read as
/// "`p` is the square of `m`", the power spectrogram is the squared magnitude
/// spectrogram.
pub proof fn lemma_power_follows_magnitude<
    T,
    C,
    W: Fn(T, T) -> C,
    X: Fn(Vec<C>) -> Vec<C>,
    M: Fn(C) -> T,
    P: Fn(C) -> T,
>(
    p: StftParams,
    audio: Seq<T>,
    window: Seq<T>,
    zero: C,
    fill: T,
    taper: W,
    transform: X,
    magnitude: M,
    power: P,
    related: spec_fn(T, T) -> bool,
    out_magnitude: Seq<Vec<T>>,
    out_power: Seq<Vec<T>>,
)
    requires
        taper_is_function(taper),
        transform_is_function(transform),
        related(fill, fill),
        forall|c: C, m: T, q: T|
            #[trigger] call_ensures(magnitude, (c,), m) && #[trigger] call_ensures(power, (c,), q)
                ==> related(m, q),
        is_spectrogram(p, audio, window, zero, fill, taper, transform, magnitude, out_magnitude),
        is_spectrogram(p, audio, window, zero, fill, taper, transform, power, out_power),
    ensures
        forall|f: int, t: int|
            0 <= f < p.freq_bins() && 0 <= t < p.frame_count(audio.len() as int) ==> related(
                #[trigger] out_magnitude[f]@[t],
                #[trigger] out_power[f]@[t],
            ),
{
    assert forall|f: int, t: int|
        0 <= f < p.freq_bins() && 0 <= t < p.frame_count(audio.len() as int) implies related(
        #[trigger] out_magnitude[f]@[t],
        #[trigger] out_power[f]@[t],
    ) by {
        let rm = column(out_magnitude, t);
        let rp = column(out_power, t);
        assert(is_frame_row(p, audio, window, t, zero, fill, taper, transform, magnitude, rm));
        assert(is_frame_row(p, audio, window, t, zero, fill, taper, transform, power, rp));
        assert(rm[f] == out_magnitude[f]@[t]);
        assert(rp[f] == out_power[f]@[t]);
        if p.frame_start(t) > audio.len() {
            assert(rm[f] == fill);
            assert(rp[f] == fill);
        } else {
            let (b1, s1) = choose|b: Vec<C>, s: Vec<C>|
                {
                    &&& is_frame_buffer(p, audio, window, t, zero, taper, b@)
                    &&& #[trigger] call_ensures(transform, (b,), s)
                    &&& is_bin_row(s@, p.freq_bins(), fill, magnitude, rm)
                };
            let (b2, s2) = choose|b: Vec<C>, s: Vec<C>|
                {
                    &&& is_frame_buffer(p, audio, window, t, zero, taper, b@)
                    &&& #[trigger] call_ensures(transform, (b,), s)
                    &&& is_bin_row(s@, p.freq_bins(), fill, power, rp)
                };
            lemma_frame_buffer_unique(p, audio, window, t, zero, taper, b1@, b2@);
            assert(s1@ == s2@);
            if f < s1@.len() {
                assert(call_ensures(magnitude, (s1@[f],), rm[f]));
                assert(call_ensures(power, (s2@[f],), rp[f]));
            } else {
                assert(rm[f] == fill);
                assert(rp[f] == fill);
            }
        }
    }
}

/// The window weight gives one result for each pair of arguments.
pub open spec fn weight_is_function<T, H: Fn(usize, usize) -> T>(weight: H) -> bool {
    forall|i: usize, last: usize, w1: T, w2: T|
        #[trigger] call_ensures(weight, (i, last), w1) && #[trigger] call_ensures(
            weight,
            (i, last),
            w2,
        ) ==> w1 == w2
}

/// With a weight that is a function, a configuration has exactly one window.
pub proof fn lemma_window_unique<T, H: Fn(usize, usize) -> T>(
    p: StftParams,
    weight: H,
    window1: Seq<T>,
    window2: Seq<T>,
)
    requires
        weight_is_function(weight),
        is_window(p, weight, window1),
        is_window(p, weight, window2),
    ensures
        window1 == window2,
{
    assert(window1 =~= window2);
}

/// The sequential and the parallel engine agree: when all kernels are
/// functions, any two outputs of the engine for the same signal, configuration
/// and spectrogram type are equal entry by entry. Both `compute_spectrogram`
/// and `par_compute_spectrogram` return such outputs.
pub proof fn lemma_engine_output_unique<
    T,
    C,
    H: Fn(usize, usize) -> T,
    W: Fn(T, T) -> C,
    X: Fn(Vec<C>) -> Vec<C>,
    M: Fn(C) -> T,
    P: Fn(C) -> T,
>(
    p: StftParams,
    audio: Seq<T>,
    zero: C,
    fill: T,
    spectrogram_type: SpectrogramType,
    weight: H,
    taper: W,
    transform: X,
    magnitude: M,
    power: P,
    out1: Seq<Vec<T>>,
    out2: Seq<Vec<T>>,
)
    requires
        weight_is_function(weight),
        taper_is_function(taper),
        transform_is_function(transform),
        measure_is_function(magnitude),
        measure_is_function(power),
        is_engine_output(
            p,
            audio,
            zero,
            fill,
            spectrogram_type,
            weight,
            taper,
            transform,
            magnitude,
            power,
            out1,
        ),
        is_engine_output(
            p,
            audio,
            zero,
            fill,
            spectrogram_type,
            weight,
            taper,
            transform,
            magnitude,
            power,
            out2,
        ),
    ensures
        out1.len() == out2.len(),
        forall|f: int| 0 <= f < out1.len() ==> (#[trigger] out1[f])@ == out2[f]@,
{
    let w1 = choose|window: Seq<T>|
        {
            &&& is_window(p, weight, window)
            &&& #[trigger] is_typed_spectrogram(
                p,
                audio,
                window,
                zero,
                fill,
                spectrogram_type,
                taper,
                transform,
                magnitude,
                power,
                out1,
            )
        };
    let w2 = choose|window: Seq<T>|
        {
            &&& is_window(p, weight, window)
            &&& #[trigger] is_typed_spectrogram(
                p,
                audio,
                window,
                zero,
                fill,
                spectrogram_type,
                taper,
                transform,
                magnitude,
                power,
                out2,
            )
        };
    lemma_window_unique(p, weight, w1, w2);
    match spectrogram_type {
        SpectrogramType::Magnitude => {
            lemma_spectrogram_unique(
                p,
                audio,
                w1,
                zero,
                fill,
                taper,
                transform,
                magnitude,
                out1,
                out2,
            );
        },
        SpectrogramType::Power => {
            lemma_spectrogram_unique(p, audio, w1, zero, fill, taper, transform, power, out1, out2);
        },
    }
}

} // verus!
