//! The spectrogram engine: window, frame buffers, bin rows, and the
//! sequential and parallel drivers.
use crate::spectrogram::frames::{StftConfig, StftParams};
use crate::spectrogram::layout::{
    column, empty_rows, filled, has_shape, lemma_column_of_freq_major, to_freq_major,
};
use crate::spectrogram::pool::par_fill;
use vstd::prelude::*;

verus! {

/// What a spectrogram entry holds: the modulus of a bin or its square.
#[derive(Debug, Clone, Copy, PartialEq, Eq, Structural)]
pub enum SpectrogramType {
    Magnitude,
    Power,
}

/// `window` is the analysis window: one weight per sample of a frame, weight
/// `i` being what `weight` returns for index `i` and last index
/// `win_length - 1`.
pub open spec fn is_window<T, H: Fn(usize, usize) -> T>(
    p: StftParams,
    weight: H,
    window: Seq<T>,
) -> bool {
    &&& window.len() == p.win_length
    &&& forall|i: int|
        0 <= i < p.win_length ==> call_ensures(
            weight,
            (i as usize, (p.win_length - 1) as usize),
            #[trigger] window[i],
        )
}

/// Generates the analysis window of the configured length. `weight` computes
/// weight `i` from `(i, last)`, where `last` is the index of the last weight.
/// A configuration has at least two window samples, so `last` is never zero
/// and a taper that divides by it is safe.
pub fn create_window<T, H: Fn(usize, usize) -> T>(cfg: &StftConfig, weight: &H) -> (window: Vec<T>)
    requires
        forall|i: usize, last: usize| 1 <= last && i <= last ==> call_requires(*weight, (i, last)),
    ensures
        is_window(cfg@, *weight, window@),
        cfg@.win_length - 1 >= 1,
{
    let n: usize = cfg.win_length();
    let last: usize = n - 1;
    let mut window: Vec<T> = Vec::new();
    let mut i: usize = 0;
    while i < n
        invariant
            i <= n,
            n == cfg@.win_length,
            last == n - 1,
            last >= 1,
            window@.len() == i,
            forall|i: usize, last: usize|
                1 <= last && i <= last ==> call_requires(*weight, (i, last)),
            forall|j: int|
                0 <= j < i ==> call_ensures(*weight, (j as usize, last), #[trigger] window@[j]),
        decreases n - i,
    {
        let w = weight(i, last);
        window.push(w);
        i += 1;
    }
    window
}

/// `buf` is the transform buffer of frame `k`: the tapered samples of the
/// frame's clamped range, starting at the centering offset, and `zero`
/// everywhere else.
pub open spec fn is_frame_buffer<T, C, W: Fn(T, T) -> C>(
    p: StftParams,
    audio: Seq<T>,
    window: Seq<T>,
    k: int,
    zero: C,
    taper: W,
    buf: Seq<C>,
) -> bool {
    let start = p.frame_start(k);
    let copied = p.frame_end(k, audio.len() as int) - start;
    let offset = p.offset();
    &&& buf.len() == p.n_fft
    &&& forall|i: int|
        0 <= i < p.n_fft ==> if offset <= i < offset + copied {
            call_ensures(taper, (audio[start + i - offset], window[i - offset]), #[trigger] buf[i])
        } else {
            buf[i] == zero
        }
}

/// `row` holds one measured value for each of the first `n_bins` entries of
/// `spectrum`, and `fill` where the spectrum has no such entry.
pub open spec fn is_bin_row<C, T, M: Fn(C) -> T>(
    spectrum: Seq<C>,
    n_bins: int,
    fill: T,
    measure: M,
    row: Seq<T>,
) -> bool {
    &&& row.len() == n_bins
    &&& forall|f: int|
        0 <= f < n_bins ==> if f < spectrum.len() {
            call_ensures(measure, (spectrum[f],), #[trigger] row[f])
        } else {
            row[f] == fill
        }
}

/// `row` is the spectrogram column of frame `k`: the measured bins of the
/// transform of the frame's buffer. A frame that would start beyond the end of
/// the signal is dropped and contributes `fill` only.
pub open spec fn is_frame_row<T, C, W: Fn(T, T) -> C, X: Fn(Vec<C>) -> Vec<C>, M: Fn(C) -> T>(
    p: StftParams,
    audio: Seq<T>,
    window: Seq<T>,
    k: int,
    zero: C,
    fill: T,
    taper: W,
    transform: X,
    measure: M,
    row: Seq<T>,
) -> bool {
    &&& row.len() == p.freq_bins()
    &&& if p.frame_start(k) > audio.len() {
        forall|f: int| 0 <= f < p.freq_bins() ==> #[trigger] row[f] == fill
    } else {
        exists|buf: Vec<C>, spectrum: Vec<C>|
            {
                &&& is_frame_buffer(p, audio, window, k, zero, taper, buf@)
                &&& #[trigger] call_ensures(transform, (buf,), spectrum)
                &&& is_bin_row(spectrum@, p.freq_bins(), fill, measure, row)
            }
    }
}

/// `out` is the `[frequency][time]` spectrogram of `audio`: `n_fft / 2 + 1`
/// rows, one column per counted frame, column `t` being the row of frame `t`.
pub open spec fn is_spectrogram<T, C, W: Fn(T, T) -> C, X: Fn(Vec<C>) -> Vec<C>, M: Fn(C) -> T>(
    p: StftParams,
    audio: Seq<T>,
    window: Seq<T>,
    zero: C,
    fill: T,
    taper: W,
    transform: X,
    measure: M,
    out: Seq<Vec<T>>,
) -> bool {
    &&& has_shape(out, p.freq_bins(), p.frame_count(audio.len() as int))
    &&& forall|t: int|
        0 <= t < p.frame_count(audio.len() as int) ==> is_frame_row(
            p,
            audio,
            window,
            t,
            zero,
            fill,
            taper,
            transform,
            measure,
            #[trigger] column(out, t),
        )
}

/// `out` is the spectrogram of the configured type: measured with `magnitude`
/// for `Magnitude`, with `power` for `Power`.
pub open spec fn is_typed_spectrogram<
    T,
    C,
    W: Fn(T, T) -> C,
    X: Fn(Vec<C>) -> Vec<C>,
    M: Fn(C) -> T,
    P: Fn(C) -> T,
>(
    p: StftParams,
    audio: Seq<T>,
    window: Seq<T>,
    zero: C,
    fill: T,
    spectrogram_type: SpectrogramType,
    taper: W,
    transform: X,
    magnitude: M,
    power: P,
    out: Seq<Vec<T>>,
) -> bool {
    match spectrogram_type {
        SpectrogramType::Magnitude => is_spectrogram(
            p,
            audio,
            window,
            zero,
            fill,
            taper,
            transform,
            magnitude,
            out,
        ),
        SpectrogramType::Power => is_spectrogram(
            p,
            audio,
            window,
            zero,
            fill,
            taper,
            transform,
            power,
            out,
        ),
    }
}

/// The taper can be called on every pairing of a sample with a window weight.
pub open spec fn taper_accepts<T, C, W: Fn(T, T) -> C>(
    audio: Seq<T>,
    window: Seq<T>,
    taper: W,
) -> bool {
    forall|i: int, j: int|
        0 <= i < audio.len() && 0 <= j < window.len() ==> call_requires(
            taper,
            (#[trigger] audio[i], #[trigger] window[j]),
        )
}

/// The transform can be called on every buffer of `n_fft` entries, and the
/// measure on every value.
pub open spec fn kernels_accept<C, T, X: Fn(Vec<C>) -> Vec<C>, M: Fn(C) -> T>(
    n_fft: int,
    transform: X,
    measure: M,
) -> bool {
    &&& forall|buf: Vec<C>| buf@.len() == n_fft ==> #[trigger] call_requires(transform, (buf,))
    &&& forall|c: C| #[trigger] call_requires(measure, (c,))
}

/// Builds the transform buffer of frame `k`: `n_fft` entries, all `zero` but
/// for the tapered samples of the frame, which start at the centering offset.
/// Returns `None` for a frame that starts beyond the end of the signal.
pub fn frame_buffer<T: Copy, C: Copy, W: Fn(T, T) -> C>(
    cfg: &StftConfig,
    audio: &[T],
    window: &[T],
    k: usize,
    zero: C,
    taper: &W,
) -> (r: Option<Vec<C>>)
    requires
        window@.len() == cfg@.win_length,
        taper_accepts(audio@, window@, *taper),
    ensures
        r is None <==> cfg@.frame_start(k as int) > audio@.len(),
        r matches Some(buf) ==> is_frame_buffer(
            cfg@,
            audio@,
            window@,
            k as int,
            zero,
            *taper,
            buf@,
        ),
{
    match cfg.frame_span(k, audio.len()) {
        None => None,
        Some((start, end)) => {
            let n_fft: usize = cfg.n_fft();
            let offset: usize = cfg.centering_offset();
            let copied: usize = end - start;
            let mut buf: Vec<C> = filled(n_fft, zero);
            let mut i: usize = 0;
            while i < copied
                invariant
                    i <= copied,
                    copied == end - start,
                    copied <= window@.len(),
                    end <= audio@.len(),
                    offset + copied <= n_fft,
                    buf@.len() == n_fft,
                    taper_accepts(audio@, window@, *taper),
                    forall|j: int|
                        0 <= j < n_fft ==> if offset <= j < offset + i {
                            call_ensures(
                                *taper,
                                (audio@[start + j - offset], window@[j - offset]),
                                #[trigger] buf@[j],
                            )
                        } else {
                            buf@[j] == zero
                        },
                decreases copied - i,
            {
                let v = taper(audio[start + i], window[i]);
                buf.set(offset + i, v);
                i += 1;
            }
            Some(buf)
        },
    }
}

/// Measures the first `n_bins` entries of a spectrum. Where the spectrum is
/// shorter than that, the rest of the row is `fill`.
pub fn measure_bins<C: Copy, T: Copy, M: Fn(C) -> T>(
    spectrum: &Vec<C>,
    n_bins: usize,
    fill: T,
    measure: &M,
) -> (row: Vec<T>)
    requires
        forall|f: int| 0 <= f < spectrum@.len() ==> call_requires(*measure, (#[trigger] spectrum@[f],)),
    ensures
        is_bin_row(spectrum@, n_bins as int, fill, *measure, row@),
{
    let mut row: Vec<T> = Vec::new();
    let mut f: usize = 0;
    while f < n_bins
        invariant
            f <= n_bins,
            row@.len() == f,
            forall|g: int|
                0 <= g < spectrum@.len() ==> call_requires(*measure, (#[trigger] spectrum@[g],)),
            forall|g: int|
                0 <= g < f ==> if g < spectrum@.len() {
                    call_ensures(*measure, (spectrum@[g],), #[trigger] row@[g])
                } else {
                    row@[g] == fill
                },
        decreases n_bins - f,
    {
        let v = if f < spectrum.len() {
            measure(spectrum[f])
        } else {
            fill
        };
        row.push(v);
        f += 1;
    }
    row
}

/// Computes the spectrogram column of one frame. This is the unit of work of
/// the engine: it reads shared inputs only and returns a fresh row, so frames
/// may be computed in any order.
pub fn frame_row<T: Copy, C: Copy, W: Fn(T, T) -> C, X: Fn(Vec<C>) -> Vec<C>, M: Fn(C) -> T>(
    cfg: &StftConfig,
    audio: &[T],
    window: &[T],
    k: usize,
    zero: C,
    fill: T,
    taper: &W,
    transform: &X,
    measure: &M,
) -> (row: Vec<T>)
    requires
        window@.len() == cfg@.win_length,
        taper_accepts(audio@, window@, *taper),
        kernels_accept(cfg@.n_fft, *transform, *measure),
    ensures
        is_frame_row(
            cfg@,
            audio@,
            window@,
            k as int,
            zero,
            fill,
            *taper,
            *transform,
            *measure,
            row@,
        ),
{
    let n_bins: usize = cfg.n_freq_bins();
    match frame_buffer(cfg, audio, window, k, zero, taper) {
        None => filled(n_bins, fill),
        Some(buf) => {
            let ghost before = buf;
            let spectrum = transform(buf);
            let row = measure_bins(&spectrum, n_bins, fill, measure);
            proof {
                assert(call_ensures(*transform, (before,), spectrum));
            }
            row
        },
    }
}

/// The sequential spectrogram engine for one measure. For each counted frame
/// it builds the buffer, runs the transform, measures the first
/// `n_fft / 2 + 1` bins, and finally lays the rows out as `[frequency][time]`.
///
/// A signal shorter than one window has no frames: the result then has
/// `n_fft / 2 + 1` empty rows.
pub fn spectrogram_with<
    T: Copy,
    C: Copy,
    W: Fn(T, T) -> C,
    X: Fn(Vec<C>) -> Vec<C>,
    M: Fn(C) -> T,
>(
    cfg: &StftConfig,
    audio: &[T],
    window: &[T],
    zero: C,
    fill: T,
    taper: W,
    transform: X,
    measure: M,
) -> (out: Vec<Vec<T>>)
    requires
        window@.len() == cfg@.win_length,
        taper_accepts(audio@, window@, taper),
        kernels_accept(cfg@.n_fft, transform, measure),
    ensures
        is_spectrogram(cfg@, audio@, window@, zero, fill, taper, transform, measure, out@),
{
    let n_frames: usize = cfg.frame_count(audio.len());
    let n_bins: usize = cfg.n_freq_bins();
    let mut rows: Vec<Vec<T>> = Vec::new();
    let mut t: usize = 0;
    while t < n_frames
        invariant
            t <= n_frames,
            rows@.len() == t,
            window@.len() == cfg@.win_length,
            taper_accepts(audio@, window@, taper),
            kernels_accept(cfg@.n_fft, transform, measure),
            forall|j: int|
                0 <= j < t ==> is_frame_row(
                    cfg@,
                    audio@,
                    window@,
                    j,
                    zero,
                    fill,
                    taper,
                    transform,
                    measure,
                    (#[trigger] rows@[j])@,
                ),
        decreases n_frames - t,
    {
        let row = frame_row(cfg, audio, window, t, zero, fill, &taper, &transform, &measure);
        rows.push(row);
        t += 1;
    }
    let out = to_freq_major(&rows, n_bins, fill);
    proof {
        assert forall|j: int| 0 <= j < n_frames implies is_frame_row(
            cfg@,
            audio@,
            window@,
            j,
            zero,
            fill,
            taper,
            transform,
            measure,
            #[trigger] column(out@, j),
        ) by {
            lemma_column_of_freq_major(rows@, n_bins as int, fill, out@, j);
        }
    }
    out
}

/// `out` is what the engine gives for `audio`: the spectrogram of the
/// configured type, taken under the window that `weight` generates.
pub open spec fn is_engine_output<
    T,
    C,
    H: Fn(usize, usize) -> T,
    W: Fn(T, T) -> C,
    X: Fn(Vec<C>) -> Vec<C>,
    M: Fn(C) -> T,
    P: Fn(C) -> T,
>(
    p: StftParams,
    audio: Seq<T>,
    zero: C,
    fill: T,
    spectrogram_type: SpectrogramType,
    weight: H,
    taper: W,
    transform: X,
    magnitude: M,
    power: P,
    out: Seq<Vec<T>>,
) -> bool {
    exists|window: Seq<T>|
        {
            &&& is_window(p, weight, window)
            &&& #[trigger] is_typed_spectrogram(
                p,
                audio,
                window,
                zero,
                fill,
                spectrogram_type,
                taper,
                transform,
                magnitude,
                power,
                out,
            )
        }
}

/// All kernels of the engine can be called: the window weight on every index
/// up to a last index of at least one, the taper on every pair, the transform
/// on every buffer of `n_fft` entries, and both measures on every value.
pub open spec fn engine_kernels_accept<
    T,
    C,
    H: Fn(usize, usize) -> T,
    W: Fn(T, T) -> C,
    X: Fn(Vec<C>) -> Vec<C>,
    M: Fn(C) -> T,
    P: Fn(C) -> T,
>(n_fft: int, weight: H, taper: W, transform: X, magnitude: M, power: P) -> bool {
    &&& forall|i: usize, last: usize| 1 <= last && i <= last ==> call_requires(weight, (i, last))
    &&& forall|a: T, b: T| call_requires(taper, (a, b))
    &&& kernels_accept(n_fft, transform, magnitude)
    &&& kernels_accept(n_fft, transform, power)
}

/// The spectrogram engine: generates the window, then computes the magnitude
/// or the power spectrogram of `audio`, as `spectrogram_type` asks, in the
/// `[frequency][time]` layout. With a validated configuration it cannot fail.
///
/// The kernels do the arithmetic: `weight` gives the window, `taper` weighs a
/// sample, `transform` is the forward transform of a whole buffer, `magnitude`
/// and `power` measure a bin.
pub fn compute_spectrogram<
    T: Copy,
    C: Copy,
    H: Fn(usize, usize) -> T,
    W: Fn(T, T) -> C,
    X: Fn(Vec<C>) -> Vec<C>,
    M: Fn(C) -> T,
    P: Fn(C) -> T,
>(
    cfg: &StftConfig,
    audio: &[T],
    zero: C,
    fill: T,
    spectrogram_type: SpectrogramType,
    weight: H,
    taper: W,
    transform: X,
    magnitude: M,
    power: P,
) -> (out: Vec<Vec<T>>)
    requires
        engine_kernels_accept(cfg@.n_fft, weight, taper, transform, magnitude, power),
    ensures
        is_engine_output(
            cfg@,
            audio@,
            zero,
            fill,
            spectrogram_type,
            weight,
            taper,
            transform,
            magnitude,
            power,
            out@,
        ),
        has_shape(out@, cfg@.freq_bins(), cfg@.frame_count(audio@.len() as int)),
{
    let window = create_window(cfg, &weight);
    let out = match spectrogram_type {
        SpectrogramType::Magnitude => spectrogram_with(
            cfg,
            audio,
            window.as_slice(),
            zero,
            fill,
            taper,
            transform,
            magnitude,
        ),
        SpectrogramType::Power => spectrogram_with(
            cfg,
            audio,
            window.as_slice(),
            zero,
            fill,
            taper,
            transform,
            power,
        ),
    };
    proof {
        assert(is_typed_spectrogram(
            cfg@,
            audio@,
            window@,
            zero,
            fill,
            spectrogram_type,
            taper,
            transform,
            magnitude,
            power,
            out@,
        ));
    }
    out
}

/// The parallel spectrogram engine for one measure: the frames are computed
/// on the worker pool, one frame per unit of work, each writing its own row of
/// the frame-major intermediate; the transpose follows when all are done. Its
/// contract is that of `spectrogram_with`.
pub fn par_spectrogram_with<T, C, W, X, M>(
    cfg: &StftConfig,
    audio: &[T],
    window: &[T],
    zero: C,
    fill: T,
    taper: W,
    transform: X,
    measure: M,
) -> (out: Vec<Vec<T>>) where
    T: Copy + Send + Sync,
    C: Copy + Send + Sync,
    W: Fn(T, T) -> C + Sync,
    X: Fn(Vec<C>) -> Vec<C> + Sync,
    M: Fn(C) -> T + Sync,

    requires
        window@.len() == cfg@.win_length,
        taper_accepts(audio@, window@, taper),
        kernels_accept(cfg@.n_fft, transform, measure),
    ensures
        is_spectrogram(cfg@, audio@, window@, zero, fill, taper, transform, measure, out@),
{
    let n_frames: usize = cfg.frame_count(audio.len());
    let n_bins: usize = cfg.n_freq_bins();
    let mut rows: Vec<Vec<T>> = empty_rows(n_frames);
    let taper_ref = &taper;
    let transform_ref = &transform;
    let measure_ref = &measure;
    let one_frame = |k: usize| -> (row: Vec<T>)
        ensures
            is_frame_row(
                cfg@,
                audio@,
                window@,
                k as int,
                zero,
                fill,
                *taper_ref,
                *transform_ref,
                *measure_ref,
                row@,
            ),
        { frame_row(cfg, audio, window, k, zero, fill, taper_ref, transform_ref, measure_ref) };
    par_fill(&mut rows, &one_frame);
    let out = to_freq_major(&rows, n_bins, fill);
    proof {
        assert forall|j: int| 0 <= j < n_frames implies is_frame_row(
            cfg@,
            audio@,
            window@,
            j,
            zero,
            fill,
            taper,
            transform,
            measure,
            #[trigger] column(out@, j),
        ) by {
            assert(is_frame_row(
                cfg@,
                audio@,
                window@,
                j,
                zero,
                fill,
                taper,
                transform,
                measure,
                rows@[j]@,
            ));
            lemma_column_of_freq_major(rows@, n_bins as int, fill, out@, j);
        }
    }
    out
}

/// The parallel spectrogram engine: as `compute_spectrogram`, with the frames
/// spread over the worker pool.
pub fn par_compute_spectrogram<T, C, H, W, X, M, P>(
    cfg: &StftConfig,
    audio: &[T],
    zero: C,
    fill: T,
    spectrogram_type: SpectrogramType,
    weight: H,
    taper: W,
    transform: X,
    magnitude: M,
    power: P,
) -> (out: Vec<Vec<T>>) where
    T: Copy + Send + Sync,
    C: Copy + Send + Sync,
    H: Fn(usize, usize) -> T,
    W: Fn(T, T) -> C + Sync,
    X: Fn(Vec<C>) -> Vec<C> + Sync,
    M: Fn(C) -> T + Sync,
    P: Fn(C) -> T + Sync,

    requires
        engine_kernels_accept(cfg@.n_fft, weight, taper, transform, magnitude, power),
    ensures
        is_engine_output(
            cfg@,
            audio@,
            zero,
            fill,
            spectrogram_type,
            weight,
            taper,
            transform,
            magnitude,
            power,
            out@,
        ),
        has_shape(out@, cfg@.freq_bins(), cfg@.frame_count(audio@.len() as int)),
{
    let window = create_window(cfg, &weight);
    let out = match spectrogram_type {
        SpectrogramType::Magnitude => par_spectrogram_with(
            cfg,
            audio,
            window.as_slice(),
            zero,
            fill,
            taper,
            transform,
            magnitude,
        ),
        SpectrogramType::Power => par_spectrogram_with(
            cfg,
            audio,
            window.as_slice(),
            zero,
            fill,
            taper,
            transform,
            power,
        ),
    };
    proof {
        assert(is_typed_spectrogram(
            cfg@,
            audio@,
            window@,
            zero,
            fill,
            spectrogram_type,
            taper,
            transform,
            magnitude,
            power,
            out@,
        ));
    }
    out
}

} // verus!
