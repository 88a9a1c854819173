//! The mel projector: a filter bank applied to a spectrogram.
use crate::spectrogram::layout::{column, empty_rows, has_shape};
use crate::spectrogram::pool::par_fill;
use vstd::prelude::*;

verus! {

/// Number of time frames of a spectrogram: the length of its first row.
pub open spec fn frames_of<T>(spectrogram: Seq<Vec<T>>) -> int {
    if spectrogram.len() > 0 {
        spectrogram[0]@.len() as int
    } else {
        0
    }
}

/// Every row of the matrix has the length of the first.
pub open spec fn is_rectangular<T>(m: Seq<Vec<T>>) -> bool {
    forall|f: int| 0 <= f < m.len() ==> (#[trigger] m[f])@.len() == frames_of(m)
}

/// Number of terms of one projected entry: the bins that both the spectrogram
/// and the filter have.
pub open spec fn terms_of(n_rows: int, filter_len: int) -> int {
    if n_rows <= filter_len {
        n_rows
    } else {
        filter_len
    }
}

/// `total` can be reached by folding `accumulate` over the first `n` pairs of
/// `xs` and `ys`, starting from `zero`: the sum of their products, for the
/// multiply-accumulate step.
pub open spec fn accumulates_to<T, A: Fn(T, T, T) -> T>(
    accumulate: A,
    zero: T,
    xs: Seq<T>,
    ys: Seq<T>,
    n: int,
    total: T,
) -> bool
    decreases n,
{
    if n <= 0 {
        total == zero
    } else {
        exists|prev: T|
            {
                &&& accumulates_to(accumulate, zero, xs, ys, n - 1, prev)
                &&& #[trigger] call_ensures(accumulate, (prev, xs[n - 1], ys[n - 1]), total)
            }
    }
}

/// One more step of the fold: from a value reached over `n` pairs, a call of
/// `accumulate` on pair `n` reaches a value over `n + 1` pairs.
pub proof fn lemma_accumulate_step<T, A: Fn(T, T, T) -> T>(
    accumulate: A,
    zero: T,
    xs: Seq<T>,
    ys: Seq<T>,
    n: int,
    prev: T,
    total: T,
)
    requires
        0 <= n < xs.len(),
        n < ys.len(),
        accumulates_to(accumulate, zero, xs, ys, n, prev),
        call_ensures(accumulate, (prev, xs[n], ys[n]), total),
    ensures
        accumulates_to(accumulate, zero, xs, ys, n + 1, total),
{
    assert(call_ensures(accumulate, (prev, xs[(n + 1) - 1], ys[(n + 1) - 1]), total));
}

/// `out` is the mel spectrogram: one row per filter, one column per frame, and
/// entry `[i][t]` accumulates `spectrogram[f][t]` with `filters[i][f]` over the
/// frequency bins `f`.
pub open spec fn is_mel_projection<T, A: Fn(T, T, T) -> T>(
    spectrogram: Seq<Vec<T>>,
    filters: Seq<Vec<T>>,
    zero: T,
    accumulate: A,
    out: Seq<Vec<T>>,
) -> bool {
    &&& has_shape(out, filters.len() as int, frames_of(spectrogram))
    &&& forall|i: int, t: int|
        0 <= i < filters.len() && 0 <= t < frames_of(spectrogram) ==> accumulates_to(
            accumulate,
            zero,
            column(spectrogram, t),
            filters[i]@,
            terms_of(spectrogram.len() as int, filters[i]@.len() as int),
            #[trigger] out[i]@[t],
        )
}

/// `row` is row `i` of the mel spectrogram: one entry per frame, entry `t`
/// accumulating column `t` of the spectrogram with filter `i`.
pub open spec fn is_mel_row<T, A: Fn(T, T, T) -> T>(
    spectrogram: Seq<Vec<T>>,
    filter: Seq<T>,
    zero: T,
    accumulate: A,
    row: Seq<T>,
) -> bool {
    &&& row.len() == frames_of(spectrogram)
    &&& forall|t: int|
        0 <= t < frames_of(spectrogram) ==> accumulates_to(
            accumulate,
            zero,
            column(spectrogram, t),
            filter,
            terms_of(spectrogram.len() as int, filter.len() as int),
            #[trigger] row[t],
        )
}

/// Row `i` of `rows` is row `i` of the mel spectrogram, for every row.
pub open spec fn are_mel_rows<T, A: Fn(T, T, T) -> T>(
    spectrogram: Seq<Vec<T>>,
    filters: Seq<Vec<T>>,
    zero: T,
    accumulate: A,
    rows: Seq<Vec<T>>,
) -> bool {
    &&& rows.len() == filters.len()
    &&& forall|i: int|
        0 <= i < filters.len() ==> is_mel_row(
            spectrogram,
            filters[i]@,
            zero,
            accumulate,
            (#[trigger] rows[i])@,
        )
}

/// A matrix whose rows are the mel rows is the mel projection.
pub proof fn lemma_mel_rows_are_projection<T, A: Fn(T, T, T) -> T>(
    spectrogram: Seq<Vec<T>>,
    filters: Seq<Vec<T>>,
    zero: T,
    accumulate: A,
    rows: Seq<Vec<T>>,
)
    requires
        are_mel_rows(spectrogram, filters, zero, accumulate, rows),
    ensures
        is_mel_projection(spectrogram, filters, zero, accumulate, rows),
{
    assert forall|i: int, t: int|
        0 <= i < filters.len() && 0 <= t < frames_of(spectrogram) implies accumulates_to(
        accumulate,
        zero,
        column(spectrogram, t),
        filters[i]@,
        terms_of(spectrogram.len() as int, filters[i]@.len() as int),
        #[trigger] rows[i]@[t],
    ) by {
        assert(is_mel_row(spectrogram, filters[i]@, zero, accumulate, rows[i]@));
    }
    assert forall|i: int| 0 <= i < filters.len() implies (#[trigger] rows[i])@.len() == frames_of(
        spectrogram,
    ) by {
        assert(is_mel_row(spectrogram, filters[i]@, zero, accumulate, rows[i]@));
    }
}

/// One entry of the mel spectrogram: folds `accumulate` over the bins that
/// column `t` of the spectrogram and the filter share.
pub fn project_entry<T: Copy, A: Fn(T, T, T) -> T>(
    spectrogram: &Vec<Vec<T>>,
    filter: &Vec<T>,
    t: usize,
    zero: T,
    accumulate: &A,
) -> (total: T)
    requires
        is_rectangular(spectrogram@),
        t < frames_of(spectrogram@),
        forall|a: T, x: T, y: T| call_requires(*accumulate, (a, x, y)),
    ensures
        accumulates_to(
            *accumulate,
            zero,
            column(spectrogram@, t as int),
            filter@,
            terms_of(spectrogram@.len() as int, filter@.len() as int),
            total,
        ),
{
    let n: usize = if spectrogram.len() <= filter.len() {
        spectrogram.len()
    } else {
        filter.len()
    };
    let mut total: T = zero;
    let mut f: usize = 0;
    while f < n
        invariant
            f <= n,
            n == terms_of(spectrogram@.len() as int, filter@.len() as int),
            is_rectangular(spectrogram@),
            t < frames_of(spectrogram@),
            forall|a: T, x: T, y: T| call_requires(*accumulate, (a, x, y)),
            accumulates_to(
                *accumulate,
                zero,
                column(spectrogram@, t as int),
                filter@,
                f as int,
                total,
            ),
        decreases n - f,
    {
        let ghost prev = total;
        assert(spectrogram@[f as int]@.len() == frames_of(spectrogram@));
        total = accumulate(total, spectrogram[f][t], filter[f]);
        proof {
            let xs = column(spectrogram@, t as int);
            assert(xs[f as int] == spectrogram@[f as int]@[t as int]);
            lemma_accumulate_step(*accumulate, zero, xs, filter@, f as int, prev, total);
        }
        f += 1;
    }
    total
}

/// One row of the mel spectrogram: filter `i` applied to every time column.
/// This is the unit of work of the projector.
pub fn project_row<T: Copy, A: Fn(T, T, T) -> T>(
    spectrogram: &Vec<Vec<T>>,
    filters: &Vec<Vec<T>>,
    i: usize,
    zero: T,
    accumulate: &A,
) -> (row: Vec<T>)
    requires
        is_rectangular(spectrogram@),
        i < filters@.len(),
        forall|a: T, x: T, y: T| call_requires(*accumulate, (a, x, y)),
    ensures
        is_mel_row(spectrogram@, filters@[i as int]@, zero, *accumulate, row@),
{
    let n_frames: usize = if spectrogram.len() > 0 {
        spectrogram[0].len()
    } else {
        0
    };
    let mut row: Vec<T> = Vec::new();
    let mut t: usize = 0;
    while t < n_frames
        invariant
            t <= n_frames,
            i < filters@.len(),
            n_frames == frames_of(spectrogram@),
            is_rectangular(spectrogram@),
            forall|a: T, x: T, y: T| call_requires(*accumulate, (a, x, y)),
            row@.len() == t,
            forall|u: int|
                0 <= u < t ==> accumulates_to(
                    *accumulate,
                    zero,
                    column(spectrogram@, u),
                    filters@[i as int]@,
                    terms_of(spectrogram@.len() as int, filters@[i as int]@.len() as int),
                    #[trigger] row@[u],
                ),
        decreases n_frames - t,
    {
        let total = project_entry(spectrogram, &filters[i], t, zero, accumulate);
        row.push(total);
        t += 1;
    }
    row
}

/// The mel projector: applies every filter to every time column of the
/// spectrogram, one filter after the other.
pub fn apply_filter_bank<T: Copy, A: Fn(T, T, T) -> T>(
    spectrogram: &Vec<Vec<T>>,
    filters: &Vec<Vec<T>>,
    zero: T,
    accumulate: &A,
) -> (out: Vec<Vec<T>>)
    requires
        is_rectangular(spectrogram@),
        forall|a: T, x: T, y: T| call_requires(*accumulate, (a, x, y)),
    ensures
        is_mel_projection(spectrogram@, filters@, zero, *accumulate, out@),
{
    let mut out: Vec<Vec<T>> = Vec::new();
    let mut i: usize = 0;
    while i < filters.len()
        invariant
            i <= filters@.len(),
            is_rectangular(spectrogram@),
            forall|a: T, x: T, y: T| call_requires(*accumulate, (a, x, y)),
            out@.len() == i,
            forall|g: int|
                0 <= g < i ==> is_mel_row(
                    spectrogram@,
                    filters@[g]@,
                    zero,
                    *accumulate,
                    (#[trigger] out@[g])@,
                ),
        decreases filters@.len() - i,
    {
        let row = project_row(spectrogram, filters, i, zero, accumulate);
        out.push(row);
        i += 1;
    }
    proof {
        lemma_mel_rows_are_projection(spectrogram@, filters@, zero, *accumulate, out@);
    }
    out
}

/// The parallel mel projector: as `apply_filter_bank`, with the filters spread
/// over the worker pool, one mel bin per unit of work.
pub fn par_apply_filter_bank<T, A>(
    spectrogram: &Vec<Vec<T>>,
    filters: &Vec<Vec<T>>,
    zero: T,
    accumulate: &A,
) -> (out: Vec<Vec<T>>) where T: Copy + Send + Sync, A: Fn(T, T, T) -> T + Sync
    requires
        is_rectangular(spectrogram@),
        forall|a: T, x: T, y: T| call_requires(*accumulate, (a, x, y)),
    ensures
        is_mel_projection(spectrogram@, filters@, zero, *accumulate, out@),
{
    let mut out: Vec<Vec<T>> = empty_rows(filters.len());
    let one_row = |i: usize| -> (row: Vec<T>)
        requires
            i < filters@.len(),
        ensures
            is_mel_row(spectrogram@, filters@[i as int]@, zero, *accumulate, row@),
        { project_row(spectrogram, filters, i, zero, accumulate) };
    par_fill(&mut out, &one_row);
    proof {
        lemma_mel_rows_are_projection(spectrogram@, filters@, zero, *accumulate, out@);
    }
    out
}

} // verus!
