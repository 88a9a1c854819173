//! Row-major matrices and the exchange of their rows and columns.
use vstd::prelude::*;

verus! {

/// Column `t` of a row-major matrix, read top to bottom.
pub open spec fn column<T>(m: Seq<Vec<T>>, t: int) -> Seq<T> {
    Seq::new(m.len(), |f: int| m[f]@[t])
}

/// `m` has `rows` rows of `cols` entries each.
pub open spec fn has_shape<T>(m: Seq<Vec<T>>, rows: int, cols: int) -> bool {
    &&& m.len() == rows
    &&& forall|f: int| 0 <= f < rows ==> (#[trigger] m[f])@.len() == cols
}

/// `out` is `rows` with rows and columns exchanged, cut or padded with `fill`
/// to `n_bins` rows.
pub open spec fn is_freq_major<T>(rows: Seq<Vec<T>>, n_bins: int, fill: T, out: Seq<Vec<T>>) -> bool {
    &&& has_shape(out, n_bins, rows.len() as int)
    &&& forall|f: int, t: int|
        0 <= f < n_bins && 0 <= t < rows.len() ==> (#[trigger] out[f])@[t] == if f < (
        #[trigger] rows[t])@.len() {
            rows[t]@[f]
        } else {
            fill
        }
}

/// A vector of `n` copies of `value`.
pub fn filled<T: Copy>(n: usize, value: T) -> (v: Vec<T>)
    ensures
        v@.len() == n,
        forall|i: int| 0 <= i < n ==> #[trigger] v@[i] == value,
{
    let mut v: Vec<T> = Vec::new();
    let mut i: usize = 0;
    while i < n
        invariant
            i <= n,
            v@.len() == i,
            forall|j: int| 0 <= j < i ==> #[trigger] v@[j] == value,
        decreases n - i,
    {
        v.push(value);
        i += 1;
    }
    v
}

/// A vector of `n` empty rows.
pub(crate) fn empty_rows<T>(n: usize) -> (rows: Vec<Vec<T>>)
    ensures
        rows@.len() == n,
{
    let mut rows: Vec<Vec<T>> = Vec::new();
    let mut i: usize = 0;
    while i < n
        invariant
            i <= n,
            rows@.len() == i,
        decreases n - i,
    {
        rows.push(Vec::new());
        i += 1;
    }
    rows
}

/// Exchanges rows and columns of the frame-major intermediate: entry `[f][t]`
/// of the result is entry `[t][f]` of `rows`, or `fill` where row `t` has no
/// entry `f`.
pub fn to_freq_major<T: Copy>(rows: &Vec<Vec<T>>, n_bins: usize, fill: T) -> (out: Vec<Vec<T>>)
    ensures
        is_freq_major(rows@, n_bins as int, fill, out@),
{
    let n_frames: usize = rows.len();
    let mut out: Vec<Vec<T>> = Vec::new();
    let mut f: usize = 0;
    while f < n_bins
        invariant
            f <= n_bins,
            n_frames == rows@.len(),
            is_freq_major(rows@, f as int, fill, out@),
        decreases n_bins - f,
    {
        let mut line: Vec<T> = Vec::new();
        let mut t: usize = 0;
        while t < n_frames
            invariant
                t <= n_frames,
                n_frames == rows@.len(),
                line@.len() == t,
                forall|u: int|
                    0 <= u < t ==> #[trigger] line@[u] == if f < (#[trigger] rows@[u])@.len() {
                        rows@[u]@[f as int]
                    } else {
                        fill
                    },
            decreases n_frames - t,
        {
            let v = if f < rows[t].len() {
                rows[t][f]
            } else {
                fill
            };
            line.push(v);
            t += 1;
        }
        out.push(line);
        f += 1;
    }
    out
}

/// Column `t` of the transposed matrix is row `t` of the matrix it was made
/// from, when that row has exactly `n_bins` entries.
pub proof fn lemma_column_of_freq_major<T>(
    rows: Seq<Vec<T>>,
    n_bins: int,
    fill: T,
    out: Seq<Vec<T>>,
    t: int,
)
    requires
        is_freq_major(rows, n_bins, fill, out),
        0 <= t < rows.len(),
        rows[t]@.len() == n_bins,
    ensures
        column(out, t) == rows[t]@,
{
    assert forall|f: int| 0 <= f < n_bins implies column(out, t)[f] == rows[t]@[f] by {
        assert(out[f]@[t] == rows[t]@[f]);
    }
    assert(column(out, t) =~= rows[t]@);
}

/// Exchanging rows and columns twice gives the matrix back, for a matrix of
/// `n_frames` rows with `n_bins` entries each.
pub proof fn lemma_freq_major_twice<T>(
    rows: Seq<Vec<T>>,
    n_bins: int,
    fill: T,
    out: Seq<Vec<T>>,
    back: Seq<Vec<T>>,
)
    requires
        has_shape(rows, rows.len() as int, n_bins),
        is_freq_major(rows, n_bins, fill, out),
        is_freq_major(out, rows.len() as int, fill, back),
    ensures
        back.len() == rows.len(),
        forall|t: int| 0 <= t < rows.len() ==> (#[trigger] back[t])@ == rows[t]@,
{
    assert forall|t: int| 0 <= t < rows.len() implies (#[trigger] back[t])@ == rows[t]@ by {
        assert(back[t]@.len() == n_bins);
        assert forall|f: int| 0 <= f < n_bins implies back[t]@[f] == rows[t]@[f] by {
            assert(out[f]@.len() == rows.len());
            assert(back[t]@[f] == out[f]@[t]);
            assert(out[f]@[t] == rows[t]@[f]);
        }
        assert(back[t]@ =~= rows[t]@);
    }
}

} // verus!
