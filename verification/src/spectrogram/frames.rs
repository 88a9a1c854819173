use vstd::prelude::*;
use crate::error::ConfigError;

verus! {

/// Number of non-negative frequency bins of a real transform of size `n_fft`.
pub open spec fn freq_bins_of(n_fft: int) -> int {
    n_fft / 2 + 1
}

/// Number of frames of `win` samples, `hop` apart, that fit into `len` samples.
pub open spec fn frame_count_of(len: int, win: int, hop: int) -> int
    recommends
        hop > 0,
{
    if len >= win {
        (len - win) / hop + 1
    } else {
        0
    }
}

/// First sample of frame `k`.
pub open spec fn frame_start_of(k: int, hop: int) -> int {
    k * hop
}

/// One past the last sample of frame `k`, clamped to the signal.
pub open spec fn frame_end_of(k: int, hop: int, win: int, len: int) -> int {
    if k * hop + win <= len {
        k * hop + win
    } else {
        len
    }
}

/// Where the window starts inside the transform buffer.
pub open spec fn centering_offset_of(n_fft: int, win: int, center: bool) -> int {
    if center {
        (n_fft - win) / 2
    } else {
        0
    }
}

/// The first rule that a parameter triple breaks, if any.
pub open spec fn config_error_of(n_fft: int, hop: int, win: int) -> Option<ConfigError> {
    if win < 2 {
        Some(ConfigError::WindowTooShort)
    } else if win > n_fft {
        Some(ConfigError::WindowExceedsTransform)
    } else if hop <= 0 {
        Some(ConfigError::ZeroHop)
    } else {
        None
    }
}

/// The mathematical content of a validated configuration.
pub ghost struct StftParams {
    pub n_fft: int,
    pub hop_length: int,
    pub win_length: int,
    pub center: bool,
}

impl StftParams {
    /// The rules every accepted configuration obeys.
    pub open spec fn valid(self) -> bool {
        &&& self.hop_length >= 1
        &&& 2 <= self.win_length <= self.n_fft
    }

    pub open spec fn freq_bins(self) -> int {
        freq_bins_of(self.n_fft)
    }

    pub open spec fn offset(self) -> int {
        centering_offset_of(self.n_fft, self.win_length, self.center)
    }

    pub open spec fn frame_count(self, len: int) -> int {
        frame_count_of(len, self.win_length, self.hop_length)
    }

    pub open spec fn frame_start(self, k: int) -> int {
        frame_start_of(k, self.hop_length)
    }

    pub open spec fn frame_end(self, k: int, len: int) -> int {
        frame_end_of(k, self.hop_length, self.win_length, len)
    }
}

/// A validated short-time transform configuration.
#[derive(Debug, Clone, Copy)]
pub struct StftConfig {
    n_fft: usize,
    hop_length: usize,
    win_length: usize,
    center: bool,
}

impl View for StftConfig {
    type V = StftParams;

    closed spec fn view(&self) -> StftParams {
        StftParams {
            n_fft: self.n_fft as int,
            hop_length: self.hop_length as int,
            win_length: self.win_length as int,
            center: self.center,
        }
    }
}

impl StftConfig {
    #[verifier::type_invariant]
    spec fn well_formed(&self) -> bool {
        self@.valid()
    }

    /// Validates the parameters. The checks run in a fixed order, so the error
    /// names the first rule that is broken.
    pub fn new(n_fft: usize, hop_length: usize, win_length: usize, center: bool) -> (r: Result<
        StftConfig,
        ConfigError,
    >)
        ensures
            match r {
                Ok(cfg) => {
                    &&& config_error_of(n_fft as int, hop_length as int, win_length as int) is None
                    &&& cfg@ == (StftParams {
                        n_fft: n_fft as int,
                        hop_length: hop_length as int,
                        win_length: win_length as int,
                        center,
                    })
                    &&& cfg@.valid()
                },
                Err(e) => config_error_of(n_fft as int, hop_length as int, win_length as int)
                    == Some(e),
            },
    {
        if win_length < 2 {
            Err(ConfigError::WindowTooShort)
        } else if win_length > n_fft {
            Err(ConfigError::WindowExceedsTransform)
        } else if hop_length == 0 {
            Err(ConfigError::ZeroHop)
        } else {
            Ok(StftConfig { n_fft, hop_length, win_length, center })
        }
    }

    pub fn n_fft(&self) -> (n: usize)
        ensures
            n == self@.n_fft,
            self@.valid(),
    {
        proof {
            use_type_invariant(self);
        }
        self.n_fft
    }

    pub fn hop_length(&self) -> (h: usize)
        ensures
            h == self@.hop_length,
            self@.valid(),
    {
        proof {
            use_type_invariant(self);
        }
        self.hop_length
    }

    pub fn win_length(&self) -> (w: usize)
        ensures
            w == self@.win_length,
            self@.valid(),
    {
        proof {
            use_type_invariant(self);
        }
        self.win_length
    }

    pub fn center(&self) -> (c: bool)
        ensures
            c == self@.center,
            self@.valid(),
    {
        proof {
            use_type_invariant(self);
        }
        self.center
    }

    /// Number of rows of the spectrogram: `n_fft / 2 + 1`.
    pub fn n_freq_bins(&self) -> (bins: usize)
        ensures
            bins == self@.freq_bins(),
            bins == self@.n_fft / 2 + 1,
            self@.valid(),
    {
        proof {
            use_type_invariant(self);
        }
        self.n_fft / 2 + 1
    }

    /// Offset of the window inside the transform buffer: half of the padding
    /// when centering, zero otherwise.
    pub fn centering_offset(&self) -> (offset: usize)
        ensures
            offset == self@.offset(),
            offset + self@.win_length <= self@.n_fft,
            self@.valid(),
    {
        proof {
            use_type_invariant(self);
        }
        if self.center {
            (self.n_fft - self.win_length) / 2
        } else {
            0
        }
    }

    /// Number of frames of a signal of `len` samples: zero when the signal is
    /// shorter than one window.
    pub fn frame_count(&self, len: usize) -> (count: usize)
        ensures
            count == self@.frame_count(len as int),
            len < self@.win_length ==> count == 0,
            len == self@.win_length ==> count == 1,
            forall|k: int| 0 <= k ==> (k < count <==> #[trigger] (k * self@.hop_length)
                + self@.win_length <= len),
            self@.valid(),
    {
        proof {
            use_type_invariant(self);
            lemma_frame_count_counts(len as int, self.win_length as int, self.hop_length as int);
        }
        if len >= self.win_length {
            (len - self.win_length) / self.hop_length + 1
        } else {
            0
        }
    }

    /// Sample range of frame `k`, clamped to the signal; `None` when the frame
    /// would start beyond the end of the signal.
    pub fn frame_span(&self, k: usize, len: usize) -> (span: Option<(usize, usize)>)
        ensures
            span is None <==> self@.frame_start(k as int) > len,
            span matches Some(s) ==> {
                &&& s.0 == self@.frame_start(k as int)
                &&& s.1 == self@.frame_end(k as int, len as int)
                &&& s.0 <= s.1 <= len
                &&& s.1 - s.0 <= self@.win_length
            },
            self@.valid(),
    {
        proof {
            use_type_invariant(self);
            lemma_start_within(k as int, self.hop_length as int, len as int);
        }
        if k > len / self.hop_length {
            None
        } else {
            let start: usize = k * self.hop_length;
            let end: usize = if self.win_length <= len - start {
                start + self.win_length
            } else {
                len
            };
            Some((start, end))
        }
    }
}

/// `k * hop <= len` exactly when `k <= len / hop`.
pub proof fn lemma_start_within(k: int, hop: int, len: int)
    requires
        0 <= k,
        1 <= hop,
        0 <= len,
    ensures
        k * hop <= len <==> k <= len / hop,
        k * hop >= 0,
{
    assert(k * hop <= len <==> k <= len / hop) by (nonlinear_arith)
        requires
            0 <= k,
            1 <= hop,
            0 <= len,
    ;
    assert(k * hop >= 0) by (nonlinear_arith)
        requires
            0 <= k,
            1 <= hop,
    ;
}

/// The frame count is the number of frame indices whose whole window lies
/// inside the signal: frame `k` is counted exactly when `k * hop + win <= len`.
pub proof fn lemma_frame_count_counts(len: int, win: int, hop: int)
    requires
        0 <= len,
        0 <= win,
        1 <= hop,
    ensures
        frame_count_of(len, win, hop) >= 0,
        forall|k: int| 0 <= k ==> (k < frame_count_of(len, win, hop) <==> #[trigger] (k * hop)
            + win <= len),
{
    assert forall|k: int| 0 <= k implies (k < frame_count_of(len, win, hop) <==> #[trigger] (k
        * hop) + win <= len) by {
        if len >= win {
            lemma_start_within(k, hop, len - win);
        } else {
            lemma_start_within(k, hop, 0);
        }
    }
    if len >= win {
        assert((len - win) / hop >= 0) by (nonlinear_arith)
            requires
                len - win >= 0,
                hop >= 1,
        ;
    }
}

/// Every counted frame is a full window: it starts inside the signal, is never
/// dropped, and its clamped range has exactly `win` samples.
pub proof fn lemma_counted_frames_are_full(p: StftParams, len: int, k: int)
    requires
        p.valid(),
        0 <= len,
        0 <= k < p.frame_count(len),
    ensures
        p.frame_start(k) <= len,
        p.frame_end(k, len) == p.frame_start(k) + p.win_length,
        p.frame_end(k, len) <= len,
{
    lemma_frame_count_counts(len, p.win_length, p.hop_length);
    assert(k * p.hop_length + p.win_length <= len);
}

/// A longer signal never has fewer frames.
pub proof fn lemma_frame_count_monotone(p: StftParams, len_a: int, len_b: int)
    requires
        p.valid(),
        0 <= len_a <= len_b,
    ensures
        p.frame_count(len_a) <= p.frame_count(len_b),
{
    lemma_frame_count_counts(len_a, p.win_length, p.hop_length);
    lemma_frame_count_counts(len_b, p.win_length, p.hop_length);
    let na = p.frame_count(len_a);
    if na > 0 {
        let k = na - 1;
        assert(k * p.hop_length + p.win_length <= len_a);
        assert(k < p.frame_count(len_b));
    }
}

/// Centering pads both sides of the window alike: the padding after the window
/// is the padding before it, or one entry more when the total is odd. Without
/// centering all of the padding follows the window.
pub proof fn lemma_centering_is_symmetric(p: StftParams)
    requires
        p.valid(),
    ensures
        0 <= p.offset(),
        p.offset() + p.win_length <= p.n_fft,
        p.center ==> {
            let after = p.n_fft - p.win_length - p.offset();
            after == p.offset() || after == p.offset() + 1
        },
        !p.center ==> p.offset() == 0,
{
}

/// The number of frequency bins is `n_fft / 2 + 1` for every transform size,
/// and never exceeds the transform size once that is at least two.
pub proof fn lemma_freq_bins(n_fft: int)
    requires
        0 <= n_fft,
    ensures
        freq_bins_of(n_fft) == n_fft / 2 + 1,
        freq_bins_of(n_fft) >= 1,
        n_fft >= 2 ==> freq_bins_of(n_fft) <= n_fft,
{
}

} // verus!
