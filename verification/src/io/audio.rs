use vstd::prelude::*;

verus! {

/// Why decoded audio is rejected.
#[derive(Debug, Clone, Copy, PartialEq, Eq, Structural)]
pub enum AudioError {
    /// Only mono and stereo are supported; this many channels were found.
    UnsupportedChannels(u16),
}

/// Number of mono frames that `n` interleaved samples of `channels` channels
/// give. A trailing incomplete stereo pair is dropped.
pub open spec fn mono_len(n: int, channels: int) -> int {
    if channels == 1 {
        n
    } else if channels == 2 {
        n / 2
    } else {
        0
    }
}

/// Sum over the channels of mono frame `i`.
pub open spec fn channel_sum(samples: Seq<i32>, channels: int, i: int) -> int {
    if channels == 2 {
        samples[2 * i] + samples[2 * i + 1]
    } else {
        samples[i] as int
    }
}

/// Number of channels that one mono frame sums: the divisor that turns a
/// channel sum into the frame's average.
pub open spec fn divisor_of(channels: int) -> int {
    if channels == 2 {
        2
    } else {
        1
    }
}

/// Accepts mono and stereo (and a stream without channels, which has no
/// samples); rejects anything with more than two channels.
pub fn check_channels(channels: u16) -> (r: Result<u16, AudioError>)
    ensures
        channels <= 2 ==> r == Ok::<u16, AudioError>(channels),
        channels > 2 ==> r == Err::<u16, AudioError>(AudioError::UnsupportedChannels(channels)),
{
    if channels > 2 {
        Err(AudioError::UnsupportedChannels(channels))
    } else {
        Ok(channels)
    }
}

/// Sums the channels of each frame of an interleaved integer stream. For mono
/// input each sum is the sample itself; for stereo it is left plus right, in
/// 64 bits so that it cannot overflow. The caller divides each sum by
/// `divisor_of(channels)` times the full-scale value to get the sample.
pub fn channel_sums(samples: &[i32], channels: u16) -> (sums: Vec<i64>)
    ensures
        sums@.len() == mono_len(samples@.len() as int, channels as int),
        forall|i: int|
            0 <= i < sums@.len() ==> #[trigger] sums@[i] == channel_sum(
                samples@,
                channels as int,
                i,
            ),
{
    let mut sums: Vec<i64> = Vec::new();
    if channels == 1 {
        let mut i: usize = 0;
        while i < samples.len()
            invariant
                i <= samples@.len(),
                sums@.len() == i,
                forall|j: int| 0 <= j < i ==> #[trigger] sums@[j] == samples@[j] as int,
            decreases samples@.len() - i,
        {
            sums.push(samples[i] as i64);
            i += 1;
        }
    } else if channels == 2 {
        let n: usize = samples.len();
        let frames: usize = n / 2;
        let mut i: usize = 0;
        while i < frames
            invariant
                i <= frames,
                n == samples@.len(),
                frames == n / 2,
                sums@.len() == i,
                forall|j: int|
                    0 <= j < i ==> #[trigger] sums@[j] == samples@[2 * j] + samples@[2 * j + 1],
            decreases frames - i,
        {
            let left: i64 = samples[2 * i] as i64;
            let right: i64 = samples[2 * i + 1] as i64;
            sums.push(left + right);
            i += 1;
        }
    }
    sums
}

/// The divisor that turns a channel sum into an average: two for stereo, one
/// otherwise.
pub fn channel_divisor(channels: u16) -> (d: u16)
    ensures
        d == divisor_of(channels as int),
{
    if channels == 2 {
        2
    } else {
        1
    }
}

/// The rate to resample to, if resampling is needed: a rate was requested and
/// it differs from the rate of the decoded audio.
pub fn resample_target(requested: Option<u32>, decoded: u32) -> (target: Option<u32>)
    ensures
        target is Some <==> (requested is Some && requested != Some(decoded)),
        target is Some ==> target == requested,
{
    match requested {
        Some(sr) => {
            if sr != decoded {
                Some(sr)
            } else {
                None
            }
        },
        None => None,
    }
}

} // verus!
