use rustfft::num_complex::Complex;
use rustfft::FftPlanner;
use spectrs::error::ConfigError;
use spectrs::spectrogram::frames::StftConfig;
use spectrs::spectrogram::mel::{
    bin_frequencies, build_filter_bank, check_boundaries, convert_to_mel as mel_stage,
    create_mel_filter_bank as mel_bank, mel_boundaries, par_convert_to_mel as par_mel_stage,
    validate_mel, MelScale,
};
use spectrs::spectrogram::projector::{
    apply_filter_bank, par_apply_filter_bank, project_entry, project_row,
};
use spectrs::spectrogram::stft::{par_compute_spectrogram as par_engine, SpectrogramType};

fn hann_weight(i: usize, last: usize) -> f32 {
    0.5 * (1.0 - (2.0 * std::f32::consts::PI * i as f32 / last as f32).cos())
}

fn par_compute_spectrogram(
    audio: &[f32],
    n_fft: usize,
    hop_length: usize,
    win_length: usize,
    center: bool,
    spectrogram_type: SpectrogramType,
) -> Vec<Vec<f32>> {
    let cfg = StftConfig::new(n_fft, hop_length, win_length, center).unwrap();
    let mut planner = FftPlanner::<f32>::new();
    let fft = planner.plan_fft_forward(n_fft);
    par_engine(
        &cfg,
        audio,
        Complex::new(0.0, 0.0),
        0.0f32,
        spectrogram_type,
        hann_weight,
        |s: f32, w: f32| Complex::new(s * w, 0.0),
        |mut buf: Vec<Complex<f32>>| {
            fft.process(&mut buf);
            buf
        },
        |c: Complex<f32>| c.norm(),
        |c: Complex<f32>| c.norm_sqr(),
    )
}

fn hz_to_mel(hz: f32, mel_scale: MelScale) -> f32 {
    match mel_scale {
        MelScale::HTK => 2595.0 * (1.0 + hz / 700.0).log10(),
        MelScale::Slaney => {
            if hz < 1000.0 {
                3.0 * hz / 200.0
            } else {
                15.0 + 27.0 * (hz / 1000.0).log(6.4)
            }
        }
    }
}

fn mel_to_hz(mel: f32, mel_scale: MelScale) -> f32 {
    match mel_scale {
        MelScale::HTK => 700.0 * (10.0f32.powf(mel / 2595.0) - 1.0),
        MelScale::Slaney => {
            if mel < 15.0 {
                200.0 * mel / 3.0
            } else {
                6.4f32.powf((mel - 15.0) / 27.0) * 1000.0
            }
        }
    }
}

fn below(a: f32, b: f32) -> bool {
    a < b
}

/// Weight of one bin under a triangular filter with Slaney normalisation.
fn weight(lower_edge: f32, peak: f32, upper_edge: f32, bin_freq: f32) -> f32 {
    let lower = -(lower_edge - bin_freq) / (peak - lower_edge);
    let upper = (upper_edge - bin_freq) / (upper_edge - peak);
    0.0f32.max(lower.min(upper)) * (2.0 / (upper_edge - lower_edge))
}

fn accumulate(acc: f32, value: f32, weight: f32) -> f32 {
    acc + value * weight
}

fn try_create_mel_filter_bank(
    sr: u32,
    n_fft: usize,
    n_mels: usize,
    f_min: Option<f32>,
    f_max: Option<f32>,
    mel_scale: MelScale,
) -> Result<Vec<Vec<f32>>, ConfigError> {
    let f_min = f_min.unwrap_or(0.0);
    let f_max = f_max.unwrap_or(sr as f32 / 2.0);
    let point = |scale: MelScale, i: usize, last: usize| {
        let mel_min = hz_to_mel(f_min, scale);
        let mel_max = hz_to_mel(f_max, scale);
        mel_to_hz(mel_min + (mel_max - mel_min) * i as f32 / last as f32, scale)
    };
    mel_bank(
        n_fft,
        n_mels,
        f_min,
        f_max,
        mel_scale,
        &below,
        &|i: usize, last: usize| point(MelScale::HTK, i, last),
        &|i: usize, last: usize| point(MelScale::Slaney, i, last),
        &|j: usize| j as f32 * sr as f32 / n_fft as f32,
        &weight,
    )
}

fn create_mel_filter_bank(
    sr: u32,
    n_fft: usize,
    n_mels: usize,
    f_min: Option<f32>,
    f_max: Option<f32>,
    mel_scale: MelScale,
) -> Vec<Vec<f32>> {
    try_create_mel_filter_bank(sr, n_fft, n_mels, f_min, f_max, mel_scale).unwrap()
}

fn try_convert_to_mel(
    spectrogram: &Vec<Vec<f32>>,
    sr: u32,
    n_fft: usize,
    n_mels: usize,
    f_min: Option<f32>,
    f_max: Option<f32>,
    mel_scale: MelScale,
) -> Result<Vec<Vec<f32>>, ConfigError> {
    let f_min = f_min.unwrap_or(0.0);
    let f_max = f_max.unwrap_or(sr as f32 / 2.0);
    let point = |scale: MelScale, i: usize, last: usize| {
        let mel_min = hz_to_mel(f_min, scale);
        let mel_max = hz_to_mel(f_max, scale);
        mel_to_hz(mel_min + (mel_max - mel_min) * i as f32 / last as f32, scale)
    };
    mel_stage(
        spectrogram,
        n_fft,
        n_mels,
        f_min,
        f_max,
        mel_scale,
        0.0,
        &below,
        &|i: usize, last: usize| point(MelScale::HTK, i, last),
        &|i: usize, last: usize| point(MelScale::Slaney, i, last),
        &|j: usize| j as f32 * sr as f32 / n_fft as f32,
        &weight,
        &accumulate,
    )
}

fn convert_to_mel(
    spectrogram: &Vec<Vec<f32>>,
    sr: u32,
    n_fft: usize,
    n_mels: usize,
    f_min: Option<f32>,
    f_max: Option<f32>,
    mel_scale: MelScale,
) -> Vec<Vec<f32>> {
    try_convert_to_mel(spectrogram, sr, n_fft, n_mels, f_min, f_max, mel_scale).unwrap()
}

/// The same stage with one mel bin per unit of parallel work.
fn par_convert_to_mel(
    spectrogram: &Vec<Vec<f32>>,
    sr: u32,
    n_fft: usize,
    n_mels: usize,
    f_min: Option<f32>,
    f_max: Option<f32>,
    mel_scale: MelScale,
) -> Vec<Vec<f32>> {
    let f_min = f_min.unwrap_or(0.0);
    let f_max = f_max.unwrap_or(sr as f32 / 2.0);
    let point = |scale: MelScale, i: usize, last: usize| {
        let mel_min = hz_to_mel(f_min, scale);
        let mel_max = hz_to_mel(f_max, scale);
        mel_to_hz(mel_min + (mel_max - mel_min) * i as f32 / last as f32, scale)
    };
    par_mel_stage(
        spectrogram,
        n_fft,
        n_mels,
        f_min,
        f_max,
        mel_scale,
        0.0,
        &below,
        &|i: usize, last: usize| point(MelScale::HTK, i, last),
        &|i: usize, last: usize| point(MelScale::Slaney, i, last),
        &|j: usize| j as f32 * sr as f32 / n_fft as f32,
        &weight,
        &accumulate,
    )
    .unwrap()
}

fn sine(freq: f32, sr: u32, num_samples: usize) -> Vec<f32> {
    (0..num_samples)
        .map(|t| (t as f32 * freq * 2.0 * std::f32::consts::PI / sr as f32).sin())
        .collect()
}

fn sine_spectrogram(sr: u32, duration: f32, ty: SpectrogramType) -> Vec<Vec<f32>> {
    let num_samples = (duration * sr as f32) as usize;
    par_compute_spectrogram(&sine(440.0, sr, num_samples), 512, 160, 400, false, ty)
}

#[test]
fn test_convert_to_mel_basic() {
    let sr = 16000;
    let n_fft = 512;
    let spec = sine_spectrogram(sr, 1.0, SpectrogramType::Power);

    let n_mels = 40;
    let mel_spec = convert_to_mel(&spec, sr, n_fft, n_mels, None, None, MelScale::HTK);

    assert_eq!(mel_spec.len(), n_mels);
    assert_eq!(mel_spec[0].len(), spec[0].len());

    for mel_bin in &mel_spec {
        for &value in mel_bin {
            assert!(value >= 0.0);
        }
    }
}

#[test]
fn test_convert_to_mel_htk_vs_slaney() {
    let sr = 16000;
    let n_fft = 512;
    let spec = sine_spectrogram(sr, 0.5, SpectrogramType::Power);

    let n_mels = 40;
    let mel_spec_htk = convert_to_mel(&spec, sr, n_fft, n_mels, None, None, MelScale::HTK);
    let mel_spec_slaney = convert_to_mel(&spec, sr, n_fft, n_mels, None, None, MelScale::Slaney);

    assert_eq!(mel_spec_htk.len(), mel_spec_slaney.len());
    assert_eq!(mel_spec_htk[0].len(), mel_spec_slaney[0].len());

    let mut differences = 0;
    for i in 0..mel_spec_htk.len() {
        for j in 0..mel_spec_htk[0].len() {
            if (mel_spec_htk[i][j] - mel_spec_slaney[i][j]).abs() > 0.001 {
                differences += 1;
            }
        }
    }

    assert!(differences > 0);
}

#[test]
fn test_convert_to_mel_different_n_mels() {
    let sr = 16000;
    let n_fft = 512;
    let spec = sine_spectrogram(sr, 0.5, SpectrogramType::Power);

    let n_mels_values = vec![20, 40, 80, 128];

    for n_mels in n_mels_values {
        let mel_spec = convert_to_mel(&spec, sr, n_fft, n_mels, None, None, MelScale::HTK);

        assert_eq!(mel_spec.len(), n_mels);
        assert_eq!(mel_spec[0].len(), spec[0].len());
    }
}

#[test]
fn test_convert_to_mel_with_frequency_range() {
    let sr = 16000;
    let n_fft = 512;
    let spec = sine_spectrogram(sr, 0.5, SpectrogramType::Power);

    let n_mels = 40;
    let mel_spec_default = convert_to_mel(&spec, sr, n_fft, n_mels, None, None, MelScale::HTK);

    let f_min = 300.0;
    let f_max = 4000.0;
    let mel_spec_custom = convert_to_mel(
        &spec,
        sr,
        n_fft,
        n_mels,
        Some(f_min),
        Some(f_max),
        MelScale::HTK,
    );

    assert_eq!(mel_spec_default.len(), mel_spec_custom.len());
    assert_eq!(mel_spec_default[0].len(), mel_spec_custom[0].len());

    let mut differences = 0;
    for i in 0..mel_spec_default.len() {
        for j in 0..mel_spec_default[0].len() {
            if (mel_spec_default[i][j] - mel_spec_custom[i][j]).abs() > 0.001 {
                differences += 1;
            }
        }
    }

    assert!(differences > 0);
}

#[test]
fn test_convert_to_mel_energy_conservation() {
    let sr = 16000;
    let n_fft = 512;
    let spec = sine_spectrogram(sr, 0.5, SpectrogramType::Power);

    let total_energy_orig: f32 = spec
        .iter()
        .map(|freq_bin| freq_bin.iter().sum::<f32>())
        .sum();

    let n_mels = 40;
    let mel_spec = convert_to_mel(&spec, sr, n_fft, n_mels, None, None, MelScale::HTK);

    let total_energy_mel: f32 = mel_spec
        .iter()
        .map(|mel_bin| mel_bin.iter().sum::<f32>())
        .sum();

    assert!(total_energy_mel > 0.0);
    assert!(total_energy_orig > 0.0);
}

#[test]
fn test_convert_to_mel_magnitude_vs_power() {
    let sr = 16000;
    let n_fft = 512;
    let spec_power = sine_spectrogram(sr, 0.5, SpectrogramType::Power);
    let spec_magnitude = sine_spectrogram(sr, 0.5, SpectrogramType::Magnitude);

    let n_mels = 40;
    let mel_spec_power = convert_to_mel(&spec_power, sr, n_fft, n_mels, None, None, MelScale::HTK);
    let mel_spec_magnitude = convert_to_mel(
        &spec_magnitude,
        sr,
        n_fft,
        n_mels,
        None,
        None,
        MelScale::HTK,
    );

    assert_eq!(mel_spec_power.len(), mel_spec_magnitude.len());
    assert_eq!(mel_spec_power[0].len(), mel_spec_magnitude[0].len());

    let mut differences = 0;
    for i in 0..mel_spec_power.len() {
        for j in 0..mel_spec_power[0].len() {
            if (mel_spec_power[i][j] - mel_spec_magnitude[i][j]).abs() > 0.001 {
                differences += 1;
            }
        }
    }

    assert!(differences > 0);
}

#[test]
fn test_convert_to_mel_vs_par_convert_to_mel() {
    let sr = 22050;
    let duration = 2.0;
    let num_samples = (duration * sr as f32) as usize;

    let samples: Vec<f32> = (0..num_samples)
        .map(|t| {
            let t_sec = t as f32 / sr as f32;
            (t_sec * 440.0 * 2.0 * std::f32::consts::PI).sin() * 0.5
                + (t_sec * 880.0 * 2.0 * std::f32::consts::PI).sin() * 0.3
                + (t_sec * 1320.0 * 2.0 * std::f32::consts::PI).sin() * 0.2
        })
        .collect();

    let n_fft = 2048;
    let hop_length = 512;
    let win_length = 2048;

    let spec = par_compute_spectrogram(
        &samples,
        n_fft,
        hop_length,
        win_length,
        true,
        SpectrogramType::Power,
    );

    let n_mels = 128;
    let f_min = Some(0.0);
    let f_max = Some((sr / 2) as f32);

    for mel_scale in [MelScale::Slaney, MelScale::HTK] {
        let mel_spec_seq = convert_to_mel(&spec, sr, n_fft, n_mels, f_min, f_max, mel_scale);
        let mel_spec_par = par_convert_to_mel(&spec, sr, n_fft, n_mels, f_min, f_max, mel_scale);

        assert_eq!(mel_spec_seq.len(), mel_spec_par.len());
        assert_eq!(mel_spec_seq[0].len(), mel_spec_par[0].len());

        let tolerance = 1e-6;
        for i in 0..mel_spec_seq.len() {
            for j in 0..mel_spec_seq[0].len() {
                let diff = (mel_spec_seq[i][j] - mel_spec_par[i][j]).abs();
                assert!(
                    diff < tolerance,
                    "Mismatch at [{},{}] for {:?}: seq={}, par={}, diff={}",
                    i,
                    j,
                    mel_scale,
                    mel_spec_seq[i][j],
                    mel_spec_par[i][j],
                    diff
                );
            }
        }
    }
}

#[test]
fn test_par_convert_to_mel_basic() {
    let sr = 16000;
    let n_fft = 512;
    let spec = sine_spectrogram(sr, 1.0, SpectrogramType::Power);

    let mel_spec = par_convert_to_mel(
        &spec,
        sr,
        n_fft,
        40,
        Some(0.0),
        Some(8000.0),
        MelScale::Slaney,
    );

    assert_eq!(mel_spec.len(), 40);
    assert!(mel_spec[0].len() > 0);

    for mel_bin in &mel_spec {
        for &value in mel_bin {
            assert!(
                value >= 0.0,
                "Mel spectrogram values should be non-negative"
            );
        }
    }

    let total_energy: f32 = mel_spec.iter().flatten().sum();
    assert!(
        total_energy > 0.0,
        "Mel spectrogram should have some energy"
    );
}

#[test]
fn test_filter_bank_rows_are_non_negative_with_contiguous_support() {
    for mel_scale in [MelScale::HTK, MelScale::Slaney] {
        let bank = create_mel_filter_bank(16000, 512, 40, None, None, mel_scale);
        assert_eq!(bank.len(), 40);
        for row in &bank {
            assert_eq!(row.len(), 257);
            assert!(row.iter().all(|&w| w >= 0.0));
            let support: Vec<usize> = (0..row.len()).filter(|&j| row[j] > 0.0).collect();
            assert!(!support.is_empty());
            let first = support[0];
            let last = support[support.len() - 1];
            assert_eq!(last - first + 1, support.len());
        }
    }
}

#[test]
fn test_filter_bank_of_htk_and_slaney_differ_in_weights_not_in_shape() {
    let htk = create_mel_filter_bank(16000, 512, 40, None, None, MelScale::HTK);
    let slaney = create_mel_filter_bank(16000, 512, 40, None, None, MelScale::Slaney);
    assert_eq!(htk.len(), 40);
    assert_eq!(slaney.len(), 40);
    for (a, b) in htk.iter().zip(slaney.iter()) {
        assert_eq!(a.len(), 257);
        assert_eq!(b.len(), 257);
    }
    assert_ne!(htk, slaney);
}

#[test]
fn test_filter_bank_with_integer_kernel() {
    let mel = [0i64, 10, 20, 40];
    let bins = [5i64, 15, 30];
    let tag = |lo: i64, peak: i64, hi: i64, f: i64| lo * 1_000_000 + peak * 10_000 + hi * 100 + f;
    let bank = build_filter_bank(&mel, &bins, &tag);
    assert_eq!(
        bank,
        vec![
            vec![102_005, 102_015, 102_030],
            vec![10_204_005, 10_204_015, 10_204_030],
        ]
    );
}

#[test]
fn test_filter_bank_needs_three_points() {
    let id = |_: i64, peak: i64, _: i64, _: i64| peak;
    assert_eq!(build_filter_bank(&[1i64, 2], &[0i64, 1], &id), Vec::<Vec<i64>>::new());
    assert_eq!(build_filter_bank(&[], &[0i64, 1], &id), Vec::<Vec<i64>>::new());
    assert_eq!(
        build_filter_bank(&[1i64, 2, 3], &[], &id),
        vec![Vec::<i64>::new()]
    );
}

#[test]
fn test_projection_is_the_matrix_product() {
    let spectrogram = vec![vec![1i64, 2], vec![3, 4], vec![5, 6]];
    let filters = vec![vec![1i64, 0, 0], vec![1, 1, 1], vec![2, 0, -1]];
    let multiply_add = |acc: i64, x: i64, y: i64| acc + x * y;
    assert_eq!(
        apply_filter_bank(&spectrogram, &filters, 0, &multiply_add),
        vec![vec![1, 2], vec![9, 12], vec![-3, -2]]
    );
    assert_eq!(project_entry(&spectrogram, &filters[2], 1, 100, &multiply_add), 98);
}

#[test]
fn test_projection_folds_in_bin_order() {
    let spectrogram = vec![vec![1i64], vec![2], vec![3]];
    let filters = vec![vec![1i64, 1, 1]];
    let digits = |acc: i64, x: i64, y: i64| acc * 10 + x * y;
    assert_eq!(apply_filter_bank(&spectrogram, &filters, 0, &digits), vec![vec![123]]);
}

#[test]
fn test_projection_uses_the_bins_that_both_sides_have() {
    let spectrogram = vec![vec![1i64, 2], vec![3, 4], vec![5, 6]];
    let multiply_add = |acc: i64, x: i64, y: i64| acc + x * y;
    let short = vec![vec![1i64, 1]];
    assert_eq!(apply_filter_bank(&spectrogram, &short, 0, &multiply_add), vec![vec![4, 6]]);
    let long = vec![vec![1i64, 1, 1, 1, 1]];
    assert_eq!(apply_filter_bank(&spectrogram, &long, 0, &multiply_add), vec![vec![9, 12]]);
}

#[test]
fn test_projection_of_empty_inputs() {
    let multiply_add = |acc: i64, x: i64, y: i64| acc + x * y;
    let no_bins: Vec<Vec<i64>> = Vec::new();
    let filters = vec![vec![1i64, 1], vec![2, 2]];
    assert_eq!(
        apply_filter_bank(&no_bins, &filters, 0, &multiply_add),
        vec![Vec::<i64>::new(), Vec::new()]
    );
    let no_frames: Vec<Vec<i64>> = vec![Vec::new(), Vec::new()];
    assert_eq!(
        apply_filter_bank(&no_frames, &filters, 0, &multiply_add),
        vec![Vec::<i64>::new(), Vec::new()]
    );
    let spectrogram = vec![vec![1i64, 2]];
    let no_filters: Vec<Vec<i64>> = Vec::new();
    assert_eq!(
        apply_filter_bank(&spectrogram, &no_filters, 0, &multiply_add),
        Vec::<Vec<i64>>::new()
    );
}

#[test]
fn test_mel_stage_with_integer_kernels() {
    let spectrogram = vec![vec![1i64, 2], vec![3, 4]];
    let less = |a: i64, b: i64| a < b;
    let htk = |i: usize, _last: usize| i as i64;
    let slaney = |i: usize, last: usize| (10 * i + last) as i64;
    let bin = |j: usize| 10 * (j as i64 + 1);
    let weight = |lo: i64, _peak: i64, hi: i64, f: i64| f * (hi - lo) + lo;
    let multiply_add = |acc: i64, x: i64, y: i64| acc + x * y;
    // Bins 10, 20. HTK points 0, 1, 2, 3: filters [[20, 40], [21, 41]].
    assert_eq!(
        mel_bank(2, 2, 0, 9, MelScale::HTK, &less, &htk, &slaney, &bin, &weight),
        Ok(vec![vec![20, 40], vec![21, 41]])
    );
    assert_eq!(
        mel_stage(
            &spectrogram,
            2,
            2,
            0,
            9,
            MelScale::HTK,
            0,
            &less,
            &htk,
            &slaney,
            &bin,
            &weight,
            &multiply_add
        ),
        Ok(vec![vec![140, 200], vec![144, 206]])
    );
    // Slaney points 3, 13, 23, 33: filters [[203, 403], [213, 413]].
    assert_eq!(
        mel_bank(3, 2, 0, 9, MelScale::Slaney, &less, &htk, &slaney, &bin, &weight),
        Ok(vec![vec![203, 403], vec![213, 413]])
    );
    assert_eq!(
        mel_stage(
            &spectrogram,
            3,
            2,
            0,
            9,
            MelScale::Slaney,
            0,
            &less,
            &htk,
            &slaney,
            &bin,
            &weight,
            &multiply_add
        ),
        Ok(vec![vec![1412, 2018], vec![1452, 2078]])
    );
}

#[test]
fn test_filter_bank_has_half_plus_one_columns() {
    let less = |a: i64, b: i64| a < b;
    let point = |i: usize, _last: usize| i as i64;
    let bin = |j: usize| j as i64;
    let weight = |_lo: i64, _peak: i64, _hi: i64, f: i64| f;
    for n_fft in [0usize, 1, 2, 3, 8, 9, 512] {
        let bank = mel_bank(n_fft, 3, 0, 1, MelScale::HTK, &less, &point, &point, &bin, &weight)
            .unwrap();
        assert_eq!(bank.len(), 3);
        for row in &bank {
            assert_eq!(row.len(), n_fft / 2 + 1);
            assert_eq!(row[n_fft / 2], (n_fft / 2) as i64);
        }
    }
    assert_eq!(bin_frequencies(6, &|j: usize| 100 * j), vec![0, 100, 200, 300]);
    assert_eq!(bin_frequencies(0, &|j: usize| 100 * j), vec![0]);
}

#[test]
fn test_mel_stage_rejects_in_order() {
    let spectrogram = vec![vec![1i64, 2], vec![3, 4]];
    let less = |a: i64, b: i64| a < b;
    let rising = |i: usize, _last: usize| i as i64;
    let flat = |_i: usize, _last: usize| 5i64;
    let bin = |j: usize| 10 * (j as i64 + 1);
    let weight = |lo: i64, _peak: i64, hi: i64, f: i64| f * (hi - lo) + lo;
    let multiply_add = |acc: i64, x: i64, y: i64| acc + x * y;
    let run = |n_mels: usize, f_min: i64, f_max: i64, scale: MelScale| {
        mel_stage(
            &spectrogram,
            2,
            n_mels,
            f_min,
            f_max,
            scale,
            0,
            &less,
            &rising,
            &flat,
            &bin,
            &weight,
            &multiply_add,
        )
    };
    assert_eq!(run(0, 9, 0, MelScale::Slaney), Err(ConfigError::ZeroMels));
    assert_eq!(run(3, 9, 0, MelScale::Slaney), Err(ConfigError::EmptyBand));
    assert_eq!(run(3, 9, 9, MelScale::HTK), Err(ConfigError::EmptyBand));
    assert_eq!(run(3, 0, 9, MelScale::Slaney), Err(ConfigError::DegenerateMelSpacing));
    assert!(run(3, 0, 9, MelScale::HTK).is_ok());
    assert_eq!(
        mel_bank(2, 3, 0, 9, MelScale::Slaney, &less, &rising, &flat, &bin, &weight),
        Err(ConfigError::DegenerateMelSpacing)
    );
}

#[test]
fn test_float_filter_bank_rejections() {
    assert_eq!(
        try_create_mel_filter_bank(16000, 512, 0, None, None, MelScale::HTK),
        Err(ConfigError::ZeroMels)
    );
    assert_eq!(
        try_create_mel_filter_bank(16000, 512, 40, Some(4000.0), Some(300.0), MelScale::HTK),
        Err(ConfigError::EmptyBand)
    );
    assert_eq!(
        try_create_mel_filter_bank(16000, 512, 40, Some(8000.0), None, MelScale::Slaney),
        Err(ConfigError::EmptyBand)
    );
    let spec = vec![vec![0.0f32; 3]; 257];
    assert_eq!(
        try_convert_to_mel(&spec, 16000, 512, 0, None, None, MelScale::Slaney),
        Err(ConfigError::ZeroMels)
    );
}

#[test]
fn test_mel_boundaries_has_two_more_points_than_filters() {
    let index = |i: usize, last: usize| (i, last);
    assert_eq!(
        mel_boundaries(2, &index),
        Ok(vec![(0, 3), (1, 3), (2, 3), (3, 3)])
    );
    assert_eq!(mel_boundaries(40, &index).map(|points| points.len()), Ok(42));
    assert_eq!(mel_boundaries(1, &index), Ok(vec![(0, 2), (1, 2), (2, 2)]));
}

#[test]
fn test_mel_boundaries_rejects_zero_filters() {
    let index = |i: usize, last: usize| (i, last);
    assert_eq!(mel_boundaries(0, &index), Err(ConfigError::ZeroMels));
}

#[test]
fn test_validate_mel() {
    let less = |a: i32, b: i32| a < b;
    assert_eq!(validate_mel(40, 0, 8000, &less), Ok(()));
    assert_eq!(validate_mel(0, 0, 8000, &less), Err(ConfigError::ZeroMels));
    assert_eq!(validate_mel(0, 8000, 0, &less), Err(ConfigError::ZeroMels));
    assert_eq!(validate_mel(40, 8000, 8000, &less), Err(ConfigError::EmptyBand));
    assert_eq!(validate_mel(40, 8000, 300, &less), Err(ConfigError::EmptyBand));
    assert_eq!(validate_mel(1, 300.0f32, 4000.0, &below), Ok(()));
    assert_eq!(validate_mel(1, 4000.0f32, 4000.0, &below), Err(ConfigError::EmptyBand));
}

#[test]
fn test_check_boundaries() {
    let less = |a: i32, b: i32| a < b;
    assert_eq!(check_boundaries(&[0, 5, 10, 20], &less), Ok(()));
    assert_eq!(check_boundaries(&[0, 5, 5, 20], &less), Ok(()));
    assert_eq!(
        check_boundaries(&[0, 5, 0, 20], &less),
        Err(ConfigError::DegenerateMelSpacing)
    );
    assert_eq!(
        check_boundaries(&[0, 5, 10, 5], &less),
        Err(ConfigError::DegenerateMelSpacing)
    );
    assert_eq!(
        check_boundaries(&[7, 7, 7], &less),
        Err(ConfigError::DegenerateMelSpacing)
    );
    assert_eq!(check_boundaries(&[0, 5], &less), Err(ConfigError::ZeroMels));
    assert_eq!(check_boundaries(&[], &less), Err(ConfigError::ZeroMels));
}

#[test]
fn test_narrow_band_with_one_filter_is_degenerate() {
    let points = mel_boundaries(1, &|_: usize, _: usize| 1000.0f32).unwrap();
    assert_eq!(check_boundaries(&points, &below), Err(ConfigError::DegenerateMelSpacing));
}

#[test]
fn test_parallel_projection_is_the_matrix_product() {
    let spectrogram = vec![vec![1i64, 2], vec![3, 4], vec![5, 6]];
    let filters = vec![vec![1i64, 0, 0], vec![1, 1, 1], vec![2, 0, -1]];
    let multiply_add = |acc: i64, x: i64, y: i64| acc + x * y;
    assert_eq!(
        par_apply_filter_bank(&spectrogram, &filters, 0, &multiply_add),
        vec![vec![1, 2], vec![9, 12], vec![-3, -2]]
    );
    assert_eq!(project_row(&spectrogram, &filters, 1, 0, &multiply_add), vec![9, 12]);
    let no_filters: Vec<Vec<i64>> = Vec::new();
    assert_eq!(
        par_apply_filter_bank(&spectrogram, &no_filters, 0, &multiply_add),
        Vec::<Vec<i64>>::new()
    );
}

#[test]
fn test_parallel_projection_keeps_the_filters_in_order() {
    let spectrogram = vec![vec![1i64, 10]];
    let filters: Vec<Vec<i64>> = (0..500).map(|i| vec![i]).collect();
    let multiply_add = |acc: i64, x: i64, y: i64| acc + x * y;
    let out = par_apply_filter_bank(&spectrogram, &filters, 0, &multiply_add);
    let expected: Vec<Vec<i64>> = (0..500).map(|i| vec![i, 10 * i]).collect();
    assert_eq!(out, expected);
    assert_eq!(apply_filter_bank(&spectrogram, &filters, 0, &multiply_add), expected);
}

#[test]
fn test_parallel_mel_stage_with_integer_kernels() {
    let spectrogram = vec![vec![1i64, 2], vec![3, 4]];
    let less = |a: i64, b: i64| a < b;
    let htk = |i: usize, _last: usize| i as i64;
    let slaney = |i: usize, last: usize| (10 * i + last) as i64;
    let flat = |_i: usize, _last: usize| 5i64;
    let bin = |j: usize| 10 * (j as i64 + 1);
    let weight = |lo: i64, _peak: i64, hi: i64, f: i64| f * (hi - lo) + lo;
    let multiply_add = |acc: i64, x: i64, y: i64| acc + x * y;
    assert_eq!(
        par_mel_stage(
            &spectrogram,
            2,
            2,
            0,
            9,
            MelScale::Slaney,
            0,
            &less,
            &htk,
            &slaney,
            &bin,
            &weight,
            &multiply_add
        ),
        Ok(vec![vec![1412, 2018], vec![1452, 2078]])
    );
    assert_eq!(
        par_mel_stage(
            &spectrogram,
            2,
            2,
            0,
            9,
            MelScale::Slaney,
            0,
            &less,
            &htk,
            &flat,
            &bin,
            &weight,
            &multiply_add
        ),
        Err(ConfigError::DegenerateMelSpacing)
    );
    assert_eq!(
        par_mel_stage(
            &spectrogram,
            2,
            0,
            0,
            9,
            MelScale::HTK,
            0,
            &less,
            &htk,
            &slaney,
            &bin,
            &weight,
            &multiply_add
        ),
        Err(ConfigError::ZeroMels)
    );
}

#[test]
fn test_hz_mel_round_trip() {
    for mel_scale in [MelScale::HTK, MelScale::Slaney] {
        for hz in [0.0f32, 500.0, 1000.0, 5000.0, 20000.0] {
            let back = mel_to_hz(hz_to_mel(hz, mel_scale), mel_scale);
            assert!((back - hz).abs() <= 1e-3 * hz.max(1.0), "{} vs {}", back, hz);
        }
    }
    assert!((hz_to_mel(1000.0, MelScale::Slaney) - 15.0).abs() < 1e-6);
    assert!((hz_to_mel(200.0, MelScale::Slaney) - 3.0).abs() < 1e-6);
    assert!((hz_to_mel(700.0, MelScale::HTK) - 2595.0 * 2.0f32.log10()).abs() < 1e-3);
}
