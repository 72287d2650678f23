use spectrum_ares::dsp::analyzer::{
    analyzer_needs_reset, build_log_band_ranges, BandBinRange, BandEdges, SampleWindow,
};
use spectrum_ares::dsp::bands::DEFAULT_BAND_COUNT;
use spectrum_ares::dsp::fft::{FftPlan, DEFAULT_FFT_FRAME_SIZE, DEFAULT_FFT_HOP_SIZE};

#[test]
fn frames_overlap_by_what_the_hop_leaves() {
    let mut window = SampleWindow::new(4, 3);
    assert!(window.push_samples(&[1, 2, 3]).is_empty());
    assert_eq!(window.push_samples(&[4]), vec![vec![1, 2, 3, 4]]);
    assert_eq!(
        window.push_samples(&[5, 6, 7, 8, 9, 10, 11]),
        vec![vec![4, 5, 6, 7], vec![7, 8, 9, 10]]
    );
    assert!(window.push_samples(&[]).is_empty());
    assert_eq!(window.push_samples(&[12, 13]), vec![vec![10, 11, 12, 13]]);
}

#[test]
fn portions_do_not_matter() {
    let samples: Vec<u32> = (0..100).collect();
    let mut whole = SampleWindow::new(7, 5);
    let wanted = whole.push_samples(&samples);
    assert_eq!(wanted.len(), 1 + (100 - 7) / 5);
    for size in 1..=40 {
        let mut window = SampleWindow::new(7, 5);
        let mut frames = Vec::new();
        for portion in samples.chunks(size) {
            frames.extend(window.push_samples(portion));
        }
        assert_eq!(frames, wanted);
    }
}

#[test]
fn default_frames() {
    let mut window = SampleWindow::with_default_sizes();
    let samples = vec![0.5_f32; DEFAULT_FFT_FRAME_SIZE + 2 * DEFAULT_FFT_HOP_SIZE];
    let frames = window.push_samples(&samples);
    assert_eq!(frames.len(), 3);
    assert!(frames.iter().all(|frame| frame.len() == 4096));
    let plan = FftPlan::new(48_000, DEFAULT_FFT_FRAME_SIZE);
    assert_eq!((plan.sample_rate, plan.frame_size), (48_000, 4096));
    assert_eq!(DEFAULT_BAND_COUNT, 64);
}

#[test]
fn a_new_sample_rate_needs_a_new_analyzer() {
    assert!(analyzer_needs_reset(None, 48_000));
    assert!(analyzer_needs_reset(Some(44_100), 48_000));
    assert!(!analyzer_needs_reset(Some(48_000), 48_000));
}

#[test]
fn bands_have_bins_inside_of_the_spectrum() {
    let edges = vec![
        BandEdges { low: 0, high: 0 },
        BandEdges { low: 2, high: 5 },
        BandEdges { low: 5, high: 6 },
        BandEdges { low: 7, high: 7 },
        BandEdges { low: 20, high: 30 },
        BandEdges { low: usize::MAX, high: usize::MAX },
    ];
    assert_eq!(
        build_log_band_ranges(&edges, 16),
        vec![
            BandBinRange { start_bin: 1, end_bin: 2 },
            BandBinRange { start_bin: 2, end_bin: 5 },
            BandBinRange { start_bin: 5, end_bin: 6 },
            BandBinRange { start_bin: 7, end_bin: 8 },
            BandBinRange { start_bin: 8, end_bin: 9 },
            BandBinRange { start_bin: 8, end_bin: 9 },
        ]
    );
    assert!(build_log_band_ranges(&Vec::new(), 16).is_empty());
}

#[test]
fn logarithmic_bands_of_a_default_frame() {
    let width = 48_000.0_f32 / 4096.0;
    let ratio = 16_000.0_f32 / 40.0;
    let edges: Vec<BandEdges> = (0..64)
        .map(|index| BandEdges {
            low: (40.0 * ratio.powf(index as f32 / 64.0) / width).floor() as usize,
            high: (40.0 * ratio.powf((index + 1) as f32 / 64.0) / width).ceil() as usize,
        })
        .collect();
    let ranges = build_log_band_ranges(&edges, 4096);
    assert_eq!(ranges.len(), 64);
    assert_eq!(ranges[0], BandBinRange { start_bin: 3, end_bin: 4 });
    assert!(ranges.iter().all(|range| range.start_bin < range.end_bin && range.end_bin <= 2049));
    for pair in ranges.windows(2) {
        assert!(pair[0].start_bin <= pair[1].start_bin);
        assert!(pair[1].start_bin <= pair[0].end_bin);
    }
}
