use spectro_cam_rs::config::{
    FilterCoefficients, Linearize, ReferenceConfig, SpectrometerConfig, SpectrumCalibration,
    SpectrumCalibrationPoint, SpectrumPoint,
};
use spectro_cam_rs::filter::filter_zero_phase;
use spectro_cam_rs::fixed::ONE;
use spectro_cam_rs::peaks::find_extrema;
use spectro_cam_rs::frame::RgbFrame;
use spectro_cam_rs::spectrum::{
    CalibrationError, SnapshotError, SpectrumCalculator, SpectrumContainer, SpectrumExportPoint,
    SpectrumRgb,
};
use spectro_cam_rs::Timestamped;
use std::collections::VecDeque;

fn timed<T>(data: T) -> Timestamped<T> {
    Timestamped { start: 1_000, end: 1_000, data }
}

fn timed_at<T>(start: u64, end: u64, data: T) -> Timestamped<T> {
    Timestamped::new(start, end, data).unwrap()
}

fn uniform(ncols: usize, value: i64) -> SpectrumRgb {
    SpectrumRgb::from_element(ncols, value)
}

fn sum_row(r: Vec<i64>) -> SpectrumRgb {
    SpectrumRgb::new(r.clone(), r.clone(), r).unwrap()
}

#[test]
fn buffer_size() {
    let mut spectrum_container = SpectrumContainer::new();
    let config = SpectrometerConfig::default();
    spectrum_container.update_spectrum(timed(uniform(1000, 500_000)), &config);
    spectrum_container.update_spectrum(timed(uniform(1000, 750_000)), &config);

    assert_eq!(spectrum_container.buffer_len(), 2);

    for _ in 0..100 {
        spectrum_container.update_spectrum(timed(uniform(1000, 500_000)), &config);
        assert!(
            spectrum_container.buffer_len() <= config.postprocessing_config.spectrum_buffer_size
        );
    }

    assert_eq!(
        spectrum_container.buffer_len(),
        config.postprocessing_config.spectrum_buffer_size
    );
}

#[test]
fn get_spectrum_max_value() {
    let mut spectrum_container = SpectrumContainer::new();
    let config = SpectrometerConfig::default();
    spectrum_container.update_spectrum(timed(uniform(1000, 500_000)), &config);

    assert_eq!(spectrum_container.get_spectrum_max_value(), Some(500_000));
}

#[test]
fn max_value_of_nothing() {
    let spectrum_container = SpectrumContainer::new();
    assert_eq!(spectrum_container.get_spectrum_max_value(), None);
}

#[test]
fn buffer_grows_by_one_until_full() {
    let mut container = SpectrumContainer::new();
    let mut config = SpectrometerConfig::default();
    config.postprocessing_config.spectrum_buffer_size = 3;
    for expected in [1, 2, 3, 3, 3] {
        container.update_spectrum(timed(uniform(4, 100_000)), &config);
        assert_eq!(container.buffer_len(), expected);
    }
    config.postprocessing_config.spectrum_buffer_size = 1;
    container.update_spectrum(timed(uniform(4, 100_000)), &config);
    assert_eq!(container.buffer_len(), 1);
}

#[test]
fn buffer_of_size_zero_gives_zeros() {
    let mut container = SpectrumContainer::new();
    let mut config = SpectrometerConfig::default();
    config.postprocessing_config.spectrum_buffer_size = 0;
    container.update_spectrum(timed(uniform(3, 900_000)), &config);
    assert_eq!(container.buffer_len(), 0);
    assert_eq!(container.get_spectrum_max_value(), Some(0));
    assert_eq!(
        container.timestamped_snapshot(&config.spectrum_calibration),
        Err(SnapshotError::NoData)
    );
}

#[test]
fn mean_over_the_buffer() {
    let mut container = SpectrumContainer::new();
    let config = SpectrometerConfig::default();
    container.update_spectrum(timed(uniform(2, 500_000)), &config);
    container.update_spectrum(timed(uniform(2, 750_000)), &config);
    // (0.5 + 0.75) / 2
    assert_eq!(container.get_spectrum_max_value(), Some(625_000));
    container.update_spectrum(timed(uniform(2, 0)), &config);
    // 1.25 / 3, rounded down
    assert_eq!(container.get_spectrum_max_value(), Some(416_666));
}

#[test]
fn gains_and_summed_channel() {
    let mut container = SpectrumContainer::new();
    let mut config = SpectrometerConfig::default();
    config.spectrum_calibration.gain_r = 2_000_000;
    config.spectrum_calibration.gain_g = 500_000;
    config.spectrum_calibration.gain_b = 0;
    let raw = SpectrumRgb::new(vec![100_000, 0], vec![200_000, 7], vec![300_000, 1_000_000])
        .unwrap();
    container.update_spectrum(timed(raw), &config);
    let r = container.get_spectrum_channel(0, &config);
    let g = container.get_spectrum_channel(1, &config);
    let b = container.get_spectrum_channel(2, &config);
    let sum = container.get_spectrum_channel(3, &config);
    assert_eq!(r.iter().map(|p| p.value).collect::<Vec<_>>(), vec![200_000, 0]);
    assert_eq!(g.iter().map(|p| p.value).collect::<Vec<_>>(), vec![100_000, 3]);
    assert_eq!(b.iter().map(|p| p.value).collect::<Vec<_>>(), vec![0, 0]);
    assert_eq!(sum.iter().map(|p| p.value).collect::<Vec<_>>(), vec![100_000, 1]);
    // wavelengths follow the calibration
    assert_eq!(r[0].wavelength, config.spectrum_calibration.get_wavelength_from_index(0));
    assert_eq!(sum[1].wavelength, config.spectrum_calibration.get_wavelength_from_index(1));
}

#[test]
fn committed_scaling_corrects_the_sum_before_the_third() {
    let mut container = SpectrumContainer::new();
    let mut config = SpectrometerConfig::default();
    config.spectrum_calibration.scaling = Some(vec![2_000_000, -500_000]);
    container.update_spectrum(timed(uniform(3, 100_000)), &config);
    let sum = container.get_spectrum_channel(3, &config);
    // 0.3 * 2 / 3, 0.3 * -0.5 / 3, and a column without factor: 0.3 * 1 / 3
    assert_eq!(sum.iter().map(|p| p.value).collect::<Vec<_>>(), vec![200_000, -50_000, 100_000]);
    let r = container.get_spectrum_channel(0, &config);
    assert_eq!(r.iter().map(|p| p.value).collect::<Vec<_>>(), vec![100_000; 3]);
}

#[test]
fn linearization_is_applied_before_buffering() {
    let mut container = SpectrumContainer::new();
    let mut config = SpectrometerConfig::default();
    config.spectrum_calibration.linearize = Linearize::SRgb;
    container.update_spectrum(timed(uniform(2, 500_000)), &config);
    assert_eq!(container.get_spectrum_max_value(), Some(214_040));
    // what is buffered is linear: switching the curve off does not bring the
    // raw value back for spectra already taken in
    config.spectrum_calibration.linearize = Linearize::Off;
    container.update_spectrum(timed(uniform(2, 214_040)), &config);
    assert_eq!(container.get_spectrum_max_value(), Some(214_040));
}

#[test]
fn dimension_change_clears_buffer_and_zero_reference() {
    let mut container = SpectrumContainer::new();
    let config = SpectrometerConfig::default();
    container.update_spectrum(timed(uniform(5, 300_000)), &config);
    container.update_spectrum(timed(uniform(5, 300_000)), &config);
    container.set_zero_reference();
    assert!(container.has_zero_reference());
    assert_eq!(container.buffer_len(), 2);

    container.update_spectrum(timed(uniform(7, 600_000)), &config);

    assert_eq!(container.buffer_len(), 1);
    assert!(!container.has_zero_reference());
    let sum = container.get_spectrum_channel(3, &config);
    assert_eq!(sum.len(), 7);
    assert!(sum.iter().all(|p| p.value == 600_000));
}

#[test]
fn zero_reference_of_another_width_is_dropped() {
    let mut container = SpectrumContainer::new();
    let config = SpectrometerConfig::default();
    container.update_spectrum(timed(uniform(5, 300_000)), &config);
    container.set_zero_reference();
    container.clear_buffer();
    assert_eq!(container.buffer_len(), 0);
    assert!(container.has_zero_reference());
    container.update_spectrum(timed(uniform(6, 300_000)), &config);
    assert!(!container.has_zero_reference());
    assert_eq!(container.get_spectrum_max_value(), Some(300_000));
}

#[test]
fn zero_reference_is_subtracted_without_clamping() {
    let mut container = SpectrumContainer::new();
    let mut config = SpectrometerConfig::default();
    config.postprocessing_config.spectrum_buffer_size = 1;
    container.update_spectrum(timed(uniform(3, 400_000)), &config);
    container.set_zero_reference();
    assert!(container.has_zero_reference());
    container.update_spectrum(timed(uniform(3, 100_000)), &config);
    let sum = container.get_spectrum_channel(3, &config);
    assert!(sum.iter().all(|p| p.value == -300_000));
    assert_eq!(container.get_spectrum_max_value(), Some(-300_000));
    container.clear_zero_reference();
    assert!(!container.has_zero_reference());
    container.update_spectrum(timed(uniform(3, 100_000)), &config);
    assert_eq!(container.get_spectrum_max_value(), Some(100_000));
}

#[test]
fn filter_that_passes_everything_changes_nothing() {
    let mut container = SpectrumContainer::new();
    let mut config = SpectrometerConfig::default();
    config.postprocessing_config.spectrum_filter_active = true;
    config.postprocessing_config.spectrum_filter_coefficients = FilterCoefficients::identity();
    let raw = sum_row(vec![10, 500_000, 20, 0, 999_999]);
    container.update_spectrum(timed(raw), &config);
    let sum = container.get_spectrum_channel(3, &config);
    assert_eq!(
        sum.iter().map(|p| p.value).collect::<Vec<_>>(),
        vec![10, 500_000, 20, 0, 999_999]
    );
}

#[test]
fn low_pass_settles_on_a_constant_row() {
    let mut container = SpectrumContainer::new();
    let mut config = SpectrometerConfig::default();
    config.postprocessing_config.spectrum_filter_active = true;
    container.update_spectrum(timed(uniform(400, 600_000)), &config);
    let sum = container.get_spectrum_channel(3, &config);
    assert_eq!(sum.len(), 400);
    assert!(sum.iter().all(|p| p.value >= 0));
    // far from both ends the smoothed row has the level of the row
    // each pass rounds its samples down once
    for p in &sum[100..300] {
        assert_eq!(p.value, 599_998);
    }
    // the forward pass starts from rest: its first sample is b0 * x, which the
    // backward pass, arriving settled, raises again
    assert_eq!(sum[0].value, 449_999);
    assert_eq!(sum[399].value, 599_999);
}

#[test]
fn low_pass_exact_on_a_short_row() {
    let c = FilterCoefficients { a1: 0, a2: 0, b0: 500_000_000_000, b1: 500_000_000_000, b2: 0 };
    // forward: y[n] = (x[n] + x[n-1]) / 2 from rest
    //   [1, 0, 0, 4] -> [0.5, 0.5, 0, 2]
    // backward over [2, 0, 0.5, 0.5], the section still holding half of the
    // last forward input (4 * 0.5 = 2):
    //   [1 + 2, 1, 0.25, 0.5] -> turned: [0.5, 0.25, 1, 3]
    let out = filter_zero_phase(&c, &vec![1_000_000, 0, 0, 4_000_000]);
    assert_eq!(out, vec![500_000, 250_000, 1_000_000, 3_000_000]);
    // what the section takes below zero becomes zero
    let neg = FilterCoefficients { a1: 0, a2: 0, b0: -1_000_000_000_000, b1: 0, b2: 0 };
    assert_eq!(filter_zero_phase(&neg, &vec![1_000_000, 2_000_000]), vec![0, 0]);
    assert_eq!(filter_zero_phase(&c, &vec![]), Vec::<i64>::new());
}

#[test]
fn peaks_and_dips() {
    let mut container = SpectrumContainer::new();
    let mut config = SpectrometerConfig::default();
    config.spectrum_calibration = SpectrumCalibration {
        low: SpectrumCalibrationPoint { wavelength: 400, index: 0 },
        high: SpectrumCalibrationPoint { wavelength: 410, index: 10 },
        linearize: Linearize::Off,
        gain_r: 1_000_000,
        gain_g: 1_000_000,
        gain_b: 1_000_000,
        scaling: None,
    };
    config.view_config.peaks_dips_find_window = 1;
    config.view_config.peaks_dips_unique_window = 1_000_000;
    //                   0  1  2  3  4  5  6  7  8  9
    let row: Vec<i64> = vec![5, 9, 5, 5, 1, 5, 8, 8, 3, 7];
    container.update_spectrum(timed(sum_row(row)), &config);

    let peaks = container.spectrum_to_peaks_and_dips(true, &config);
    // 9 at column 1; the plateau 8, 8 is no peak; the last column has no
    // right neighbour
    assert_eq!(peaks, vec![SpectrumPoint { wavelength: 401_000_000, value: 9 }]);
    let dips = container.spectrum_to_peaks_and_dips(false, &config);
    assert_eq!(
        dips,
        vec![
            SpectrumPoint { wavelength: 404_000_000, value: 1 },
            SpectrumPoint { wavelength: 408_000_000, value: 3 },
        ]
    );

    // a wide unique window keeps only the strongest of close candidates
    config.view_config.peaks_dips_unique_window = 10_000_000;
    let dips = container.spectrum_to_peaks_and_dips(false, &config);
    assert_eq!(dips, vec![SpectrumPoint { wavelength: 404_000_000, value: 1 }]);
    // candidates exactly half a window apart are not close
    config.view_config.peaks_dips_unique_window = 8_000_000;
    let dips = container.spectrum_to_peaks_and_dips(false, &config);
    assert_eq!(dips.len(), 2);
    config.view_config.peaks_dips_unique_window = 8_000_001;
    let dips = container.spectrum_to_peaks_and_dips(false, &config);
    assert_eq!(dips.len(), 1);

    // a find window wider than the row finds nothing
    config.view_config.peaks_dips_find_window = 5;
    assert!(container.spectrum_to_peaks_and_dips(true, &config).is_empty());
    config.view_config.peaks_dips_find_window = usize::MAX;
    assert!(container.spectrum_to_peaks_and_dips(true, &config).is_empty());
    // with no neighbours to beat, every column is a candidate
    config.view_config.peaks_dips_find_window = 0;
    config.view_config.peaks_dips_unique_window = 0;
    assert_eq!(container.spectrum_to_peaks_and_dips(true, &config).len(), 10);
}

#[test]
fn equal_close_candidates_all_stay() {
    let calibration = SpectrumCalibration {
        low: SpectrumCalibrationPoint { wavelength: 400, index: 0 },
        high: SpectrumCalibrationPoint { wavelength: 410, index: 10 },
        linearize: Linearize::Off,
        gain_r: 0,
        gain_g: 0,
        gain_b: 0,
        scaling: None,
    };
    let row = vec![0, 4, 0, 4, 0];
    let found = find_extrema(&row, &calibration, true, 1, 100_000_000);
    assert_eq!(found.len(), 2);
}

#[test]
fn dips_of_the_negated_row_are_the_peaks_of_the_row() {
    let calibration = SpectrumCalibration::default();
    let row: Vec<i64> = vec![3, 8, 2, 9, 9, 1, 7, 4, 6, 5, 10, 0, 2, 2, 5, 1];
    let negated: Vec<i64> = row.iter().map(|v| -v).collect();
    for find_window in [0usize, 1, 2, 3] {
        for unique_window in [0i64, 900_000, 2_000_000, 50_000_000] {
            let peaks = find_extrema(
                &row,
                &calibration,
                true,
                find_window,
                unique_window,
            );
            let dips = find_extrema(
                &negated,
                &calibration,
                false,
                find_window,
                unique_window,
            );
            let peak_waves: Vec<i64> = peaks.iter().map(|p| p.wavelength).collect();
            let dip_waves: Vec<i64> = dips.iter().map(|p| p.wavelength).collect();
            assert_eq!(peak_waves, dip_waves);
            let peak_values: Vec<i64> = peaks.iter().map(|p| -p.value).collect();
            let dip_values: Vec<i64> = dips.iter().map(|p| p.value).collect();
            assert_eq!(peak_values, dip_values);
        }
    }
}

#[test]
fn set_calibration_needs_a_reference() {
    let mut container = SpectrumContainer::new();
    let mut config = SpectrometerConfig::default();
    container.update_spectrum(timed(uniform(3, 500_000)), &config);
    let before = config.spectrum_calibration.clone();
    let done =
        container.set_calibration(&mut config.spectrum_calibration, &ReferenceConfig::default());
    assert_eq!(done, Err(CalibrationError::MissingReference));
    assert_eq!(config.spectrum_calibration, before);
}

#[test]
fn set_calibration_scales_to_the_reference() {
    let mut container = SpectrumContainer::new();
    let mut config = SpectrometerConfig::default();
    config.spectrum_calibration.low = SpectrumCalibrationPoint { wavelength: 100, index: 0 };
    config.spectrum_calibration.high = SpectrumCalibrationPoint { wavelength: 200, index: 4 };
    let raw = sum_row(vec![500_000, 250_000, 0, 1_000_000, 750_000]);
    container.update_spectrum(timed(raw), &config);
    let reference = ReferenceConfig {
        reference: Some(vec![
            SpectrumPoint { wavelength: 100_000_000, value: 1_000_000 },
            SpectrumPoint { wavelength: 200_000_000, value: 2_000_000 },
        ]),
        scale: ONE,
    };
    let done = container.set_calibration(&mut config.spectrum_calibration, &reference);
    assert_eq!(done, Ok(()));
    // reference 1.0, 1.25, 1.5, 1.75, 2.0 over sums 0.5, 0.25, 0, 1.0, 0.75
    assert_eq!(
        config.spectrum_calibration.scaling,
        Some(vec![2_000_000, 5_000_000, i64::MAX, 1_750_000, 2_666_666])
    );
    assert_eq!(config.spectrum_calibration.low.wavelength, 100);
    // with the factors committed, the summed channel meets the reference
    container.clear_buffer();
    let raw = sum_row(vec![500_000, 250_000, 1, 1_000_000, 750_000]);
    container.update_spectrum(timed(raw), &config);
    let sum = container.get_spectrum_channel(3, &config);
    assert_eq!(sum[0].value, 1_000_000);
    assert_eq!(sum[1].value, 1_250_000);
    assert_eq!(sum[3].value, 1_750_000);
    assert_eq!(sum[4].value, 1_999_999);
}

#[test]
fn export_rows() {
    let mut container = SpectrumContainer::new();
    let config = SpectrometerConfig::default();
    let raw = SpectrumRgb::new(vec![1, 2], vec![30, 40], vec![500, 600]).unwrap();
    container.update_spectrum(timed(raw), &config);
    let rows = container.spectrum_to_point_vec(&config.spectrum_calibration);
    assert_eq!(
        rows,
        vec![
            SpectrumExportPoint {
                wavelength: config.spectrum_calibration.get_wavelength_from_index(0),
                r: 1,
                g: 30,
                b: 500,
                sum: 177,
            },
            SpectrumExportPoint {
                wavelength: config.spectrum_calibration.get_wavelength_from_index(1),
                r: 2,
                g: 40,
                b: 600,
                sum: 214,
            },
        ]
    );
    assert_eq!(SpectrumExportPoint::default().sum, 0);
}

#[test]
fn snapshot_spans_all_buffered_frames() {
    let mut container = SpectrumContainer::new();
    let config = SpectrometerConfig::default();
    let calibration = &config.spectrum_calibration;
    assert_eq!(container.timestamped_snapshot(calibration), Err(SnapshotError::NoData));
    assert_eq!(SnapshotError::NoData.message(), "No spectrum data available");
    container.update_spectrum(timed_at(10, 20, uniform(2, 300_000)), &config);
    container.update_spectrum(timed_at(30, 40, uniform(2, 300_000)), &config);
    container.update_spectrum(timed_at(50, 60, uniform(2, 300_000)), &config);
    let shot = container.timestamped_snapshot(calibration).unwrap();
    assert_eq!(shot.start, 10);
    assert_eq!(shot.end, 60);
    assert_eq!(
        shot.spectrum,
        vec![
            SpectrumPoint { wavelength: calibration.get_wavelength_from_index(0), value: 300_000 },
            SpectrumPoint { wavelength: calibration.get_wavelength_from_index(1), value: 300_000 },
        ]
    );
}

#[test]
fn update_takes_the_queue_in_order() {
    let mut container = SpectrumContainer::new();
    let mut config = SpectrometerConfig::default();
    config.postprocessing_config.spectrum_buffer_size = 2;
    let mut queued = VecDeque::new();
    queued.push_back(timed_at(1, 2, uniform(1, 100_000)));
    queued.push_back(timed_at(3, 4, uniform(1, 300_000)));
    queued.push_back(timed_at(5, 6, uniform(1, 500_000)));
    let snapshots = container.update(&mut queued, &config);
    assert!(queued.is_empty());
    assert_eq!(snapshots.len(), 3);
    let values: Vec<i64> =
        snapshots.iter().map(|s| s.as_ref().unwrap().spectrum[0].value).collect();
    assert_eq!(values, vec![100_000, 200_000, 400_000]);
    let spans: Vec<(u64, u64)> =
        snapshots.iter().map(|s| (s.as_ref().unwrap().start, s.as_ref().unwrap().end)).collect();
    assert_eq!(spans, vec![(1, 2), (1, 4), (3, 6)]);
    assert!(container.update(&mut queued, &config).is_empty());
}

#[test]
fn timestamps_must_be_in_order() {
    assert!(Timestamped::new(5, 4, 0u8).is_none());
    assert_eq!(Timestamped::new(4, 4, 7u8), Some(Timestamped { start: 4, end: 4, data: 7u8 }));
}

#[test]
fn raw_spectrum_is_checked() {
    assert!(SpectrumRgb::new(vec![0], vec![0, 0], vec![0]).is_none());
    assert!(SpectrumRgb::new(vec![0], vec![0], vec![]).is_none());
    assert!(SpectrumRgb::new(vec![-1], vec![0], vec![0]).is_none());
    assert!(SpectrumRgb::new(vec![0], vec![0], vec![1_000_001]).is_none());
    let ok = SpectrumRgb::new(vec![0], vec![1_000_000], vec![5]).unwrap();
    assert_eq!(ok.ncols(), 1);
    assert_eq!(uniform(3, 7), SpectrumRgb { r: vec![7; 3], g: vec![7; 3], b: vec![7; 3] });
}

#[test]
fn process_window_averages_columns() {
    // two rows, two columns
    let window = RgbFrame::new(
        2,
        2,
        vec![
            255, 0, 30, /**/ 0, 0, 0, //
            255, 255, 60, /**/ 0, 1, 0,
        ],
    )
    .unwrap();
    let raw = SpectrumCalculator::process_window(&window);
    // sums 510, 255, 90 and 0, 1, 0 over 2 * 255 * 3
    assert_eq!(raw.r, vec![333_333, 0]);
    assert_eq!(raw.g, vec![166_666, 653]);
    assert_eq!(raw.b, vec![58_823, 0]);
}

#[test]
fn process_window_does_not_depend_on_height() {
    let one = RgbFrame::new(1, 1, vec![200, 100, 50]).unwrap();
    let three = RgbFrame::new(1, 3, vec![200, 100, 50, 200, 100, 50, 200, 100, 50]).unwrap();
    assert_eq!(
        SpectrumCalculator::process_window(&one),
        SpectrumCalculator::process_window(&three)
    );
}

#[test]
fn process_window_without_rows() {
    let window = RgbFrame::new(4, 0, vec![]).unwrap();
    let raw = SpectrumCalculator::process_window(&window);
    assert_eq!(raw, SpectrumRgb { r: vec![0; 4], g: vec![0; 4], b: vec![0; 4] });
    let none = RgbFrame::new(0, 3, vec![]).unwrap();
    assert_eq!(SpectrumCalculator::process_window(&none).ncols(), 0);
}

#[test]
fn process_timed_window_keeps_the_span() {
    let window = Timestamped::new(7, 9, RgbFrame::new(1, 1, vec![255, 255, 255]).unwrap()).unwrap();
    let timed = SpectrumCalculator::process_timed_window(&window);
    assert_eq!(timed.start, 7);
    assert_eq!(timed.end, 9);
    assert_eq!(timed.data.r, vec![333_333]);
}

#[test]
fn uniform_full_buffer_gives_the_value() {
    let mut container = SpectrumContainer::new();
    let config = SpectrometerConfig::default();
    for _ in 0..config.postprocessing_config.spectrum_buffer_size {
        container.update_spectrum(timed(uniform(16, 500_000)), &config);
    }
    for channel in 0..4 {
        let row = container.get_spectrum_channel(channel, &config);
        assert!(row.iter().all(|p| p.value == 500_000));
    }
    assert_eq!(container.get_spectrum_max_value(), Some(500_000));
}

#[test]
fn low_pass_keeps_the_level_at_low_cutoffs() {
    // the sections for cutoffs of a hundredth and of a thousandth
    let hundredth = FilterCoefficients {
        a1: -1_955_578_240_315,
        a2: 956_543_676_511,
        b0: 241_359_049,
        b1: 482_718_098,
        b2: 241_359_049,
    };
    let thousandth = FilterCoefficients {
        a1: -1_995_557_124_346,
        a2: 995_566_972_066,
        b0: 2_461_930,
        b1: 4_923_860,
        b2: 2_461_930,
    };
    let out = filter_zero_phase(&hundredth, &vec![600_000; 4_000]);
    assert!(out[1_000..3_000].iter().all(|v| *v == 599_998));
    let out = filter_zero_phase(&thousandth, &vec![600_000; 40_000]);
    assert!(out[10_000..30_000].iter().all(|v| *v == 599_998));
    assert_eq!(out[0], 300_332);
}

#[test]
fn committed_scaling_works_on_the_sum_before_the_gains() {
    let mut container = SpectrumContainer::new();
    let mut config = SpectrometerConfig::default();
    config.spectrum_calibration.gain_r = 0;
    config.spectrum_calibration.gain_g = 0;
    config.spectrum_calibration.gain_b = 0;
    config.spectrum_calibration.scaling = Some(vec![1_000_000]);
    container.update_spectrum(timed(uniform(1, 1_000_000)), &config);
    for channel in 0..3 {
        assert_eq!(container.get_spectrum_channel(channel, &config)[0].value, 0);
    }
    assert_eq!(container.get_spectrum_channel(3, &config)[0].value, 1_000_000);

    // the colours carry their gains, the corrected sum does not
    config.spectrum_calibration.gain_r = 2_000_000;
    config.spectrum_calibration.gain_g = 500_000;
    config.spectrum_calibration.gain_b = 3_000_000;
    config.spectrum_calibration.scaling = Some(vec![500_000, 4_000_000]);
    container.clear_buffer();
    let raw = SpectrumRgb::new(vec![100_000, 0], vec![200_000, 30_000], vec![300_000, 0]).unwrap();
    container.update_spectrum(timed(raw.clone()), &config);
    let values = |container: &SpectrumContainer, channel: usize| -> Vec<i64> {
        container.get_spectrum_channel(channel, &config).iter().map(|p| p.value).collect()
    };
    assert_eq!(values(&container, 0), vec![200_000, 0]);
    assert_eq!(values(&container, 1), vec![100_000, 15_000]);
    assert_eq!(values(&container, 2), vec![900_000, 0]);
    // (0.1 + 0.2 + 0.3) * 0.5 / 3 and 0.03 * 4 / 3
    assert_eq!(values(&container, 3), vec![100_000, 40_000]);

    // without a committed correction the sum is that of the colours after their gains
    let mut plain = config.clone();
    plain.spectrum_calibration.scaling = None;
    container.clear_buffer();
    container.update_spectrum(timed(raw), &plain);
    let sum: Vec<i64> =
        container.get_spectrum_channel(3, &plain).iter().map(|p| p.value).collect();
    // (0.2 + 0.1 + 0.9) / 3 and 0.015 / 3
    assert_eq!(sum, vec![400_000, 5_000]);
}
