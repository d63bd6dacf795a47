use spectro_cam_rs::config::{ReferenceConfig, SpectrometerConfig, SpectrumPoint};
use spectro_cam_rs::gui::{
    CalibrationWindow, CameraControlWindow, ImportExportWindow, PostProcessingWindow,
};

#[test]
fn calibration_ranges_keep_the_points_in_order() {
    let _window = CalibrationWindow::new();
    let config = SpectrometerConfig::default();
    let calibration = &config.spectrum_calibration;
    assert_eq!(CalibrationWindow::low_wavelength_range(calibration), (200, 545));
    assert_eq!(CalibrationWindow::high_wavelength_range(calibration), (437, 2000));
    assert_eq!(CalibrationWindow::low_index_range(calibration), (0, 485));
    assert_eq!(CalibrationWindow::high_index_range(calibration, 1500), (262, 1500));
}

#[test]
fn calibration_buttons() {
    let mut config = SpectrometerConfig::default();
    assert!(!CalibrationWindow::can_set_calibration(&config));
    assert!(!CalibrationWindow::can_delete_calibration(&config));
    config.reference_config.reference = Some(vec![SpectrumPoint::default()]);
    assert!(CalibrationWindow::can_set_calibration(&config));
    assert!(!CalibrationWindow::can_delete_calibration(&config));
    config.spectrum_calibration.scaling = Some(vec![]);
    assert!(!CalibrationWindow::can_set_calibration(&config));
    assert!(CalibrationWindow::can_delete_calibration(&config));
}

#[test]
fn control_slider_range() {
    let _window = CameraControlWindow::new();
    assert_eq!(CameraControlWindow::slider_range(0, 10), Some((1, 9)));
    assert_eq!(CameraControlWindow::slider_range(0, 2), Some((1, 1)));
    assert_eq!(CameraControlWindow::slider_range(0, 1), None);
    assert_eq!(CameraControlWindow::slider_range(i64::MAX, i64::MIN), None);
    assert_eq!(
        CameraControlWindow::slider_range(i64::MIN, i64::MAX),
        Some((i64::MIN + 1, i64::MAX - 1))
    );
}

#[test]
fn filament_temperature() {
    let mut window = ImportExportWindow::new();
    assert_eq!(window.tungsten_filament_temp(), 2800);
    window.set_tungsten_filament_temp(3000);
    assert_eq!(window.tungsten_filament_temp(), 3000);
    window.set_tungsten_filament_temp(10);
    assert_eq!(window.tungsten_filament_temp(), 1000);
    window.set_tungsten_filament_temp(60_000);
    assert_eq!(window.tungsten_filament_temp(), 3500);
    assert!(!ImportExportWindow::has_reference(&ReferenceConfig::default()));
}

#[test]
fn buffer_size_range() {
    let _window = PostProcessingWindow::new();
    assert_eq!(PostProcessingWindow::clamp_buffer_size(0), 1);
    assert_eq!(PostProcessingWindow::clamp_buffer_size(1), 1);
    assert_eq!(PostProcessingWindow::clamp_buffer_size(55), 55);
    assert_eq!(PostProcessingWindow::clamp_buffer_size(101), 100);
}
