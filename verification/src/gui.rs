//! What the settings windows remember, and the rules by which they let
//! settings be changed.

use crate::config::{ReferenceConfig, SpectrometerConfig, SpectrumCalibration};
use vstd::prelude::*;

verus! {

/// The shortest wavelength, in nanometres, that a calibration point can be
/// given.
pub const WAVELENGTH_MIN: u32 = 200;

/// The longest wavelength, in nanometres, that a calibration point can be
/// given.
pub const WAVELENGTH_MAX: u32 = 2000;

/// The smallest number of raw spectra that can be averaged.
pub const SPECTRUM_BUFFER_SIZE_MIN: usize = 1;

/// The largest number of raw spectra that can be averaged.
pub const SPECTRUM_BUFFER_SIZE_MAX: usize = 100;

/// The lowest filament temperature, in kelvin, for which a reference is
/// generated.
pub const FILAMENT_TEMP_MIN: u16 = 1000;

/// The highest filament temperature, in kelvin, for which a reference is
/// generated.
pub const FILAMENT_TEMP_MAX: u16 = 3500;

/// The window in which the two calibration points, the gains and the
/// references are set.
pub struct CalibrationWindow {}

impl CalibrationWindow {
    pub fn new() -> (window: Self) {
        Self {  }
    }

    /// The wavelengths that the low point can be given: from the shortest up
    /// to just below the high point.
    pub fn low_wavelength_range(calibration: &SpectrumCalibration) -> (range: (u32, u32))
        requires
            calibration.wf(),
        ensures
            range == (WAVELENGTH_MIN, (calibration.high.wavelength - 1) as u32),
    {
        (WAVELENGTH_MIN, calibration.high.wavelength - 1)
    }

    /// The wavelengths that the high point can be given: from just above the
    /// low point up to the longest.
    pub fn high_wavelength_range(calibration: &SpectrumCalibration) -> (range: (u32, u32))
        requires
            calibration.wf(),
        ensures
            range == ((calibration.low.wavelength + 1) as u32, WAVELENGTH_MAX),
    {
        (calibration.low.wavelength + 1, WAVELENGTH_MAX)
    }

    /// The pixel columns that the low point can be given: from the first up
    /// to just before the high point.
    pub fn low_index_range(calibration: &SpectrumCalibration) -> (range: (usize, usize))
        requires
            calibration.wf(),
        ensures
            range == (0usize, (calibration.high.index - 1) as usize),
    {
        (0, calibration.high.index - 1)
    }

    /// The pixel columns that the high point can be given: from just behind
    /// the low point up to the width of the window.
    pub fn high_index_range(calibration: &SpectrumCalibration, window_width: u32) -> (range: (
        usize,
        usize,
    ))
        requires
            calibration.wf(),
        ensures
            range == ((calibration.low.index + 1) as usize, window_width as usize),
    {
        (calibration.low.index + 1, window_width as usize)
    }

    /// A reference can be committed as calibration when one is loaded and
    /// none is committed.
    pub fn can_set_calibration(config: &SpectrometerConfig) -> (enabled: bool)
        ensures
            enabled == (config.reference_config.reference.is_some()
                && config.spectrum_calibration.scaling.is_none()),
    {
        config.reference_config.reference.is_some()
            && config.spectrum_calibration.scaling.is_none()
    }

    /// A committed calibration can be deleted when a reference is loaded and
    /// one is committed.
    pub fn can_delete_calibration(config: &SpectrometerConfig) -> (enabled: bool)
        ensures
            enabled == (config.reference_config.reference.is_some()
                && config.spectrum_calibration.scaling.is_some()),
    {
        config.reference_config.reference.is_some()
            && config.spectrum_calibration.scaling.is_some()
    }
}

/// A calibration whose points are in order stays so when a point is given
/// any value of the range that its setting offers.
pub proof fn lemma_ranges_keep_order(calibration: SpectrumCalibration, value: u32, column: usize)
    requires
        calibration.wf(),
    ensures
        WAVELENGTH_MIN <= value <= calibration.high.wavelength - 1 ==> (SpectrumCalibration {
            low: crate::config::SpectrumCalibrationPoint { wavelength: value, ..calibration.low },
            ..calibration
        }).wf(),
        calibration.low.wavelength + 1 <= value <= WAVELENGTH_MAX ==> (SpectrumCalibration {
            high: crate::config::SpectrumCalibrationPoint {
                wavelength: value,
                ..calibration.high
            },
            ..calibration
        }).wf(),
        column <= calibration.high.index - 1 ==> (SpectrumCalibration {
            low: crate::config::SpectrumCalibrationPoint { index: column, ..calibration.low },
            ..calibration
        }).wf(),
        calibration.low.index + 1 <= column ==> (SpectrumCalibration {
            high: crate::config::SpectrumCalibrationPoint { index: column, ..calibration.high },
            ..calibration
        }).wf(),
{
}

/// The window in which camera settings are written.
pub struct CameraControlWindow {}

impl CameraControlWindow {
    pub fn new() -> (window: Self) {
        Self {  }
    }

    /// The values that a setting with the limits `min` and `max` can be
    /// given: those strictly between the limits. Nothing where there are
    /// none.
    pub fn slider_range(min: i64, max: i64) -> (range: Option<(i64, i64)>)
        ensures
            range.is_some() <==> min + 1 <= max - 1,
            range.is_some() ==> range.unwrap() == ((min + 1) as i64, (max - 1) as i64),
    {
        if min < i64::MAX && max > i64::MIN && min + 1 <= max - 1 {
            Some((min + 1, max - 1))
        } else {
            None
        }
    }
}

/// The window in which spectra and references are read and written.
pub struct ImportExportWindow {
    tungsten_filament_temp: u16,
}

impl ImportExportWindow {
    /// The filament temperature, in kelvin, for which a reference would be
    /// generated.
    pub closed spec fn temperature(&self) -> u16 {
        self.tungsten_filament_temp
    }

    pub fn new() -> (window: Self)
        ensures
            window.temperature() == 2800,
    {
        Self { tungsten_filament_temp: 2800 }
    }

    /// The filament temperature, in kelvin, for which a reference would be
    /// generated.
    pub fn tungsten_filament_temp(&self) -> (temp: u16)
        ensures
            temp == self.temperature(),
    {
        self.tungsten_filament_temp
    }

    /// Sets the filament temperature, held within the offered range.
    pub fn set_tungsten_filament_temp(&mut self, temp: u16)
        ensures
            FILAMENT_TEMP_MIN <= final(self).temperature() <= FILAMENT_TEMP_MAX,
            FILAMENT_TEMP_MIN <= temp <= FILAMENT_TEMP_MAX ==> final(self).temperature() == temp,
            temp < FILAMENT_TEMP_MIN ==> final(self).temperature() == FILAMENT_TEMP_MIN,
            temp > FILAMENT_TEMP_MAX ==> final(self).temperature() == FILAMENT_TEMP_MAX,
    {
        self.tungsten_filament_temp = if temp < FILAMENT_TEMP_MIN {
            FILAMENT_TEMP_MIN
        } else if temp > FILAMENT_TEMP_MAX {
            FILAMENT_TEMP_MAX
        } else {
            temp
        };
    }

    /// A reference can be written or deleted when one is loaded.
    pub fn has_reference(reference_config: &ReferenceConfig) -> (loaded: bool)
        ensures
            loaded == reference_config.reference.is_some(),
    {
        reference_config.reference.is_some()
    }
}

/// The window in which averaging, smoothing and the search for peaks and
/// dips are set.
pub struct PostProcessingWindow {}

impl PostProcessingWindow {
    pub fn new() -> (window: Self) {
        Self {  }
    }

    /// A buffer size held within the offered range.
    pub fn clamp_buffer_size(size: usize) -> (clamped: usize)
        ensures
            SPECTRUM_BUFFER_SIZE_MIN <= clamped <= SPECTRUM_BUFFER_SIZE_MAX,
            SPECTRUM_BUFFER_SIZE_MIN <= size <= SPECTRUM_BUFFER_SIZE_MAX ==> clamped == size,
            size < SPECTRUM_BUFFER_SIZE_MIN ==> clamped == SPECTRUM_BUFFER_SIZE_MIN,
            size > SPECTRUM_BUFFER_SIZE_MAX ==> clamped == SPECTRUM_BUFFER_SIZE_MAX,
    {
        if size < SPECTRUM_BUFFER_SIZE_MIN {
            SPECTRUM_BUFFER_SIZE_MIN
        } else if size > SPECTRUM_BUFFER_SIZE_MAX {
            SPECTRUM_BUFFER_SIZE_MAX
        } else {
            size
        }
    }
}

} // verus!
