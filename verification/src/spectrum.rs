//! From windows to spectra: the reduction of a window to one raw intensity
//! per pixel column and colour, and the container that averages, corrects
//! and calibrates the latest raw spectra.

use crate::config::{Linearize, SpectrometerConfig, SpectrumCalibration, SpectrumPoint};
use crate::filter::{filter_zero_phase, zero_phase};
use crate::channel::{control_after, offer, stats_after, LoopControl, SendOutcome, SendStats};
use crate::config::ReferenceConfig;
use crate::fixed::{div_fixed, quotient, ONE};
use crate::peaks::{extreme_indices, find_extrema, ints, point_at};
use crate::frame::RgbFrame;
use crate::gamma::linearized;
use crate::pipeline::{
    apply_gain, average_channel, averaged, buffer_wf, column_sum, combine_channels, gain_of,
    gained, lemma_gained_bounds, merged, merged_row, referenced_row, subtract_row,
};
use crate::Timestamped;
use std::collections::VecDeque;
use vstd::prelude::*;

verus! {

/// A raw spectrum: for each pixel column the intensity of red, green and
/// blue, in millionths of the largest value a column can reach.
#[derive(Debug, PartialEq, Eq, Clone)]
pub struct SpectrumRgb {
    pub r: Vec<i64>,
    pub g: Vec<i64>,
    pub b: Vec<i64>,
}

/// True when every sample lies between zero and one.
pub open spec fn samples_in_range(row: Seq<i64>) -> bool {
    forall|j: int| 0 <= j < row.len() ==> 0 <= #[trigger] row[j] <= ONE
}

impl SpectrumRgb {
    /// The three channels have one sample per column, each between zero and
    /// one.
    pub open spec fn wf(&self) -> bool {
        &&& self.g@.len() == self.r@.len()
        &&& self.b@.len() == self.r@.len()
        &&& samples_in_range(self.r@)
        &&& samples_in_range(self.g@)
        &&& samples_in_range(self.b@)
    }

    /// The samples of one channel: 0 red, 1 green, anything else blue.
    pub open spec fn channel(&self, channel: int) -> Seq<i64> {
        if channel == 0 {
            self.r@
        } else if channel == 1 {
            self.g@
        } else {
            self.b@
        }
    }

    /// The number of pixel columns.
    pub fn ncols(&self) -> (n: usize)
        ensures
            n == self.r@.len(),
    {
        self.r.len()
    }

    /// A spectrum of `ncols` columns with the same value everywhere.
    pub fn from_element(ncols: usize, value: i64) -> (s: Self)
        requires
            0 <= value <= ONE,
        ensures
            s.wf(),
            s.r@.len() == ncols,
            forall|c: int, j: int| 0 <= c < 3 && 0 <= j < ncols ==> s.channel(c)[j] == value,
    {
        let mut r: Vec<i64> = Vec::new();
        let mut g: Vec<i64> = Vec::new();
        let mut b: Vec<i64> = Vec::new();
        let mut j: usize = 0;
        while j < ncols
            invariant
                j <= ncols,
                0 <= value <= ONE,
                r@.len() == j,
                g@.len() == j,
                b@.len() == j,
                forall|k: int| 0 <= k < j ==> r@[k] == value && g@[k] == value && b@[k] == value,
            decreases ncols - j,
        {
            r.push(value);
            g.push(value);
            b.push(value);
            j += 1;
        }
        Self { r, g, b }
    }

    /// A spectrum from its three channels; nothing where the channels differ
    /// in length or a sample lies outside zero to one.
    pub fn new(r: Vec<i64>, g: Vec<i64>, b: Vec<i64>) -> (s: Option<Self>)
        ensures
            s.is_some() <==> (Self { r, g, b }).wf(),
            s.is_some() ==> s.unwrap() == (Self { r, g, b }),
    {
        if g.len() != r.len() || b.len() != r.len() {
            return None;
        }
        let n = r.len();
        let mut j: usize = 0;
        while j < n
            invariant
                j <= n,
                r@.len() == n,
                g@.len() == n,
                b@.len() == n,
                forall|k: int| 0 <= k < j ==> 0 <= #[trigger] r@[k] <= ONE,
                forall|k: int| 0 <= k < j ==> 0 <= #[trigger] g@[k] <= ONE,
                forall|k: int| 0 <= k < j ==> 0 <= #[trigger] b@[k] <= ONE,
            decreases n - j,
        {
            if r[j] < 0 || r[j] > ONE || g[j] < 0 || g[j] > ONE || b[j] < 0 || b[j] > ONE {
                return None;
            }
            j += 1;
        }
        Some(Self { r, g, b })
    }
}

/// The sum of one colour over the first `rows` rows of one pixel column.
pub open spec fn column_total(frame: RgbFrame, column: int, channel: int, rows: int) -> int
    decreases rows,
{
    if rows <= 0 {
        0
    } else {
        column_total(frame, column, channel, rows - 1) + frame.channel_at(
            column,
            rows - 1,
            channel,
        )
    }
}

/// The raw intensity of one colour in one pixel column of a window: the sum
/// over the rows as a share of the largest sum that the three colours of a
/// column can reach together, in millionths. A window without rows gives
/// zero.
pub open spec fn reduced_sample(frame: RgbFrame, column: int, channel: int) -> int {
    if frame.height == 0 {
        0
    } else {
        (column_total(frame, column, channel, frame.height as int) * 1_000_000) / (frame.height * 255
            * 3)
    }
}

/// No sum over rows exceeds what full brightness in every row gives.
pub proof fn lemma_column_total_bounds(frame: RgbFrame, column: int, channel: int, rows: int)
    requires
        rows >= 0,
    ensures
        0 <= column_total(frame, column, channel, rows) <= 255 * rows,
    decreases rows,
{
    if rows > 0 {
        lemma_column_total_bounds(frame, column, channel, rows - 1);
    }
}

/// Every raw intensity lies between zero and a third.
pub proof fn lemma_reduced_sample_bounds(frame: RgbFrame, column: int, channel: int)
    ensures
        0 <= reduced_sample(frame, column, channel) <= ONE / 3,
{
    if frame.height > 0 {
        let rows = frame.height as int;
        let total = column_total(frame, column, channel, rows);
        lemma_column_total_bounds(frame, column, channel, rows);
        assert(0 <= (total * 1_000_000) / (rows * 255 * 3) <= 333_333) by (nonlinear_arith)
            requires
                0 <= total <= 255 * rows,
                rows > 0,
        ;
    }
}

/// Reduces windows to raw spectra.
pub struct SpectrumCalculator {}

impl SpectrumCalculator {
    /// The sum of one colour over all rows of one pixel column.
    fn sum_column(window: &RgbFrame, column: u32, channel: usize) -> (total: u64)
        requires
            window.wf(),
            column < window.width,
            channel < 3,
        ensures
            total == column_total(*window, column as int, channel as int, window.height as int),
    {
        let mut total: u64 = 0;
        let mut y: u32 = 0;
        while y < window.height
            invariant
                window.wf(),
                column < window.width,
                channel < 3,
                y <= window.height,
                total == column_total(*window, column as int, channel as int, y as int),
                total <= 255 * y,
            decreases window.height - y,
        {
            let v = window.get(column, y, channel);
            total = total + v as u64;
            y += 1;
        }
        total
    }

    /// The raw intensity of one colour in one pixel column.
    fn reduce_column(window: &RgbFrame, column: u32, channel: usize) -> (sample: i64)
        requires
            window.wf(),
            column < window.width,
            channel < 3,
        ensures
            sample == reduced_sample(*window, column as int, channel as int),
            0 <= sample <= ONE,
    {
        proof {
            lemma_reduced_sample_bounds(*window, column as int, channel as int);
            lemma_column_total_bounds(
                *window,
                column as int,
                channel as int,
                window.height as int,
            );
        }
        if window.height == 0 {
            return 0;
        }
        let total = Self::sum_column(window, column, channel);
        let full: u64 = window.height as u64 * 255 * 3;
        ((total * 1_000_000) / full) as i64
    }

    /// Reduces a window to a raw spectrum: for each pixel column and colour
    /// the sum over the window's rows, as a share of the largest sum that the
    /// three colours of a column can reach together. The share does not
    /// depend on the window's height; a window without rows gives zeros.
    pub fn process_window(window: &RgbFrame) -> (spectrum: SpectrumRgb)
        requires
            window.wf(),
        ensures
            spectrum.wf(),
            spectrum.r@.len() == window.width,
            forall|c: int, j: int|
                0 <= c < 3 && 0 <= j < window.width ==> #[trigger] spectrum.channel(c)[j]
                    == reduced_sample(*window, j, c),
    {
        let mut r: Vec<i64> = Vec::new();
        let mut g: Vec<i64> = Vec::new();
        let mut b: Vec<i64> = Vec::new();
        let mut x: u32 = 0;
        while x < window.width
            invariant
                window.wf(),
                x <= window.width,
                r@.len() == x,
                g@.len() == x,
                b@.len() == x,
                forall|j: int| 0 <= j < x ==> #[trigger] r@[j] == reduced_sample(*window, j, 0),
                forall|j: int| 0 <= j < x ==> #[trigger] g@[j] == reduced_sample(*window, j, 1),
                forall|j: int| 0 <= j < x ==> #[trigger] b@[j] == reduced_sample(*window, j, 2),
                samples_in_range(r@),
                samples_in_range(g@),
                samples_in_range(b@),
            decreases window.width - x,
        {
            let sr = Self::reduce_column(window, x, 0);
            let sg = Self::reduce_column(window, x, 1);
            let sb = Self::reduce_column(window, x, 2);
            r.push(sr);
            g.push(sg);
            b.push(sb);
            x += 1;
        }
        SpectrumRgb { r, g, b }
    }

    /// Reduces a window and offers the raw spectrum to the container without
    /// waiting. A spectrum that meets a full channel is dropped and counted,
    /// and the loop goes on; the loop ends only when the container is gone.
    pub fn forward(
        sender: &flume::Sender<Timestamped<SpectrumRgb>>,
        timed_window: &Timestamped<RgbFrame>,
        stats: &mut SendStats,
    ) -> (control: LoopControl)
        requires
            timed_window.data.wf(),
        ensures
            exists|outcome: SendOutcome|
                *final(stats) == #[trigger] stats_after(*old(stats), outcome) && control
                    == control_after(outcome),
    {
        let timed = Self::process_timed_window(timed_window);
        offer(sender, timed, stats)
    }

    /// Reduces a window and keeps its time span.
    pub fn process_timed_window(timed_window: &Timestamped<RgbFrame>) -> (timed: Timestamped<
        SpectrumRgb,
    >)
        requires
            timed_window.data.wf(),
        ensures
            timed.start == timed_window.start,
            timed.end == timed_window.end,
            timed.data.wf(),
            timed.data.r@.len() == timed_window.data.width,
            forall|c: int, j: int|
                0 <= c < 3 && 0 <= j < timed_window.data.width ==> #[trigger] timed.data.channel(
                    c,
                )[j] == reduced_sample(timed_window.data, j, c),
    {
        Timestamped {
            start: timed_window.start,
            end: timed_window.end,
            data: Self::process_window(&timed_window.data),
        }
    }
}

/// A spectrum: for each pixel column the intensity of red, green and blue
/// and of the summed channel, in millionths.
#[derive(Debug, PartialEq, Eq, Clone)]
pub struct Spectrum {
    pub r: Vec<i64>,
    pub g: Vec<i64>,
    pub b: Vec<i64>,
    pub sum: Vec<i64>,
}

/// A copy of a row.
pub fn copy_row(row: &Vec<i64>) -> (out: Vec<i64>)
    ensures
        out@ == row@,
{
    let mut out: Vec<i64> = Vec::new();
    let mut j: usize = 0;
    while j < row.len()
        invariant
            j <= row@.len(),
            out@ == row@.take(j as int),
        decreases row@.len() - j,
    {
        out.push(row[j]);
        proof {
            assert(row@.take(j as int).push(row@[j as int]) =~= row@.take(j as int + 1));
        }
        j += 1;
    }
    proof {
        assert(row@.take(j as int) =~= row@);
    }
    out
}

impl Spectrum {
    /// The four rows have one sample per column.
    pub open spec fn wf(&self) -> bool {
        &&& self.g@.len() == self.r@.len()
        &&& self.b@.len() == self.r@.len()
        &&& self.sum@.len() == self.r@.len()
    }

    /// The samples of one row: 0 red, 1 green, 2 blue, anything else the
    /// summed channel.
    pub open spec fn row(&self, row: int) -> Seq<i64> {
        if row == 0 {
            self.r@
        } else if row == 1 {
            self.g@
        } else if row == 2 {
            self.b@
        } else {
            self.sum@
        }
    }

    /// The spectrum without columns.
    pub fn empty() -> (s: Self)
        ensures
            s.wf(),
            s.r@.len() == 0,
    {
        Self { r: Vec::new(), g: Vec::new(), b: Vec::new(), sum: Vec::new() }
    }

    /// The number of pixel columns.
    pub fn ncols(&self) -> (n: usize)
        ensures
            n == self.r@.len(),
    {
        self.r.len()
    }

    /// A copy of the spectrum.
    pub fn duplicate(&self) -> (copy: Self)
        ensures
            copy.r@ == self.r@,
            copy.g@ == self.g@,
            copy.b@ == self.b@,
            copy.sum@ == self.sum@,
    {
        Self {
            r: copy_row(&self.r),
            g: copy_row(&self.g),
            b: copy_row(&self.b),
            sum: copy_row(&self.sum),
        }
    }
}

/// One row of an export: a pixel column's wavelength and its four
/// intensities, in millionths.
#[derive(Debug, PartialEq, Eq, Structural, Clone, Copy)]
pub struct SpectrumExportPoint {
    pub wavelength: i64,
    pub r: i64,
    pub g: i64,
    pub b: i64,
    pub sum: i64,
}

impl Default for SpectrumExportPoint {
    fn default() -> (p: Self)
        ensures
            p == (SpectrumExportPoint { wavelength: 0, r: 0, g: 0, b: 0, sum: 0 }),
    {
        Self { wavelength: 0, r: 0, g: 0, b: 0, sum: 0 }
    }
}

/// A row of raw samples with the companding of `mode` undone.
pub open spec fn linearized_row(mode: Linearize, row: Seq<i64>) -> Seq<i64> {
    Seq::new(row.len(), |j: int| linearized(mode, row[j] as int) as i64)
}

/// The buffer as an arriving spectrum of `ncols` columns finds it: emptied
/// where it holds spectra of another width.
pub open spec fn buffer_kept(buffer: Seq<Timestamped<SpectrumRgb>>, ncols: int) -> Seq<
    Timestamped<SpectrumRgb>,
> {
    if buffer.len() > 0 && buffer[0].data.r@.len() != ncols {
        Seq::empty()
    } else {
        buffer
    }
}

/// The number of buffered spectra after one more has arrived: one more than
/// were kept, up to the configured size.
pub open spec fn buffer_len_after(kept: int, size: int) -> int {
    if kept + 1 <= size {
        kept + 1
    } else {
        size
    }
}

/// The baseline as an arriving spectrum of `ncols` columns leaves it:
/// dropped where the buffer is emptied or the baseline has another width.
pub open spec fn baseline_kept(
    buffer: Seq<Timestamped<SpectrumRgb>>,
    baseline: Option<Spectrum>,
    ncols: int,
) -> Option<Spectrum> {
    match baseline {
        Some(zero) => if (buffer.len() > 0 && buffer[0].data.r@.len() != ncols) || zero.r@.len()
            != ncols {
            None
        } else {
            baseline
        },
        None => None,
    }
}

/// A row of the spectrum that belongs to a buffer: merged from the buffer,
/// smoothed where the filter is active, and with the baseline taken off
/// where there is one.
pub open spec fn processed_row(
    buffer: Seq<Timestamped<SpectrumRgb>>,
    config: SpectrometerConfig,
    baseline: Option<Spectrum>,
    row: int,
    ncols: int,
) -> Seq<i64> {
    let merged = merged_row(buffer, config.spectrum_calibration, row, ncols);
    let smoothed = if config.postprocessing_config.spectrum_filter_active {
        zero_phase(config.postprocessing_config.spectrum_filter_coefficients, merged)
    } else {
        merged
    };
    match baseline {
        Some(zero) => referenced_row(smoothed, zero.row(row)),
        None => smoothed,
    }
}

/// Undoes the companding on every sample of a raw spectrum.
pub fn linearize_spectrum(mode: Linearize, raw: SpectrumRgb) -> (out: SpectrumRgb)
    requires
        raw.wf(),
    ensures
        out.wf(),
        out.r@.len() == raw.r@.len(),
        forall|c: int| 0 <= c < 3 ==> #[trigger] out.channel(c) == linearized_row(mode, raw.channel(c)),
{
    if mode == Linearize::Off {
        proof {
            assert forall|c: int| 0 <= c < 3 implies #[trigger] raw.channel(c) == linearized_row(
                mode,
                raw.channel(c),
            ) by {
                assert(raw.channel(c) =~= linearized_row(mode, raw.channel(c)));
            }
        }
        return raw;
    }
    let r = linearize_row(mode, &raw.r);
    let g = linearize_row(mode, &raw.g);
    let b = linearize_row(mode, &raw.b);
    SpectrumRgb { r, g, b }
}

/// Undoes the companding on every sample of a row.
fn linearize_row(mode: Linearize, row: &Vec<i64>) -> (out: Vec<i64>)
    requires
        samples_in_range(row@),
        mode != Linearize::Off,
    ensures
        out@ == linearized_row(mode, row@),
        samples_in_range(out@),
{
    let mut out: Vec<i64> = Vec::new();
    let mut j: usize = 0;
    while j < row.len()
        invariant
            j <= row@.len(),
            samples_in_range(row@),
            mode != Linearize::Off,
            out@.len() == j,
            forall|i: int| 0 <= i < j ==> #[trigger] out@[i] == linearized(mode, row@[i] as int),
            samples_in_range(out@),
        decreases row@.len() - j,
    {
        out.push(mode.linearize(row[j]));
        j += 1;
    }
    proof {
        assert(out@ =~= linearized_row(mode, row@));
    }
    out
}

/// The width of the buffered spectra; zero for an empty buffer.
pub open spec fn buffer_width(buffer: Seq<Timestamped<SpectrumRgb>>) -> int {
    if buffer.len() > 0 {
        buffer[0].data.r@.len() as int
    } else {
        0
    }
}

/// What one arriving raw spectrum makes of a container: `after` holds the
/// arrival, with its companding undone, in front of what was kept of the
/// buffer of `before`, cut to the configured size; it has the baseline of
/// `before` unless that had to be dropped; and its spectrum is the one that
/// belongs to its buffer and baseline.
pub open spec fn updated(
    before: SpectrumContainer,
    timed_spectrum: Timestamped<SpectrumRgb>,
    config: SpectrometerConfig,
    after: SpectrumContainer,
) -> bool {
    let ncols = timed_spectrum.data.r@.len() as int;
    let kept = buffer_kept(before.buffer(), ncols);
    let size = config.postprocessing_config.spectrum_buffer_size as int;
    let mode = config.spectrum_calibration.linearize;
    let buffer = after.buffer();
    &&& buffer.len() == buffer_len_after(kept.len() as int, size)
    &&& buffer.len() > 0 ==> buffer[0].start == timed_spectrum.start && buffer[0].end
        == timed_spectrum.end && forall|c: int|
        0 <= c < 3 ==> #[trigger] buffer[0].data.channel(c) == linearized_row(
            mode,
            timed_spectrum.data.channel(c),
        )
    &&& forall|k: int| 1 <= k < buffer.len() ==> #[trigger] buffer[k] == kept[k - 1]
    &&& after.baseline() == baseline_kept(before.buffer(), before.baseline(), ncols)
    &&& after.current().wf()
    &&& after.current().r@.len() == ncols
    &&& forall|row: int| #[trigger]
        after.current().row(row) == processed_row(buffer, config, after.baseline(), row, ncols)
}

/// Holds the latest raw spectra, newest first, the spectrum computed from
/// them, and the baseline that is taken off it.
pub struct SpectrumContainer {
    spectrum: Spectrum,
    spectrum_buffer: VecDeque<Timestamped<SpectrumRgb>>,
    zero_reference: Option<Spectrum>,
}

impl SpectrumContainer {
    /// The spectrum computed last.
    pub closed spec fn current(&self) -> Spectrum {
        self.spectrum
    }

    /// The buffered raw spectra, newest first.
    pub closed spec fn buffer(&self) -> Seq<Timestamped<SpectrumRgb>> {
        self.spectrum_buffer@
    }

    /// The baseline, where one is set.
    pub closed spec fn baseline(&self) -> Option<Spectrum> {
        self.zero_reference
    }

    /// The spectrum and the baseline have four rows of one length each, and
    /// the buffered raw spectra are well formed and of one width.
    pub open spec fn wf(&self) -> bool {
        &&& self.current().wf()
        &&& self.baseline().is_some() ==> self.baseline().unwrap().wf()
        &&& buffer_wf(self.buffer(), buffer_width(self.buffer()))
    }

    /// A container without spectra.
    pub fn new() -> (container: Self)
        ensures
            container.wf(),
            container.buffer().len() == 0,
            container.baseline().is_none(),
            container.current().r@.len() == 0,
    {
        SpectrumContainer {
            spectrum: Spectrum::empty(),
            spectrum_buffer: VecDeque::new(),
            zero_reference: None,
        }
    }

    /// Forgets the buffered raw spectra; the spectrum and the baseline stay.
    pub fn clear_buffer(&mut self)
        requires
            old(self).wf(),
        ensures
            final(self).wf(),
            final(self).buffer().len() == 0,
            final(self).current() == old(self).current(),
            final(self).baseline() == old(self).baseline(),
    {
        self.spectrum_buffer.clear();
    }

    /// The number of buffered raw spectra.
    pub fn buffer_len(&self) -> (n: usize)
        ensures
            n == self.buffer().len(),
    {
        self.spectrum_buffer.len()
    }

    /// Takes in one raw spectrum and computes the spectrum anew.
    ///
    /// A spectrum of another width than the buffered ones empties the buffer
    /// and drops the baseline, as does a baseline of another width. The
    /// companding is undone on the arriving samples, the spectrum is put in
    /// front of the buffer and the buffer cut to the configured size. The new
    /// spectrum is the mean over the buffer, times the gains, with the summed
    /// channel, smoothed where the filter is active, less the baseline. A
    /// committed correction works on the sum of the means as they are before
    /// the gains.
    pub fn update_spectrum(
        &mut self,
        timed_spectrum: Timestamped<SpectrumRgb>,
        config: &SpectrometerConfig,
    )
        requires
            old(self).wf(),
            timed_spectrum.data.wf(),
        ensures
            final(self).wf(),
            updated(*old(self), timed_spectrum, *config, *final(self)),
    {
        let ncols = timed_spectrum.data.ncols();
        let ghost old_buffer = self.spectrum_buffer@;
        let ghost kept = buffer_kept(old_buffer, ncols as int);
        let calibration = &config.spectrum_calibration;
        // A change of width makes the buffer and the baseline useless.
        if self.spectrum_buffer.len() > 0 && self.spectrum_buffer[0].data.ncols() != ncols {
            self.spectrum_buffer.clear();
            self.zero_reference = None;
        }
        let stale = match &self.zero_reference {
            Some(zero) => zero.ncols() != ncols,
            None => false,
        };
        if stale {
            self.zero_reference = None;
        }
        assert(self.spectrum_buffer@ == kept);
        assert(buffer_wf(kept, ncols as int));
        // The new spectrum goes in front; the oldest leave at the back.
        let start = timed_spectrum.start;
        let end = timed_spectrum.end;
        let data = linearize_spectrum(calibration.linearize, timed_spectrum.data);
        self.spectrum_buffer.push_front(Timestamped { start, end, data });
        self.spectrum_buffer.truncate(config.postprocessing_config.spectrum_buffer_size);
        let ghost after = self.spectrum_buffer@;
        assert(buffer_wf(after, ncols as int));
        // Mean, gains and the summed channel.
        let means_r = average_channel(&self.spectrum_buffer, 0, ncols);
        let means_g = average_channel(&self.spectrum_buffer, 1, ncols);
        let means_b = average_channel(&self.spectrum_buffer, 2, ncols);
        let mut r = apply_gain(&means_r, calibration.gain_r);
        let mut g = apply_gain(&means_g, calibration.gain_g);
        let mut b = apply_gain(&means_b, calibration.gain_b);
        proof {
            assert forall|j: int| 0 <= j < ncols implies 0 <= #[trigger] r@[j] <= 0xffff_ffff
                && r@[j] == merged(after, *calibration, 0, j) by {
                lemma_gained_bounds(after, *calibration, ncols as int, 0, j);
            }
            assert forall|j: int| 0 <= j < ncols implies 0 <= #[trigger] g@[j] <= 0xffff_ffff
                && g@[j] == merged(after, *calibration, 1, j) by {
                lemma_gained_bounds(after, *calibration, ncols as int, 1, j);
            }
            assert forall|j: int| 0 <= j < ncols implies 0 <= #[trigger] b@[j] <= 0xffff_ffff
                && b@[j] == merged(after, *calibration, 2, j) by {
                lemma_gained_bounds(after, *calibration, ncols as int, 2, j);
            }
        }
        let mut sum = combine_channels(&means_r, &means_g, &means_b, &r, &g, &b, calibration);
        proof {
            assert(r@ =~= merged_row(after, *calibration, 0, ncols as int));
            assert(g@ =~= merged_row(after, *calibration, 1, ncols as int));
            assert(b@ =~= merged_row(after, *calibration, 2, ncols as int));
            assert(sum@ =~= merged_row(after, *calibration, 3, ncols as int));
            assert forall|row: int| row < 0 || row > 3 implies #[trigger] merged_row(
                after,
                *calibration,
                row,
                ncols as int,
            ) == sum@ by {
                assert(merged_row(after, *calibration, row, ncols as int) =~= sum@);
            }
        }
        // Smoothing.
        if config.postprocessing_config.spectrum_filter_active {
            let coefficients = &config.postprocessing_config.spectrum_filter_coefficients;
            r = filter_zero_phase(coefficients, &r);
            g = filter_zero_phase(coefficients, &g);
            b = filter_zero_phase(coefficients, &b);
            sum = filter_zero_phase(coefficients, &sum);
        }
        // The baseline.
        let spectrum = match &self.zero_reference {
            Some(zero) => Spectrum {
                r: subtract_row(&r, &zero.r),
                g: subtract_row(&g, &zero.g),
                b: subtract_row(&b, &zero.b),
                sum: subtract_row(&sum, &zero.sum),
            },
            None => Spectrum { r, g, b, sum },
        };
        self.spectrum = spectrum;
    }

    /// The peaks (or, with `peaks` false, the dips) of the summed channel with
    /// their wavelengths, in ascending order of pixel column.
    pub fn spectrum_to_peaks_and_dips(&self, peaks: bool, config: &SpectrometerConfig) -> (points:
        Vec<SpectrumPoint>)
        requires
            self.wf(),
            config.spectrum_calibration.wf(),
        ensures
            ({
                let indices = extreme_indices(
                    ints(self.current().sum@),
                    config.spectrum_calibration,
                    peaks,
                    config.view_config.peaks_dips_find_window as int,
                    config.view_config.peaks_dips_unique_window as int,
                );
                &&& points@.len() == indices.len()
                &&& forall|k: int|
                    0 <= k < indices.len() ==> 0 <= #[trigger] indices[k]
                        < self.current().sum@.len()
                &&& forall|k: int|
                    0 <= k < indices.len() ==> #[trigger] points@[k] == point_at(
                        self.current().sum@,
                        config.spectrum_calibration,
                        indices[k],
                    )
            }),
    {
        find_extrema(
            &self.spectrum.sum,
            &config.spectrum_calibration,
            peaks,
            config.view_config.peaks_dips_find_window,
            config.view_config.peaks_dips_unique_window,
        )
    }

    /// One row of the spectrum (0 red, 1 green, 2 blue, 3 the summed channel)
    /// as readings, each pixel column with its wavelength.
    pub fn get_spectrum_channel(&self, channel_index: usize, config: &SpectrometerConfig) -> (points:
        Vec<SpectrumPoint>)
        requires
            self.wf(),
            config.spectrum_calibration.wf(),
            channel_index < 4,
        ensures
            points@.len() == self.current().r@.len(),
            forall|j: int|
                0 <= j < points@.len() ==> #[trigger] points@[j] == point_at(
                    self.current().row(channel_index as int),
                    config.spectrum_calibration,
                    j,
                ),
    {
        let row = if channel_index == 0 {
            &self.spectrum.r
        } else if channel_index == 1 {
            &self.spectrum.g
        } else if channel_index == 2 {
            &self.spectrum.b
        } else {
            &self.spectrum.sum
        };
        let mut points: Vec<SpectrumPoint> = Vec::new();
        let mut j: usize = 0;
        while j < row.len()
            invariant
                j <= row@.len(),
                config.spectrum_calibration.wf(),
                row@ == self.current().row(channel_index as int),
                points@.len() == j,
                forall|i: int|
                    0 <= i < j ==> #[trigger] points@[i] == point_at(
                        row@,
                        config.spectrum_calibration,
                        i,
                    ),
            decreases row@.len() - j,
        {
            points.push(
                SpectrumPoint {
                    wavelength: config.spectrum_calibration.get_wavelength_from_index(j),
                    value: row[j],
                },
            );
            j += 1;
        }
        points
    }

    /// Commits the reference as calibration: for each pixel column the factor
    /// that takes the summed channel to the reference intensity at the
    /// column's wavelength. Without a loaded reference nothing changes and
    /// the error says so.
    pub fn set_calibration(
        &self,
        calibration: &mut SpectrumCalibration,
        reference_config: &ReferenceConfig,
    ) -> (done: Result<(), CalibrationError>)
        requires
            self.wf(),
            old(calibration).wf(),
        ensures
            done.is_ok() <==> reference_config.reference.is_some(),
            done.is_err() ==> done == Err::<(), CalibrationError>(
                CalibrationError::MissingReference,
            ) && *final(calibration) == *old(calibration),
            final(calibration).low == old(calibration).low,
            final(calibration).high == old(calibration).high,
            final(calibration).linearize == old(calibration).linearize,
            final(calibration).gain_r == old(calibration).gain_r,
            final(calibration).gain_g == old(calibration).gain_g,
            final(calibration).gain_b == old(calibration).gain_b,
            done.is_ok() ==> final(calibration).scaling.is_some(),
            done.is_ok() ==> final(calibration).scaling.unwrap()@.len()
                == self.current().sum@.len(),
            done.is_ok() ==> forall|i: int|
                0 <= i < self.current().sum@.len() ==> #[trigger] final(calibration).scaling.unwrap()@[i]
                    == quotient(
                    reference_config.value_at(old(calibration).wavelength_at(i)).unwrap(),
                    self.current().sum@[i] as int,
                ),
    {
        if reference_config.reference.is_none() {
            return Err(CalibrationError::MissingReference);
        }
        let mut scaling: Vec<i64> = Vec::new();
        let mut i: usize = 0;
        while i < self.spectrum.sum.len()
            invariant
                i <= self.spectrum.sum@.len(),
                calibration.wf(),
                *calibration == *old(calibration),
                reference_config.reference.is_some(),
                self.spectrum.sum@ == self.current().sum@,
                scaling@.len() == i,
                forall|k: int|
                    0 <= k < i ==> #[trigger] scaling@[k] == quotient(
                        reference_config.value_at(calibration.wavelength_at(k)).unwrap(),
                        self.spectrum.sum@[k] as int,
                    ),
            decreases self.spectrum.sum@.len() - i,
        {
            let wavelength = calibration.get_wavelength_from_index(i);
            let reference = match reference_config.get_value_at_wavelength(wavelength) {
                Some(value) => value,
                None => 0,
            };
            scaling.push(div_fixed(reference, self.spectrum.sum[i]));
            i += 1;
        }
        calibration.scaling = Some(scaling);
        Ok(())
    }

    /// Tells whether a baseline is set.
    pub fn has_zero_reference(&self) -> (has: bool)
        ensures
            has == self.baseline().is_some(),
    {
        self.zero_reference.is_some()
    }

    /// Makes the current spectrum the baseline.
    pub fn set_zero_reference(&mut self)
        requires
            old(self).wf(),
        ensures
            final(self).wf(),
            final(self).buffer() == old(self).buffer(),
            final(self).current() == old(self).current(),
            final(self).baseline().is_some(),
            forall|row: int| #[trigger]
                final(self).baseline().unwrap().row(row) == old(self).current().row(row),
    {
        self.zero_reference = Some(self.spectrum.duplicate());
    }

    /// Drops the baseline.
    pub fn clear_zero_reference(&mut self)
        requires
            old(self).wf(),
        ensures
            final(self).wf(),
            final(self).buffer() == old(self).buffer(),
            final(self).current() == old(self).current(),
            final(self).baseline().is_none(),
    {
        self.zero_reference = None;
    }

    /// The spectrum as export rows, one per pixel column.
    pub fn spectrum_to_point_vec(&self, calibration: &SpectrumCalibration) -> (rows: Vec<
        SpectrumExportPoint,
    >)
        requires
            self.wf(),
            calibration.wf(),
        ensures
            rows@.len() == self.current().r@.len(),
            forall|j: int|
                0 <= j < rows@.len() ==> #[trigger] rows@[j] == export_point(
                    self.current(),
                    *calibration,
                    j,
                ),
    {
        let mut rows: Vec<SpectrumExportPoint> = Vec::new();
        let n = self.spectrum.r.len();
        let mut j: usize = 0;
        while j < n
            invariant
                j <= n,
                n == self.spectrum.r@.len(),
                self.spectrum.wf(),
                self.spectrum == self.current(),
                calibration.wf(),
                rows@.len() == j,
                forall|i: int|
                    0 <= i < j ==> #[trigger] rows@[i] == export_point(
                        self.spectrum,
                        *calibration,
                        i,
                    ),
            decreases n - j,
        {
            rows.push(
                SpectrumExportPoint {
                    wavelength: calibration.get_wavelength_from_index(j),
                    r: self.spectrum.r[j],
                    g: self.spectrum.g[j],
                    b: self.spectrum.b[j],
                    sum: self.spectrum.sum[j],
                },
            );
            j += 1;
        }
        rows
    }

    /// The largest sample of the four rows; nothing for a spectrum without
    /// columns.
    pub fn get_spectrum_max_value(&self) -> (max: Option<i64>)
        requires
            self.wf(),
        ensures
            max.is_none() <==> self.current().r@.len() == 0,
            max.is_some() ==> is_largest(self.current(), max.unwrap()),
    {
        let n = self.spectrum.r.len();
        if n == 0 {
            return None;
        }
        let mut best: i64 = self.spectrum.r[0];
        assert(self.spectrum.row(0)[0] == best);
        let mut j: usize = 0;
        while j < n
            invariant
                j <= n,
                n == self.spectrum.r@.len(),
                n > 0,
                self.spectrum.wf(),
                self.spectrum == self.current(),
                exists|row: int, i: int|
                    0 <= row < 4 && 0 <= i < n && #[trigger] self.spectrum.row(row)[i] == best,
                forall|row: int, i: int|
                    0 <= row < 4 && 0 <= i < j ==> #[trigger] self.spectrum.row(row)[i] <= best,
            decreases n - j,
        {
            let ghost before = best;
            if self.spectrum.r[j] > best {
                best = self.spectrum.r[j];
                assert(self.spectrum.row(0)[j as int] == best);
            }
            if self.spectrum.g[j] > best {
                best = self.spectrum.g[j];
                assert(self.spectrum.row(1)[j as int] == best);
            }
            if self.spectrum.b[j] > best {
                best = self.spectrum.b[j];
                assert(self.spectrum.row(2)[j as int] == best);
            }
            if self.spectrum.sum[j] > best {
                best = self.spectrum.sum[j];
                assert(self.spectrum.row(3)[j as int] == best);
            }
            assert forall|row: int, i: int| 0 <= row < 4 && 0 <= i < j + 1 implies #[trigger]
                self.spectrum.row(row)[i] <= best by {
                if i < j {
                    assert(self.spectrum.row(row)[i] <= before);
                }
            }
            j += 1;
        }
        Some(best)
    }

    /// The summed channel with its wavelengths and the time span of the
    /// buffered raw spectra: from the start of the oldest to the end of the
    /// newest. An empty buffer gives no snapshot.
    pub fn timestamped_snapshot(&self, calibration: &SpectrumCalibration) -> (snapshot: Result<
        SpectrumSnapshot,
        SnapshotError,
    >)
        requires
            self.wf(),
            calibration.wf(),
        ensures
            is_snapshot_of(*self, *calibration, snapshot),
    {
        let count = self.spectrum_buffer.len();
        if count == 0 {
            return Err(SnapshotError::NoData);
        }
        let start = self.spectrum_buffer[count - 1].start;
        let end = self.spectrum_buffer[0].end;
        let mut spectrum: Vec<SpectrumPoint> = Vec::new();
        let mut j: usize = 0;
        while j < self.spectrum.sum.len()
            invariant
                j <= self.spectrum.sum@.len(),
                calibration.wf(),
                self.spectrum == self.current(),
                spectrum@.len() == j,
                forall|i: int|
                    0 <= i < j ==> #[trigger] spectrum@[i] == point_at(
                        self.spectrum.sum@,
                        *calibration,
                        i,
                    ),
            decreases self.spectrum.sum@.len() - j,
        {
            spectrum.push(
                SpectrumPoint {
                    wavelength: calibration.get_wavelength_from_index(j),
                    value: self.spectrum.sum[j],
                },
            );
            j += 1;
        }
        Ok(SpectrumSnapshot { start, end, spectrum })
    }

    /// Takes in the queued raw spectra in the order in which they arrived,
    /// and after each makes a snapshot of the spectrum. The queue is left
    /// empty.
    pub fn update(
        &mut self,
        queued: &mut VecDeque<Timestamped<SpectrumRgb>>,
        config: &SpectrometerConfig,
    ) -> (snapshots: Vec<Result<SpectrumSnapshot, SnapshotError>>)
        requires
            old(self).wf(),
            config.spectrum_calibration.wf(),
            forall|k: int| 0 <= k < old(queued)@.len() ==> (#[trigger] old(queued)@[k]).data.wf(),
        ensures
            final(self).wf(),
            final(queued)@.len() == 0,
            snapshots@.len() == old(queued)@.len(),
            exists|states: Seq<SpectrumContainer>|
                {
                    &&& states.len() == old(queued)@.len() + 1
                    &&& states[0] == *old(self)
                    &&& states[old(queued)@.len() as int] == *final(self)
                    &&& forall|k: int|
                        0 <= k < old(queued)@.len() ==> updated(
                            #[trigger] states[k],
                            old(queued)@[k],
                            *config,
                            states[k + 1],
                        ) && is_snapshot_of(
                            states[k + 1],
                            config.spectrum_calibration,
                            snapshots@[k],
                        )
                },
    {
        let mut snapshots: Vec<Result<SpectrumSnapshot, SnapshotError>> = Vec::new();
        let ghost all = queued@;
        let ghost mut states: Seq<SpectrumContainer> = seq![*self];
        while queued.len() > 0
            invariant
                self.wf(),
                config.spectrum_calibration.wf(),
                all == old(queued)@,
                forall|k: int| 0 <= k < all.len() ==> (#[trigger] all[k]).data.wf(),
                snapshots@.len() + queued@.len() == all.len(),
                queued@ == all.subrange(snapshots@.len() as int, all.len() as int),
                states.len() == snapshots@.len() + 1,
                states[0] == *old(self),
                states[snapshots@.len() as int] == *self,
                forall|k: int|
                    0 <= k < snapshots@.len() ==> updated(
                        #[trigger] states[k],
                        all[k],
                        *config,
                        states[k + 1],
                    ) && is_snapshot_of(states[k + 1], config.spectrum_calibration, snapshots@[k]),
            decreases queued@.len(),
        {
            let ghost done = snapshots@.len() as int;
            let ghost before = *self;
            let timed = queued.pop_front().unwrap();
            assert(timed == all[done]);
            self.update_spectrum(timed, config);
            let snapshot = self.timestamped_snapshot(&config.spectrum_calibration);
            snapshots.push(snapshot);
            proof {
                let earlier = states;
                states = states.push(*self);
                assert forall|k: int| 0 <= k < snapshots@.len() implies updated(
                    #[trigger] states[k],
                    all[k],
                    *config,
                    states[k + 1],
                ) && is_snapshot_of(
                    states[k + 1],
                    config.spectrum_calibration,
                    snapshots@[k],
                ) by {
                    if k < done {
                        assert(states[k] == earlier[k]);
                        assert(states[k + 1] == earlier[k + 1]);
                    }
                }
                assert(queued@ =~= all.subrange(snapshots@.len() as int, all.len() as int));
            }
        }
        snapshots
    }
}

/// Why a reference could not be committed as calibration.
#[derive(Debug, PartialEq, Eq, Structural, Clone, Copy)]
pub enum CalibrationError {
    /// No reference curve is loaded.
    MissingReference,
}

/// Why no snapshot could be made.
#[derive(Debug, PartialEq, Eq, Structural, Clone, Copy)]
pub enum SnapshotError {
    /// No raw spectrum is buffered.
    NoData,
}

impl SnapshotError {
    /// What the error says.
    pub fn message(&self) -> (s: String)
        ensures
            s@ == "No spectrum data available"@,
    {
        "No spectrum data available".to_owned()
    }
}

/// The summed channel at one moment, with the time span of the camera
/// pictures that went into it.
#[derive(Debug, PartialEq, Eq, Clone)]
pub struct SpectrumSnapshot {
    /// Not after the first light that went into the spectrum.
    pub start: u64,
    /// Not before the last light that went into the spectrum.
    pub end: u64,
    pub spectrum: Vec<SpectrumPoint>,
}

/// The export row of one pixel column.
pub open spec fn export_point(spectrum: Spectrum, calibration: SpectrumCalibration, j: int)
    -> SpectrumExportPoint {
    SpectrumExportPoint {
        wavelength: calibration.wavelength_at(j) as i64,
        r: spectrum.r@[j],
        g: spectrum.g@[j],
        b: spectrum.b@[j],
        sum: spectrum.sum@[j],
    }
}

/// `m` is a sample of the spectrum, and no sample is larger.
pub open spec fn is_largest(spectrum: Spectrum, m: i64) -> bool {
    &&& exists|row: int, j: int|
        0 <= row < 4 && 0 <= j < spectrum.r@.len() && #[trigger] spectrum.row(row)[j] == m
    &&& forall|row: int, j: int|
        0 <= row < 4 && 0 <= j < spectrum.r@.len() ==> #[trigger] spectrum.row(row)[j] <= m
}

/// `snapshot` is what a snapshot of `container` gives: for an empty buffer
/// the error, else the summed channel with its wavelengths, from the start
/// of the oldest buffered spectrum to the end of the newest.
pub open spec fn is_snapshot_of(
    container: SpectrumContainer,
    calibration: SpectrumCalibration,
    snapshot: Result<SpectrumSnapshot, SnapshotError>,
) -> bool {
    let buffer = container.buffer();
    match snapshot {
        Err(e) => buffer.len() == 0 && e == SnapshotError::NoData,
        Ok(shot) => {
            &&& buffer.len() > 0
            &&& shot.start == buffer[buffer.len() - 1].start
            &&& shot.end == buffer[0].end
            &&& shot.spectrum@.len() == container.current().sum@.len()
            &&& forall|j: int|
                0 <= j < shot.spectrum@.len() ==> #[trigger] shot.spectrum@[j] == point_at(
                    container.current().sum@,
                    calibration,
                    j,
                )
        },
    }
}

/// Every sample of every buffered spectrum is `v`.
pub open spec fn uniform_buffer(buffer: Seq<Timestamped<SpectrumRgb>>, ncols: int, v: int) -> bool {
    forall|k: int, c: int, j: int|
        0 <= k < buffer.len() && 0 <= c < 3 && 0 <= j < ncols ==> (
        #[trigger] buffer[k].data.channel(c)[j]) == v
}

/// The sum of a column over spectra that all hold `v` is `v` times their
/// number.
pub proof fn lemma_uniform_column_sum(
    buffer: Seq<Timestamped<SpectrumRgb>>,
    ncols: int,
    v: int,
    c: int,
    j: int,
    upto: int,
)
    requires
        uniform_buffer(buffer, ncols, v),
        0 <= c < 3,
        0 <= j < ncols,
        0 <= upto <= buffer.len(),
    ensures
        column_sum(buffer, c, j, upto) == v * upto,
    decreases upto,
{
    if upto > 0 {
        lemma_uniform_column_sum(buffer, ncols, v, c, j, upto - 1);
        assert(buffer[upto - 1].data.channel(c)[j] == v);
        assert(v * (upto - 1) + v == v * upto) by (nonlinear_arith);
    } else {
        assert(v * 0 == 0);
    }
}

/// From a buffer whose spectra all hold the value `v` everywhere, with
/// gains of one, no correction, no smoothing and no baseline, every sample
/// of the spectrum, in the colours and in the summed channel, is `v`.
pub proof fn lemma_uniform_spectrum(
    buffer: Seq<Timestamped<SpectrumRgb>>,
    config: SpectrometerConfig,
    ncols: int,
    v: int,
    row: int,
    j: int,
)
    requires
        buffer.len() > 0,
        uniform_buffer(buffer, ncols, v),
        0 <= v <= ONE,
        0 <= j < ncols,
        config.spectrum_calibration.gain_r == ONE,
        config.spectrum_calibration.gain_g == ONE,
        config.spectrum_calibration.gain_b == ONE,
        config.spectrum_calibration.scaling.is_none(),
        !config.postprocessing_config.spectrum_filter_active,
    ensures
        processed_row(buffer, config, None, row, ncols)[j] == v,
{
    let n = buffer.len() as int;
    assert forall|c: int| 0 <= c < 3 implies averaged(buffer, c, j) == v by {
        lemma_uniform_column_sum(buffer, ncols, v, c, j, n);
        assert((v * n) / n == v) by (nonlinear_arith)
            requires
                n > 0,
        ;
    }
    let calibration = config.spectrum_calibration;
    assert forall|c: int| 0 <= c < 3 implies gained(buffer, calibration, c, j) == v by {
        assert(gain_of(calibration, c) == 1_000_000);
        assert(averaged(buffer, c, j) * gain_of(calibration, c) == v * 1_000_000);
    }
    assert(merged(buffer, calibration, row, j) == v);
}

/// After every arrival the buffer holds no more spectra than configured.
/// An arrival of the buffered width adds one to the buffer as long as that
/// stays within the configured size.
pub proof fn lemma_buffer_bound(
    before: SpectrumContainer,
    timed_spectrum: Timestamped<SpectrumRgb>,
    config: SpectrometerConfig,
    after: SpectrumContainer,
)
    requires
        updated(before, timed_spectrum, config, after),
    ensures
        after.buffer().len() <= config.postprocessing_config.spectrum_buffer_size,
        after.buffer().len() <= before.buffer().len() + 1,
        (before.buffer().len() == 0 || buffer_width(before.buffer())
            == timed_spectrum.data.r@.len()) && before.buffer().len()
            < config.postprocessing_config.spectrum_buffer_size ==> after.buffer().len()
            == before.buffer().len() + 1,
        (before.buffer().len() == 0 || buffer_width(before.buffer())
            == timed_spectrum.data.r@.len()) && before.buffer().len()
            >= config.postprocessing_config.spectrum_buffer_size ==> after.buffer().len()
            == config.postprocessing_config.spectrum_buffer_size,
{
}

/// However many raw spectra arrive one after the other under one
/// configuration, the buffer never holds more than the configured number.
pub proof fn lemma_buffer_bound_always(
    states: Seq<SpectrumContainer>,
    arrivals: Seq<Timestamped<SpectrumRgb>>,
    config: SpectrometerConfig,
)
    requires
        states.len() == arrivals.len() + 1,
        forall|k: int|
            0 <= k < arrivals.len() ==> updated(
                #[trigger] states[k],
                arrivals[k],
                config,
                states[k + 1],
            ),
    ensures
        forall|k: int|
            1 <= k < states.len() ==> (#[trigger] states[k]).buffer().len()
                <= config.postprocessing_config.spectrum_buffer_size,
{
    assert forall|k: int| 1 <= k < states.len() implies (#[trigger] states[k]).buffer().len()
        <= config.postprocessing_config.spectrum_buffer_size by {
        assert(updated(states[k - 1], arrivals[k - 1], config, states[k]));
    }
}

/// An arrival of another width than the buffered spectra leaves nothing of
/// the old buffer and no baseline: the buffer then holds the arrival alone,
/// where the configured size lets it hold anything.
pub proof fn lemma_dimension_change_reset(
    before: SpectrumContainer,
    timed_spectrum: Timestamped<SpectrumRgb>,
    config: SpectrometerConfig,
    after: SpectrumContainer,
)
    requires
        updated(before, timed_spectrum, config, after),
        before.buffer().len() > 0,
        buffer_width(before.buffer()) != timed_spectrum.data.r@.len(),
    ensures
        after.baseline().is_none(),
        after.buffer().len() <= 1,
        after.buffer().len() == 1 <==> config.postprocessing_config.spectrum_buffer_size >= 1,
        after.buffer().len() == 1 ==> after.buffer()[0].start == timed_spectrum.start
            && after.buffer()[0].data.r@.len() == timed_spectrum.data.r@.len(),
        after.current().r@.len() == timed_spectrum.data.r@.len(),
{
    if after.buffer().len() == 1 {
        assert(after.buffer()[0].data.channel(0) == linearized_row(
            config.spectrum_calibration.linearize,
            timed_spectrum.data.channel(0),
        ));
    }
}

} // verus!
