//! The stages that turn the buffered raw spectra into one spectrum: the mean
//! over the buffer, the gain of each colour, the summed channel with its
//! correction, and the subtraction of a baseline.

use crate::config::SpectrumCalibration;
use crate::fixed::{div_toward_zero, mul_fixed, product, saturate, saturate_i128, trunc_div, ONE};
use crate::spectrum::{samples_in_range, SpectrumRgb};
use crate::Timestamped;
use std::collections::VecDeque;
use vstd::prelude::*;

verus! {

/// Every buffered spectrum is well formed and has `ncols` columns.
pub open spec fn buffer_wf(buffer: Seq<Timestamped<SpectrumRgb>>, ncols: int) -> bool {
    forall|k: int|
        0 <= k < buffer.len() ==> (#[trigger] buffer[k]).data.wf() && buffer[k].data.r@.len()
            == ncols
}

/// The sum of one colour of one column over the first `upto` buffered
/// spectra.
pub open spec fn column_sum(
    buffer: Seq<Timestamped<SpectrumRgb>>,
    channel: int,
    j: int,
    upto: int,
) -> int
    decreases upto,
{
    if upto <= 0 {
        0
    } else {
        column_sum(buffer, channel, j, upto - 1) + buffer[upto - 1].data.channel(channel)[j]
    }
}

/// The mean of one colour of one column over all buffered spectra, rounded
/// down; zero for an empty buffer.
pub open spec fn averaged(buffer: Seq<Timestamped<SpectrumRgb>>, channel: int, j: int) -> int {
    if buffer.len() == 0 {
        0
    } else {
        column_sum(buffer, channel, j, buffer.len() as int) / (buffer.len() as int)
    }
}

/// The gain of a colour: 0 red, 1 green, anything else blue.
pub open spec fn gain_of(calibration: SpectrumCalibration, channel: int) -> int {
    if channel == 0 {
        calibration.gain_r as int
    } else if channel == 1 {
        calibration.gain_g as int
    } else {
        calibration.gain_b as int
    }
}

/// The mean of one colour of one column, times the gain of the colour.
pub open spec fn gained(
    buffer: Seq<Timestamped<SpectrumRgb>>,
    calibration: SpectrumCalibration,
    channel: int,
    j: int,
) -> int {
    (averaged(buffer, channel, j) * gain_of(calibration, channel)) / 1_000_000
}

/// The summed channel of one column. Without a committed correction it is a
/// third of the sum of the three colours after their gains. Where a
/// correction is committed, it is a third of the sum of the three means, as
/// they are before the gains, times the column's factor.
pub open spec fn combined(
    buffer: Seq<Timestamped<SpectrumRgb>>,
    calibration: SpectrumCalibration,
    j: int,
) -> int {
    if calibration.scaling.is_some() {
        trunc_div(
            product(
                averaged(buffer, 0, j) + averaged(buffer, 1, j) + averaged(buffer, 2, j),
                calibration.scaling_at(j),
            ),
            3,
        )
    } else {
        (gained(buffer, calibration, 0, j) + gained(buffer, calibration, 1, j) + gained(
            buffer,
            calibration,
            2,
            j,
        )) / 3
    }
}

/// A sample of the spectrum before smoothing: rows 0 to 2 are the colours
/// after their gains, any other row is the summed channel.
pub open spec fn merged(
    buffer: Seq<Timestamped<SpectrumRgb>>,
    calibration: SpectrumCalibration,
    row: int,
    j: int,
) -> int {
    if 0 <= row < 3 {
        gained(buffer, calibration, row, j)
    } else {
        combined(buffer, calibration, j)
    }
}

/// A row of the spectrum before smoothing.
pub open spec fn merged_row(
    buffer: Seq<Timestamped<SpectrumRgb>>,
    calibration: SpectrumCalibration,
    row: int,
    ncols: int,
) -> Seq<i64> {
    Seq::new(ncols as nat, |j: int| merged(buffer, calibration, row, j) as i64)
}

/// A row with a baseline taken off, sample by sample.
pub open spec fn referenced_row(row: Seq<i64>, baseline: Seq<i64>) -> Seq<i64> {
    Seq::new(row.len(), |j: int| saturate(row[j] - baseline[j]) as i64)
}

/// No sum over the buffer exceeds what full samples give.
pub proof fn lemma_column_sum_bounds(
    buffer: Seq<Timestamped<SpectrumRgb>>,
    ncols: int,
    channel: int,
    j: int,
    upto: int,
)
    requires
        buffer_wf(buffer, ncols),
        0 <= j < ncols,
        0 <= upto <= buffer.len(),
    ensures
        0 <= column_sum(buffer, channel, j, upto) <= ONE * upto,
    decreases upto,
{
    if upto > 0 {
        lemma_column_sum_bounds(buffer, ncols, channel, j, upto - 1);
        let entry = buffer[upto - 1];
        assert(entry.data.wf());
        assert(0 <= entry.data.channel(channel)[j] <= ONE);
    }
}

/// The mean of samples between zero and one lies between zero and one.
pub proof fn lemma_averaged_bounds(
    buffer: Seq<Timestamped<SpectrumRgb>>,
    ncols: int,
    channel: int,
    j: int,
)
    requires
        buffer_wf(buffer, ncols),
        0 <= j < ncols,
    ensures
        0 <= averaged(buffer, channel, j) <= ONE,
{
    let n = buffer.len() as int;
    if n > 0 {
        lemma_column_sum_bounds(buffer, ncols, channel, j, n);
        let total = column_sum(buffer, channel, j, n);
        assert(0 <= total / n <= 1_000_000) by (nonlinear_arith)
            requires
                0 <= total <= 1_000_000 * n,
                n > 0,
        ;
    }
}

/// A mean times a gain is no more than the gain, and fits four bytes and a
/// half.
pub proof fn lemma_gained_bounds(
    buffer: Seq<Timestamped<SpectrumRgb>>,
    calibration: SpectrumCalibration,
    ncols: int,
    channel: int,
    j: int,
)
    requires
        buffer_wf(buffer, ncols),
        0 <= j < ncols,
    ensures
        0 <= gained(buffer, calibration, channel, j) <= gain_of(calibration, channel)
            <= 0xffff_ffff,
{
    lemma_averaged_bounds(buffer, ncols, channel, j);
    let mean = averaged(buffer, channel, j);
    let gain = gain_of(calibration, channel);
    assert(0 <= (mean * gain) / 1_000_000 <= gain) by (nonlinear_arith)
        requires
            0 <= mean <= 1_000_000,
            0 <= gain,
    ;
}

/// One sample of one colour.
fn sample(spectrum: &SpectrumRgb, channel: usize, j: usize) -> (value: i64)
    requires
        spectrum.wf(),
        j < spectrum.r@.len(),
    ensures
        value == spectrum.channel(channel as int)[j as int],
        0 <= value <= ONE,
{
    if channel == 0 {
        spectrum.r[j]
    } else if channel == 1 {
        spectrum.g[j]
    } else {
        spectrum.b[j]
    }
}

/// The mean of one colour over the buffer, column by column.
pub fn average_channel(
    buffer: &VecDeque<Timestamped<SpectrumRgb>>,
    channel: usize,
    ncols: usize,
) -> (row: Vec<i64>)
    requires
        buffer_wf(buffer@, ncols as int),
    ensures
        row@.len() == ncols,
        forall|j: int| 0 <= j < ncols ==> #[trigger] row@[j] == averaged(buffer@, channel as int, j),
        samples_in_range(row@),
{
    let count = buffer.len();
    let mut row: Vec<i64> = Vec::new();
    let mut j: usize = 0;
    while j < ncols
        invariant
            j <= ncols,
            count == buffer@.len(),
            buffer_wf(buffer@, ncols as int),
            row@.len() == j,
            forall|i: int| 0 <= i < j ==> #[trigger] row@[i] == averaged(buffer@, channel as int, i),
            samples_in_range(row@),
        decreases ncols - j,
    {
        let mut total: u128 = 0;
        let mut k: usize = 0;
        while k < count
            invariant
                k <= count,
                j < ncols,
                count == buffer@.len(),
                buffer_wf(buffer@, ncols as int),
                total == column_sum(buffer@, channel as int, j as int, k as int),
                total <= ONE * k,
            decreases count - k,
        {
            let entry = &buffer[k];
            assert(entry.data.wf() && entry.data.r@.len() == ncols);
            total = total + sample(&entry.data, channel, j) as u128;
            k += 1;
        }
        proof {
            lemma_averaged_bounds(buffer@, ncols as int, channel as int, j as int);
        }
        let mean: i64 = if count == 0 {
            0
        } else {
            (total / count as u128) as i64
        };
        row.push(mean);
        j += 1;
    }
    row
}

/// A row of means times the gain of its colour.
pub fn apply_gain(means: &Vec<i64>, gain: u32) -> (row: Vec<i64>)
    requires
        samples_in_range(means@),
    ensures
        row@.len() == means@.len(),
        forall|j: int|
            0 <= j < means@.len() ==> #[trigger] row@[j] == (means@[j] * gain) / 1_000_000,
{
    let mut row: Vec<i64> = Vec::new();
    let mut j: usize = 0;
    while j < means.len()
        invariant
            j <= means@.len(),
            samples_in_range(means@),
            row@.len() == j,
            forall|i: int| 0 <= i < j ==> #[trigger] row@[i] == (means@[i] * gain) / 1_000_000,
        decreases means@.len() - j,
    {
        let mean = means[j];
        assert(0 <= mean * gain <= 1_000_000 * 0xffff_ffff) by (nonlinear_arith)
            requires
                0 <= mean <= 1_000_000,
                0 <= gain <= 0xffff_ffff,
        ;
        let scaled: u64 = (mean as u64 * gain as u64) / 1_000_000;
        row.push(scaled as i64);
        j += 1;
    }
    row
}

/// A row with a baseline of the same length taken off, sample by sample.
pub fn subtract_row(row: &Vec<i64>, baseline: &Vec<i64>) -> (out: Vec<i64>)
    requires
        baseline@.len() == row@.len(),
    ensures
        out@ == referenced_row(row@, baseline@),
{
    let mut out: Vec<i64> = Vec::new();
    let mut j: usize = 0;
    while j < row.len()
        invariant
            j <= row@.len(),
            baseline@.len() == row@.len(),
            out@.len() == j,
            forall|i: int| 0 <= i < j ==> #[trigger] out@[i] == saturate(row@[i] - baseline@[i]),
        decreases row@.len() - j,
    {
        out.push(saturate_i128(row[j] as i128 - baseline[j] as i128));
        j += 1;
    }
    proof {
        assert(out@ =~= referenced_row(row@, baseline@));
    }
    out
}

/// The summed channel: from the three colours after their gains, or, where
/// a correction is committed, from the three means and the factors.
pub fn combine_channels(
    means_r: &Vec<i64>,
    means_g: &Vec<i64>,
    means_b: &Vec<i64>,
    r: &Vec<i64>,
    g: &Vec<i64>,
    b: &Vec<i64>,
    calibration: &SpectrumCalibration,
) -> (sum: Vec<i64>)
    requires
        g@.len() == r@.len(),
        b@.len() == r@.len(),
        means_r@.len() == r@.len(),
        means_g@.len() == r@.len(),
        means_b@.len() == r@.len(),
        samples_in_range(means_r@),
        samples_in_range(means_g@),
        samples_in_range(means_b@),
        forall|j: int| 0 <= j < r@.len() ==> 0 <= #[trigger] r@[j] <= 0xffff_ffff,
        forall|j: int| 0 <= j < r@.len() ==> 0 <= #[trigger] g@[j] <= 0xffff_ffff,
        forall|j: int| 0 <= j < r@.len() ==> 0 <= #[trigger] b@[j] <= 0xffff_ffff,
    ensures
        sum@.len() == r@.len(),
        forall|j: int|
            0 <= j < r@.len() ==> #[trigger] sum@[j] == (if calibration.scaling.is_some() {
                trunc_div(
                    product(means_r@[j] + means_g@[j] + means_b@[j], calibration.scaling_at(j)),
                    3,
                )
            } else {
                (r@[j] + g@[j] + b@[j]) / 3
            }),
{
    let corrected = calibration.scaling.is_some();
    let mut sum: Vec<i64> = Vec::new();
    let mut j: usize = 0;
    while j < r.len()
        invariant
            j <= r@.len(),
            g@.len() == r@.len(),
            b@.len() == r@.len(),
            means_r@.len() == r@.len(),
            means_g@.len() == r@.len(),
            means_b@.len() == r@.len(),
            samples_in_range(means_r@),
            samples_in_range(means_g@),
            samples_in_range(means_b@),
            corrected == calibration.scaling.is_some(),
            forall|i: int| 0 <= i < r@.len() ==> 0 <= #[trigger] r@[i] <= 0xffff_ffff,
            forall|i: int| 0 <= i < r@.len() ==> 0 <= #[trigger] g@[i] <= 0xffff_ffff,
            forall|i: int| 0 <= i < r@.len() ==> 0 <= #[trigger] b@[i] <= 0xffff_ffff,
            sum@.len() == j,
            forall|i: int|
                0 <= i < j ==> #[trigger] sum@[i] == (if calibration.scaling.is_some() {
                    trunc_div(
                        product(
                            means_r@[i] + means_g@[i] + means_b@[i],
                            calibration.scaling_at(i),
                        ),
                        3,
                    )
                } else {
                    (r@[i] + g@[i] + b@[i]) / 3
                }),
        decreases r@.len() - j,
    {
        let value: i64 = if corrected {
            let total: i64 = means_r[j] + means_g[j] + means_b[j];
            let scaled = mul_fixed(total, calibration.get_scaling_factor_from_index(j));
            div_toward_zero(scaled as i128, 3) as i64
        } else {
            let total: i64 = r[j] + g[j] + b[j];
            total / 3
        };
        sum.push(value);
        j += 1;
    }
    sum
}

} // verus!
