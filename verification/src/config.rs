//! Settings of the spectrometer: calibration, gains, the window that is cut
//! from each camera frame, post-processing and display options.
//!
//! Every quantity that is not a whole number is a fixed-point `i64` or `u32`
//! in millionths (see [`crate::fixed`]): wavelengths in millionths of a
//! nanometre, intensities and factors in millionths of one.

use crate::fixed::{product, saturate, trunc_div, FINE, ONE};
use crate::fixed::{div_toward_zero, mul_fixed, saturate_i128};
use vstd::prelude::*;

verus! {

/// The companding curve that is undone on raw samples.
#[derive(Debug, PartialEq, Eq, Structural, Clone, Copy)]
pub enum Linearize {
    Off,
    Rec601,
    Rec709,
    SRgb,
}

impl Linearize {
    /// The name shown for this curve.
    pub fn label(&self) -> (s: String)
        ensures
            s@ == (match *self {
                Linearize::Off => "Off"@,
                Linearize::Rec601 => "Rec. 601"@,
                Linearize::Rec709 => "Rec. 709"@,
                Linearize::SRgb => "sRGB"@,
            }),
    {
        match self {
            Linearize::Off => "Off".to_owned(),
            Linearize::Rec601 => "Rec. 601".to_owned(),
            Linearize::Rec709 => "Rec. 709".to_owned(),
            Linearize::SRgb => "sRGB".to_owned(),
        }
    }
}

/// Where spectra and reference curves are read from and written to.
#[derive(Debug, PartialEq, Clone)]
pub struct ImportExportConfig {
    pub path: String,
}

impl Default for ImportExportConfig {
    fn default() -> (c: Self)
        ensures
            c.path@ == "spectrum.csv"@,
    {
        Self { path: "spectrum.csv".to_owned() }
    }
}

/// One reading: an intensity at a wavelength, both in millionths.
#[derive(Debug, PartialEq, Eq, Structural, Clone, Copy)]
pub struct SpectrumPoint {
    pub wavelength: i64,
    pub value: i64,
}

impl Default for SpectrumPoint {
    fn default() -> (p: Self)
        ensures
            p.wavelength == 0,
            p.value == 0,
    {
        Self { wavelength: 0, value: 0 }
    }
}

/// A sorted sequence with one more point put in its place: behind every
/// point of the same or a smaller wavelength.
pub open spec fn insert_point(sorted: Seq<SpectrumPoint>, p: SpectrumPoint) -> Seq<SpectrumPoint>
    decreases sorted.len(),
{
    if sorted.len() == 0 {
        seq![p]
    } else if sorted.last().wavelength <= p.wavelength {
        sorted.push(p)
    } else {
        insert_point(sorted.drop_last(), p).push(sorted.last())
    }
}

/// The points in ascending order of wavelength; points of equal wavelength
/// keep the order in which they were given.
pub open spec fn sort_points(points: Seq<SpectrumPoint>) -> Seq<SpectrumPoint>
    decreases points.len(),
{
    if points.len() == 0 {
        Seq::empty()
    } else {
        insert_point(sort_points(points.drop_last()), points.last())
    }
}

/// True when the wavelengths never fall from one point to the next.
pub open spec fn ascending(points: Seq<SpectrumPoint>) -> bool {
    forall|i: int, j: int|
        0 <= i <= j < points.len() ==> points[i].wavelength <= points[j].wavelength
}

/// The first position at or after `from` whose point and the next one
/// enclose the wavelength `w`, or -1 where no two neighbours do.
pub open spec fn segment_index(sorted: Seq<SpectrumPoint>, w: int, from: int) -> int
    decreases sorted.len() - from,
{
    if from < 0 || from + 1 >= sorted.len() {
        -1
    } else if sorted[from].wavelength <= w <= sorted[from + 1].wavelength {
        from
    } else {
        segment_index(sorted, w, from + 1)
    }
}

/// The value at `w` on the straight line from `p` to `q`, rounded toward the
/// value of `p`. Two points of one wavelength give the value of the first.
pub open spec fn interpolate(p: SpectrumPoint, q: SpectrumPoint, w: int) -> int {
    if p.wavelength == q.wavelength {
        p.value as int
    } else {
        p.value + trunc_div(
            (w - p.wavelength) * (q.value - p.value),
            q.wavelength - p.wavelength,
        )
    }
}

/// The piecewise-linear curve through the sorted points, read at `w`: zero
/// where no two neighbouring points enclose `w`.
pub open spec fn curve_at(sorted: Seq<SpectrumPoint>, w: int) -> int {
    let i = segment_index(sorted, w, 0);
    if i < 0 {
        0
    } else {
        interpolate(sorted[i], sorted[i + 1], w)
    }
}

/// Putting a point in its place gives the points before the place, the new
/// point, then the points behind it.
pub proof fn lemma_insert_point_at(sorted: Seq<SpectrumPoint>, p: SpectrumPoint, pos: int)
    requires
        0 <= pos <= sorted.len(),
        pos > 0 ==> sorted[pos - 1].wavelength <= p.wavelength,
        forall|k: int| pos <= k < sorted.len() ==> sorted[k].wavelength > p.wavelength,
    ensures
        insert_point(sorted, p) == sorted.insert(pos, p),
    decreases sorted.len(),
{
    if sorted.len() == 0 {
        assert(sorted.insert(pos, p) =~= seq![p]);
    } else if pos == sorted.len() {
        assert(sorted.insert(pos, p) =~= sorted.push(p));
    } else {
        let front = sorted.drop_last();
        lemma_insert_point_at(front, p, pos);
        assert(front.insert(pos, p).push(sorted.last()) =~= sorted.insert(pos, p));
    }
}

/// Putting a point in its place keeps an ascending sequence ascending.
pub proof fn lemma_insert_point_ascending(sorted: Seq<SpectrumPoint>, p: SpectrumPoint)
    requires
        ascending(sorted),
    ensures
        ascending(insert_point(sorted, p)),
        insert_point(sorted, p).len() == sorted.len() + 1,
        insert_point(sorted, p).to_multiset() == sorted.to_multiset().insert(p),
    decreases sorted.len(),
{
    broadcast use vstd::seq_lib::group_to_multiset_ensures;

    let out = insert_point(sorted, p);
    if sorted.len() == 0 {
        assert(sorted =~= Seq::empty());
        assert(out =~= Seq::<SpectrumPoint>::empty().push(p));
    } else if sorted.last().wavelength <= p.wavelength {
        assert forall|i: int, j: int| 0 <= i <= j < out.len() implies out[i].wavelength
            <= out[j].wavelength by {
            if j == sorted.len() && i < sorted.len() {
                assert(sorted[i].wavelength <= sorted[sorted.len() - 1].wavelength);
            }
        }
    } else {
        let front = sorted.drop_last();
        assert(ascending(front));
        lemma_insert_point_ascending(front, p);
        let mid = insert_point(front, p);
        assert(sorted =~= front.push(sorted.last()));
        assert forall|i: int, j: int| 0 <= i <= j < out.len() implies out[i].wavelength
            <= out[j].wavelength by {
            if j == mid.len() && i < mid.len() {
                // Every point of `mid` is `p` or a point of `front`.
                assert(mid.to_multiset().count(mid[i]) > 0);
                if mid[i] != p {
                    assert(front.to_multiset().count(mid[i]) > 0);
                    let k = choose|k: int| 0 <= k < front.len() && front[k] == mid[i];
                    assert(sorted[k].wavelength <= sorted[sorted.len() - 1].wavelength);
                }
            }
        }
        assert(out.to_multiset() =~= sorted.to_multiset().insert(p));
    }
}

/// Sorting arranges the same points in ascending order of wavelength.
pub proof fn lemma_sort_points_ascending(points: Seq<SpectrumPoint>)
    ensures
        ascending(sort_points(points)),
        sort_points(points).len() == points.len(),
        sort_points(points).to_multiset() == points.to_multiset(),
    decreases points.len(),
{
    broadcast use vstd::seq_lib::group_to_multiset_ensures;

    if points.len() == 0 {
        assert(points =~= Seq::empty());
    } else {
        lemma_sort_points_ascending(points.drop_last());
        lemma_insert_point_ascending(sort_points(points.drop_last()), points.last());
        assert(points =~= points.drop_last().push(points.last()));
    }
}

/// With exactly two points, the first at the shorter wavelength, the curve
/// passes through both and between them follows the straight line from the
/// one to the other; beyond them it is zero.
pub proof fn lemma_two_point_curve(p: SpectrumPoint, q: SpectrumPoint, w: int)
    requires
        p.wavelength < q.wavelength,
    ensures
        sort_points(seq![p, q]) == seq![p, q],
        sort_points(seq![q, p]) == seq![p, q],
        curve_at(seq![p, q], p.wavelength as int) == p.value,
        curve_at(seq![p, q], q.wavelength as int) == q.value,
        p.wavelength <= w <= q.wavelength ==> curve_at(seq![p, q], w) == interpolate(p, q, w),
        w < p.wavelength || w > q.wavelength ==> curve_at(seq![p, q], w) == 0,
{
    let pq = seq![p, q];
    let qp = seq![q, p];
    assert(pq.drop_last() =~= seq![p]);
    assert(qp.drop_last() =~= seq![q]);
    assert(seq![p].drop_last() =~= Seq::<SpectrumPoint>::empty());
    assert(seq![q].drop_last() =~= Seq::<SpectrumPoint>::empty());
    assert(sort_points(Seq::<SpectrumPoint>::empty()) =~= Seq::<SpectrumPoint>::empty());
    assert(sort_points(seq![p]) =~= seq![p]) by {
        assert(insert_point(Seq::<SpectrumPoint>::empty(), p) =~= seq![p]);
    }
    assert(sort_points(seq![q]) =~= seq![q]) by {
        assert(insert_point(Seq::<SpectrumPoint>::empty(), q) =~= seq![q]);
    }
    assert(sort_points(pq) =~= pq) by {
        assert(insert_point(seq![p], q) =~= seq![p].push(q));
    }
    assert(sort_points(qp) =~= pq) by {
        assert(insert_point(seq![q].drop_last(), p) =~= seq![p]);
        assert(insert_point(seq![q], p) =~= seq![p].push(q));
    }
    // One pair of neighbours: the segment is found there or nowhere.
    assert(segment_index(pq, w, 1) == -1);
    let span = q.wavelength - p.wavelength;
    let rise = q.value - p.value;
    assert((p.wavelength - p.wavelength) * rise == 0) by (nonlinear_arith);
    assert(0int / span == 0) by (nonlinear_arith)
        requires
            span > 0,
    ;
    assert((span * rise) / span == rise && (span * (-rise)) / span == -rise) by (nonlinear_arith)
        requires
            span > 0,
    ;
    assert(-(span * rise) == span * (-rise)) by (nonlinear_arith);
    assert(rise >= 0 ==> span * rise >= 0) by (nonlinear_arith)
        requires
            span > 0,
    ;
    assert(rise < 0 ==> span * rise < 0) by (nonlinear_arith)
        requires
            span > 0,
    ;
}

/// A reference curve: points of known intensity, and a factor in millionths
/// by which every value read from the curve is multiplied.
#[derive(Debug, PartialEq, Clone)]
pub struct ReferenceConfig {
    pub reference: Option<Vec<SpectrumPoint>>,
    pub scale: i64,
}

impl Default for ReferenceConfig {
    fn default() -> (c: Self)
        ensures
            c.reference.is_none(),
            c.scale == ONE,
    {
        Self { reference: None, scale: ONE }
    }
}

/// The points in ascending order of wavelength, equal wavelengths in the
/// order given.
pub fn sorted_by_wavelength(points: &Vec<SpectrumPoint>) -> (sorted: Vec<SpectrumPoint>)
    ensures
        sorted@ == sort_points(points@),
{
    let mut sorted: Vec<SpectrumPoint> = Vec::new();
    let mut n: usize = 0;
    while n < points.len()
        invariant
            n <= points.len(),
            sorted@ == sort_points(points@.take(n as int)),
            sorted@.len() == n,
        decreases points.len() - n,
    {
        let p = points[n];
        let mut pos: usize = sorted.len();
        while pos > 0 && sorted[pos - 1].wavelength > p.wavelength
            invariant
                pos <= sorted.len(),
                forall|k: int| pos <= k < sorted.len() ==> sorted@[k].wavelength > p.wavelength,
            decreases pos,
        {
            pos -= 1;
        }
        proof {
            lemma_insert_point_at(sorted@, p, pos as int);
            assert(points@.take(n as int + 1).drop_last() =~= points@.take(n as int));
            assert(points@.take(n as int + 1).last() == p);
        }
        sorted.insert(pos, p);
        n += 1;
    }
    proof {
        assert(points@.take(n as int) =~= points@);
    }
    sorted
}

/// The value at `w` on the straight line from `p` to `q`, for `w` between
/// the wavelengths of the two.
pub fn interpolate_between(p: SpectrumPoint, q: SpectrumPoint, w: i64) -> (value: i64)
    requires
        p.wavelength <= w <= q.wavelength,
    ensures
        value == interpolate(p, q, w as int),
{
    if p.wavelength == q.wavelength {
        return p.value;
    }
    let run: u128 = (w as i128 - p.wavelength as i128) as u128;
    let span: u128 = (q.wavelength as i128 - p.wavelength as i128) as u128;
    let rise: i128 = q.value as i128 - p.value as i128;
    if rise >= 0 {
        let height: u128 = rise as u128;
        assert(run * height <= span * height <= 0xffff_ffff_ffff_ffff * 0xffff_ffff_ffff_ffff)
            by (nonlinear_arith)
            requires
                0 <= run <= span <= 0xffff_ffff_ffff_ffff,
                0 <= height <= 0xffff_ffff_ffff_ffff,
        ;
        let part: u128 = (run * height) / span;
        assert(part <= height) by (nonlinear_arith)
            requires
                part == (run * height) / (span as int),
                0 <= run <= span,
                span > 0,
                height >= 0,
        ;
        (p.value as i128 + part as i128) as i64
    } else {
        let height: u128 = (-rise) as u128;
        assert(run * height <= span * height <= 0xffff_ffff_ffff_ffff * 0xffff_ffff_ffff_ffff)
            by (nonlinear_arith)
            requires
                0 <= run <= span <= 0xffff_ffff_ffff_ffff,
                0 <= height <= 0xffff_ffff_ffff_ffff,
        ;
        let part: u128 = (run * height) / span;
        assert(part <= height) by (nonlinear_arith)
            requires
                part == (run * height) / (span as int),
                0 <= run <= span,
                span > 0,
                height >= 0,
        ;
        assert((w - p.wavelength) * (q.value - p.value) == -(run * height)) by (nonlinear_arith)
            requires
                run == w - p.wavelength,
                height == -(q.value - p.value),
        ;
        assert(run * height >= 0) by (nonlinear_arith)
            requires
                run >= 0,
                height >= 0,
        ;
        if run * height == 0 {
            assert(0int / (span as int) == 0) by (nonlinear_arith)
                requires
                    span > 0,
            ;
        }
        (p.value as i128 - part as i128) as i64
    }
}

impl ReferenceConfig {
    /// The reference intensity at a wavelength: the curve through the sorted
    /// points, times the scale; nothing where no curve is loaded.
    pub open spec fn value_at(&self, wavelength: int) -> Option<int> {
        match self.reference {
            None => None,
            Some(points) => Some(
                product(curve_at(sort_points(points@), wavelength), self.scale as int),
            ),
        }
    }

    /// The reference intensity at a wavelength, in millionths. Between two
    /// neighbouring points of the curve the value lies on the straight line
    /// between them; outside all points it is zero. Without a loaded curve
    /// there is no value.
    pub fn get_value_at_wavelength(&self, wavelength: i64) -> (value: Option<i64>)
        ensures
            match value {
                Some(v) => self.value_at(wavelength as int) == Some(v as int),
                None => self.value_at(wavelength as int).is_none(),
            },
    {
        match &self.reference {
            None => None,
            Some(points) => {
                let sorted = sorted_by_wavelength(points);
                let mut i: usize = 0;
                let mut found: i64 = 0;
                while sorted.len() - i > 1
                    invariant_except_break
                        found == 0,
                    invariant
                        i <= sorted.len(),
                        segment_index(sorted@, wavelength as int, 0) == segment_index(
                            sorted@,
                            wavelength as int,
                            i as int,
                        ),
                    ensures
                        found == curve_at(sorted@, wavelength as int),
                    decreases sorted.len() - i,
                {
                    if sorted[i].wavelength <= wavelength && wavelength <= sorted[i + 1].wavelength {
                        found = interpolate_between(sorted[i], sorted[i + 1], wavelength);
                        break ;
                    }
                    i += 1;
                }
                Some(mul_fixed(found, self.scale))
            },
        }
    }
}

/// A pair of pixel coordinates or pixel extents.
#[derive(Debug, PartialEq, Eq, Structural, Clone, Copy)]
pub struct Vec2 {
    pub x: u32,
    pub y: u32,
}

impl Vec2 {
    pub fn new(x: u32, y: u32) -> (v: Self)
        ensures
            v.x == x,
            v.y == y,
    {
        Self { x, y }
    }
}

impl Default for Vec2 {
    fn default() -> (v: Self)
        ensures
            v.x == 0,
            v.y == 0,
    {
        Self { x: 0, y: 0 }
    }
}

/// The rectangle of a camera frame that holds the dispersed light.
#[derive(Debug, PartialEq, Eq, Structural, Clone, Copy)]
pub struct SpectrumWindow {
    pub offset: Vec2,
    pub size: Vec2,
}

impl Default for SpectrumWindow {
    fn default() -> (w: Self)
        ensures
            w.offset == (Vec2 { x: 0, y: 0 }),
            w.size == (Vec2 { x: 0, y: 0 }),
    {
        Self { offset: Vec2 { x: 0, y: 0 }, size: Vec2 { x: 0, y: 0 } }
    }
}

/// What is drawn, and how peaks and dips are searched.
#[derive(Debug, PartialEq, Eq, Structural, Clone, Copy)]
pub struct ViewConfig {
    /// Preview scale in millionths.
    pub image_scale: i64,
    pub draw_spectrum_r: bool,
    pub draw_spectrum_g: bool,
    pub draw_spectrum_b: bool,
    pub draw_spectrum_combined: bool,
    pub draw_color_polygons: bool,
    pub draw_peaks: bool,
    pub draw_dips: bool,
    /// Full width, in millionths of a nanometre, of the range in which only
    /// the strongest peak or dip is kept.
    pub peaks_dips_unique_window: i64,
    /// Number of samples on each side that a peak or dip must dominate.
    pub peaks_dips_find_window: usize,
    pub show_camera_window: bool,
    pub show_calibration_window: bool,
    pub show_postprocessing_window: bool,
    pub show_camera_control_window: bool,
    pub show_import_export_window: bool,
}

impl Default for ViewConfig {
    fn default() -> (v: Self)
        ensures
            v == (ViewConfig {
                image_scale: 250_000,
                draw_spectrum_r: true,
                draw_spectrum_g: true,
                draw_spectrum_b: true,
                draw_spectrum_combined: true,
                draw_color_polygons: true,
                draw_peaks: true,
                draw_dips: true,
                peaks_dips_unique_window: 50_000_000,
                peaks_dips_find_window: 5,
                show_camera_window: true,
                show_calibration_window: false,
                show_postprocessing_window: false,
                show_camera_control_window: false,
                show_import_export_window: false,
            }),
    {
        Self {
            image_scale: 250_000,
            draw_spectrum_r: true,
            draw_spectrum_g: true,
            draw_spectrum_b: true,
            draw_spectrum_combined: true,
            draw_color_polygons: true,
            draw_peaks: true,
            draw_dips: true,
            peaks_dips_unique_window: 50_000_000,
            peaks_dips_find_window: 5,
            show_camera_window: true,
            show_calibration_window: false,
            show_postprocessing_window: false,
            show_camera_control_window: false,
            show_import_export_window: false,
        }
    }
}

/// The smaller of two pixel counts.
pub open spec fn min_u32(a: u32, b: u32) -> u32 {
    if a <= b {
        a
    } else {
        b
    }
}

/// How a frame is prepared before the window is cut from it.
#[derive(Debug, PartialEq, Eq, Structural, Clone, Copy)]
pub struct ImageConfig {
    pub window: SpectrumWindow,
    pub flip: bool,
}

impl Default for ImageConfig {
    fn default() -> (c: Self)
        ensures
            c.window.offset == (Vec2 { x: 100, y: 500 }),
            c.window.size == (Vec2 { x: 1500, y: 1 }),
            c.flip,
    {
        Self {
            window: SpectrumWindow {
                offset: Vec2 { x: 100, y: 500 },
                size: Vec2 { x: 1500, y: 1 },
            },
            flip: true,
        }
    }
}

impl ImageConfig {
    /// True when the window lies inside a frame of `width` by `height` pixels.
    pub open spec fn fits(&self, width: u32, height: u32) -> bool {
        &&& self.window.offset.x + self.window.size.x <= width
        &&& self.window.offset.y + self.window.size.y <= height
    }

    /// Moves the window into a frame of `width` by `height` pixels: the
    /// offset is capped at the frame's extent, then the size at what is left
    /// beyond the offset.
    pub fn clamp(&mut self, width: u32, height: u32)
        ensures
            final(self).window.offset.x == min_u32(old(self).window.offset.x, width),
            final(self).window.offset.y == min_u32(old(self).window.offset.y, height),
            final(self).window.size.x == min_u32(
                old(self).window.size.x,
                (width - final(self).window.offset.x) as u32,
            ),
            final(self).window.size.y == min_u32(
                old(self).window.size.y,
                (height - final(self).window.offset.y) as u32,
            ),
            final(self).flip == old(self).flip,
            final(self).fits(width, height),
    {
        let ox = if self.window.offset.x <= width {
            self.window.offset.x
        } else {
            width
        };
        let oy = if self.window.offset.y <= height {
            self.window.offset.y
        } else {
            height
        };
        let room_x = width - ox;
        let room_y = height - oy;
        let sx = if self.window.size.x <= room_x {
            self.window.size.x
        } else {
            room_x
        };
        let sy = if self.window.size.y <= room_y {
            self.window.size.y
        } else {
            room_y
        };
        self.window = SpectrumWindow { offset: Vec2 { x: ox, y: oy }, size: Vec2 { x: sx, y: sy } };
    }
}

/// A known spectral line: the pixel column at which a wavelength, in whole
/// nanometres, is found.
#[derive(Debug, PartialEq, Eq, Structural, Clone, Copy)]
pub struct SpectrumCalibrationPoint {
    pub wavelength: u32,
    pub index: usize,
}

/// Named sets of channel gains.
#[derive(Debug, PartialEq, Eq, Structural, Clone, Copy)]
pub enum GainPresets {
    Unity,
    Rec601,
    Rec709,
    SRgb,
}

impl GainPresets {
    /// The gains of red, green and blue, in millionths.
    pub open spec fn gain_of(self) -> (u32, u32, u32) {
        match self {
            GainPresets::Unity => (1_000_000u32, 1_000_000u32, 1_000_000u32),
            GainPresets::Rec601 => (299_000u32, 587_000u32, 114_000u32),
            GainPresets::Rec709 | GainPresets::SRgb => (212_600u32, 715_200u32, 72_200u32),
        }
    }

    /// The gains of red, green and blue, in millionths.
    pub fn get_gain(&self) -> (g: (u32, u32, u32))
        ensures
            g == self.gain_of(),
    {
        match self {
            GainPresets::Unity => (1_000_000, 1_000_000, 1_000_000),
            GainPresets::Rec601 => (299_000, 587_000, 114_000),
            GainPresets::Rec709 | GainPresets::SRgb => (212_600, 715_200, 72_200),
        }
    }

    /// The name shown for this preset.
    pub fn label(&self) -> (s: String)
        ensures
            s@ == (match *self {
                GainPresets::Unity => "Unity"@,
                GainPresets::Rec601 => "Rec. 601"@,
                GainPresets::Rec709 => "Rec. 709"@,
                GainPresets::SRgb => "sRGB"@,
            }),
    {
        match self {
            GainPresets::Unity => "Unity".to_owned(),
            GainPresets::Rec601 => "Rec. 601".to_owned(),
            GainPresets::Rec709 => "Rec. 709".to_owned(),
            GainPresets::SRgb => "sRGB".to_owned(),
        }
    }
}

/// The map from pixel column to wavelength, and the radiometric corrections.
#[derive(Debug, PartialEq, Clone)]
pub struct SpectrumCalibration {
    pub low: SpectrumCalibrationPoint,
    pub high: SpectrumCalibrationPoint,
    pub linearize: Linearize,
    /// Gain of the red channel in millionths.
    pub gain_r: u32,
    /// Gain of the green channel in millionths.
    pub gain_g: u32,
    /// Gain of the blue channel in millionths.
    pub gain_b: u32,
    /// Once a reference has been committed: for each pixel column the factor,
    /// in millionths, that corrects the summed channel.
    pub scaling: Option<Vec<i64>>,
}

impl SpectrumCalibration {
    /// The two calibration points are in order, in wavelength and in column.
    pub open spec fn wf(&self) -> bool {
        &&& self.high.wavelength > self.low.wavelength
        &&& self.high.index > self.low.index
    }

    /// The wavelength step per pixel column, in millionths of a nanometre.
    pub open spec fn wavelength_delta(&self) -> int {
        ((self.high.wavelength - self.low.wavelength) * 1_000_000) / (self.high.index - self.low.index)
    }

    /// The wavelength of a pixel column before it is brought into range: the
    /// line through the two calibration points, rounded toward the low point.
    pub open spec fn wavelength_exact(&self, index: int) -> int {
        self.low.wavelength * 1_000_000 + trunc_div(
            (index - self.low.index) * ((self.high.wavelength - self.low.wavelength) * 1_000_000),
            self.high.index - self.low.index,
        )
    }

    /// The wavelength of a pixel column, in millionths of a nanometre.
    pub open spec fn wavelength_at(&self, index: int) -> int {
        saturate(self.wavelength_exact(index))
    }

    /// The correction factor of a pixel column: the committed one, or one.
    pub open spec fn scaling_at(&self, index: int) -> int {
        match self.scaling {
            Some(scaling) => if 0 <= index < scaling@.len() {
                scaling@[index] as int
            } else {
                ONE as int
            },
            None => ONE as int,
        }
    }

    /// Checks that the two calibration points are in order.
    pub fn is_valid(&self) -> (ok: bool)
        ensures
            ok == self.wf(),
    {
        self.high.wavelength > self.low.wavelength && self.high.index > self.low.index
    }

    /// The wavelength step per pixel column, in millionths of a nanometre.
    pub fn get_wavelength_delta(&self) -> (delta: i64)
        requires
            self.wf(),
        ensures
            delta == self.wavelength_delta(),
    {
        let span: u64 = (self.high.wavelength - self.low.wavelength) as u64 * 1_000_000;
        let columns: u64 = (self.high.index - self.low.index) as u64;
        let step: u64 = span / columns;
        assert(step <= span) by (nonlinear_arith)
            requires
                step == span / columns,
                columns >= 1,
        ;
        step as i64
    }

    /// The wavelength of a pixel column, in millionths of a nanometre. Columns
    /// outside the two calibration points continue the same line.
    pub fn get_wavelength_from_index(&self, index: usize) -> (wavelength: i64)
        requires
            self.wf(),
        ensures
            wavelength == self.wavelength_at(index as int),
    {
        let columns: i128 = (self.high.index - self.low.index) as i128;
        let span: i128 = (self.high.wavelength - self.low.wavelength) as i128 * 1_000_000;
        let offset: i128 = index as i128 - self.low.index as i128;
        assert(-0x1_0000_0000_0000_0000 * 0x10_0000_0000_0000 <= (offset as int) * (span as int)
            <= 0x1_0000_0000_0000_0000 * 0x10_0000_0000_0000) by (nonlinear_arith)
            requires
                -0x1_0000_0000_0000_0000 <= offset as int <= 0x1_0000_0000_0000_0000,
                0 <= span as int <= 0x10_0000_0000_0000,
        ;
        let rise: i128 = div_toward_zero(offset * span, columns);
        proof {
            crate::fixed::lemma_trunc_div_magnitude((offset as int) * (span as int), columns as int);
        }
        let base: i128 = self.low.wavelength as i128 * 1_000_000;
        saturate_i128(base + rise)
    }

    /// The correction factor of a pixel column: the committed one, or one
    /// where none is committed or the column lies beyond the committed ones.
    pub fn get_scaling_factor_from_index(&self, index: usize) -> (factor: i64)
        ensures
            factor == self.scaling_at(index as int),
    {
        match &self.scaling {
            Some(scaling) => {
                if index < scaling.len() {
                    scaling[index]
                } else {
                    ONE
                }
            },
            None => ONE,
        }
    }

    /// Sets the three gains to those of a preset; nothing else changes.
    pub fn set_gain_preset(&mut self, preset: GainPresets)
        ensures
            (final(self).gain_r, final(self).gain_g, final(self).gain_b) == preset.gain_of(),
            final(self).low == old(self).low,
            final(self).high == old(self).high,
            final(self).linearize == old(self).linearize,
            final(self).scaling == old(self).scaling,
    {
        let factors = preset.get_gain();
        self.gain_r = factors.0;
        self.gain_g = factors.1;
        self.gain_b = factors.2;
    }
}

/// The wavelength map is the straight line through the two calibration
/// points: it gives each point its own wavelength, and at every other column
/// lies within less than one millionth of a nanometre of the line, on the
/// side of the low point.
pub proof fn lemma_wavelength_mapping_affine(calibration: SpectrumCalibration, index: int)
    requires
        calibration.wf(),
    ensures
        calibration.wavelength_at(calibration.low.index as int) == calibration.low.wavelength * 1_000_000,
        calibration.wavelength_at(calibration.high.index as int) == calibration.high.wavelength
            * 1_000_000,
        ({
            let columns = calibration.high.index - calibration.low.index;
            let span = (calibration.high.wavelength - calibration.low.wavelength) * 1_000_000;
            let rise = calibration.wavelength_exact(index) - calibration.low.wavelength * 1_000_000;
            let line = (index - calibration.low.index) * span;
            &&& index >= calibration.low.index ==> rise * columns <= line < rise * columns + columns
            &&& index <= calibration.low.index ==> rise * columns - columns < line <= rise * columns
            &&& line % columns == 0 ==> rise * columns == line
        }),
{
    let columns = calibration.high.index - calibration.low.index;
    let span = (calibration.high.wavelength - calibration.low.wavelength) * 1_000_000;
    let line = (index - calibration.low.index) * span;
    crate::fixed::lemma_trunc_div_bounds(line, columns);
    assert(index >= calibration.low.index ==> line >= 0) by (nonlinear_arith)
        requires
            line == (index - calibration.low.index) * span,
            span >= 0,
    ;
    assert(index <= calibration.low.index ==> line <= 0) by (nonlinear_arith)
        requires
            line == (index - calibration.low.index) * span,
            span >= 0,
    ;
    if line % columns == 0 {
        crate::fixed::lemma_trunc_div_exact(line, columns);
    }
    // At the low point the line has not risen.
    assert((calibration.low.index - calibration.low.index) * span == 0) by (nonlinear_arith);
    assert(0int / columns == 0) by (nonlinear_arith)
        requires
            columns > 0,
    ;
    // At the high point it has risen by the whole span.
    assert((columns * span) / columns == span) by (nonlinear_arith)
        requires
            columns > 0,
            span >= 0,
    ;
    assert(columns * span >= 0) by (nonlinear_arith)
        requires
            columns > 0,
            span >= 0,
    ;
}

impl Default for SpectrumCalibration {
    fn default() -> (c: Self)
        ensures
            c.low == (SpectrumCalibrationPoint { wavelength: 436, index: 261 }),
            c.high == (SpectrumCalibrationPoint { wavelength: 546, index: 486 }),
            c.linearize == Linearize::Off,
            c.gain_r == 1_000_000,
            c.gain_g == 1_000_000,
            c.gain_b == 1_000_000,
            c.scaling.is_none(),
            c.wf(),
    {
        Self {
            low: SpectrumCalibrationPoint { wavelength: 436, index: 261 },
            high: SpectrumCalibrationPoint { wavelength: 546, index: 486 },
            linearize: Linearize::Off,
            gain_r: 1_000_000,
            gain_g: 1_000_000,
            gain_b: 1_000_000,
            scaling: None,
        }
    }
}

/// The coefficients of a second-order filter section, in millionths of a
/// millionth, with the leading feedback coefficient taken as one.
#[derive(Debug, PartialEq, Eq, Structural, Clone, Copy)]
pub struct FilterCoefficients {
    pub a1: i64,
    pub a2: i64,
    pub b0: i64,
    pub b1: i64,
    pub b2: i64,
}

impl FilterCoefficients {
    /// The section that hands every sample through unchanged.
    pub fn identity() -> (c: Self)
        ensures
            c == (FilterCoefficients { a1: 0, a2: 0, b0: FINE, b1: 0, b2: 0 }),
    {
        Self { a1: 0, a2: 0, b0: FINE, b1: 0, b2: 0 }
    }
}

/// The lowest cutoff of the low-pass filter, in millionths of the sample rate's half.
pub const FILTER_CUTOFF_MIN: i64 = 1_000;

/// The highest cutoff of the low-pass filter.
pub const FILTER_CUTOFF_MAX: i64 = 1_000_000;

/// Averaging and smoothing of the spectrum.
#[derive(Debug, PartialEq, Eq, Structural, Clone, Copy)]
pub struct PostprocessingConfig {
    /// How many of the latest raw spectra are averaged.
    pub spectrum_buffer_size: usize,
    pub spectrum_filter_active: bool,
    /// Cutoff of the low-pass filter in millionths.
    pub spectrum_filter_cutoff: i64,
    /// The low-pass section that belongs to the cutoff.
    pub spectrum_filter_coefficients: FilterCoefficients,
}

impl PostprocessingConfig {
    /// The cutoff brought into the range the filter is designed for.
    pub open spec fn cutoff_in_range(&self) -> int {
        if self.spectrum_filter_cutoff < FILTER_CUTOFF_MIN {
            FILTER_CUTOFF_MIN as int
        } else if self.spectrum_filter_cutoff > FILTER_CUTOFF_MAX {
            FILTER_CUTOFF_MAX as int
        } else {
            self.spectrum_filter_cutoff as int
        }
    }

    /// The cutoff for which the filter is designed: the configured one, held
    /// between a thousandth and one.
    pub fn clamped_cutoff(&self) -> (cutoff: i64)
        ensures
            cutoff == self.cutoff_in_range(),
    {
        if self.spectrum_filter_cutoff < FILTER_CUTOFF_MIN {
            FILTER_CUTOFF_MIN
        } else if self.spectrum_filter_cutoff > FILTER_CUTOFF_MAX {
            FILTER_CUTOFF_MAX
        } else {
            self.spectrum_filter_cutoff
        }
    }
}

impl Default for PostprocessingConfig {
    fn default() -> (c: Self)
        ensures
            c.spectrum_buffer_size == 10,
            !c.spectrum_filter_active,
            c.spectrum_filter_cutoff == 500_000,
            c.spectrum_filter_coefficients == (FilterCoefficients {
                a1: 0,
                a2: 171_572_875_254,
                b0: 292_893_218_813,
                b1: 585_786_437_627,
                b2: 292_893_218_813,
            }),
    {
        Self {
            spectrum_buffer_size: 10,
            spectrum_filter_active: false,
            spectrum_filter_cutoff: 500_000,
            spectrum_filter_coefficients: FilterCoefficients {
                a1: 0,
                a2: 171_572_875_254,
                b0: 292_893_218_813,
                b1: 585_786_437_627,
                b2: 292_893_218_813,
            },
        }
    }
}

/// The pixel extent of a camera picture.
#[derive(Debug, PartialEq, Eq, Structural, Clone, Copy)]
pub struct ResolutionDef {
    pub width_x: u32,
    pub height_y: u32,
}

/// How a camera encodes its pictures.
#[allow(clippy::upper_case_acronyms)]
#[derive(Debug, PartialEq, Eq, Structural, Clone, Copy)]
pub enum FrameFormatDef {
    MJPEG,
    YUYV,
}

/// A mode in which a camera can stream.
#[derive(Debug, PartialEq, Eq, Structural, Clone, Copy)]
pub struct CameraFormatDef {
    pub resolution: ResolutionDef,
    pub format: FrameFormatDef,
    pub frame_rate: u32,
}

impl CameraFormatDef {
    pub fn new(resolution: ResolutionDef, format: FrameFormatDef, frame_rate: u32) -> (f: Self)
        ensures
            f.resolution == resolution,
            f.format == format,
            f.frame_rate == frame_rate,
    {
        Self { resolution, format, frame_rate }
    }

    pub fn width(&self) -> (w: u32)
        ensures
            w == self.resolution.width_x,
    {
        self.resolution.width_x
    }

    pub fn height(&self) -> (h: u32)
        ensures
            h == self.resolution.height_y,
    {
        self.resolution.height_y
    }
}

impl Default for CameraFormatDef {
    fn default() -> (f: Self)
        ensures
            f == (CameraFormatDef {
                resolution: ResolutionDef { width_x: 640, height_y: 480 },
                format: FrameFormatDef::MJPEG,
                frame_rate: 30,
            }),
    {
        Self {
            resolution: ResolutionDef { width_x: 640, height_y: 480 },
            format: FrameFormatDef::MJPEG,
            frame_rate: 30,
        }
    }
}

/// Everything that is kept between runs.
#[derive(Debug, PartialEq, Clone)]
pub struct SpectrometerConfig {
    pub camera_id: usize,
    pub camera_format: Option<CameraFormatDef>,
    pub image_config: ImageConfig,
    pub spectrum_calibration: SpectrumCalibration,
    pub postprocessing_config: PostprocessingConfig,
    pub view_config: ViewConfig,
    pub reference_config: ReferenceConfig,
    pub import_export_config: ImportExportConfig,
}

impl Default for SpectrometerConfig {
    fn default() -> (c: Self)
        ensures
            c.camera_id == 0,
            c.camera_format.is_none(),
            c.image_config == (ImageConfig {
                window: SpectrumWindow {
                    offset: Vec2 { x: 100, y: 500 },
                    size: Vec2 { x: 1500, y: 1 },
                },
                flip: true,
            }),
            c.spectrum_calibration.wf(),
            c.spectrum_calibration.low == (SpectrumCalibrationPoint { wavelength: 436, index: 261 }),
            c.spectrum_calibration.high == (SpectrumCalibrationPoint {
                wavelength: 546,
                index: 486,
            }),
            c.spectrum_calibration.linearize == Linearize::Off,
            c.spectrum_calibration.gain_r == 1_000_000,
            c.spectrum_calibration.gain_g == 1_000_000,
            c.spectrum_calibration.gain_b == 1_000_000,
            c.spectrum_calibration.scaling.is_none(),
            c.postprocessing_config == (PostprocessingConfig {
                spectrum_buffer_size: 10,
                spectrum_filter_active: false,
                spectrum_filter_cutoff: 500_000,
                spectrum_filter_coefficients: FilterCoefficients {
                    a1: 0,
                    a2: 171_572_875_254,
                    b0: 292_893_218_813,
                    b1: 585_786_437_627,
                    b2: 292_893_218_813,
                },
            }),
            c.view_config == (ViewConfig {
                image_scale: 250_000,
                draw_spectrum_r: true,
                draw_spectrum_g: true,
                draw_spectrum_b: true,
                draw_spectrum_combined: true,
                draw_color_polygons: true,
                draw_peaks: true,
                draw_dips: true,
                peaks_dips_unique_window: 50_000_000,
                peaks_dips_find_window: 5,
                show_camera_window: true,
                show_calibration_window: false,
                show_postprocessing_window: false,
                show_camera_control_window: false,
                show_import_export_window: false,
            }),
            c.reference_config.reference.is_none(),
            c.reference_config.scale == ONE,
            c.import_export_config.path@ == "spectrum.csv"@,
    {
        Self {
            camera_id: 0,
            camera_format: None,
            image_config: ImageConfig::default(),
            spectrum_calibration: SpectrumCalibration::default(),
            postprocessing_config: PostprocessingConfig::default(),
            view_config: ViewConfig::default(),
            reference_config: ReferenceConfig::default(),
            import_export_config: ImportExportConfig::default(),
        }
    }
}

} // verus!
