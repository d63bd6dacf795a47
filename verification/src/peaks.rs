//! Peaks and dips of a row of samples.
//!
//! A sample is a candidate peak when it is strictly greater than every other
//! sample within `find_window` positions on either side, and a candidate dip
//! when it is strictly smaller. Of the candidates whose wavelengths lie
//! closer together than half of `unique_window`, only the strongest are
//! kept.

use crate::config::{SpectrumCalibration, SpectrumPoint};
use vstd::prelude::*;

verus! {

/// The samples as integers.
pub open spec fn ints(row: Seq<i64>) -> Seq<int> {
    Seq::new(row.len(), |j: int| row[j] as int)
}

/// Every sample with its sign turned.
pub open spec fn negated(values: Seq<int>) -> Seq<int> {
    Seq::new(values.len(), |j: int| -values[j])
}

/// The sample at `a` is strictly stronger than the sample at `b`: greater
/// for peaks, smaller for dips.
pub open spec fn stronger(values: Seq<int>, peaks: bool, a: int, b: int) -> bool {
    if peaks {
        values[b] < values[a]
    } else {
        values[b] > values[a]
    }
}

/// The sample at `c` has `find_window` samples on either side and is
/// strictly stronger than each of them.
pub open spec fn is_candidate(values: Seq<int>, peaks: bool, find_window: int, c: int) -> bool {
    &&& 0 <= find_window <= c
    &&& c + find_window < values.len()
    &&& forall|k: int|
        c - find_window <= k <= c + find_window && k != c ==> #[trigger] stronger(
            values,
            peaks,
            c,
            k,
        )
}

/// The wavelengths of the columns `c` and `d` differ by less than half of
/// `unique_window`.
pub open spec fn close(calibration: SpectrumCalibration, unique_window: int, c: int, d: int)
    -> bool {
    let wc = calibration.wavelength_at(c);
    let wd = calibration.wavelength_at(d);
    2 * (wd - wc) < unique_window && 2 * (wc - wd) < unique_window
}

/// The candidate at `c` is kept: no candidate close to it is strictly
/// stronger.
pub open spec fn survives(
    values: Seq<int>,
    calibration: SpectrumCalibration,
    peaks: bool,
    find_window: int,
    unique_window: int,
    c: int,
) -> bool {
    &&& is_candidate(values, peaks, find_window, c)
    &&& forall|d: int|
        #![trigger is_candidate(values, peaks, find_window, d)]
        is_candidate(values, peaks, find_window, d) && close(calibration, unique_window, c, d)
            ==> !stronger(values, peaks, d, c)
}

/// The candidates among the first `n` positions, in ascending order.
pub open spec fn candidates(values: Seq<int>, peaks: bool, find_window: int, n: int) -> Seq<int>
    decreases n,
{
    if n <= 0 {
        Seq::empty()
    } else if is_candidate(values, peaks, find_window, n - 1) {
        candidates(values, peaks, find_window, n - 1).push(n - 1)
    } else {
        candidates(values, peaks, find_window, n - 1)
    }
}

/// Those of the first `m` entries of `found` that are kept, in the same
/// order.
pub open spec fn kept(
    values: Seq<int>,
    calibration: SpectrumCalibration,
    peaks: bool,
    find_window: int,
    unique_window: int,
    found: Seq<int>,
    m: int,
) -> Seq<int>
    decreases m,
{
    if m <= 0 {
        Seq::empty()
    } else if survives(values, calibration, peaks, find_window, unique_window, found[m - 1]) {
        kept(values, calibration, peaks, find_window, unique_window, found, m - 1).push(
            found[m - 1],
        )
    } else {
        kept(values, calibration, peaks, find_window, unique_window, found, m - 1)
    }
}

/// The positions of the peaks (or dips) of a row, in ascending order.
pub open spec fn extreme_indices(
    values: Seq<int>,
    calibration: SpectrumCalibration,
    peaks: bool,
    find_window: int,
    unique_window: int,
) -> Seq<int> {
    let found = candidates(values, peaks, find_window, values.len() as int);
    kept(values, calibration, peaks, find_window, unique_window, found, found.len() as int)
}

/// The wavelengths that belong to positions.
pub open spec fn wavelengths_of(calibration: SpectrumCalibration, indices: Seq<int>) -> Seq<int> {
    Seq::new(indices.len(), |k: int| calibration.wavelength_at(indices[k]))
}

/// The list of candidates holds exactly the candidates, each below `n`.
pub proof fn lemma_candidates(values: Seq<int>, peaks: bool, find_window: int, n: int)
    ensures
        forall|k: int|
            0 <= k < candidates(values, peaks, find_window, n).len() ==> {
                let c = #[trigger] candidates(values, peaks, find_window, n)[k];
                0 <= c < n && is_candidate(values, peaks, find_window, c)
            },
        forall|d: int|
            0 <= d < n && #[trigger] is_candidate(values, peaks, find_window, d) ==> candidates(
                values,
                peaks,
                find_window,
                n,
            ).contains(d),
    decreases n,
{
    if n > 0 {
        lemma_candidates(values, peaks, find_window, n - 1);
        let before = candidates(values, peaks, find_window, n - 1);
        let now = candidates(values, peaks, find_window, n);
        assert forall|d: int|
            0 <= d < n && #[trigger] is_candidate(values, peaks, find_window, d) implies now.contains(
            d,
        ) by {
            if d == n - 1 {
                assert(now[now.len() - 1] == d);
            } else {
                assert(before.contains(d));
                let k = choose|k: int| 0 <= k < before.len() && before[k] == d;
                assert(now[k] == d);
            }
        }
    }
}

/// Turning the sign of every sample turns peaks into dips: the same
/// positions are candidates.
pub proof fn lemma_candidate_symmetry(values: Seq<int>, find_window: int, c: int)
    ensures
        is_candidate(negated(values), false, find_window, c) == is_candidate(
            values,
            true,
            find_window,
            c,
        ),
{
    let neg = negated(values);
    if 0 <= find_window <= c && c + find_window < values.len() {
        assert forall|k: int| c - find_window <= k <= c + find_window && k != c implies (stronger(
            neg,
            false,
            c,
            k,
        ) == stronger(values, true, c, k)) by {}
        if is_candidate(values, true, find_window, c) {
            assert forall|k: int|
                c - find_window <= k <= c + find_window && k != c implies #[trigger] stronger(
                neg,
                false,
                c,
                k,
            ) by {
                assert(stronger(values, true, c, k));
            }
        }
        if is_candidate(neg, false, find_window, c) {
            assert forall|k: int|
                c - find_window <= k <= c + find_window && k != c implies #[trigger] stronger(
                values,
                true,
                c,
                k,
            ) by {
                assert(stronger(neg, false, c, k));
            }
        }
    }
}

/// The candidate dips of the sign-turned row are the candidate peaks of the
/// row.
pub proof fn lemma_candidates_symmetry(values: Seq<int>, find_window: int, n: int)
    ensures
        candidates(negated(values), false, find_window, n) == candidates(
            values,
            true,
            find_window,
            n,
        ),
    decreases n,
{
    if n > 0 {
        lemma_candidates_symmetry(values, find_window, n - 1);
        lemma_candidate_symmetry(values, find_window, n - 1);
    }
}

/// A candidate dip of the sign-turned row is kept exactly when it is kept as
/// a candidate peak of the row.
pub proof fn lemma_survives_symmetry(
    values: Seq<int>,
    calibration: SpectrumCalibration,
    find_window: int,
    unique_window: int,
    c: int,
)
    ensures
        survives(negated(values), calibration, false, find_window, unique_window, c) == survives(
            values,
            calibration,
            true,
            find_window,
            unique_window,
            c,
        ),
{
    let neg = negated(values);
    lemma_candidate_symmetry(values, find_window, c);
    assert forall|d: int|
        is_candidate(neg, false, find_window, d) == is_candidate(values, true, find_window, d) by {
        lemma_candidate_symmetry(values, find_window, d);
    }
    if is_candidate(values, true, find_window, c) {
        assert forall|d: int| #[trigger]
            is_candidate(values, true, find_window, d) implies stronger(neg, false, d, c)
            == stronger(values, true, d, c) by {}
    }
}

/// Those kept among the candidate dips of the sign-turned row are those kept
/// among the candidate peaks of the row.
pub proof fn lemma_kept_symmetry(
    values: Seq<int>,
    calibration: SpectrumCalibration,
    find_window: int,
    unique_window: int,
    found: Seq<int>,
    m: int,
)
    ensures
        kept(negated(values), calibration, false, find_window, unique_window, found, m) == kept(
            values,
            calibration,
            true,
            find_window,
            unique_window,
            found,
            m,
        ),
    decreases m,
{
    if m > 0 {
        lemma_kept_symmetry(values, calibration, find_window, unique_window, found, m - 1);
        lemma_survives_symmetry(values, calibration, find_window, unique_window, found[m - 1]);
    }
}

/// The dips of a row whose every sample has its sign turned stand where the
/// peaks of the row stand, with the same windows: at the same positions and
/// so at the same wavelengths.
pub proof fn lemma_peak_dip_symmetry(
    values: Seq<int>,
    calibration: SpectrumCalibration,
    find_window: int,
    unique_window: int,
)
    ensures
        extreme_indices(negated(values), calibration, false, find_window, unique_window)
            == extreme_indices(values, calibration, true, find_window, unique_window),
        wavelengths_of(
            calibration,
            extreme_indices(negated(values), calibration, false, find_window, unique_window),
        ) == wavelengths_of(
            calibration,
            extreme_indices(values, calibration, true, find_window, unique_window),
        ),
{
    let n = values.len() as int;
    lemma_candidates_symmetry(values, find_window, n);
    let found = candidates(values, true, find_window, n);
    lemma_kept_symmetry(values, calibration, find_window, unique_window, found, found.len() as int);
}

/// The reading at position `i` of a row.
pub open spec fn point_at(row: Seq<i64>, calibration: SpectrumCalibration, i: int) -> SpectrumPoint {
    SpectrumPoint { wavelength: calibration.wavelength_at(i) as i64, value: row[i] }
}

/// Tells whether the sample at `c` is a candidate.
pub fn is_candidate_at(row: &Vec<i64>, peaks: bool, find_window: usize, c: usize) -> (found: bool)
    requires
        c < row@.len(),
    ensures
        found == is_candidate(ints(row@), peaks, find_window as int, c as int),
{
    let n = row.len();
    let ghost values = ints(row@);
    if c < find_window || n - c <= find_window {
        return false;
    }
    let low = c - find_window;
    let high = c + find_window;
    let mut k: usize = low;
    while k <= high
        invariant
            low <= k <= high + 1,
            high < n,
            n == row@.len(),
            low == c - find_window,
            high == c + find_window,
            values == ints(row@),
            forall|j: int| low <= j < k && j != c ==> #[trigger] stronger(values, peaks, c as int, j),
        decreases high + 1 - k,
    {
        if k != c {
            let beaten = if peaks {
                row[k] < row[c]
            } else {
                row[k] > row[c]
            };
            if !beaten {
                assert(!stronger(values, peaks, c as int, k as int));
                return false;
            }
        }
        k += 1;
    }
    true
}

/// Tells whether the wavelengths `wc` and `wd` differ by less than half of
/// `unique_window`.
fn is_close(wc: i64, wd: i64, unique_window: i64) -> (near: bool)
    ensures
        near == (2 * (wd - wc) < unique_window && 2 * (wc - wd) < unique_window),
{
    let gap: i128 = wd as i128 - wc as i128;
    2 * gap < unique_window as i128 && 2 * (-gap) < unique_window as i128
}

/// The peaks (or dips) of a row with their wavelengths, in ascending order
/// of position: the candidates of which no close candidate is strictly
/// stronger.
pub fn find_extrema(
    row: &Vec<i64>,
    calibration: &SpectrumCalibration,
    peaks: bool,
    find_window: usize,
    unique_window: i64,
) -> (points: Vec<SpectrumPoint>)
    requires
        calibration.wf(),
    ensures
        ({
            let indices = extreme_indices(
                ints(row@),
                *calibration,
                peaks,
                find_window as int,
                unique_window as int,
            );
            &&& points@.len() == indices.len()
            &&& forall|k: int| 0 <= k < indices.len() ==> 0 <= #[trigger] indices[k] < row@.len()
            &&& forall|k: int|
                0 <= k < indices.len() ==> #[trigger] points@[k] == point_at(
                    row@,
                    *calibration,
                    indices[k],
                )
        }),
{
    let n = row.len();
    let ghost values = ints(row@);
    let ghost fw = find_window as int;
    let ghost uw = unique_window as int;
    // The candidates and their wavelengths.
    let mut found: Vec<usize> = Vec::new();
    let mut waves: Vec<i64> = Vec::new();
    let mut c: usize = 0;
    while c < n
        invariant
            c <= n,
            n == row@.len(),
            values == ints(row@),
            fw == find_window as int,
            calibration.wf(),
            found@.len() == candidates(values, peaks, fw, c as int).len(),
            waves@.len() == found@.len(),
            forall|k: int|
                0 <= k < found@.len() ==> #[trigger] found@[k] as int == candidates(
                    values,
                    peaks,
                    fw,
                    c as int,
                )[k],
            forall|k: int|
                0 <= k < found@.len() ==> #[trigger] waves@[k] as int == calibration.wavelength_at(
                    found@[k] as int,
                ),
        decreases n - c,
    {
        if is_candidate_at(row, peaks, find_window, c) {
            found.push(c);
            waves.push(calibration.get_wavelength_from_index(c));
        }
        c += 1;
    }
    let ghost all = candidates(values, peaks, fw, n as int);
    proof {
        lemma_candidates(values, peaks, fw, n as int);
    }
    // Of the candidates, those that no close candidate beats.
    let mut points: Vec<SpectrumPoint> = Vec::new();
    let mut m: usize = 0;
    while m < found.len()
        invariant
            m <= found@.len(),
            n == row@.len(),
            values == ints(row@),
            fw == find_window as int,
            uw == unique_window as int,
            all == candidates(values, peaks, fw, n as int),
            found@.len() == all.len(),
            waves@.len() == found@.len(),
            forall|k: int| 0 <= k < found@.len() ==> #[trigger] found@[k] as int == all[k],
            forall|k: int|
                0 <= k < found@.len() ==> #[trigger] waves@[k] as int == calibration.wavelength_at(
                    found@[k] as int,
                ),
            forall|k: int|
                0 <= k < all.len() ==> 0 <= #[trigger] all[k] < n && is_candidate(
                    values,
                    peaks,
                    fw,
                    all[k],
                ),
            forall|d: int|
                0 <= d < n && #[trigger] is_candidate(values, peaks, fw, d) ==> all.contains(d),
            points@.len() == kept(values, *calibration, peaks, fw, uw, all, m as int).len(),
            forall|k: int|
                0 <= k < points@.len() ==> 0 <= #[trigger] kept(
                    values,
                    *calibration,
                    peaks,
                    fw,
                    uw,
                    all,
                    m as int,
                )[k] < n,
            forall|k: int|
                0 <= k < points@.len() ==> #[trigger] points@[k] == point_at(
                    row@,
                    *calibration,
                    kept(values, *calibration, peaks, fw, uw, all, m as int)[k],
                ),
        decreases found@.len() - m,
    {
        let here = found[m];
        let mut beaten = false;
        let mut d: usize = 0;
        while d < found.len()
            invariant
                d <= found@.len(),
                m < found@.len(),
                here == found@[m as int],
                n == row@.len(),
                values == ints(row@),
                uw == unique_window as int,
                found@.len() == all.len(),
                waves@.len() == found@.len(),
                forall|k: int| 0 <= k < found@.len() ==> #[trigger] found@[k] as int == all[k],
                forall|k: int|
                    0 <= k < found@.len() ==> #[trigger] waves@[k] as int
                        == calibration.wavelength_at(found@[k] as int),
                forall|k: int| 0 <= k < all.len() ==> 0 <= #[trigger] all[k] < n,
                beaten <==> exists|k: int|
                    0 <= k < d && close(*calibration, uw, here as int, #[trigger] all[k])
                        && stronger(values, peaks, all[k], here as int),
            decreases found@.len() - d,
        {
            let other = found[d];
            assert(other as int == all[d as int]);
            assert(0 <= all[d as int] < n);
            assert(here as int == all[m as int]);
            assert(0 <= all[m as int] < n);
            let wins = if peaks {
                row[here] < row[other]
            } else {
                row[here] > row[other]
            };
            if is_close(waves[m], waves[d], unique_window) && wins {
                beaten = true;
            }
            d += 1;
        }
        proof {
            let here_i = here as int;
            assert(here_i == all[m as int]);
            assert(is_candidate(values, peaks, fw, here_i));
            if beaten {
                let k = choose|k: int|
                    0 <= k < all.len() && close(*calibration, uw, here_i, #[trigger] all[k])
                        && stronger(values, peaks, all[k], here_i);
                assert(is_candidate(values, peaks, fw, all[k]));
                assert(!survives(values, *calibration, peaks, fw, uw, here_i));
            } else {
                assert forall|e: int|
                    #![trigger is_candidate(values, peaks, fw, e)]
                    is_candidate(values, peaks, fw, e) && close(
                        *calibration,
                        uw,
                        here_i,
                        e,
                    ) implies !stronger(values, peaks, e, here_i) by {
                    assert(all.contains(e));
                    let k = choose|k: int| 0 <= k < all.len() && all[k] == e;
                    assert(all[k] == e);
                }
                assert(survives(values, *calibration, peaks, fw, uw, here_i));
            }
            let before = kept(values, *calibration, peaks, fw, uw, all, m as int);
            let after = kept(values, *calibration, peaks, fw, uw, all, m as int + 1);
            assert(after == if beaten {
                before
            } else {
                before.push(here_i)
            });
            assert(forall|k: int| 0 <= k < before.len() ==> after[k] == before[k]);
            assert(waves@[m as int] as int == calibration.wavelength_at(here_i));
        }
        let ghost earlier = points@;
        if !beaten {
            points.push(SpectrumPoint { wavelength: waves[m], value: row[here] });
        }
        proof {
            let before = kept(values, *calibration, peaks, fw, uw, all, m as int);
            let after = kept(values, *calibration, peaks, fw, uw, all, m as int + 1);
            assert forall|k: int| 0 <= k < points@.len() implies 0 <= #[trigger] after[k] < n
                && points@[k] == point_at(row@, *calibration, after[k]) by {
                if k < earlier.len() {
                    assert(points@[k] == earlier[k]);
                    assert(after[k] == before[k]);
                } else {
                    assert(after[k] == here as int);
                }
            }
        }
        m += 1;
    }
    proof {
        assert(values.len() == n);
    }
    points
}

} // verus!
