use vstd::prelude::*;

use crate::frame::{FrameView, RgbaFrame};
use crate::options::{Channel, StripeOrientation};
use std::collections::HashSet;

verus! {

// ---------------------------------------------------------------------------
// What a profile is
// ---------------------------------------------------------------------------

/// How many lines the frame has across the fringes: one per column for
/// horizontal fringes, one per row for vertical ones.
pub open spec fn line_count(f: FrameView, o: StripeOrientation) -> nat {
    match o {
        StripeOrientation::Horizontal => f.width,
        StripeOrientation::Vertical => f.height,
    }
}

/// How many samples one line holds.
pub open spec fn line_len(f: FrameView, o: StripeOrientation) -> nat {
    match o {
        StripeOrientation::Horizontal => f.height,
        StripeOrientation::Vertical => f.width,
    }
}

/// Sample `i` of line `line`: the channel's intensity at the `i`th pixel of
/// that column (horizontal fringes) or row (vertical fringes).
pub open spec fn sample(f: FrameView, c: Channel, o: StripeOrientation, line: int, i: int) -> int {
    match o {
        StripeOrientation::Horizontal => f.intensity(line, i, c),
        StripeOrientation::Vertical => f.intensity(i, line, c),
    }
}

/// All samples of one line, in pixel order.
pub open spec fn line_samples(f: FrameView, c: Channel, o: StripeOrientation, line: int) -> Seq<int> {
    Seq::new(line_len(f, o), |i: int| sample(f, c, o, line, i))
}

/// The index of the first greatest value among `v[0..n]` (for `n >= 1`).
pub open spec fn first_max(v: Seq<int>, n: int) -> int
    decreases n,
{
    if n <= 1 {
        0
    } else {
        let m = first_max(v, n - 1);
        if v[n - 1] > v[m] {
            n - 1
        } else {
            m
        }
    }
}

/// Whether the greatest value of `v` is positive.
pub open spec fn has_positive_peak(v: Seq<int>) -> bool {
    v.len() > 0 && v[first_max(v, v.len() as int)] > 0
}

/// Where a profile is centred: the first sample of greatest intensity, or
/// sample 0 where no sample is positive.
pub open spec fn peak_index(v: Seq<int>) -> int {
    if has_positive_peak(v) {
        first_max(v, v.len() as int)
    } else {
        0
    }
}

/// The intensity profile of one line: sample `i` stands at abscissa
/// `i - peak`, so that the brightest pixel of the line is at 0.
pub open spec fn line_profile(f: FrameView, c: Channel, o: StripeOrientation, line: int) -> Seq<(int, int)> {
    let v = line_samples(f, c, o, line);
    Seq::new(v.len(), |i: int| (i - peak_index(v), v[i]))
}

/// The profile of pixel column `x`, for horizontal fringes.
pub open spec fn column_profile(f: FrameView, c: Channel, x: int) -> Seq<(int, int)> {
    let v = Seq::new(f.height, |i: int| f.intensity(x, i, c));
    Seq::new(v.len(), |i: int| (i - peak_index(v), v[i]))
}

/// The profile of pixel row `y`, for vertical fringes.
pub open spec fn row_profile(f: FrameView, c: Channel, y: int) -> Seq<(int, int)> {
    let v = Seq::new(f.width, |i: int| f.intensity(i, y, c));
    Seq::new(v.len(), |i: int| (i - peak_index(v), v[i]))
}

/// How many of the first `n` lines are selected.
pub open spec fn selected_count(mask: Seq<bool>, n: int) -> nat
    decreases n,
{
    if n <= 0 {
        0
    } else {
        selected_count(mask, n - 1) + if mask[n - 1] {
            1nat
        } else {
            0nat
        }
    }
}

/// The sum, over the selected lines among the first `n`, of sample `i`.
pub open spec fn sum_samples(
    f: FrameView,
    c: Channel,
    o: StripeOrientation,
    mask: Seq<bool>,
    n: int,
    i: int,
) -> int
    decreases n,
{
    if n <= 0 {
        0
    } else {
        sum_samples(f, c, o, mask, n - 1, i) + if mask[n - 1] {
            sample(f, c, o, n - 1, i)
        } else {
            0
        }
    }
}

/// The sum, over the selected lines among the first `n`, of the abscissa
/// of sample `i` in that line's profile.
pub open spec fn sum_abscissae(
    f: FrameView,
    c: Channel,
    o: StripeOrientation,
    mask: Seq<bool>,
    n: int,
    i: int,
) -> int
    decreases n,
{
    if n <= 0 {
        0
    } else {
        sum_abscissae(f, c, o, mask, n - 1, i) + if mask[n - 1] {
            i - peak_index(line_samples(f, c, o, n - 1))
        } else {
            0
        }
    }
}

/// Sample sums of the selected lines, one per sample position.
pub open spec fn summed_samples(f: FrameView, c: Channel, o: StripeOrientation, mask: Seq<bool>) -> Seq<int> {
    Seq::new(line_len(f, o), |i: int| sum_samples(f, c, o, mask, mask.len() as int, i))
}

/// The summed profile of the selected lines: at each sample position, the
/// sum of the lines' abscissae and the sum of their intensities. Empty where
/// no line is selected. Dividing both by the number of lines gives the
/// averaged profile.
pub open spec fn summed_profile(f: FrameView, c: Channel, o: StripeOrientation, mask: Seq<bool>) -> Seq<(int, int)> {
    if selected_count(mask, mask.len() as int) == 0 {
        Seq::empty()
    } else {
        Seq::new(
            line_len(f, o),
            |i: int|
                (
                    sum_abscissae(f, c, o, mask, mask.len() as int, i),
                    sum_samples(f, c, o, mask, mask.len() as int, i),
                ),
        )
    }
}

/// The summed abscissa of the averaged profile's peak, by which the
/// averaged profile is moved so that its peak stands at 0; 0 where no
/// averaged intensity is positive.
pub open spec fn summed_peak_abscissa(
    f: FrameView,
    c: Channel,
    o: StripeOrientation,
    mask: Seq<bool>,
) -> int {
    let ys = summed_samples(f, c, o, mask);
    if selected_count(mask, mask.len() as int) > 0 && has_positive_peak(ys) {
        sum_abscissae(f, c, o, mask, mask.len() as int, peak_index(ys))
    } else {
        0
    }
}

// ---------------------------------------------------------------------------
// Executable profiles
// ---------------------------------------------------------------------------

/// One point of a line's profile.
#[derive(Debug, Copy, Clone, PartialEq, Eq, Structural)]
pub struct Point {
    pub x: i64,
    pub y: u64,
}

/// One point of a summed profile: sums over the selected lines.
#[derive(Debug, Copy, Clone, PartialEq, Eq, Structural)]
pub struct SumPoint {
    pub x: i128,
    pub y: u64,
}

/// The summed profile of several lines. The averaged profile that is shown
/// has, at position `i`, the abscissa `points[i].x / count - peak_x / count`
/// and the intensity `points[i].y / count`.
pub struct SummedProfile {
    pub count: u64,
    pub points: Vec<SumPoint>,
    pub peak_x: i128,
}

pub open spec fn point_pairs(s: Seq<Point>) -> Seq<(int, int)> {
    Seq::new(s.len(), |i: int| (s[i].x as int, s[i].y as int))
}

pub open spec fn sum_point_pairs(s: Seq<SumPoint>) -> Seq<(int, int)> {
    Seq::new(s.len(), |i: int| (s[i].x as int, s[i].y as int))
}

pub open spec fn as_ints(s: Seq<u64>) -> Seq<int> {
    Seq::new(s.len(), |i: int| s[i] as int)
}

impl SummedProfile {
    /// This profile is the summed profile of the lines `mask` selects.
    pub open spec fn sums(
        &self,
        f: FrameView,
        c: Channel,
        o: StripeOrientation,
        mask: Seq<bool>,
    ) -> bool {
        &&& self.count == selected_count(mask, mask.len() as int)
        &&& sum_point_pairs(self.points@) == summed_profile(f, c, o, mask)
        &&& self.peak_x == summed_peak_abscissa(f, c, o, mask)
    }

    /// A profile of no line.
    pub fn empty() -> (res: SummedProfile)
        ensures
            res.count == 0,
            res.points@.len() == 0,
            res.peak_x == 0,
    {
        SummedProfile { count: 0, points: Vec::new(), peak_x: 0 }
    }
}

proof fn lemma_first_max_in_range(v: Seq<int>, n: int)
    requires
        1 <= n,
    ensures
        0 <= first_max(v, n) < n,
    decreases n,
{
    if n > 1 {
        lemma_first_max_in_range(v, n - 1);
    }
}

/// The first greatest value: it lies in range, no value exceeds it, and
/// every value before it is smaller.
pub proof fn lemma_first_max_is_first_greatest(v: Seq<int>, n: int)
    requires
        1 <= n <= v.len(),
    ensures
        0 <= first_max(v, n) < n,
        forall|j: int| 0 <= j < n ==> #[trigger] v[j] <= v[first_max(v, n)],
        forall|j: int| 0 <= j < first_max(v, n) ==> #[trigger] v[j] < v[first_max(v, n)],
    decreases n,
{
    if n > 1 {
        lemma_first_max_is_first_greatest(v, n - 1);
    }
}

/// The centre of a profile is the first sample of greatest intensity when
/// that intensity is positive, and sample 0 otherwise.
pub proof fn lemma_peak_index_characterized(v: Seq<int>)
    requires
        v.len() > 0,
    ensures
        0 <= peak_index(v) < v.len(),
        has_positive_peak(v) <==> exists|j: int| 0 <= j < v.len() && v[j] > 0,
        has_positive_peak(v) ==> {
            &&& v[peak_index(v)] > 0
            &&& forall|j: int| 0 <= j < v.len() ==> #[trigger] v[j] <= v[peak_index(v)]
            &&& forall|j: int| 0 <= j < peak_index(v) ==> #[trigger] v[j] < v[peak_index(v)]
        },
        !has_positive_peak(v) ==> peak_index(v) == 0,
{
    lemma_first_max_is_first_greatest(v, v.len() as int);
    if has_positive_peak(v) {
        let m = first_max(v, v.len() as int);
        assert(0 <= m < v.len() && v[m] > 0);
    }
}

/// Bounds of the sums over the first `n` lines, at a sample position of the lines.
proof fn lemma_sum_bounds(
    f: FrameView,
    c: Channel,
    o: StripeOrientation,
    mask: Seq<bool>,
    n: int,
    i: int,
)
    requires
        0 <= n <= mask.len(),
        0 <= i < line_len(f, o),
        line_len(f, o) <= u32::MAX,
    ensures
        0 <= sum_samples(f, c, o, mask, n, i) <= 255 * selected_count(mask, n),
        -(selected_count(mask, n) * 0x1_0000_0000) <= sum_abscissae(f, c, o, mask, n, i)
            <= selected_count(mask, n) * 0x1_0000_0000,
        selected_count(mask, n) <= n,
    decreases n,
{
    if n > 0 {
        lemma_sum_bounds(f, c, o, mask, n - 1, i);
        let v = line_samples(f, c, o, n - 1);
        lemma_peak_index_characterized(v);
    }
}

/// The index of the profile's peak: the first greatest value, where it is
/// positive, else 0.
fn peak_of(values: &Vec<u64>) -> (p: usize)
    ensures
        p == peak_index(as_ints(values@)),
        values@.len() > 0 ==> p < values@.len(),
{
    let ghost v = as_ints(values@);
    let mut max_y: u64 = 0;
    let mut max_i: usize = 0;
    let n = values.len();
    for i in 0..n
        invariant
            n == values@.len(),
            v == as_ints(values@),
            i == 0 ==> max_y == 0 && max_i == 0,
            i > 0 ==> if v[first_max(v, i as int)] > 0 {
                max_i == first_max(v, i as int) && max_y == v[max_i as int]
            } else {
                max_y == 0 && max_i == 0
            },
    {
        proof {
            if i > 0 {
                lemma_first_max_in_range(v, i as int);
            }
        }
        if values[i] > max_y {
            max_y = values[i];
            max_i = i;
        }
        proof {
            lemma_first_max_in_range(v, i + 1);
        }
    }
    proof {
        if n > 0 {
            lemma_first_max_in_range(v, n as int);
        }
    }
    max_i
}

/// Moves every point so that the peak of the intensities stands at 0.
fn centre_on_peak(points: &mut Vec<Point>, ys: &Vec<u64>)
    requires
        old(points)@.len() == ys@.len(),
        ys@.len() <= u32::MAX,
        forall|i: int| 0 <= i < ys@.len() ==> #[trigger] old(points)@[i] == (Point { x: i as i64, y: ys@[i] }),
    ensures
        point_pairs(final(points)@) == Seq::new(
            ys@.len(),
            |i: int| (i - peak_index(as_ints(ys@)), ys@[i] as int),
        ),
{
    let p = peak_of(ys);
    let n = points.len();
    for i in 0..n
        invariant
            n == points@.len(),
            n == ys@.len(),
            n <= u32::MAX,
            n > 0 ==> p < n,
            p == peak_index(as_ints(ys@)),
            forall|j: int| 0 <= j < i ==> #[trigger] points@[j] == (Point { x: (j - p) as i64, y: ys@[j] }),
            forall|j: int| i <= j < n ==> #[trigger] points@[j] == (Point { x: j as i64, y: ys@[j] }),
    {
        let y = points[i].y;
        points.set(i, Point { x: i as i64 - p as i64, y });
    }
    assert(point_pairs(points@) =~= Seq::new(
        ys@.len(),
        |i: int| (i - peak_index(as_ints(ys@)), ys@[i] as int),
    ));
}

/// The intensity profile of pixel column `x_coord`, for horizontal fringes.
pub fn get_points_horizontal(image: &RgbaFrame, color_channel: Channel, x_coord: u32) -> (points: Vec<Point>)
    requires
        x_coord < image@.width,
    ensures
        point_pairs(points@) == line_profile(
            image@,
            color_channel,
            StripeOrientation::Horizontal,
            x_coord as int,
        ),
        point_pairs(points@) == column_profile(image@, color_channel, x_coord as int),
{
    proof {
        use_type_invariant(image);
    }
    let h = image.height();
    let mut points: Vec<Point> = Vec::new();
    let mut ys: Vec<u64> = Vec::new();
    for i in 0..h
        invariant
            x_coord < image@.width,
            h == image@.height,
            points@.len() == i,
            ys@.len() == i,
            forall|j: int| 0 <= j < i ==> #[trigger] ys@[j] == image@.intensity(x_coord as int, j, color_channel),
            forall|j: int| 0 <= j < i ==> #[trigger] points@[j] == (Point { x: j as i64, y: ys@[j] }),
    {
        let v = image.intensity(x_coord, i, color_channel) as u64;
        points.push(Point { x: i as i64, y: v });
        ys.push(v);
    }
    centre_on_peak(&mut points, &ys);
    assert(as_ints(ys@) =~= line_samples(image@, color_channel, StripeOrientation::Horizontal, x_coord as int));
    proof {
        law_line_profile_by_orientation(image@, color_channel, x_coord as int);
    }
    points
}

/// The intensity profile of pixel row `y_coord`, for vertical fringes.
pub fn get_points_vertical(image: &RgbaFrame, color_channel: Channel, y_coord: u32) -> (points: Vec<Point>)
    requires
        y_coord < image@.height,
    ensures
        point_pairs(points@) == line_profile(
            image@,
            color_channel,
            StripeOrientation::Vertical,
            y_coord as int,
        ),
        point_pairs(points@) == row_profile(image@, color_channel, y_coord as int),
{
    proof {
        use_type_invariant(image);
    }
    let w = image.width();
    let mut points: Vec<Point> = Vec::new();
    let mut ys: Vec<u64> = Vec::new();
    for i in 0..w
        invariant
            y_coord < image@.height,
            w == image@.width,
            points@.len() == i,
            ys@.len() == i,
            forall|j: int| 0 <= j < i ==> #[trigger] ys@[j] == image@.intensity(j, y_coord as int, color_channel),
            forall|j: int| 0 <= j < i ==> #[trigger] points@[j] == (Point { x: j as i64, y: ys@[j] }),
    {
        let v = image.intensity(i, y_coord, color_channel) as u64;
        points.push(Point { x: i as i64, y: v });
        ys.push(v);
    }
    centre_on_peak(&mut points, &ys);
    assert(as_ints(ys@) =~= line_samples(image@, color_channel, StripeOrientation::Vertical, y_coord as int));
    proof {
        law_line_profile_by_orientation(image@, color_channel, y_coord as int);
    }
    points
}

/// The intensity profile of line `coord` across fringes of the given orientation.
pub fn get_points(
    image: &RgbaFrame,
    color_channel: Channel,
    coord: u32,
    orientation: StripeOrientation,
) -> (points: Vec<Point>)
    requires
        coord < line_count(image@, orientation),
    ensures
        point_pairs(points@) == line_profile(image@, color_channel, orientation, coord as int),
        point_pairs(points@) == match orientation {
            StripeOrientation::Horizontal => column_profile(image@, color_channel, coord as int),
            StripeOrientation::Vertical => row_profile(image@, color_channel, coord as int),
        },
{
    proof {
        use_type_invariant(image);
    }
    match orientation {
        StripeOrientation::Horizontal => get_points_horizontal(image, color_channel, coord),
        StripeOrientation::Vertical => get_points_vertical(image, color_channel, coord),
    }
}

/// Sums the profiles of the lines that `lines` selects.
fn sum_line_profiles(
    image: &RgbaFrame,
    color_channel: Channel,
    lines: &Vec<bool>,
    orientation: StripeOrientation,
) -> (res: SummedProfile)
    requires
        lines@.len() == line_count(image@, orientation),
    ensures
        res.sums(image@, color_channel, orientation, lines@),
{
    proof {
        use_type_invariant(image);
    }
    let width = image.width();
    let height = image.height();
    let len: u32 = match orientation {
        StripeOrientation::Horizontal => height,
        StripeOrientation::Vertical => width,
    };
    let ghost f = image@;
    let ghost mask = lines@;
    let mut sum_points: Vec<SumPoint> = Vec::new();
    let mut count: u64 = 0;
    let n = lines.len();
    for k in 0..n
        invariant
            f == image@,
            mask == lines@,
            n == mask.len(),
            n == line_count(f, orientation),
            len == line_len(f, orientation),
            len > 0,
            n <= u32::MAX,
            count == selected_count(mask, k as int),
            count <= k,
            count == 0 ==> sum_points@.len() == 0,
            count > 0 ==> sum_points@.len() == len,
            forall|i: int| #![trigger sum_points@[i]]
                0 <= i < sum_points@.len() ==> {
                    &&& sum_points@[i].x == sum_abscissae(f, color_channel, orientation, mask, k as int, i)
                    &&& sum_points@[i].y == sum_samples(f, color_channel, orientation, mask, k as int, i)
                },
    {
        proof {
            assert forall|i: int|
                #![trigger sum_samples(f, color_channel, orientation, mask, k as int, i)]
                #![trigger sum_abscissae(f, color_channel, orientation, mask, k as int, i)]
                0 <= i < len implies {
                &&& 0 <= sum_samples(f, color_channel, orientation, mask, k as int, i) <= 255 * k
                &&& -(k * 0x1_0000_0000) <= sum_abscissae(f, color_channel, orientation, mask, k as int, i)
                    <= k * 0x1_0000_0000
            } by {
                lemma_sum_bounds(f, color_channel, orientation, mask, k as int, i);
                assert(selected_count(mask, k as int) * 0x1_0000_0000 <= k * 0x1_0000_0000) by (nonlinear_arith)
                    requires selected_count(mask, k as int) <= k;
            }
        }
        if lines[k] {
            let points = get_points(image, color_channel, k as u32, orientation);
            let ghost v = line_samples(f, color_channel, orientation, k as int);
            proof {
                lemma_peak_index_characterized(v);
                assert(point_pairs(points@).len() == points@.len());
            }
            if sum_points.len() > 0 {
                let m = points.len();
                for j in 0..m
                    invariant
                        m == points@.len(),
                        m == len,
                        sum_points@.len() == len,
                        n <= u32::MAX,
                        k < n,
                        0 <= peak_index(v) < len,
                        point_pairs(points@) == line_profile(f, color_channel, orientation, k as int),
                        v == line_samples(f, color_channel, orientation, k as int),
                        len == line_len(f, orientation),
                        mask == lines@,
                        k < mask.len(),
                        lines@[k as int],
                        forall|i: int|
                            #![trigger sum_samples(f, color_channel, orientation, mask, k as int, i)]
                            #![trigger sum_abscissae(f, color_channel, orientation, mask, k as int, i)]
                            0 <= i < len ==> {
                            &&& 0 <= sum_samples(f, color_channel, orientation, mask, k as int, i) <= 255 * k
                            &&& -(k * 0x1_0000_0000) <= sum_abscissae(f, color_channel, orientation, mask, k as int, i)
                                <= k * 0x1_0000_0000
                        },
                        forall|i: int| #![trigger sum_points@[i]]
                            0 <= i < j ==> {
                                &&& sum_points@[i].x == sum_abscissae(f, color_channel, orientation, mask, k + 1, i)
                                &&& sum_points@[i].y == sum_samples(f, color_channel, orientation, mask, k + 1, i)
                            },
                        forall|i: int| #![trigger sum_points@[i]]
                            j <= i < len ==> {
                                &&& sum_points@[i].x == sum_abscissae(f, color_channel, orientation, mask, k as int, i)
                                &&& sum_points@[i].y == sum_samples(f, color_channel, orientation, mask, k as int, i)
                            },
                {
                    assert(point_pairs(points@)[j as int] == line_profile(f, color_channel, orientation, k as int)[j as int]);
                    let old = sum_points[j];
                    let p = points[j];
                    assert(-(k * 0x1_0000_0000) - 0x1_0000_0000 <= old.x + p.x <= k * 0x1_0000_0000 + 0x1_0000_0000);
                    assert(old.y + p.y <= 255 * k + 255);
                    sum_points.set(j, SumPoint { x: old.x + p.x as i128, y: old.y + p.y });
                }
            } else {
                let m = points.len();
                for j in 0..m
                    invariant
                        m == points@.len(),
                        m == len,
                        count == 0,
                        k < n,
                        n == mask.len(),
                        sum_points@.len() == j,
                        point_pairs(points@) == line_profile(f, color_channel, orientation, k as int),
                        v == line_samples(f, color_channel, orientation, k as int),
                        len == line_len(f, orientation),
                        mask == lines@,
                        k < mask.len(),
                        lines@[k as int],
                        count == selected_count(mask, k as int),
                        forall|i: int| #![trigger sum_points@[i]]
                            0 <= i < j ==> {
                                &&& sum_points@[i].x == sum_abscissae(f, color_channel, orientation, mask, k + 1, i)
                                &&& sum_points@[i].y == sum_samples(f, color_channel, orientation, mask, k + 1, i)
                            },
                {
                    assert(point_pairs(points@)[j as int] == line_profile(f, color_channel, orientation, k as int)[j as int]);
                    proof {
                        lemma_sum_zero_when_none_selected(f, color_channel, orientation, mask, k as int, j as int);
                    }
                    let p = points[j];
                    sum_points.push(SumPoint { x: p.x as i128, y: p.y });
                }
            }
            count = count + 1;
        }
    }
    let mut ys: Vec<u64> = Vec::new();
    let m = sum_points.len();
    for i in 0..m
        invariant
            m == sum_points@.len(),
            ys@.len() == i,
            forall|j: int| 0 <= j < i ==> #[trigger] ys@[j] == sum_points@[j].y,
    {
        ys.push(sum_points[i].y);
    }
    let p = peak_of(&ys);
    let peak_x: i128 = if m > 0 && sum_points[p].y > 0 {
        sum_points[p].x
    } else {
        0
    };
    proof {
        let ghost ys_spec = summed_samples(f, color_channel, orientation, mask);
        if count > 0 {
            assert(as_ints(ys@) =~= ys_spec);
            lemma_peak_index_characterized(ys_spec);
            lemma_first_max_is_first_greatest(ys_spec, ys_spec.len() as int);
            if !has_positive_peak(ys_spec) {
                assert(sum_points@[0].y == ys_spec[0]);
            }
        }
        assert(sum_point_pairs(sum_points@) =~= summed_profile(f, color_channel, orientation, mask));
    }
    SummedProfile { count, points: sum_points, peak_x }
}

/// With no line selected among the first `n`, every sum is 0.
proof fn lemma_sum_zero_when_none_selected(
    f: FrameView,
    c: Channel,
    o: StripeOrientation,
    mask: Seq<bool>,
    n: int,
    i: int,
)
    requires
        0 <= n <= mask.len(),
        selected_count(mask, n) == 0,
    ensures
        sum_samples(f, c, o, mask, n, i) == 0,
        sum_abscissae(f, c, o, mask, n, i) == 0,
    decreases n,
{
    if n > 0 {
        lemma_sum_zero_when_none_selected(f, c, o, mask, n - 1, i);
    }
}

/// Which lines the set `lines` holds, as one flag per line.
pub open spec fn mask_of(lines: Set<u32>, n: nat) -> Seq<bool> {
    Seq::new(n, |i: int| lines.contains(i as u32))
}

/// One flag per line, telling whether `coords` holds it.
fn flags_of(coords: &HashSet<u32>, n: u32) -> (mask: Vec<bool>)
    ensures
        mask@ == mask_of(coords@, n as nat),
{
    broadcast use vstd::std_specs::hash::group_hash_axioms;
    let mut mask: Vec<bool> = Vec::new();
    for k in 0..n
        invariant
            mask@ == mask_of(coords@, k as nat),
    {
        let held = coords.contains(&k);
        mask.push(held);
        assert(mask@ =~= mask_of(coords@, (k + 1) as nat));
    }
    mask
}

/// The summed profile of the pixel columns in `x_coords`, for horizontal
/// fringes.
pub fn get_sum_points_horizontal(image: &RgbaFrame, color_channel: Channel, x_coords: &HashSet<u32>) -> (res: SummedProfile)
    requires
        forall|x: u32| #[trigger] x_coords@.contains(x) ==> x < image@.width,
    ensures
        res.sums(
            image@,
            color_channel,
            StripeOrientation::Horizontal,
            mask_of(x_coords@, image@.width),
        ),
{
    proof {
        use_type_invariant(image);
    }
    let mask = flags_of(x_coords, image.width());
    sum_line_profiles(image, color_channel, &mask, StripeOrientation::Horizontal)
}

/// The summed profile of the pixel rows in `y_coords`, for vertical fringes.
pub fn get_sum_points_vertical(image: &RgbaFrame, color_channel: Channel, y_coords: &HashSet<u32>) -> (res: SummedProfile)
    requires
        forall|y: u32| #[trigger] y_coords@.contains(y) ==> y < image@.height,
    ensures
        res.sums(
            image@,
            color_channel,
            StripeOrientation::Vertical,
            mask_of(y_coords@, image@.height),
        ),
{
    proof {
        use_type_invariant(image);
    }
    let mask = flags_of(y_coords, image.height());
    sum_line_profiles(image, color_channel, &mask, StripeOrientation::Vertical)
}

/// The summed profile of the lines in `coords`, across fringes of the given
/// orientation.
pub fn get_sum_points(
    image: &RgbaFrame,
    color_channel: Channel,
    coords: &HashSet<u32>,
    orientation: StripeOrientation,
) -> (res: SummedProfile)
    requires
        forall|x: u32| #[trigger] coords@.contains(x) ==> x < line_count(image@, orientation),
    ensures
        res.sums(
            image@,
            color_channel,
            orientation,
            mask_of(coords@, line_count(image@, orientation)),
        ),
{
    proof {
        use_type_invariant(image);
    }
    match orientation {
        StripeOrientation::Horizontal => get_sum_points_horizontal(image, color_channel, coords),
        StripeOrientation::Vertical => get_sum_points_vertical(image, color_channel, coords),
    }
}

// ---------------------------------------------------------------------------
// Laws of profiles
// ---------------------------------------------------------------------------

/// A line across horizontal fringes is a pixel column, and one across
/// vertical fringes a pixel row.
pub proof fn law_line_profile_by_orientation(f: FrameView, c: Channel, line: int)
    ensures
        line_profile(f, c, StripeOrientation::Horizontal, line) == column_profile(f, c, line),
        line_profile(f, c, StripeOrientation::Vertical, line) == row_profile(f, c, line),
{
    assert(line_samples(f, c, StripeOrientation::Horizontal, line) =~= Seq::new(
        f.height,
        |i: int| f.intensity(line, i, c),
    ));
    assert(line_samples(f, c, StripeOrientation::Vertical, line) =~= Seq::new(
        f.width,
        |i: int| f.intensity(i, line, c),
    ));
    assert(line_profile(f, c, StripeOrientation::Horizontal, line) =~= column_profile(f, c, line));
    assert(line_profile(f, c, StripeOrientation::Vertical, line) =~= row_profile(f, c, line));
}

/// A line's profile has one point per pixel, one abscissa apart, and its
/// brightest sample stands at abscissa 0: no sample is brighter, and every
/// sample before it is darker.
pub proof fn law_profile_centred_on_peak(f: FrameView, c: Channel, o: StripeOrientation, line: int)
    requires
        f.valid(),
        0 <= line < line_count(f, o),
    ensures
        ({
            let p = line_profile(f, c, o, line);
            let k = peak_index(line_samples(f, c, o, line));
            &&& p.len() == line_len(f, o)
            &&& 0 <= k < p.len()
            &&& p[k].0 == 0
            &&& forall|i: int| 0 <= i < p.len() ==> (#[trigger] p[i]).0 == p[k].0 + (i - k)
            &&& forall|i: int| 0 <= i < p.len() ==> (#[trigger] p[i]).1 <= p[k].1
            &&& forall|i: int| 0 <= i < k ==> (#[trigger] p[i]).1 < p[k].1
        }),
{
    let v = line_samples(f, c, o, line);
    lemma_peak_index_characterized(v);
    lemma_first_max_is_first_greatest(v, v.len() as int);
    let p = line_profile(f, c, o, line);
    let k = peak_index(v);
    if !has_positive_peak(v) {
        assert forall|i: int| 0 <= i < p.len() implies (#[trigger] p[i]).1 <= p[k].1 by {
            assert(v[i] <= v[first_max(v, v.len() as int)]);
        }
    }
}

proof fn lemma_one_line_sums(
    f: FrameView,
    c: Channel,
    o: StripeOrientation,
    mask: Seq<bool>,
    line: int,
    n: int,
    i: int,
)
    requires
        0 <= n <= mask.len(),
        forall|k: int| 0 <= k < mask.len() ==> #[trigger] mask[k] == (k == line),
    ensures
        selected_count(mask, n) == if 0 <= line < n { 1nat } else { 0nat },
        sum_samples(f, c, o, mask, n, i) == if 0 <= line < n { sample(f, c, o, line, i) } else { 0 },
        sum_abscissae(f, c, o, mask, n, i) == if 0 <= line < n {
            i - peak_index(line_samples(f, c, o, line))
        } else {
            0
        },
    decreases n,
{
    if n > 0 {
        lemma_one_line_sums(f, c, o, mask, line, n - 1, i);
    }
}

/// The average of a single line is that line's own profile.
pub proof fn law_average_of_one_line(
    f: FrameView,
    c: Channel,
    o: StripeOrientation,
    mask: Seq<bool>,
    line: int,
)
    requires
        f.valid(),
        mask.len() == line_count(f, o),
        0 <= line < mask.len(),
        forall|k: int| 0 <= k < mask.len() ==> #[trigger] mask[k] == (k == line),
    ensures
        selected_count(mask, mask.len() as int) == 1,
        summed_profile(f, c, o, mask) == line_profile(f, c, o, line),
        summed_peak_abscissa(f, c, o, mask) == 0,
{
    let n = mask.len() as int;
    lemma_one_line_sums(f, c, o, mask, line, n, 0);
    assert forall|i: int| 0 <= i < line_len(f, o) implies
        #[trigger] summed_samples(f, c, o, mask)[i] == line_samples(f, c, o, line)[i] by {
        lemma_one_line_sums(f, c, o, mask, line, n, i);
    }
    assert(summed_samples(f, c, o, mask) =~= line_samples(f, c, o, line));
    assert forall|i: int| 0 <= i < line_len(f, o) implies
        #[trigger] summed_profile(f, c, o, mask)[i] == line_profile(f, c, o, line)[i] by {
        lemma_one_line_sums(f, c, o, mask, line, n, i);
    }
    assert(summed_profile(f, c, o, mask) =~= line_profile(f, c, o, line));
    let v = line_samples(f, c, o, line);
    if has_positive_peak(v) {
        lemma_peak_index_characterized(v);
        lemma_one_line_sums(f, c, o, mask, line, n, peak_index(v));
    }
}

proof fn lemma_abscissa_steps(
    f: FrameView,
    c: Channel,
    o: StripeOrientation,
    mask: Seq<bool>,
    n: int,
    i: int,
    j: int,
)
    requires
        0 <= n <= mask.len(),
    ensures
        sum_abscissae(f, c, o, mask, n, i) - sum_abscissae(f, c, o, mask, n, j)
            == selected_count(mask, n) * (i - j),
    decreases n,
{
    if n > 0 {
        lemma_abscissa_steps(f, c, o, mask, n - 1, i, j);
        let m = selected_count(mask, n - 1);
        let pk = peak_index(line_samples(f, c, o, n - 1));
        if mask[n - 1] {
            assert(selected_count(mask, n) == m + 1);
            assert(sum_abscissae(f, c, o, mask, n, i) == sum_abscissae(f, c, o, mask, n - 1, i) + (i - pk));
            assert(sum_abscissae(f, c, o, mask, n, j) == sum_abscissae(f, c, o, mask, n - 1, j) + (j - pk));
            assert((m + 1) * (i - j) == m * (i - j) + (i - j)) by (nonlinear_arith);
        } else {
            assert(selected_count(mask, n) == m);
        }
    } else {
        assert(selected_count(mask, n) == 0);
        assert(0 * (i - j) == 0) by (nonlinear_arith);
    }
}

/// In the averaged profile the points stand one sample apart and its peak
/// at 0: summed abscissa `i`, less the peak's, is the number of lines times
/// the distance of `i` from the peak.
pub proof fn law_average_centred_on_peak(
    f: FrameView,
    c: Channel,
    o: StripeOrientation,
    mask: Seq<bool>,
    i: int,
)
    requires
        f.valid(),
        mask.len() == line_count(f, o),
        0 <= i < line_len(f, o),
        selected_count(mask, mask.len() as int) > 0,
        has_positive_peak(summed_samples(f, c, o, mask)),
    ensures
        summed_profile(f, c, o, mask)[i].0 - summed_peak_abscissa(f, c, o, mask)
            == selected_count(mask, mask.len() as int) * (i - peak_index(summed_samples(f, c, o, mask))),
{
    let ys = summed_samples(f, c, o, mask);
    lemma_abscissa_steps(f, c, o, mask, mask.len() as int, i, peak_index(ys));
}

/// Summing is plain addition: the sums over two lists with no line in
/// common add up to the sums over both lists together, and so do their
/// line counts. No sum wraps or saturates, however many lines are added.
pub proof fn law_sums_add_over_disjoint_lists(
    f: FrameView,
    c: Channel,
    o: StripeOrientation,
    both: Seq<bool>,
    first: Seq<bool>,
    second: Seq<bool>,
    n: int,
    i: int,
)
    requires
        first.len() == both.len(),
        second.len() == both.len(),
        0 <= n <= both.len(),
        forall|k: int| 0 <= k < both.len() ==> #[trigger] both[k] == (first[k] || second[k]),
        forall|k: int| 0 <= k < both.len() ==> !(#[trigger] first[k] && second[k]),
    ensures
        sum_samples(f, c, o, both, n, i) == sum_samples(f, c, o, first, n, i) + sum_samples(
            f,
            c,
            o,
            second,
            n,
            i,
        ),
        sum_abscissae(f, c, o, both, n, i) == sum_abscissae(f, c, o, first, n, i)
            + sum_abscissae(f, c, o, second, n, i),
        selected_count(both, n) == selected_count(first, n) + selected_count(second, n),
    decreases n,
{
    if n > 0 {
        law_sums_add_over_disjoint_lists(f, c, o, both, first, second, n - 1, i);
        assert(both[n - 1] == (first[n - 1] || second[n - 1]));
        assert(!(first[n - 1] && second[n - 1]));
    }
}

/// The summed intensity of a single line at a position is that line's
/// sample there, and with no line selected every sum is 0.
pub proof fn law_sum_of_one_line_is_its_sample(
    f: FrameView,
    c: Channel,
    o: StripeOrientation,
    mask: Seq<bool>,
    line: int,
    i: int,
)
    requires
        0 <= line < mask.len(),
        forall|k: int| 0 <= k < mask.len() ==> #[trigger] mask[k] == (k == line),
    ensures
        sum_samples(f, c, o, mask, mask.len() as int, i) == sample(f, c, o, line, i),
        selected_count(mask, mask.len() as int) == 1,
{
    lemma_one_line_sums(f, c, o, mask, line, mask.len() as int, i);
}

/// The summed intensity at a position is the plain sum, over the selected
/// lines, of their samples there: adding a line adds its sample.
pub proof fn law_sum_grows_by_each_line(
    f: FrameView,
    c: Channel,
    o: StripeOrientation,
    mask: Seq<bool>,
    line: int,
    i: int,
)
    requires
        0 <= line < mask.len(),
        !mask[line],
    ensures
        sum_samples(f, c, o, mask.update(line, true), mask.len() as int, i) == sum_samples(
            f,
            c,
            o,
            mask,
            mask.len() as int,
            i,
        ) + sample(f, c, o, line, i),
        selected_count(mask.update(line, true), mask.len() as int) == selected_count(
            mask,
            mask.len() as int,
        ) + 1,
{
    let single = Seq::new(mask.len(), |k: int| k == line);
    let both = mask.update(line, true);
    law_sums_add_over_disjoint_lists(f, c, o, both, mask, single, mask.len() as int, i);
    law_sum_of_one_line_is_its_sample(f, c, o, single, line, i);
}

/// With horizontal fringes there is one line per pixel column, each as long
/// as the picture is high; with vertical fringes one per pixel row, each as
/// long as the picture is wide.
pub proof fn law_one_line_per_column_or_row(f: FrameView)
    ensures
        line_count(f, StripeOrientation::Horizontal) == f.width,
        line_len(f, StripeOrientation::Horizontal) == f.height,
        line_count(f, StripeOrientation::Vertical) == f.height,
        line_len(f, StripeOrientation::Vertical) == f.width,
{
}

/// With no line selected there is no averaged graph.
pub proof fn law_average_of_no_line_is_empty(
    f: FrameView,
    c: Channel,
    o: StripeOrientation,
    mask: Seq<bool>,
)
    requires
        forall|k: int| 0 <= k < mask.len() ==> !#[trigger] mask[k],
    ensures
        selected_count(mask, mask.len() as int) == 0,
        summed_profile(f, c, o, mask).len() == 0,
        summed_peak_abscissa(f, c, o, mask) == 0,
{
    lemma_none_selected(mask, mask.len() as int);
}

proof fn lemma_none_selected(mask: Seq<bool>, n: int)
    requires
        0 <= n <= mask.len(),
        forall|k: int| 0 <= k < mask.len() ==> !#[trigger] mask[k],
    ensures
        selected_count(mask, n) == 0,
    decreases n,
{
    if n > 0 {
        lemma_none_selected(mask, n - 1);
    }
}

/// The averaged graph is moved by the summed abscissa of the first position
/// of greatest summed intensity, when that intensity is positive: no summed
/// intensity exceeds it, and every one before it is smaller.
pub proof fn law_average_peak(f: FrameView, c: Channel, o: StripeOrientation, mask: Seq<bool>)
    requires
        line_len(f, o) > 0,
        selected_count(mask, mask.len() as int) > 0,
        exists|j: int| 0 <= j < line_len(f, o) && #[trigger] sum_samples(f, c, o, mask, mask.len() as int, j) > 0,
    ensures
        exists|p: int| #![trigger sum_abscissae(f, c, o, mask, mask.len() as int, p)] {
            &&& 0 <= p < line_len(f, o)
            &&& summed_peak_abscissa(f, c, o, mask) == sum_abscissae(f, c, o, mask, mask.len() as int, p)
            &&& forall|j: int| 0 <= j < line_len(f, o) ==> #[trigger] sum_samples(f, c, o, mask, mask.len() as int, j)
                <= sum_samples(f, c, o, mask, mask.len() as int, p)
            &&& forall|j: int| 0 <= j < p ==> #[trigger] sum_samples(f, c, o, mask, mask.len() as int, j)
                < sum_samples(f, c, o, mask, mask.len() as int, p)
        },
{
    let ys = summed_samples(f, c, o, mask);
    let n = mask.len() as int;
    lemma_peak_index_characterized(ys);
    let j0 = choose|j: int| 0 <= j < line_len(f, o) && #[trigger] sum_samples(f, c, o, mask, n, j) > 0;
    assert(ys[j0] > 0);
    let p = peak_index(ys);
    assert forall|j: int| 0 <= j < line_len(f, o) implies #[trigger] sum_samples(f, c, o, mask, n, j)
        <= sum_samples(f, c, o, mask, n, p) by {
        assert(ys[j] <= ys[p]);
    }
    assert forall|j: int| 0 <= j < p implies #[trigger] sum_samples(f, c, o, mask, n, j)
        < sum_samples(f, c, o, mask, n, p) by {
        assert(ys[j] < ys[p]);
    }
    assert(has_positive_peak(ys));
    assert(summed_peak_abscissa(f, c, o, mask) == sum_abscissae(f, c, o, mask, n, p));
}

/// A profile's points are its points' coordinates, in order.
pub proof fn law_point_pairs_are_coordinates(s: Seq<Point>, t: Seq<SumPoint>)
    ensures
        point_pairs(s).len() == s.len(),
        forall|i: int| 0 <= i < s.len() ==> #[trigger] point_pairs(s)[i] == (s[i].x as int, s[i].y as int),
        sum_point_pairs(t).len() == t.len(),
        forall|i: int| 0 <= i < t.len() ==> #[trigger] sum_point_pairs(t)[i] == (t[i].x as int, t[i].y as int),
{
}

/// Line `i` is flagged exactly when the set holds it.
pub proof fn law_mask_of(lines: Set<u32>, n: nat)
    ensures
        mask_of(lines, n).len() == n,
        forall|i: int| 0 <= i < n && i <= u32::MAX ==> #[trigger] mask_of(lines, n)[i] == lines.contains(i as u32),
{
}

} // verus!
