use vstd::prelude::*;

use crate::frame::{FrameView, RgbaFrame};
use crate::options::{Channel, ImageSource, PlotInitData, StripeOrientation};
use crate::profile::{
    get_points, get_sum_points, line_count, line_profile, mask_of, point_pairs, Point, SumPoint,
    SummedProfile,
};
use std::collections::HashSet;

verus! {

/// Which graph the analysis window shows.
#[derive(Debug, Copy, Clone, PartialEq, Eq, Structural)]
pub enum Mode {
    /// The profile of the line under the line index.
    Individual,
    /// The averaged profile of the lines in the list.
    Summarized,
}

/// The state of an analysis window, as plain values.
pub struct PlotView {
    pub name: Seq<char>,
    pub source: ImageSource,
    pub frame: FrameView,
    pub show: bool,
    pub channel: Channel,
    pub mode: Mode,
    pub line_index: int,
    pub range_start: int,
    pub range_end: int,
    /// The lines in the list of lines to average.
    pub lines: Set<u32>,
    pub orientation: StripeOrientation,
}

impl PlotView {
    /// How many lines the frame has across its fringes.
    pub open spec fn count(self) -> nat {
        line_count(self.frame, self.orientation)
    }

    /// The frame is a frame, and every line in the list and every index
    /// names a line of it.
    pub open spec fn valid(self) -> bool {
        &&& self.frame.valid()
        &&& forall|x: u32| #[trigger] self.lines.contains(x) ==> x < self.count()
        &&& 0 <= self.line_index < self.count()
        &&& 0 <= self.range_start < self.count()
        &&& 0 <= self.range_end < self.count()
    }

    /// Whether some line is in the list.
    pub open spec fn any_selected(self) -> bool {
        exists|x: u32| #[trigger] self.lines.contains(x)
    }

    /// One flag per line, telling whether it is in the list.
    pub open spec fn flags(self) -> Seq<bool> {
        mask_of(self.lines, self.count())
    }
}

/// The graph an analysis window shows.
pub enum Graph {
    /// The profile of one line.
    Line(Vec<Point>),
    /// The summed profile of the lines in the list.
    Average(SummedProfile),
}

/// The analysis window of one image: which lines it looks at and how.
pub struct InterferencePlot {
    name: String,
    source: ImageSource,
    image: RgbaFrame,
    show: bool,
    channel: Channel,
    mode: Mode,
    line_index: u32,
    range_start_index: u32,
    range_end_index: u32,
    to_summarize: HashSet<u32>,
    stripe_orientation: StripeOrientation,
    summarized_points: SummedProfile,
}

impl View for InterferencePlot {
    type V = PlotView;

    closed spec fn view(&self) -> PlotView {
        PlotView {
            name: self.name@,
            source: self.source,
            frame: self.image@,
            show: self.show,
            channel: self.channel,
            mode: self.mode,
            line_index: self.line_index as int,
            range_start: self.range_start_index as int,
            range_end: self.range_end_index as int,
            lines: self.to_summarize@,
            orientation: self.stripe_orientation,
        }
    }
}

/// The state after the preparation that precedes each drawing of the window.
pub open spec fn prepared(v: PlotView) -> PlotView {
    match v.source {
        ImageSource::Camera => PlotView {
            mode: Mode::Summarized,
            lines: all_lines(v.count()),
            ..v
        },
        ImageSource::File => if v.any_selected() {
            v
        } else {
            PlotView { mode: Mode::Individual, ..v }
        },
    }
}

/// The state after choosing the graph `mode`.
pub open spec fn with_mode(v: PlotView, mode: Mode) -> PlotView {
    PlotView {
        mode: if v.any_selected() {
            mode
        } else {
            Mode::Individual
        },
        ..v
    }
}

/// The state after the "-" button.
pub open spec fn stepped_back(v: PlotView) -> PlotView {
    PlotView {
        line_index: if v.line_index > 0 {
            v.line_index - 1
        } else {
            0
        },
        ..v
    }
}

/// The state after the "+" button.
pub open spec fn stepped_on(v: PlotView) -> PlotView {
    PlotView {
        line_index: if v.line_index < v.count() - 1 {
            v.line_index + 1
        } else {
            v.line_index
        },
        ..v
    }
}

/// The state after putting the current line into the list.
pub open spec fn with_line_added(v: PlotView) -> PlotView {
    PlotView { lines: v.lines.insert(v.line_index as u32), ..v }
}

/// The state after taking the current line out of the list.
pub open spec fn with_line_removed(v: PlotView) -> PlotView {
    PlotView { lines: v.lines.remove(v.line_index as u32), ..v }
}

/// Puts the lines `start..end` into `lines`.
fn insert_range(lines: &mut HashSet<u32>, start: u32, end: u32)
    ensures
        final(lines)@ == Set::new(|x: u32| old(lines)@.contains(x) || (start <= x < end)),
{
    broadcast use vstd::std_specs::hash::group_hash_axioms;
    let ghost before = lines@;
    if start < end {
        let mut i = start;
        while i < end
            invariant
                start <= i <= end,
                lines@ == Set::new(|x: u32| before.contains(x) || (start <= x < i)),
            decreases end - i,
        {
            lines.insert(i);
            i = i + 1;
            assert(lines@ =~= Set::new(|x: u32| before.contains(x) || (start <= x < i)));
        }
    }
    assert(lines@ =~= Set::new(|x: u32| before.contains(x) || (start <= x < end)));
}

/// Takes the lines `start..end` out of `lines`.
fn remove_range_from(lines: &mut HashSet<u32>, start: u32, end: u32)
    ensures
        final(lines)@ == Set::new(|x: u32| old(lines)@.contains(x) && !(start <= x < end)),
{
    broadcast use vstd::std_specs::hash::group_hash_axioms;
    let ghost before = lines@;
    if start < end {
        let mut i = start;
        while i < end
            invariant
                start <= i <= end,
                lines@ == Set::new(|x: u32| before.contains(x) && !(start <= x < i)),
            decreases end - i,
        {
            lines.remove(&i);
            i = i + 1;
            assert(lines@ =~= Set::new(|x: u32| before.contains(x) && !(start <= x < i)));
        }
    }
    assert(lines@ =~= Set::new(|x: u32| before.contains(x) && !(start <= x < end)));
}

/// The name of the window of a picture file.
fn file_window_name(path: &str, time: &str) -> (name: String)
    ensures
        name@ == "Analyze ("@ + path@ + ", "@ + time@ + ")"@,
{
    let name = String::from_str("Analyze (");
    let name = name.concat(path);
    let name = name.concat(", ");
    let name = name.concat(time);
    name.concat(")")
}

/// The name of the window of a camera frame.
fn camera_window_name() -> (name: String)
    ensures
        name@ == "Analyze Camera Frame"@,
{
    String::from_str("Analyze Camera Frame")
}

/// Every one of `n` lines.
pub open spec fn all_lines(n: nat) -> Set<u32> {
    Set::new(|x: u32| x < n)
}

/// The lines after selecting `start..=end`.
pub open spec fn select_range(lines: Set<u32>, start: int, end: int) -> Set<u32> {
    Set::new(|x: u32| lines.contains(x) || (start <= x <= end))
}

/// The lines after taking `start..=end` out of the list.
pub open spec fn deselect_range(lines: Set<u32>, start: int, end: int) -> Set<u32> {
    Set::new(|x: u32| lines.contains(x) && !(start <= x <= end))
}

/// Whether line `line` is among the first `k` entries of `pixels`.
pub open spec fn listed(pixels: Seq<u32>, k: int, line: u32) -> bool {
    exists|w: int| 0 <= w < k && pixels[w] == line
}

/// The lines after taking out of the list every line in `removed`.
pub open spec fn deselect_all(lines: Set<u32>, removed: Seq<u32>) -> Set<u32> {
    Set::new(|x: u32| lines.contains(x) && !listed(removed, removed.len() as int, x))
}

/// `v` kept between `lo` and `hi`, as the slider and the drag fields keep their values.
pub open spec fn clamp(v: int, lo: int, hi: int) -> int {
    if v < lo {
        lo
    } else if v > hi {
        hi
    } else {
        v
    }
}

impl InterferencePlot {
    /// The state is consistent, and the averaged profile kept for display is
    /// the summed profile of the lines in the list.
    pub closed spec fn well_formed(&self) -> bool {
        &&& self@.valid()
        &&& self.summarized_points.sums(self@.frame, self@.channel, self@.orientation, self@.flags())
    }

    /// What a well-formed window's view satisfies.
    pub proof fn lemma_well_formed_valid(&self)
        requires
            self.well_formed(),
        ensures
            self@.valid(),
    {
    }

    fn recompute(&mut self)
        requires
            old(self)@.valid(),
        ensures
            final(self)@ == old(self)@,
            final(self).well_formed(),
    {
        assert(self@.valid() && self@.lines == self.to_summarize@);
        self.summarized_points = get_sum_points(
            &self.image,
            self.channel,
            &self.to_summarize,
            self.stripe_orientation,
        );
    }

    fn line_total(&self) -> (n: u32)
        requires
            self@.frame.valid(),
        ensures
            n == self@.count(),
            n > 0,
    {
        match self.stripe_orientation {
            StripeOrientation::Horizontal => self.image.width(),
            StripeOrientation::Vertical => self.image.height(),
        }
    }

    /// Opens the analysis of `image`. A picture file's window is named
    /// after its path and the time `time` at which it was opened; a camera
    /// frame's window is named "Analyze Camera Frame". The window starts on
    /// line 0, showing single lines, with no line in the list.
    pub fn new(source: ImageSource, image: RgbaFrame, init_data: PlotInitData, time: &str) -> (plot: InterferencePlot)
        ensures
            plot.well_formed(),
            plot@.name == if source == ImageSource::File {
                "Analyze ("@ + init_data.path@ + ", "@ + time@ + ")"@
            } else {
                "Analyze Camera Frame"@
            },
            plot@.source == source,
            plot@.frame == image@,
            plot@.show,
            plot@.channel == init_data.channel,
            plot@.mode == Mode::Individual,
            plot@.line_index == 0,
            plot@.range_start == 0,
            plot@.range_end == 0,
            plot@.orientation == init_data.stripe_orientation,
            plot@.lines == Set::<u32>::empty(),
    {
        let name = match source {
            ImageSource::File => file_window_name(init_data.path.as_str(), time),
            ImageSource::Camera => camera_window_name(),
        };
        proof {
            use_type_invariant(&image);
        }
        let to_summarize: HashSet<u32> = HashSet::new();
        let summarized_points = get_sum_points(&image, init_data.channel, &to_summarize, init_data.stripe_orientation);
        InterferencePlot {
            name,
            source,
            image,
            show: true,
            channel: init_data.channel,
            mode: Mode::Individual,
            line_index: 0,
            range_start_index: 0,
            range_end_index: 0,
            to_summarize,
            stripe_orientation: init_data.stripe_orientation,
            summarized_points,
        }
    }

    /// What happens each time the window is drawn, before any input: a
    /// camera frame always shows the average of all its lines; a picture
    /// with no line in the list shows single lines.
    pub fn prepare_frame(&mut self)
        requires
            old(self).well_formed(),
        ensures
            final(self).well_formed(),
            final(self)@ == prepared(old(self)@),
            old(self)@.source == ImageSource::Camera ==> final(self)@.mode == Mode::Summarized
                && forall|x: u32| #[trigger] final(self)@.lines.contains(x) <==> x < old(self)@.count(),
            old(self)@.source == ImageSource::File && old(self)@.any_selected() ==> final(self)@
                == old(self)@,
            old(self)@.source == ImageSource::File && !old(self)@.any_selected() ==> final(self)@.mode
                == Mode::Individual,
    {
        proof {
            self.lemma_well_formed_valid();
        }
        match self.source {
            ImageSource::Camera => {
                self.mode = Mode::Summarized;
                let n = self.line_total();
                insert_range(&mut self.to_summarize, 0, n);
                assert(self.to_summarize@ =~= all_lines(n as nat));
                self.recompute();
            },
            ImageSource::File => {
                if !self.any_selected() {
                    self.mode = Mode::Individual;
                }
            },
        }
    }

    /// Whether some line is in the list.
    pub fn any_selected(&self) -> (b: bool)
        ensures
            b == self@.any_selected(),
    {
        let empty = self.to_summarize.is_empty();
        proof {
            if !empty {
                assert(!(self@.lines =~= Set::<u32>::empty()));
            }
        }
        !empty
    }

    /// Chooses the graph to show; the average can be chosen only while
    /// some line is in the list.
    pub fn select_mode(&mut self, mode: Mode)
        requires
            old(self).well_formed(),
        ensures
            final(self).well_formed(),
            final(self)@ == with_mode(old(self)@, mode),
            old(self)@.any_selected() ==> final(self)@.mode == mode,
            !old(self)@.any_selected() ==> final(self)@.mode == Mode::Individual,
    {
        if self.any_selected() {
            self.mode = mode;
        } else {
            self.mode = Mode::Individual;
        }
    }

    /// Chooses the colour channel; the average follows.
    pub fn select_channel(&mut self, channel: Channel)
        requires
            old(self).well_formed(),
        ensures
            final(self).well_formed(),
            final(self)@ == (PlotView { channel, ..old(self)@ }),
    {
        proof {
            self.lemma_well_formed_valid();
        }
        self.channel = channel;
        self.recompute();
    }

    /// Chooses the orientation of the fringes. The list of lines is emptied,
    /// and the indices are brought into the new range of lines.
    pub fn select_orientation(&mut self, orientation: StripeOrientation)
        requires
            old(self).well_formed(),
        ensures
            final(self).well_formed(),
            final(self)@ == (PlotView {
                orientation,
                lines: Set::<u32>::empty(),
                line_index: clamp(old(self)@.line_index, 0, line_count(old(self)@.frame, orientation) - 1),
                range_start: clamp(old(self)@.range_start, 0, line_count(old(self)@.frame, orientation) - 1),
                range_end: clamp(old(self)@.range_end, 0, line_count(old(self)@.frame, orientation) - 1),
                ..old(self)@
            }),
    {
        proof {
            self.lemma_well_formed_valid();
        }
        self.stripe_orientation = orientation;
        let n = self.line_total();
        self.to_summarize = HashSet::new();
        if self.line_index > n - 1 {
            self.line_index = n - 1;
        }
        if self.range_start_index > n - 1 {
            self.range_start_index = n - 1;
        }
        if self.range_end_index > n - 1 {
            self.range_end_index = n - 1;
        }
        self.recompute();
    }

    /// The "-" button: one line back, unless at the first line.
    pub fn decrement_line(&mut self)
        requires
            old(self).well_formed(),
        ensures
            final(self).well_formed(),
            final(self)@ == stepped_back(old(self)@),
            final(self)@.line_index == if old(self)@.line_index > 0 {
                old(self)@.line_index - 1
            } else {
                0
            },
    {
        if self.line_index > 0 {
            self.line_index = self.line_index - 1;
        }
    }

    /// The "+" button: one line on, unless at the last line.
    pub fn increment_line(&mut self)
        requires
            old(self).well_formed(),
        ensures
            final(self).well_formed(),
            final(self)@ == stepped_on(old(self)@),
            final(self)@.line_index == if old(self)@.line_index + 1 < old(self)@.count() {
                old(self)@.line_index + 1
            } else {
                old(self)@.line_index
            },
    {
        proof {
            self.lemma_well_formed_valid();
        }
        let n = self.line_total();
        if self.line_index < n - 1 {
            self.line_index = self.line_index + 1;
        }
    }

    /// The slider: goes to line `index`, kept within the lines.
    pub fn set_line_index(&mut self, index: u32)
        requires
            old(self).well_formed(),
        ensures
            final(self).well_formed(),
            final(self)@ == (PlotView {
                line_index: clamp(index as int, 0, old(self)@.count() - 1),
                ..old(self)@
            }),
    {
        proof {
            self.lemma_well_formed_valid();
        }
        let n = self.line_total();
        self.line_index = if index > n - 1 {
            n - 1
        } else {
            index
        };
    }

    /// The "Show" button of a line in the list: goes to that line.
    pub fn show_line(&mut self, pixel: u32)
        requires
            old(self).well_formed(),
            pixel < old(self)@.count(),
        ensures
            final(self).well_formed(),
            final(self)@ == (PlotView { line_index: pixel as int, ..old(self)@ }),
    {
        self.line_index = pixel;
    }

    /// Whether line `line` is in the list.
    pub fn is_selected(&self, line: u32) -> (b: bool)
        requires
            self.well_formed(),
        ensures
            b == self@.lines.contains(line),
            b ==> line < self@.count(),
    {
        broadcast use vstd::std_specs::hash::group_hash_axioms;
        proof {
            self.lemma_well_formed_valid();
        }
        self.to_summarize.contains(&line)
    }

    /// "Add to summarized graph": puts the current line into the list.
    pub fn add_line(&mut self)
        requires
            old(self).well_formed(),
        ensures
            final(self).well_formed(),
            final(self)@ == with_line_added(old(self)@),
            final(self)@.lines.contains(old(self)@.line_index as u32),
            forall|x: u32| x != old(self)@.line_index ==>
                #[trigger] final(self)@.lines.contains(x) == old(self)@.lines.contains(x),
    {
        proof {
            self.lemma_well_formed_valid();
        }
        broadcast use vstd::std_specs::hash::group_hash_axioms;
        self.to_summarize.insert(self.line_index);
        self.recompute();
    }

    /// "Remove from summarized graph": takes the current line out of the list.
    pub fn remove_line(&mut self)
        requires
            old(self).well_formed(),
        ensures
            final(self).well_formed(),
            final(self)@ == with_line_removed(old(self)@),
            !final(self)@.lines.contains(old(self)@.line_index as u32),
            forall|x: u32| x != old(self)@.line_index ==>
                #[trigger] final(self)@.lines.contains(x) == old(self)@.lines.contains(x),
    {
        proof {
            self.lemma_well_formed_valid();
        }
        broadcast use vstd::std_specs::hash::group_hash_axioms;
        self.to_summarize.remove(&self.line_index);
        self.recompute();
    }

    /// The start index field, kept within the lines.
    pub fn set_range_start(&mut self, index: u32)
        requires
            old(self).well_formed(),
        ensures
            final(self).well_formed(),
            final(self)@ == (PlotView {
                range_start: clamp(index as int, 0, old(self)@.count() - 1),
                ..old(self)@
            }),
    {
        proof {
            self.lemma_well_formed_valid();
        }
        let n = self.line_total();
        self.range_start_index = if index > n - 1 {
            n - 1
        } else {
            index
        };
    }

    /// The end index field, kept between the start index and the last line.
    pub fn set_range_end(&mut self, index: u32)
        requires
            old(self).well_formed(),
        ensures
            final(self).well_formed(),
            final(self)@ == (PlotView {
                range_end: clamp(index as int, old(self)@.range_start, old(self)@.count() - 1),
                ..old(self)@
            }),
    {
        proof {
            self.lemma_well_formed_valid();
        }
        let n = self.line_total();
        self.range_end_index = if index < self.range_start_index {
            self.range_start_index
        } else if index > n - 1 {
            n - 1
        } else {
            index
        };
    }

    /// "Add range": puts every line from the start index to the end index
    /// into the list.
    pub fn add_range(&mut self)
        requires
            old(self).well_formed(),
        ensures
            final(self).well_formed(),
            final(self)@ == (PlotView {
                lines: select_range(old(self)@.lines, old(self)@.range_start, old(self)@.range_end),
                ..old(self)@
            }),
            forall|x: u32| old(self)@.range_start <= x <= old(self)@.range_end ==>
                #[trigger] final(self)@.lines.contains(x),
            forall|x: u32| !(old(self)@.range_start <= x <= old(self)@.range_end) ==>
                #[trigger] final(self)@.lines.contains(x) == old(self)@.lines.contains(x),
    {
        proof {
            self.lemma_well_formed_valid();
        }
        let n = self.line_total();
        let start = self.range_start_index;
        let end = self.range_end_index;
        let ghost before = self.to_summarize@;
        insert_range(&mut self.to_summarize, start, end + 1);
        assert(self.to_summarize@ =~= select_range(before, start as int, end as int));
        assert(n > 0);
        self.recompute();
    }

    /// "Remove range": takes every line from the start index to the end
    /// index out of the list.
    pub fn remove_range(&mut self)
        requires
            old(self).well_formed(),
        ensures
            final(self).well_formed(),
            final(self)@ == (PlotView {
                lines: deselect_range(old(self)@.lines, old(self)@.range_start, old(self)@.range_end),
                ..old(self)@
            }),
            forall|x: u32| old(self)@.range_start <= x <= old(self)@.range_end ==>
                !#[trigger] final(self)@.lines.contains(x),
            forall|x: u32| !(old(self)@.range_start <= x <= old(self)@.range_end) ==>
                #[trigger] final(self)@.lines.contains(x) == old(self)@.lines.contains(x),
    {
        proof {
            self.lemma_well_formed_valid();
        }
        let n = self.line_total();
        let start = self.range_start_index;
        let end = self.range_end_index;
        let ghost before = self.to_summarize@;
        remove_range_from(&mut self.to_summarize, start, end + 1);
        assert(self.to_summarize@ =~= deselect_range(before, start as int, end as int));
        self.recompute();
    }

    /// "Sum all graphs": puts every line into the list.
    pub fn sum_all(&mut self)
        requires
            old(self).well_formed(),
        ensures
            final(self).well_formed(),
            final(self)@ == (PlotView { lines: all_lines(old(self)@.count()), ..old(self)@ }),
            forall|x: u32| #[trigger] final(self)@.lines.contains(x) <==> x < old(self)@.count(),
    {
        proof {
            self.lemma_well_formed_valid();
        }
        let n = self.line_total();
        let mut all: HashSet<u32> = HashSet::new();
        insert_range(&mut all, 0, n);
        self.to_summarize = all;
        assert(self.to_summarize@ =~= all_lines(n as nat));
        self.recompute();
    }

    /// The "Remove" buttons of the list: takes the lines `pixels` out of it.
    pub fn remove_lines(&mut self, pixels: &Vec<u32>)
        requires
            old(self).well_formed(),
        ensures
            final(self).well_formed(),
            final(self)@ == (PlotView {
                lines: deselect_all(old(self)@.lines, pixels@),
                ..old(self)@
            }),
            forall|k: int| 0 <= k < pixels@.len() ==> !final(self)@.lines.contains(#[trigger] pixels@[k]),
            forall|x: u32| (forall|k: int| 0 <= k < pixels@.len() ==> #[trigger] pixels@[k] != x)
                ==> final(self)@.lines.contains(x) == old(self)@.lines.contains(x),
    {
        proof {
            self.lemma_well_formed_valid();
        }
        broadcast use vstd::std_specs::hash::group_hash_axioms;
        let ghost before = self.to_summarize@;
        let ghost v0 = self@;
        let m = pixels.len();
        for k in 0..m
            invariant
                self@ == (PlotView { lines: self.to_summarize@, ..v0 }),
                before == v0.lines,
                m == pixels@.len(),
                self.to_summarize@ == Set::new(|x: u32| before.contains(x) && !listed(pixels@, k as int, x)),
        {
            let p = pixels[k];
            self.to_summarize.remove(&p);
            proof {
                assert forall|x: u32| #![trigger listed(pixels@, k + 1, x)]
                    listed(pixels@, k + 1, x) == (listed(pixels@, k as int, x) || p == x) by {
                    if listed(pixels@, k + 1, x) {
                        let w = choose|w: int| 0 <= w < k + 1 && pixels@[w] == x;
                        if w < k {
                            assert(listed(pixels@, k as int, x));
                        }
                    }
                    if listed(pixels@, k as int, x) {
                        let w = choose|w: int| 0 <= w < k && pixels@[w] == x;
                        assert(0 <= w < k + 1 && pixels@[w] == x);
                    }
                    if p == x {
                        assert(0 <= k < k + 1 && pixels@[k as int] == x);
                    }
                }
                assert(self.to_summarize@ =~= Set::new(
                    |x: u32| before.contains(x) && !listed(pixels@, k + 1, x),
                ));
            }
        }
        assert(self.to_summarize@ =~= deselect_all(before, pixels@));
        proof {
            law_remove_lines(before, pixels@);
        }
        self.recompute();
    }

    /// The lines in the list, in increasing order.
    pub fn selected_lines(&self) -> (lines: Vec<u32>)
        requires
            self.well_formed(),
        ensures
            forall|x: u32| lines@.contains(x) <==> self@.lines.contains(x),
            forall|a: int, b: int| 0 <= a < b < lines@.len() ==> lines@[a] < lines@[b],
    {
        broadcast use vstd::std_specs::hash::group_hash_axioms;
        proof {
            self.lemma_well_formed_valid();
        }
        let n = self.line_total();
        let mut lines: Vec<u32> = Vec::new();
        for i in 0..n
            invariant
                n == self@.count(),
                forall|x: u32| #[trigger] self@.lines.contains(x) ==> x < n,
                forall|x: u32| lines@.contains(x) <==> (self@.lines.contains(x) && x < i),
                forall|k: int| 0 <= k < lines@.len() ==> #[trigger] lines@[k] < i,
                forall|a: int, b: int| 0 <= a < b < lines@.len() ==> lines@[a] < lines@[b],
        {
            if self.to_summarize.contains(&i) {
                proof {
                    assert(self@.lines.contains(i));
                    assert forall|x: u32| lines@.push(i).contains(x) <==> (self@.lines.contains(x) && x < i + 1) by {
                        if lines@.push(i).contains(x) {
                            let w = choose|w: int| 0 <= w < lines@.push(i).len() && lines@.push(i)[w] == x;
                            if w < lines@.len() {
                                assert(lines@.contains(x));
                            }
                        }
                        if self@.lines.contains(x) && x < i + 1 {
                            if x < i {
                                assert(lines@.contains(x));
                                let w = choose|w: int| 0 <= w < lines@.len() && lines@[w] == x;
                                assert(lines@.push(i)[w] == lines@[w]);
                            } else {
                                assert(lines@.push(i)[lines@.len() as int] == x);
                            }
                        }
                    }
                }
                lines.push(i);
            } else {
                proof {
                    assert forall|x: u32| lines@.contains(x) <==> (self@.lines.contains(x) && x < i + 1) by {
                        if lines@.contains(x) {
                            let w = choose|w: int| 0 <= w < lines@.len() && lines@[w] == x;
                            assert(lines@[w] < i);
                        }
                    }
                }
            }
        }
        lines
    }

    /// The graph to show: the current line's profile when showing single
    /// lines, else the averaged profile of the list.
    pub fn graph(&self) -> (g: Graph)
        requires
            self.well_formed(),
        ensures
            self@.mode == Mode::Individual ==> (g matches Graph::Line(points) && point_pairs(points@)
                == line_profile(self@.frame, self@.channel, self@.orientation, self@.line_index)),
            self@.mode == Mode::Summarized ==> (g matches Graph::Average(s) && s.sums(
                self@.frame,
                self@.channel,
                self@.orientation,
                self@.flags(),
            )),
    {
        proof {
            self.lemma_well_formed_valid();
        }
        match self.mode {
            Mode::Individual => Graph::Line(
                get_points(&self.image, self.channel, self.line_index, self.stripe_orientation),
            ),
            Mode::Summarized => Graph::Average(self.summarized_points.copy()),
        }
    }

    /// The averaged profile of the list, as kept for display.
    pub fn summarized_points(&self) -> (s: &SummedProfile)
        requires
            self.well_formed(),
        ensures
            s.sums(self@.frame, self@.channel, self@.orientation, self@.flags()),
    {
        &self.summarized_points
    }

    pub fn get_visibility(&self) -> (b: bool)
        ensures
            b == self@.show,
    {
        self.show
    }

    /// Closes the window.
    pub fn close(&mut self)
        requires
            old(self).well_formed(),
        ensures
            final(self).well_formed(),
            final(self)@ == (PlotView { show: false, ..old(self)@ }),
    {
        self.show = false;
    }

    pub fn get_name(&self) -> (name: &str)
        ensures
            name@ == self@.name,
    {
        self.name.as_str()
    }

    pub fn source(&self) -> (s: ImageSource)
        ensures
            s == self@.source,
    {
        self.source
    }

    pub fn channel(&self) -> (c: Channel)
        ensures
            c == self@.channel,
    {
        self.channel
    }

    pub fn mode(&self) -> (m: Mode)
        ensures
            m == self@.mode,
    {
        self.mode
    }

    pub fn stripe_orientation(&self) -> (o: StripeOrientation)
        ensures
            o == self@.orientation,
    {
        self.stripe_orientation
    }

    pub fn line_index(&self) -> (i: u32)
        ensures
            i == self@.line_index,
    {
        self.line_index
    }

    pub fn range_start_index(&self) -> (i: u32)
        ensures
            i == self@.range_start,
    {
        self.range_start_index
    }

    pub fn range_end_index(&self) -> (i: u32)
        ensures
            i == self@.range_end,
    {
        self.range_end_index
    }

    /// How many lines the frame has across its fringes.
    pub fn line_number(&self) -> (n: u32)
        requires
            self.well_formed(),
        ensures
            n == self@.count(),
    {
        proof {
            self.lemma_well_formed_valid();
        }
        self.line_total()
    }

    /// The analysed frame.
    pub fn image(&self) -> (f: &RgbaFrame)
        ensures
            f@ == self@.frame,
    {
        &self.image
    }
}

impl SummedProfile {
    /// A copy of the profile.
    pub fn copy(&self) -> (c: SummedProfile)
        ensures
            c.count == self.count,
            c.points@ == self.points@,
            c.peak_x == self.peak_x,
    {
        let mut points: Vec<SumPoint> = Vec::new();
        let n = self.points.len();
        for i in 0..n
            invariant
                n == self.points@.len(),
                points@ == self.points@.subrange(0, i as int),
        {
            points.push(self.points[i]);
        }
        assert(points@ =~= self.points@);
        SummedProfile { count: self.count, points, peak_x: self.peak_x }
    }
}

// ---------------------------------------------------------------------------
// Laws of the analysis window
// ---------------------------------------------------------------------------

/// A picture's window shows the average only while some line is in its list.
pub proof fn law_average_needs_lines(v: PlotView, mode: Mode)
    requires
        v.source == ImageSource::File,
    ensures
        prepared(v).mode == Mode::Summarized ==> prepared(v).any_selected(),
        with_mode(v, mode).mode == Mode::Summarized ==> with_mode(v, mode).any_selected(),
{
    assert(with_mode(v, mode).lines == v.lines);
    assert(prepared(v).lines == v.lines);
}

/// A camera window always shows the average of all its lines.
pub proof fn law_camera_averages_all_lines(v: PlotView)
    requires
        v.source == ImageSource::Camera,
    ensures
        prepared(v).mode == Mode::Summarized,
        forall|x: u32| #[trigger] prepared(v).lines.contains(x) <==> x < v.count(),
{
}

/// "+" then "-" comes back to the same line, unless at the last line.
pub proof fn law_step_on_then_back(v: PlotView)
    requires
        v.valid(),
        v.line_index < v.count() - 1,
    ensures
        stepped_back(stepped_on(v)) == v,
{
}

/// "-" then "+" comes back to the same line, unless at the first line.
pub proof fn law_step_back_then_on(v: PlotView)
    requires
        v.valid(),
        v.line_index > 0,
    ensures
        stepped_on(stepped_back(v)) == v,
{
}

/// The line index stays on a line whatever button is pressed.
pub proof fn law_steps_stay_on_lines(v: PlotView)
    requires
        v.valid(),
    ensures
        stepped_on(v).valid(),
        stepped_back(v).valid(),
{
}

/// Adding the current line to a list that does not hold it, then removing
/// it, gives back the list.
pub proof fn law_add_then_remove_line(v: PlotView)
    requires
        v.valid(),
        !v.lines.contains(v.line_index as u32),
    ensures
        with_line_removed(with_line_added(v)) == v,
{
    assert(v.lines.insert(v.line_index as u32).remove(v.line_index as u32) =~= v.lines);
}

/// After a range is removed no line of it is in the list, whatever was
/// added before, and the lines outside it are as they were.
pub proof fn law_remove_range(lines: Set<u32>, start: int, end: int)
    ensures
        forall|x: u32| start <= x <= end ==>
            !#[trigger] deselect_range(select_range(lines, start, end), start, end).contains(x),
        forall|x: u32| !(start <= x <= end) ==>
            #[trigger] deselect_range(select_range(lines, start, end), start, end).contains(x) == lines.contains(x),
        deselect_range(select_range(lines, start, end), start, end) == deselect_range(lines, start, end),
{
    assert(deselect_range(select_range(lines, start, end), start, end) =~= deselect_range(lines, start, end));
}

/// Choosing a graph gives that graph while some line is in the list; with
/// an empty list only the single-line graph can be shown.
pub proof fn law_select_mode(v: PlotView, mode: Mode)
    ensures
        v.any_selected() ==> with_mode(v, mode).mode == mode,
        !v.any_selected() ==> with_mode(v, mode).mode == Mode::Individual,
        with_mode(v, mode).lines == v.lines,
        with_mode(v, mode).line_index == v.line_index,
{
}

/// The "Remove" buttons take every clicked line out of the list and keep
/// every other line as it was.
pub proof fn law_remove_lines(lines: Set<u32>, pixels: Seq<u32>)
    ensures
        forall|k: int| 0 <= k < pixels.len() ==> !deselect_all(lines, pixels).contains(#[trigger] pixels[k]),
        forall|x: u32| (forall|k: int| 0 <= k < pixels.len() ==> #[trigger] pixels[k] != x)
            ==> deselect_all(lines, pixels).contains(x) == lines.contains(x),
{
    assert forall|k: int| 0 <= k < pixels.len() implies !deselect_all(lines, pixels).contains(
        #[trigger] pixels[k],
    ) by {
        assert(listed(pixels, pixels.len() as int, pixels[k]));
    }
}

/// "Add to summarized graph" puts the current line into the list and
/// leaves every other line as it was; "Remove from summarized graph" takes
/// it out, likewise.
pub proof fn law_add_and_remove_current_line(v: PlotView)
    requires
        v.valid(),
    ensures
        with_line_added(v).lines.contains(v.line_index as u32),
        !with_line_removed(v).lines.contains(v.line_index as u32),
        forall|x: u32| x != v.line_index ==>
            #[trigger] with_line_added(v).lines.contains(x) == v.lines.contains(x),
        forall|x: u32| x != v.line_index ==>
            #[trigger] with_line_removed(v).lines.contains(x) == v.lines.contains(x),
        with_line_added(v).line_index == v.line_index,
        with_line_removed(v).line_index == v.line_index,
{
}

/// "Add range" puts every line from the start to the end index into the
/// list and leaves every other line as it was.
pub proof fn law_add_range(lines: Set<u32>, start: int, end: int)
    ensures
        forall|x: u32| start <= x <= end ==> #[trigger] select_range(lines, start, end).contains(x),
        forall|x: u32| !(start <= x <= end) ==>
            #[trigger] select_range(lines, start, end).contains(x) == lines.contains(x),
{
}

/// "+" moves one line on and "-" one line back, staying within the lines.
pub proof fn law_step_buttons(v: PlotView)
    requires
        v.valid(),
    ensures
        v.line_index + 1 < v.count() ==> stepped_on(v).line_index == v.line_index + 1,
        v.line_index + 1 == v.count() ==> stepped_on(v).line_index == v.line_index,
        v.line_index > 0 ==> stepped_back(v).line_index == v.line_index - 1,
        v.line_index == 0 ==> stepped_back(v).line_index == 0,
        stepped_on(v).lines == v.lines,
        stepped_back(v).lines == v.lines,
{
}

/// Each drawing of a picture's window leaves it as it is while some line is
/// in the list, and shows the single-line graph otherwise; a camera window
/// always shows the average of every line.
pub proof fn law_prepared(v: PlotView)
    ensures
        v.source == ImageSource::File && v.any_selected() ==> prepared(v) == v,
        v.source == ImageSource::File && !v.any_selected() ==> prepared(v).mode == Mode::Individual
            && prepared(v).lines == v.lines,
        v.source == ImageSource::Camera ==> prepared(v).mode == Mode::Summarized,
        prepared(v).line_index == v.line_index,
        prepared(v).channel == v.channel,
        prepared(v).orientation == v.orientation,
{
}

/// "Sum all graphs" puts exactly the lines of the picture into the list.
pub proof fn law_all_lines(n: nat)
    ensures
        forall|x: u32| #[trigger] all_lines(n).contains(x) <==> x < n,
{
}

/// The slider and index fields keep a value inside their range, and leave
/// a value already inside it unchanged.
pub proof fn law_clamp(v: int, lo: int, hi: int)
    requires
        lo <= hi,
    ensures
        lo <= clamp(v, lo, hi) <= hi,
        lo <= v <= hi ==> clamp(v, lo, hi) == v,
        v < lo ==> clamp(v, lo, hi) == lo,
        v > hi ==> clamp(v, lo, hi) == hi,
{
}

} // verus!
