use vstd::prelude::*;

use crate::options::{CameraState, Channel, ImageSource, PlotInitData, StripeOrientation};

verus! {

// ---------------------------------------------------------------------------
// Camera order
// ---------------------------------------------------------------------------

/// `order` lists every position of `keys` once, by increasing key, and
/// positions with equal keys in their first order.
pub open spec fn is_stable_order(keys: Seq<u32>, order: Seq<usize>) -> bool {
    &&& order.len() == keys.len()
    &&& forall|a: int| 0 <= a < order.len() ==> #[trigger] order[a] < keys.len()
    &&& forall|a: int, b: int| 0 <= a < b < order.len() ==> order[a] != order[b]
    &&& forall|a: int, b: int|
        0 <= a < b < order.len() ==> keys[#[trigger] order[a] as int] <= keys[#[trigger] order[b] as int]
    &&& forall|a: int, b: int|
        0 <= a < b < order.len() && keys[order[a] as int] == keys[order[b] as int] ==> order[a] < order[b]
}

/// The order in which the cameras are offered: by increasing camera index,
/// cameras with equal indices in the order in which they were found.
pub fn camera_order(indices: &Vec<u32>) -> (order: Vec<usize>)
    ensures
        is_stable_order(indices@, order@),
        order@.len() == indices@.len(),
        forall|i: usize| i < indices@.len() ==> #[trigger] order@.contains(i),
        forall|a: int, b: int|
            0 <= a < b < order@.len() ==> indices@[#[trigger] order@[a] as int]
                <= indices@[#[trigger] order@[b] as int],
        forall|a: int, b: int|
            0 <= a < b < order@.len() && indices@[order@[a] as int] == indices@[order@[b] as int]
                ==> order@[a] < order@[b],
{
    let n = indices.len();
    let mut order: Vec<usize> = Vec::new();
    for k in 0..n
        invariant
            n == indices@.len(),
            order@.len() == k,
            forall|i: usize| i < k ==> #[trigger] order@.contains(i),
            forall|a: int| 0 <= a < order@.len() ==> #[trigger] order@[a] < k,
            forall|a: int, b: int| 0 <= a < b < order@.len() ==> order@[a] != order@[b],
            forall|a: int, b: int|
                0 <= a < b < order@.len() ==> indices@[#[trigger] order@[a] as int]
                    <= indices@[#[trigger] order@[b] as int],
            forall|a: int, b: int|
                0 <= a < b < order@.len() && indices@[order@[a] as int] == indices@[order@[b] as int]
                    ==> order@[a] < order@[b],
    {
        let key = indices[k];
        let mut pos: usize = 0;
        while pos < order.len() && indices[order[pos]] <= key
            invariant
                n == indices@.len(),
                order@.len() == k,
                k < n,
                key == indices@[k as int],
                pos <= order@.len(),
                forall|a: int| 0 <= a < order@.len() ==> #[trigger] order@[a] < k,
                forall|a: int| 0 <= a < pos ==> indices@[#[trigger] order@[a] as int] <= key,
            decreases order@.len() - pos,
        {
            pos = pos + 1;
        }
        let ghost before = order@;
        proof {
            assert forall|a: int| pos <= a < before.len() implies key < indices@[#[trigger] before[a] as int] by {
                assert(key < indices@[before[pos as int] as int]);
                if a > pos {
                    assert(indices@[before[pos as int] as int] <= indices@[before[a] as int]);
                }
            }
        }
        order.insert(pos, k);
        proof {
            assert forall|a: int| 0 <= a < order@.len() implies #[trigger] order@[a] == if a < pos {
                before[a]
            } else if a == pos {
                k
            } else {
                before[a - 1]
            } by {}
            assert forall|i: usize| i < k + 1 implies #[trigger] order@.contains(i) by {
                if i == k {
                    assert(order@[pos as int] == i);
                } else {
                    assert(before.contains(i));
                    let w = choose|w: int| 0 <= w < before.len() && before[w] == i;
                    if w < pos {
                        assert(order@[w] == i);
                    } else {
                        assert(order@[w + 1] == i);
                    }
                }
            }
        }
    }
    order
}

// ---------------------------------------------------------------------------
// The picker
// ---------------------------------------------------------------------------

/// The state of the picker window, as plain values.
pub struct PickerView {
    pub picked_path: Option<Seq<char>>,
    /// A preview of the picked file is loaded.
    pub has_preview: bool,
    /// Some picture (the picked file's or a camera frame) is held for display.
    pub has_texture: bool,
    /// A camera frame is held for analysis.
    pub has_frame: bool,
    pub show: bool,
    pub next_window: bool,
    pub image_source: ImageSource,
    pub camera_count: nat,
    pub selected_camera: nat,
    pub camera_channel: Channel,
    pub camera_stripe_orientation: StripeOrientation,
    pub camera_state: CameraState,
    pub frame_path: Seq<char>,
    pub fullscreen_enabled: bool,
}

/// The window that picks the picture to analyse, from a file or a camera.
pub struct FilePicker {
    picked_path: Option<String>,
    has_preview: bool,
    has_texture: bool,
    has_frame: bool,
    show: bool,
    next_window: bool,
    image_source: ImageSource,
    camera_count: usize,
    selected_camera: usize,
    camera_channel: Channel,
    camera_stripe_orientation: StripeOrientation,
    camera_state: CameraState,
    frame_path: String,
    fullscreen_enabled: bool,
}

pub open spec fn path_view(p: Option<String>) -> Option<Seq<char>> {
    match p {
        Some(s) => Some(s@),
        None => None,
    }
}

impl View for FilePicker {
    type V = PickerView;

    closed spec fn view(&self) -> PickerView {
        PickerView {
            picked_path: path_view(self.picked_path),
            has_preview: self.has_preview,
            has_texture: self.has_texture,
            has_frame: self.has_frame,
            show: self.show,
            next_window: self.next_window,
            image_source: self.image_source,
            camera_count: self.camera_count as nat,
            selected_camera: self.selected_camera as nat,
            camera_channel: self.camera_channel,
            camera_stripe_orientation: self.camera_stripe_orientation,
            camera_state: self.camera_state,
            frame_path: self.frame_path@,
            fullscreen_enabled: self.fullscreen_enabled,
        }
    }
}

/// What the analysis window that a picker state opens is opened with: a
/// picked file opens in red with horizontal fringes; a held camera frame
/// opens with the camera settings. Without a picked file, or without a
/// camera frame, no window is opened.
pub open spec fn plot_request(v: PickerView) -> Option<(ImageSource, Seq<char>, Channel, StripeOrientation, bool, CameraState)> {
    if !v.next_window {
        None
    } else {
        match v.image_source {
            ImageSource::File => match v.picked_path {
                Some(p) => Some(
                    (
                        ImageSource::File,
                        p,
                        Channel::Red,
                        StripeOrientation::Horizontal,
                        false,
                        CameraState::Paused,
                    ),
                ),
                None => None,
            },
            ImageSource::Camera => if v.has_frame {
                Some(
                    (
                        ImageSource::Camera,
                        "Camera"@,
                        v.camera_channel,
                        v.camera_stripe_orientation,
                        v.fullscreen_enabled,
                        v.camera_state,
                    ),
                )
            } else {
                None
            },
        }
    }
}

/// The state after choosing camera `index` from the list: only a listed
/// camera can be chosen.
pub open spec fn camera_chosen(v: PickerView, index: nat) -> PickerView {
    if index < v.camera_count {
        PickerView { selected_camera: index, ..v }
    } else {
        v
    }
}

/// The state after the "Pause" button.
pub open spec fn paused(v: PickerView) -> PickerView {
    PickerView { camera_state: CameraState::Paused, ..v }
}

/// The state after the "Play" button.
pub open spec fn resumed(v: PickerView) -> PickerView {
    PickerView { camera_state: CameraState::Streaming, ..v }
}

/// The state after picking the file `path` and loading its preview.
pub open spec fn picked(v: PickerView, path: Seq<char>) -> PickerView {
    PickerView { picked_path: Some(path), has_preview: true, has_texture: true, ..v }
}

/// The state after the "Analyze..." button.
pub open spec fn analyzed(v: PickerView) -> PickerView {
    PickerView {
        next_window: v.next_window || (v.image_source == ImageSource::File && v.picked_path is Some
            && v.has_preview),
        ..v
    }
}

/// The state once the pending request for an analysis window is taken.
pub open spec fn consumed(v: PickerView) -> PickerView {
    PickerView { next_window: false, ..v }
}

pub open spec fn request_view(r: Option<(ImageSource, PlotInitData)>) -> Option<(ImageSource, Seq<char>, Channel, StripeOrientation, bool, CameraState)> {
    match r {
        Some((s, d)) => Some(
            (s, d.path@, d.channel, d.stripe_orientation, d.fullscreen_enabled, d.camera_state),
        ),
        None => None,
    }
}

impl FilePicker {
    /// A picker that offers `camera_count` cameras, the first one selected,
    /// and saves camera frames under `frame_path`.
    pub fn new(camera_count: usize, frame_path: String) -> (p: FilePicker)
        ensures
            p@ == (PickerView {
                picked_path: None,
                has_preview: false,
                has_texture: false,
                has_frame: false,
                show: true,
                next_window: false,
                image_source: ImageSource::File,
                camera_count: camera_count as nat,
                selected_camera: 0,
                camera_channel: Channel::Red,
                camera_stripe_orientation: StripeOrientation::Horizontal,
                camera_state: CameraState::Streaming,
                frame_path: frame_path@,
                fullscreen_enabled: false,
            }),
    {
        FilePicker {
            picked_path: None,
            has_preview: false,
            has_texture: false,
            has_frame: false,
            show: true,
            next_window: false,
            image_source: ImageSource::File,
            camera_count,
            selected_camera: 0,
            camera_channel: Channel::Red,
            camera_stripe_orientation: StripeOrientation::Horizontal,
            camera_state: CameraState::Streaming,
            frame_path,
            fullscreen_enabled: false,
        }
    }

    /// Chooses where the picture comes from.
    pub fn select_source(&mut self, source: ImageSource)
        ensures
            final(self)@ == (PickerView { image_source: source, ..old(self)@ }),
    {
        self.image_source = source;
    }

    /// Chooses a listed camera; true when the choice changed, and the camera
    /// must be opened anew. An index past the list changes nothing.
    pub fn select_camera(&mut self, index: usize) -> (changed: bool)
        ensures
            changed == (index < old(self)@.camera_count && index != old(self)@.selected_camera),
            final(self)@ == camera_chosen(old(self)@, index as nat),
    {
        if index < self.camera_count && index != self.selected_camera {
            self.selected_camera = index;
            true
        } else {
            false
        }
    }

    pub fn select_camera_channel(&mut self, channel: Channel)
        ensures
            final(self)@ == (PickerView { camera_channel: channel, ..old(self)@ }),
    {
        self.camera_channel = channel;
    }

    pub fn select_camera_orientation(&mut self, orientation: StripeOrientation)
        ensures
            final(self)@ == (PickerView { camera_stripe_orientation: orientation, ..old(self)@ }),
    {
        self.camera_stripe_orientation = orientation;
    }

    pub fn set_fullscreen(&mut self, enabled: bool)
        ensures
            final(self)@ == (PickerView { fullscreen_enabled: enabled, ..old(self)@ }),
    {
        self.fullscreen_enabled = enabled;
    }

    /// The "Pause" button: a streaming camera holds its frame.
    pub fn pause(&mut self)
        ensures
            final(self)@ == paused(old(self)@),
    {
        self.camera_state = CameraState::Paused;
    }

    /// The "Play" button: a paused camera streams again.
    pub fn play(&mut self)
        ensures
            final(self)@ == resumed(old(self)@),
    {
        self.camera_state = CameraState::Streaming;
    }

    /// A file was picked and its preview loaded.
    pub fn pick_file(&mut self, path: String)
        ensures
            final(self)@ == picked(old(self)@, path@),
    {
        self.picked_path = Some(path);
        self.has_preview = true;
        self.has_texture = true;
    }

    /// Whether the "Analyze..." button is offered: a file is picked and
    /// its preview loaded.
    pub fn can_analyze(&self) -> (b: bool)
        ensures
            b == (self@.image_source == ImageSource::File && self@.picked_path is Some && self@.has_preview),
    {
        match self.image_source {
            ImageSource::File => self.picked_path.is_some() && self.has_preview,
            ImageSource::Camera => false,
        }
    }

    /// The "Analyze..." button: opens the analysis of the picked file.
    pub fn analyze(&mut self)
        ensures
            final(self)@ == analyzed(old(self)@),
    {
        if self.can_analyze() {
            self.next_window = true;
        }
    }

    /// A streaming camera delivered a frame: it is held and analysed.
    pub fn camera_frame(&mut self)
        ensures
            final(self)@ == (PickerView {
                has_texture: true,
                has_frame: true,
                next_window: true,
                ..old(self)@
            }),
    {
        self.has_texture = true;
        self.has_frame = true;
        self.next_window = true;
    }

    /// A paused camera that holds a picture keeps analysing it; true when
    /// there is such a picture to show.
    pub fn hold_paused_frame(&mut self) -> (held: bool)
        ensures
            held == (old(self)@.image_source == ImageSource::Camera && old(self)@.camera_state
                == CameraState::Paused && old(self)@.has_texture),
            final(self)@ == (PickerView { next_window: old(self)@.next_window || held, ..old(self)@ }),
    {
        let held = match (self.image_source, self.camera_state) {
            (ImageSource::Camera, CameraState::Paused) => self.has_texture,
            _ => false,
        };
        if held {
            self.next_window = true;
        }
        held
    }

    /// "Set destination path": camera frames are saved under `path`.
    pub fn set_frame_path(&mut self, path: String)
        ensures
            final(self)@ == (PickerView { frame_path: path@, ..old(self)@ }),
    {
        self.frame_path = path;
    }

    /// The name under which a camera frame taken at `stamp` is saved.
    pub fn frame_file_name(stamp: &str) -> (name: String)
        ensures
            name@ == "frame_"@ + stamp@ + ".png"@,
    {
        let name = String::from_str("frame_");
        let name = name.concat(stamp);
        name.concat(".png")
    }

    /// At the end of each drawing of the picker: the analysis window to
    /// open, if one was asked for. The request is consumed.
    pub fn take_next_window(&mut self) -> (req: Option<(ImageSource, PlotInitData)>)
        ensures
            request_view(req) == plot_request(old(self)@),
            final(self)@ == consumed(old(self)@),
    {
        if !self.next_window {
            return None;
        }
        self.next_window = false;
        match self.image_source {
            ImageSource::File => match &self.picked_path {
                Some(path) => Some(
                    (
                        ImageSource::File,
                        PlotInitData {
                            channel: Channel::Red,
                            path: path.clone(),
                            stripe_orientation: StripeOrientation::Horizontal,
                            fullscreen_enabled: false,
                            camera_state: CameraState::Paused,
                        },
                    ),
                ),
                None => None,
            },
            ImageSource::Camera => if self.has_frame {
                Some(
                    (
                        ImageSource::Camera,
                        PlotInitData {
                            channel: self.camera_channel,
                            path: String::from_str("Camera"),
                            stripe_orientation: self.camera_stripe_orientation,
                            fullscreen_enabled: self.fullscreen_enabled,
                            camera_state: self.camera_state,
                        },
                    ),
                )
            } else {
                None
            },
        }
    }

    pub fn get_visibility(&self) -> (b: bool)
        ensures
            b == self@.show,
    {
        self.show
    }

    /// Closes the window.
    pub fn close(&mut self)
        ensures
            final(self)@ == (PickerView { show: false, ..old(self)@ }),
    {
        self.show = false;
    }

    pub fn get_name(&self) -> (name: &'static str)
        ensures
            name@ == "Choose an image"@,
    {
        "Choose an image"
    }

    pub fn picked_path(&self) -> (p: Option<&String>)
        ensures
            match p {
                Some(s) => self@.picked_path == Some(s@),
                None => self@.picked_path is None,
            },
    {
        self.picked_path.as_ref()
    }

    pub fn image_source(&self) -> (s: ImageSource)
        ensures
            s == self@.image_source,
    {
        self.image_source
    }

    pub fn selected_camera(&self) -> (i: usize)
        ensures
            i == self@.selected_camera,
    {
        self.selected_camera
    }

    pub fn camera_count(&self) -> (n: usize)
        ensures
            n == self@.camera_count,
    {
        self.camera_count
    }

    pub fn camera_channel(&self) -> (c: Channel)
        ensures
            c == self@.camera_channel,
    {
        self.camera_channel
    }

    pub fn camera_stripe_orientation(&self) -> (o: StripeOrientation)
        ensures
            o == self@.camera_stripe_orientation,
    {
        self.camera_stripe_orientation
    }

    pub fn camera_state(&self) -> (s: CameraState)
        ensures
            s == self@.camera_state,
    {
        self.camera_state
    }

    pub fn fullscreen_enabled(&self) -> (b: bool)
        ensures
            b == self@.fullscreen_enabled,
    {
        self.fullscreen_enabled
    }

    pub fn frame_path(&self) -> (p: &String)
        ensures
            p@ == self@.frame_path,
    {
        &self.frame_path
    }

    pub fn has_frame(&self) -> (b: bool)
        ensures
            b == self@.has_frame,
    {
        self.has_frame
    }

    pub fn has_preview(&self) -> (b: bool)
        ensures
            b == self@.has_preview,
    {
        self.has_preview
    }
}

// ---------------------------------------------------------------------------
// Laws of the picker
// ---------------------------------------------------------------------------

/// "Play" undoes "Pause".
pub proof fn law_play_undoes_pause(v: PickerView)
    requires
        v.camera_state == CameraState::Streaming,
    ensures
        resumed(paused(v)) == v,
{
}

/// A request for an analysis window is answered once: once taken, no
/// window is asked for until the next request.
pub proof fn law_request_answered_once(v: PickerView)
    ensures
        plot_request(consumed(v)) is None,
{
}

/// Picking a file and pressing "Analyze..." opens the analysis of that
/// file, in red, for horizontal fringes.
pub proof fn law_analyze_picked_file(v: PickerView, path: Seq<char>)
    requires
        v.image_source == ImageSource::File,
    ensures
        plot_request(analyzed(picked(v, path))) == Some(
            (
                ImageSource::File,
                path,
                Channel::Red,
                StripeOrientation::Horizontal,
                false,
                CameraState::Paused,
            ),
        ),
{
}

/// A held camera frame opens an analysis window with the camera's settings.
pub proof fn law_camera_frame_request(v: PickerView)
    requires
        v.image_source == ImageSource::Camera,
        v.next_window,
        v.has_frame,
    ensures
        plot_request(v) == Some(
            (
                ImageSource::Camera,
                "Camera"@,
                v.camera_channel,
                v.camera_stripe_orientation,
                v.fullscreen_enabled,
                v.camera_state,
            ),
        ),
{
}

/// No camera analysis is asked for without a camera frame to analyse.
pub proof fn law_camera_request_needs_frame(v: PickerView)
    ensures
        plot_request(v) matches Some((source, _, _, _, _, _)) && source == ImageSource::Camera
            ==> v.has_frame,
{
}

/// The selected camera is always a listed one, or the first.
pub proof fn law_selection_stays_listed(v: PickerView, index: nat)
    requires
        v.selected_camera == 0 || v.selected_camera < v.camera_count,
    ensures
        camera_chosen(v, index).selected_camera == 0 || camera_chosen(v, index).selected_camera
            < camera_chosen(v, index).camera_count,
        camera_chosen(v, index).camera_count == v.camera_count,
{
}

/// "Pause" holds the camera, "Play" lets it stream; nothing else changes.
pub proof fn law_pause_and_play(v: PickerView)
    ensures
        paused(v).camera_state == CameraState::Paused,
        resumed(v).camera_state == CameraState::Streaming,
        (PickerView { camera_state: v.camera_state, ..paused(v) }) == v,
        (PickerView { camera_state: v.camera_state, ..resumed(v) }) == v,
{
}

} // verus!
