use vstd::prelude::*;

verus! {

/// The colour channel whose intensity is read from each pixel.
#[derive(Debug, Copy, Clone, PartialEq, Eq, Structural, PartialOrd)]
pub enum Channel {
    Red,
    Green,
}

/// How the interference fringes run across the image.
///
/// With horizontal fringes every pixel column is one line to analyse;
/// with vertical fringes every pixel row is.
#[derive(Debug, Copy, Clone, PartialEq, Eq, Structural, PartialOrd)]
pub enum StripeOrientation {
    Horizontal,
    Vertical,
}

/// Where the analysed image comes from.
#[derive(Debug, Copy, Clone, PartialEq, Eq, Structural, PartialOrd, Ord)]
pub enum ImageSource {
    File,
    Camera,
}

/// Whether the camera preview follows the live stream or holds a frame.
#[derive(Debug, Copy, Clone, PartialEq, Eq, Structural, PartialOrd, Ord)]
pub enum CameraState {
    Streaming,
    Paused,
}

/// What an analysis window is opened with.
#[derive(Debug, Clone, PartialEq, PartialOrd)]
pub struct PlotInitData {
    pub channel: Channel,
    pub path: String,
    pub stripe_orientation: StripeOrientation,
    pub fullscreen_enabled: bool,
    pub camera_state: CameraState,
}

/// Offset of a channel inside an RGBA pixel.
pub open spec fn channel_offset(channel: Channel) -> int {
    match channel {
        Channel::Red => 0,
        Channel::Green => 1,
    }
}

} // verus!
