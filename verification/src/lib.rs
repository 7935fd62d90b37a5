//! Intensity profiles of interference fringes.
//!
//! The library holds what the analyzer computes and decides: the image model
//! and its decoding, the intensity profile of one pixel line, the averaged
//! profile of several lines, and the state of the image picker, the analysis
//! window and the help window. Drawing, files, cameras and the clipboard stay
//! with the application around it.

pub mod options;
pub mod frame;
pub mod profile;
pub mod plot;
pub mod picker;
pub mod help;
