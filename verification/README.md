# interference_analyzer

Intensity profiles of interference fringes, verified with Verus.

The analyzer scans a picture of horizontal (or vertical) interference fringes
one pixel line at a time and plots, for the chosen colour channel, the
intensity along the line, moved so that its brightest pixel stands at 0.
Several lines can be averaged to locate the fringe centres more precisely.

Layout:

- `src/options.rs` – the settings an analysis is opened with.
- `src/frame.rs` – the RGBA image model and its decoding (through the `image` crate).
- `src/profile.rs` – profiles of one line and summed profiles of several, with
  their specification and laws.
- `src/plot.rs` – the state of an analysis window: the line index, the list of
  lines to average, the averaged profile kept in step with that list.
- `src/picker.rs` – the state of the picture picker and the order of cameras.
- `src/help.rs` – the state of the help window.
- `app/` – the egui application: windows, files, cameras, clipboard, and the
  conversion of profiles to floating point for plotting.
- `tests/` – tests of the library.
