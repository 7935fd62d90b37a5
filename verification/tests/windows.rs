use interference_analyzer::frame::RgbaFrame;
use interference_analyzer::help::{Help, Lang};
use interference_analyzer::options::{CameraState, Channel, ImageSource, PlotInitData, StripeOrientation};
use interference_analyzer::picker::{camera_order, FilePicker};
use interference_analyzer::plot::{Graph, InterferencePlot, Mode};
use interference_analyzer::profile::{get_points, get_sum_points};

/// A frame of `width` by `height` pixels whose red intensity at (x, y) is
/// `x + 10 * y`, and green `3 * x + y`.
fn gradient(width: u32, height: u32) -> RgbaFrame {
    let mut data = Vec::new();
    for y in 0..height {
        for x in 0..width {
            data.push((x + 10 * y) as u8);
            data.push((3 * x + y) as u8);
            data.push(0);
            data.push(255);
        }
    }
    RgbaFrame::new(width, height, data).unwrap()
}

fn init(channel: Channel, path: &str, orientation: StripeOrientation) -> PlotInitData {
    PlotInitData {
        channel,
        path: path.to_string(),
        stripe_orientation: orientation,
        fullscreen_enabled: false,
        camera_state: CameraState::Paused,
    }
}

fn file_plot(width: u32, height: u32) -> InterferencePlot {
    InterferencePlot::new(
        ImageSource::File,
        gradient(width, height),
        init(Channel::Red, "fringes.png", StripeOrientation::Horizontal),
        "12:34:56",
    )
}

#[test]
fn new_plot_names_and_defaults() {
    let p = file_plot(4, 3);
    assert_eq!(p.get_name(), "Analyze (fringes.png, 12:34:56)");
    assert!(p.get_visibility());
    assert_eq!(p.mode(), Mode::Individual);
    assert_eq!(p.line_index(), 0);
    assert_eq!(p.line_number(), 4);
    assert!(p.selected_lines().is_empty());
    let c = InterferencePlot::new(
        ImageSource::Camera,
        gradient(2, 2),
        init(Channel::Green, "Camera", StripeOrientation::Vertical),
        "00:00:00",
    );
    assert_eq!(c.get_name(), "Analyze Camera Frame");
    assert_eq!(c.channel(), Channel::Green);
    assert_eq!(c.line_number(), 2);
}

#[test]
fn line_buttons_stay_on_lines() {
    let mut p = file_plot(3, 2);
    p.decrement_line();
    assert_eq!(p.line_index(), 0);
    p.increment_line();
    p.increment_line();
    assert_eq!(p.line_index(), 2);
    p.increment_line();
    assert_eq!(p.line_index(), 2);
    p.decrement_line();
    assert_eq!(p.line_index(), 1);
    p.set_line_index(40);
    assert_eq!(p.line_index(), 2);
    p.show_line(0);
    assert_eq!(p.line_index(), 0);
}

#[test]
fn add_and_remove_lines() {
    let mut p = file_plot(4, 3);
    p.set_line_index(2);
    p.add_line();
    assert!(p.is_selected(2));
    assert_eq!(p.selected_lines(), vec![2]);
    p.set_line_index(0);
    p.add_line();
    assert_eq!(p.selected_lines(), vec![0, 2]);
    p.set_line_index(2);
    p.remove_line();
    assert_eq!(p.selected_lines(), vec![0]);
    assert!(!p.is_selected(2));
    assert!(!p.is_selected(99));
}

#[test]
fn ranges_and_sum_all() {
    let mut p = file_plot(6, 2);
    p.set_range_start(1);
    p.set_range_end(3);
    p.add_range();
    assert_eq!(p.selected_lines(), vec![1, 2, 3]);
    p.set_range_start(2);
    p.set_range_end(9);
    assert_eq!(p.range_end_index(), 5);
    p.remove_range();
    assert_eq!(p.selected_lines(), vec![1]);
    p.set_range_end(0);
    assert_eq!(p.range_end_index(), 2);
    p.sum_all();
    assert_eq!(p.selected_lines(), vec![0, 1, 2, 3, 4, 5]);
    p.remove_lines(&vec![4, 0, 40]);
    assert_eq!(p.selected_lines(), vec![1, 2, 3, 5]);
}

#[test]
fn empty_range_adds_nothing() {
    let mut p = file_plot(6, 2);
    p.set_range_start(4);
    p.set_range_end(4);
    p.set_range_start(5);
    assert_eq!(p.range_end_index(), 4);
    p.add_range();
    assert!(p.selected_lines().is_empty());
}

#[test]
fn mode_needs_lines() {
    let mut p = file_plot(3, 3);
    p.select_mode(Mode::Summarized);
    assert_eq!(p.mode(), Mode::Individual);
    p.add_line();
    p.select_mode(Mode::Summarized);
    assert_eq!(p.mode(), Mode::Summarized);
    p.remove_line();
    p.prepare_frame();
    assert_eq!(p.mode(), Mode::Individual);
}

#[test]
fn average_follows_the_list_and_channel() {
    let mut p = file_plot(4, 3);
    p.set_line_index(1);
    p.add_line();
    p.set_line_index(3);
    p.add_line();
    let f = p.image();
    let expected = get_sum_points(f, Channel::Red, &[1u32, 3].iter().copied().collect(), StripeOrientation::Horizontal);
    assert_eq!(p.summarized_points().points, expected.points);
    assert_eq!(p.summarized_points().count, 2);
    p.select_channel(Channel::Green);
    let expected = get_sum_points(p.image(), Channel::Green, &[1u32, 3].iter().copied().collect(), StripeOrientation::Horizontal);
    assert_eq!(p.summarized_points().points, expected.points);
    assert_eq!(p.summarized_points().peak_x, expected.peak_x);
}

#[test]
fn graph_shows_line_or_average() {
    let mut p = file_plot(4, 3);
    p.set_line_index(2);
    match p.graph() {
        Graph::Line(points) => {
            assert_eq!(points, get_points(p.image(), Channel::Red, 2, StripeOrientation::Horizontal))
        }
        Graph::Average(_) => panic!("expected a line"),
    }
    p.add_line();
    p.select_mode(Mode::Summarized);
    match p.graph() {
        Graph::Average(s) => assert_eq!(s.count, 1),
        Graph::Line(_) => panic!("expected the average"),
    }
}

#[test]
fn orientation_change_empties_list_and_keeps_index_on_a_line() {
    let mut p = file_plot(5, 2);
    p.set_line_index(4);
    p.add_line();
    p.select_orientation(StripeOrientation::Vertical);
    assert_eq!(p.stripe_orientation(), StripeOrientation::Vertical);
    assert_eq!(p.line_number(), 2);
    assert_eq!(p.line_index(), 1);
    assert!(p.selected_lines().is_empty());
    assert_eq!(p.summarized_points().count, 0);
}

#[test]
fn camera_window_averages_every_line() {
    let mut c = InterferencePlot::new(
        ImageSource::Camera,
        gradient(3, 2),
        init(Channel::Red, "Camera", StripeOrientation::Horizontal),
        "",
    );
    c.prepare_frame();
    assert_eq!(c.mode(), Mode::Summarized);
    assert_eq!(c.selected_lines(), vec![0, 1, 2]);
    assert_eq!(c.summarized_points().count, 3);
}

#[test]
fn closing_plot() {
    let mut p = file_plot(2, 2);
    p.close();
    assert!(!p.get_visibility());
}

#[test]
fn cameras_sorted_by_index_stably() {
    assert_eq!(camera_order(&vec![3, 1, 3, 0]), vec![3, 1, 0, 2]);
    assert_eq!(camera_order(&vec![]), Vec::<usize>::new());
    assert_eq!(camera_order(&vec![2, 2, 2]), vec![0, 1, 2]);
}

#[test]
fn picked_file_opens_analysis() {
    let mut f = FilePicker::new(0, "/tmp".to_string());
    assert_eq!(f.get_name(), "Choose an image");
    assert!(f.take_next_window().is_none());
    f.analyze();
    assert!(f.take_next_window().is_none());
    f.pick_file("a.png".to_string());
    assert!(f.can_analyze());
    f.analyze();
    let (source, data) = f.take_next_window().unwrap();
    assert_eq!(source, ImageSource::File);
    assert_eq!(data, init(Channel::Red, "a.png", StripeOrientation::Horizontal));
    assert!(f.take_next_window().is_none());
}

#[test]
fn camera_frames_open_analysis_with_camera_settings() {
    let mut f = FilePicker::new(2, String::new());
    f.select_source(ImageSource::Camera);
    assert!(!f.can_analyze());
    assert!(f.select_camera(1));
    assert!(!f.select_camera(1));
    assert!(!f.select_camera(2));
    assert_eq!(f.selected_camera(), 1);
    f.select_camera_channel(Channel::Green);
    f.select_camera_orientation(StripeOrientation::Vertical);
    f.set_fullscreen(true);
    assert!(!f.hold_paused_frame());
    f.camera_frame();
    assert!(f.has_frame());
    let (source, data) = f.take_next_window().unwrap();
    assert_eq!(source, ImageSource::Camera);
    assert_eq!(data.path, "Camera");
    assert_eq!(data.channel, Channel::Green);
    assert_eq!(data.stripe_orientation, StripeOrientation::Vertical);
    assert!(data.fullscreen_enabled);
    assert_eq!(data.camera_state, CameraState::Streaming);
    f.pause();
    assert_eq!(f.camera_state(), CameraState::Paused);
    assert!(f.hold_paused_frame());
    let (_, data) = f.take_next_window().unwrap();
    assert_eq!(data.camera_state, CameraState::Paused);
    f.play();
    assert_eq!(f.camera_state(), CameraState::Streaming);
}

#[test]
fn paused_camera_without_frame_opens_nothing() {
    // a file preview is held, no camera ever delivered a frame
    let mut f = FilePicker::new(0, String::new());
    f.pick_file("a.png".to_string());
    f.select_source(ImageSource::Camera);
    f.pause();
    assert!(f.hold_paused_frame());
    assert!(!f.has_frame());
    assert!(f.take_next_window().is_none());
}

#[test]
fn frame_file_names() {
    assert_eq!(FilePicker::frame_file_name("2024-01-02_03-04-05"), "frame_2024-01-02_03-04-05.png");
    let mut f = FilePicker::new(0, "a".to_string());
    f.set_frame_path("/data".to_string());
    assert_eq!(f.frame_path(), "/data");
    f.close();
    assert!(!f.get_visibility());
}

#[test]
fn help_window_language_and_closing() {
    let mut h = Help::new();
    assert!(h.get_visibility());
    assert_eq!(h.lang(), Lang::En);
    h.select_lang(Lang::Sr);
    assert_eq!(h.lang(), Lang::Sr);
    h.close();
    assert!(!h.get_visibility());
    assert_eq!(h.lang(), Lang::Sr);
}
