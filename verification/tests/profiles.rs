use interference_analyzer::frame::{FrameError, RgbaFrame};
use interference_analyzer::options::{Channel, StripeOrientation};
use interference_analyzer::profile::{
    get_points, get_points_horizontal, get_points_vertical, get_sum_points,
    get_sum_points_horizontal, get_sum_points_vertical, Point, SumPoint,
};

/// A frame whose red and green bytes are given per pixel, row after row.
fn frame(width: u32, height: u32, red: &[u8], green: &[u8]) -> RgbaFrame {
    let mut data = Vec::new();
    for i in 0..red.len() {
        data.push(red[i]);
        data.push(green[i]);
        data.push(0);
        data.push(255);
    }
    RgbaFrame::new(width, height, data).unwrap()
}

fn pts(v: &[(i64, u64)]) -> Vec<Point> {
    v.iter().map(|&(x, y)| Point { x, y }).collect()
}

fn set(v: &[u32]) -> std::collections::HashSet<u32> {
    v.iter().copied().collect()
}

fn sums(v: &[(i128, u64)]) -> Vec<SumPoint> {
    v.iter().map(|&(x, y)| SumPoint { x, y }).collect()
}

#[test]
fn frame_rejects_empty_and_short_buffers() {
    assert!(RgbaFrame::new(0, 1, vec![]).is_none());
    assert!(RgbaFrame::new(1, 0, vec![]).is_none());
    assert!(RgbaFrame::new(2, 2, vec![0; 15]).is_none());
    assert!(RgbaFrame::new(2, 2, vec![0; 17]).is_none());
    let f = RgbaFrame::new(2, 3, vec![7; 24]).unwrap();
    assert_eq!(f.width(), 2);
    assert_eq!(f.height(), 3);
    assert_eq!(f.data().len(), 24);
}

#[test]
fn frame_reads_channel_intensities() {
    // 2 x 2: red 1 2 / 3 4, green 5 6 / 7 8
    let f = frame(2, 2, &[1, 2, 3, 4], &[5, 6, 7, 8]);
    assert_eq!(f.intensity(0, 0, Channel::Red), 1);
    assert_eq!(f.intensity(1, 0, Channel::Red), 2);
    assert_eq!(f.intensity(0, 1, Channel::Red), 3);
    assert_eq!(f.intensity(1, 1, Channel::Green), 8);
}

#[test]
fn decode_png_bytes() {
    let mut img = image::RgbaImage::new(3, 2);
    img.put_pixel(2, 1, image::Rgba([200, 100, 50, 255]));
    let mut bytes: Vec<u8> = Vec::new();
    img.write_to(&mut std::io::Cursor::new(&mut bytes), image::ImageFormat::Png).unwrap();
    let f = RgbaFrame::decode(&bytes, "picture.png").unwrap();
    assert_eq!(f.width(), 3);
    assert_eq!(f.height(), 2);
    assert_eq!(f.intensity(2, 1, Channel::Red), 200);
    assert_eq!(f.intensity(2, 1, Channel::Green), 100);
    assert_eq!(f.intensity(0, 0, Channel::Red), 0);
}

#[test]
fn decode_failures() {
    assert_eq!(RgbaFrame::decode(&[1, 2, 3, 4], "picture.png").err(), Some(FrameError::Undecodable));
    // The format comes from the extension: none, or an unknown one, fails.
    let mut img = image::RgbaImage::new(1, 1);
    img.put_pixel(0, 0, image::Rgba([1, 2, 3, 4]));
    let mut bytes: Vec<u8> = Vec::new();
    img.write_to(&mut std::io::Cursor::new(&mut bytes), image::ImageFormat::Png).unwrap();
    assert_eq!(RgbaFrame::decode(&bytes, "picture").err(), Some(FrameError::Undecodable));
    assert_eq!(RgbaFrame::decode(&bytes, "picture.txt").err(), Some(FrameError::Undecodable));
    assert!(RgbaFrame::decode(&bytes, "PICTURE.PNG").is_ok());
}

#[test]
fn column_profile_is_centred_on_brightest_pixel() {
    // one column of 4 pixels, red 10 30 20 30: the first 30 is the peak
    let f = frame(1, 4, &[10, 30, 20, 30], &[0, 0, 0, 0]);
    let p = get_points_horizontal(&f, Channel::Red, 0);
    assert_eq!(p, pts(&[(-1, 10), (0, 30), (1, 20), (2, 30)]));
}

#[test]
fn dark_line_is_not_moved() {
    let f = frame(1, 3, &[0, 0, 0], &[0, 0, 0]);
    let p = get_points_horizontal(&f, Channel::Red, 0);
    assert_eq!(p, pts(&[(0, 0), (1, 0), (2, 0)]));
}

#[test]
fn row_profile_reads_the_chosen_channel() {
    // 3 x 2, green of row 1 is 4 9 1
    let f = frame(3, 2, &[9, 9, 9, 0, 0, 0], &[0, 0, 0, 4, 9, 1]);
    let p = get_points_vertical(&f, Channel::Green, 1);
    assert_eq!(p, pts(&[(-1, 4), (0, 9), (1, 1)]));
    let q = get_points(&f, Channel::Green, 1, StripeOrientation::Vertical);
    assert_eq!(p, q);
    let r = get_points(&f, Channel::Red, 0, StripeOrientation::Vertical);
    assert_eq!(r, pts(&[(0, 9), (1, 9), (2, 9)]));
}

#[test]
fn summed_profile_of_two_columns() {
    // 2 x 3; column 0 red 1 5 2 (peak 1), column 1 red 4 0 0 (peak 0)
    let f = frame(2, 3, &[1, 4, 5, 0, 2, 0], &[0; 6]);
    let s = get_sum_points_horizontal(&f, Channel::Red, &set(&[0, 1]));
    assert_eq!(s.count, 2);
    // abscissae: column 0 gives -1 0 1, column 1 gives 0 1 2
    assert_eq!(s.points, sums(&[(-1, 5), (1, 5), (3, 2)]));
    // the averaged peak is the first greatest sum: position 0
    assert_eq!(s.peak_x, -1);
}

#[test]
fn summed_profile_of_no_line_is_empty() {
    let f = frame(2, 3, &[1, 4, 5, 0, 2, 0], &[0; 6]);
    let s = get_sum_points(&f, Channel::Red, &set(&[]), StripeOrientation::Horizontal);
    assert_eq!(s.count, 0);
    assert!(s.points.is_empty());
    assert_eq!(s.peak_x, 0);
}

#[test]
fn summed_profile_of_rows() {
    // 3 x 2; rows of green: 0 3 0 / 2 2 1
    let f = frame(3, 2, &[0; 6], &[0, 3, 0, 2, 2, 1]);
    let s = get_sum_points_vertical(&f, Channel::Green, &set(&[0, 1]));
    assert_eq!(s.count, 2);
    // row 0 peak 1: -1 0 1; row 1 peak 0: 0 1 2
    assert_eq!(s.points, sums(&[(-1, 2), (1, 5), (3, 1)]));
    assert_eq!(s.peak_x, 1);
}

#[test]
fn summed_dark_lines_are_not_moved() {
    let f = frame(2, 2, &[0; 4], &[0; 4]);
    let s = get_sum_points(&f, Channel::Red, &set(&[0, 1]), StripeOrientation::Horizontal);
    assert_eq!(s.count, 2);
    assert_eq!(s.points, sums(&[(0, 0), (2, 0)]));
    assert_eq!(s.peak_x, 0);
}

#[test]
fn average_of_one_line_is_its_profile() {
    let f = frame(3, 2, &[5, 1, 7, 3, 9, 2], &[0; 6]);
    for line in 0..3u32 {
        let s = get_sum_points(&f, Channel::Red, &set(&[line]), StripeOrientation::Horizontal);
        let p = get_points(&f, Channel::Red, line, StripeOrientation::Horizontal);
        assert_eq!(s.count, 1);
        assert_eq!(s.peak_x, 0);
        let as_points: Vec<Point> = s.points.iter().map(|q| Point { x: q.x as i64, y: q.y }).collect();
        assert_eq!(as_points, p);
    }
}

#[test]
fn averaged_points_stand_one_sample_apart() {
    let f = frame(3, 4, &[1, 2, 3, 9, 0, 1, 2, 8, 0, 0, 1, 9], &[0; 12]);
    let s = get_sum_points(&f, Channel::Red, &set(&[0, 2]), StripeOrientation::Horizontal);
    let n = s.count as i128;
    let ys: Vec<u64> = s.points.iter().map(|p| p.y).collect();
    let top = *ys.iter().max().unwrap();
    let peak = ys.iter().position(|&y| y == top).unwrap() as i128;
    for (i, p) in s.points.iter().enumerate() {
        assert_eq!(p.x - s.peak_x, n * (i as i128 - peak));
    }
}

#[test]
fn get_points_dispatches_by_orientation() {
    let f = frame(3, 2, &[4, 9, 1, 7, 2, 8], &[0; 6]);
    for x in 0..3u32 {
        assert_eq!(get_points(&f, Channel::Red, x, StripeOrientation::Horizontal), get_points_horizontal(&f, Channel::Red, x));
    }
    for y in 0..2u32 {
        assert_eq!(get_points(&f, Channel::Red, y, StripeOrientation::Vertical), get_points_vertical(&f, Channel::Red, y));
    }
}

#[test]
fn frame_copy_keeps_the_pixels() {
    let f = frame(2, 1, &[3, 4], &[5, 6]);
    let g = f.copy();
    assert_eq!(g.width(), 2);
    assert_eq!(g.height(), 1);
    assert_eq!(g.data(), f.data());
}
