use termviz::config::{color_red, color_white, default_int, default_map_threshold, Color};
use termviz::grid::{occupied_cells, GridCell};
use termviz::image::{rotated, stretch_mono16, ImageEncoding};
use termviz::pointcloud::{colorize_from_rgb, field_positions, get_channel_offset, PointField};
use termviz::rosout::{log_level, LogBuffer, LogLevel};

#[test]
fn config_defaults() {
    assert_eq!(default_int(), 0);
    assert_eq!(default_map_threshold(), 1);
    assert_eq!(color_white(), Color { r: 255, g: 255, b: 255 });
    assert_eq!(color_red(), Color { r: 255, g: 0, b: 0 });
}

#[test]
fn image_encodings() {
    assert_eq!(ImageEncoding::from_name("mono8"), Some(ImageEncoding::Mono8));
    assert_eq!(ImageEncoding::from_name("8UC3"), Some(ImageEncoding::Rgb8));
    assert_eq!(ImageEncoding::from_name("16UC1"), Some(ImageEncoding::Mono16));
    assert_eq!(ImageEncoding::from_name("32FC1"), Some(ImageEncoding::Float32));
    assert_eq!(ImageEncoding::from_name("bgr8"), None);
}

#[test]
fn mono16_is_stretched_between_its_extremes() {
    // little-endian values 0x0100, 0x0200, 0x0300 and 0x0180; a trailing odd byte is ignored
    let data = vec![0x00, 0x01, 0x00, 0x02, 0x00, 0x03, 0x80, 0x01, 0x07];
    assert_eq!(stretch_mono16(&data), vec![0, 127, 255, 63]);
}

#[test]
fn flat_mono16_frame_is_black() {
    assert_eq!(stretch_mono16(&vec![5, 5, 5, 5]), vec![0, 0]);
    assert!(stretch_mono16(&vec![]).is_empty());
}

#[test]
fn rotation_wraps_around() {
    assert_eq!(rotated(0, 90), 90);
    assert_eq!(rotated(270, 90), 0);
    assert_eq!(rotated(0, -90), 270);
    assert_eq!(rotated(180, 90), 270);
}

fn field(name: &str, offset: u32) -> PointField {
    PointField { name: name.to_string(), offset }
}

#[test]
fn channels_are_found_by_name() {
    let fields = vec![field("x", 0), field("y", 4), field("z", 8), field("y", 20)];
    assert_eq!(get_channel_offset("y", &fields), Some(4));
    assert_eq!(get_channel_offset("z", &fields), Some(8));
    assert_eq!(get_channel_offset("rgb", &fields), None);
}

#[test]
fn field_positions_follow_the_record_step() {
    assert_eq!(field_positions(3, 16, 4, 4, 40), Some(vec![4, 20, 36]));
    assert_eq!(field_positions(3, 16, 4, 4, 39), None);
    assert_eq!(field_positions(0, 16, 4, 4, 0), Some(vec![]));
}

#[test]
fn packed_rgb_is_read_blue_first() {
    let data = vec![0, 10, 20, 30, 0, 40, 50, 60];
    let colors = colorize_from_rgb(&data, 2, 4, 1).unwrap();
    assert_eq!(colors, vec![Color { r: 30, g: 20, b: 10 }, Color { r: 60, g: 50, b: 40 }]);
    assert_eq!(colorize_from_rgb(&data, 3, 4, 1), None);
}

#[test]
fn occupied_cells_by_threshold() {
    let data: Vec<i8> = vec![0, 100, -1, 50, 0, 100];
    let cells = occupied_cells(&data, 3, 50);
    assert_eq!(
        cells,
        vec![
            GridCell { column: 1, row: 0 },
            GridCell { column: 0, row: 1 },
            GridCell { column: 2, row: 1 }
        ]
    );
    assert!(occupied_cells(&data, 0, 50).is_empty());
}

#[test]
fn free_and_unknown_cells_are_never_drawn() {
    let data: Vec<i8> = vec![-1, 0, 1, -128, 100];
    assert_eq!(
        occupied_cells(&data, 5, -1),
        vec![GridCell { column: 2, row: 0 }, GridCell { column: 4, row: 0 }]
    );
    assert_eq!(occupied_cells(&vec![-1], 1, -1), vec![]);
}

#[test]
fn log_buffer_keeps_the_newest_lines() {
    let mut b = LogBuffer::new(2, true);
    b.push_logstring("one".to_string());
    b.push_logstring("two".to_string());
    b.push_logstring("three".to_string());
    assert_eq!(b.read_logstrings(), vec!["two".to_string(), "three".to_string()]);
    assert!(b.is_buffering());
    b.toggle_buffering();
    assert!(!b.is_buffering());
}

#[test]
fn log_buffer_without_room_keeps_nothing() {
    let mut b = LogBuffer::new(0, true);
    b.push_logstring("one".to_string());
    assert!(b.read_logstrings().is_empty());
}

#[test]
fn log_levels() {
    assert_eq!(log_level(4, 2), Some(LogLevel::Warn));
    assert_eq!(log_level(1, 2), None);
    assert_eq!(log_level(3, 0), None);
    assert_eq!(LogLevel::Fatal.label(), "FATAL");
}
