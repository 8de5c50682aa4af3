use termviz::geometry::{
    arrow_segments, axes_segments, box_segments, closed_edges, paired_segments, pose_style, resolve_footprint,
    strip_segments, strips_segments, PoseSource, PoseStyle,
};

fn ends(s: &termviz::geometry::Segment<(i32, i32), u8>) -> ((i32, i32), (i32, i32), u8) {
    (s.start, s.end, s.color)
}

#[test]
fn closed_polygon_has_one_edge_per_vertex() {
    let pts = vec![(0, 0), (1, 0), (1, 1), (0, 1)];
    let edges = closed_edges(&pts, 7u8);
    assert_eq!(edges.len(), 4);
    for i in 0..4 {
        assert_eq!(edges[i].end, edges[(i + 1) % 4].start);
    }
    assert_eq!(ends(&edges[3]), ((0, 1), (0, 0), 7));
}

#[test]
fn two_point_polygon_goes_there_and_back() {
    let edges = closed_edges(&vec![(0, 0), (2, 0)], 1u8);
    assert_eq!(edges.len(), 2);
    assert_eq!(ends(&edges[0]), ((0, 0), (2, 0), 1));
    assert_eq!(ends(&edges[1]), ((2, 0), (0, 0), 1));
}

#[test]
fn degenerate_polygons_have_no_edges() {
    assert!(closed_edges(&Vec::<(i32, i32)>::new(), 0u8).is_empty());
    assert!(closed_edges(&vec![(3, 3)], 0u8).is_empty());
}

#[test]
fn strip_joins_consecutive_points() {
    let segs = strip_segments(&vec![(0, 0), (1, 0), (1, 1)], 2u8);
    assert_eq!(segs.len(), 2);
    assert_eq!(ends(&segs[0]), ((0, 0), (1, 0), 2));
    assert_eq!(ends(&segs[1]), ((1, 0), (1, 1), 2));
    assert!(strip_segments(&vec![(5, 5)], 2u8).is_empty());
}

#[test]
fn strips_are_concatenated_in_order() {
    let strips = vec![vec![(0, 0), (1, 0)], vec![(9, 9)], vec![(2, 2), (3, 3), (4, 4)]];
    let segs = strips_segments(&strips, 3u8);
    assert_eq!(segs.len(), 3);
    assert_eq!(ends(&segs[0]), ((0, 0), (1, 0), 3));
    assert_eq!(ends(&segs[1]), ((2, 2), (3, 3), 3));
    assert_eq!(ends(&segs[2]), ((3, 3), (4, 4), 3));
}

#[test]
fn pairs_take_the_first_color_of_each_pair() {
    let pts = vec![(0, 0), (1, 1), (2, 2), (3, 3)];
    let colors = vec![10u8, 11u8];
    let segs = paired_segments(&pts, &colors, 99u8);
    assert_eq!(segs.len(), 2);
    assert_eq!(ends(&segs[0]), ((0, 0), (1, 1), 10));
    assert_eq!(ends(&segs[1]), ((2, 2), (3, 3), 99));
}

#[test]
fn odd_point_list_gives_nothing() {
    let pts = vec![(0, 0), (1, 1), (2, 2)];
    assert!(paired_segments(&pts, &Vec::<u8>::new(), 1u8).is_empty());
}

#[test]
fn flat_box_draws_its_top_face_only() {
    let top = vec![(1, 1), (1, -1), (-1, -1), (-1, 1)];
    let bottom = vec![(2, 2), (2, -2), (-2, -2), (-2, 2)];
    let flat = box_segments(&top, &bottom, false, 0u8);
    assert_eq!(flat.len(), 4);
    let full = box_segments(&top, &bottom, true, 0u8);
    assert_eq!(full.len(), 12);
    assert_eq!(ends(&full[4]), ((2, 2), (2, -2), 0));
    assert_eq!(ends(&full[8]), ((1, 1), (2, 2), 0));
    assert_eq!(ends(&full[11]), ((-1, 1), (-2, 2), 0));
}

#[test]
fn pose_styles_by_name() {
    assert_eq!(pose_style(PoseSource::Single, "arrow"), Some(PoseStyle::Arrow));
    assert_eq!(pose_style(PoseSource::Array, "axis"), Some(PoseStyle::Axes));
    assert_eq!(pose_style(PoseSource::Single, "axes"), Some(PoseStyle::Axes));
    assert_eq!(pose_style(PoseSource::Path, "line"), Some(PoseStyle::Line));
    assert_eq!(pose_style(PoseSource::Array, "line"), None);
    assert_eq!(pose_style(PoseSource::Path, "dots"), None);
}

#[test]
fn arrow_and_axes_shapes() {
    let a = arrow_segments((0, 0), (4, 0), (2, 1), (2, -1), 5u8);
    assert_eq!(a.len(), 3);
    assert_eq!(ends(&a[0]), ((0, 0), (4, 0), 5));
    assert_eq!(ends(&a[1]), ((4, 0), (2, 1), 5));
    assert_eq!(ends(&a[2]), ((4, 0), (2, -1), 5));
    let x = axes_segments((0, 0), [(1, 0), (0, 1), (0, 0)], [1u8, 2u8, 3u8]);
    assert_eq!(ends(&x[1]), ((0, 0), (0, 1), 2));
    assert_eq!(ends(&x[2]), ((0, 0), (0, 0), 3));
}

#[test]
fn footprint_falls_back_when_absent_empty_or_malformed() {
    let fallback = vec![(9, 9), (8, 8)];
    let read = resolve_footprint(Some(vec![vec![1, 2], vec![3, 4, 5]]), fallback.clone());
    assert_eq!(read, vec![(1, 2), (3, 4)]);
    assert_eq!(resolve_footprint(None, fallback.clone()), fallback);
    assert_eq!(resolve_footprint(Some(vec![]), fallback.clone()), fallback);
    assert_eq!(resolve_footprint(Some(vec![vec![1, 2], vec![3]]), fallback.clone()), fallback);
}
