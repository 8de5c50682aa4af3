use termviz::markers::{arrow_form, marker_shape, ArrowForm, MarkerShape};
use termviz::modes::{ModeDispatch, ModeSelector, ModeSwitch};
use termviz::tf::{build_tree, children_of, find_roots, moved_index, FrameLink};
use termviz::topics::{topic_kind, TopicKind};

fn link(child: &str, parent: &str) -> FrameLink {
    FrameLink { child: child.to_string(), parent: parent.to_string() }
}

#[test]
fn digits_switch_to_an_existing_mode() {
    let mut m = ModeSelector::new(5);
    let d = m.handle_input("3");
    assert_eq!(d, ModeDispatch { notify_help: false, switched: Some(ModeSwitch { from: 1, to: 3 }), forward: false });
    assert_eq!(m.mode, 3);
    assert_eq!(m.handle_input("3").switched, None);
    assert_eq!(m.handle_input("6").switched, None);
    assert_eq!(m.handle_input("0").switched, None);
    let named = m.handle_input("Switch to mode 2");
    assert_eq!(named.switched, Some(ModeSwitch { from: 3, to: 2 }));
}

#[test]
fn help_toggles_and_holds_actions_back() {
    let mut m = ModeSelector::new(2);
    let open = m.handle_input("Show help");
    assert_eq!(open, ModeDispatch { notify_help: true, switched: None, forward: false });
    assert!(m.show_help);
    assert!(!m.handle_input("Up").forward);
    let close = m.handle_input("Show help");
    assert_eq!(close, ModeDispatch { notify_help: false, switched: None, forward: true });
    assert!(m.handle_input("Up").forward);
}

#[test]
fn roots_are_parents_that_are_not_children() {
    let links = vec![link("base", "odom"), link("odom", "map"), link("laser", "base"), link("cam", "world"), link("imu", "base")];
    let roots = find_roots(&links);
    assert_eq!(roots, vec!["map".to_string(), "world".to_string()]);
    let again = find_roots(&vec![link("b", "z"), link("c", "a"), link("d", "z")]);
    assert_eq!(again, vec!["z".to_string(), "a".to_string()]);
    assert_eq!(children_of(&links, &"base".to_string()), vec!["laser".to_string(), "imu".to_string()]);
}

#[test]
fn tree_follows_the_links() {
    let links = vec![link("base", "odom"), link("odom", "map"), link("laser", "base")];
    let tree = build_tree(&links, &"map".to_string());
    assert_eq!(tree.name, "map");
    assert_eq!(tree.children.len(), 1);
    assert_eq!(tree.children[0].name, "odom");
    assert_eq!(tree.children[0].children[0].name, "base");
    assert_eq!(tree.children[0].children[0].children[0].name, "laser");
    assert!(tree.children[0].children[0].children[0].children.is_empty());
}

#[test]
fn cursor_moves_within_the_list() {
    assert_eq!(moved_index(None, 3, true), Some(0));
    assert_eq!(moved_index(Some(1), 3, true), Some(2));
    assert_eq!(moved_index(Some(2), 3, true), Some(2));
    assert_eq!(moved_index(Some(0), 3, false), Some(0));
    assert_eq!(moved_index(Some(9), 3, false), Some(2));
    assert_eq!(moved_index(Some(0), 0, true), None);
}

#[test]
fn marker_type_codes() {
    assert_eq!(marker_shape(0), Some(MarkerShape::Arrow));
    assert_eq!(marker_shape(1), Some(MarkerShape::Cube));
    assert_eq!(marker_shape(5), Some(MarkerShape::LineList));
    assert_eq!(marker_shape(8), Some(MarkerShape::Points));
    assert_eq!(marker_shape(2), None);
}

#[test]
fn topic_kinds() {
    assert_eq!(topic_kind("nav_msgs/Path"), Some(TopicKind::Path));
    assert_eq!(topic_kind("visualization_msgs/Marker"), Some(TopicKind::Marker));
    assert_eq!(topic_kind("sensor_msgs/Imu"), None);
}

#[test]
fn arrow_layout_by_point_count() {
    assert_eq!(arrow_form(0), Some(ArrowForm::FromPose));
    assert_eq!(arrow_form(2), Some(ArrowForm::FromPoints));
    assert_eq!(arrow_form(1), None);
    assert_eq!(arrow_form(3), None);
}

#[test]
fn tree_children_keep_link_order() {
    let links = vec![link("b", "r"), link("a", "r"), link("c", "b")];
    let tree = build_tree(&links, &"r".to_string());
    let names: Vec<String> = tree.children.iter().map(|c| c.name.clone()).collect();
    assert_eq!(names, vec!["b".to_string(), "a".to_string()]);
    assert_eq!(tree.children[0].children[0].name, "c");
    assert!(tree.children[1].children.is_empty());
}
