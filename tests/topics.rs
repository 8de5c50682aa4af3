use termviz::input::Action;
use termviz::topics::{available_topics, is_supported_type, SelectableTopics, TopicEntry, TopicManager};

fn t(name: &str, kind: &str) -> TopicEntry {
    TopicEntry { name: name.to_string(), datatype: kind.to_string() }
}

fn names(v: &[TopicEntry]) -> Vec<String> {
    v.iter().map(|e| e.name.clone()).collect()
}

#[test]
fn offered_topics_are_supported_and_not_shown() {
    let all = vec![
        t("/scan", "sensor_msgs/LaserScan"),
        t("/odom", "nav_msgs/Odometry"),
        t("/path", "nav_msgs/Path"),
        t("/cloud", "sensor_msgs/LaserScan"),
    ];
    let shown = vec![t("/scan", "sensor_msgs/LaserScan")];
    let offered = available_topics(all, &shown);
    assert_eq!(names(&offered), vec!["/path".to_string(), "/cloud".to_string()]);
    assert!(is_supported_type("visualization_msgs/MarkerArray"));
    assert!(!is_supported_type("nav_msgs/Odometry"));
}

#[test]
fn selection_wraps_both_ways() {
    let mut l = SelectableTopics::new(vec![t("a", "x"), t("b", "x"), t("c", "x")]);
    l.next();
    assert_eq!(l.state, Some(0));
    l.previous();
    assert_eq!(l.state, Some(2));
    l.next();
    assert_eq!(l.state, Some(0));
    l.state = Some(7);
    let e = l.pop();
    assert_eq!(e.name, "c");
    assert_eq!(names(&l.items), vec!["a".to_string(), "b".to_string()]);
}

#[test]
fn topics_move_between_lists() {
    let mut m = TopicManager::new(vec![t("a", "x"), t("b", "x")], vec![t("c", "x")]);
    m.handle_input(Action::Down);
    m.handle_input(Action::Right);
    assert_eq!(names(&m.availible_topics.items), vec!["a".to_string()]);
    assert_eq!(names(&m.selected_topics.items), vec!["c".to_string(), "b".to_string()]);
    m.handle_input(Action::RotateRight);
    assert!(!m.selection_mode);
    m.handle_input(Action::Left);
    assert_eq!(names(&m.availible_topics.items), vec!["a".to_string(), "c".to_string()]);
    assert!(m.handle_input(Action::Confirm));
    m.shift_active_element_left();
    m.shift_active_element_left();
    assert!(m.selected_topics.items.is_empty());
}
