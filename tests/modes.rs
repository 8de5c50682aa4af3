use termviz::config::{TeleopConfig, TeleopMode};
use termviz::input::{Action, CONFIRM, UNMAPPED, UP, ZOOM_IN};
use termviz::send_pose::{PoseCommand, PoseMsgKind, SendPose};
use termviz::teleop::{Teleoperate, Velocities};

fn safe_state(x: i64, increment: i64) -> Teleoperate {
    let mut t = Teleoperate::new(&TeleopConfig::default());
    t.current_velocities = Velocities { x, y: 0, theta: 0 };
    t.increment = increment;
    t.mode = TeleopMode::Safe;
    t
}

#[test]
fn safe_mode_decays_to_zero_in_five_ticks() {
    let mut t = safe_state(1_000_000, 200_000);
    let expected = [800_000, 600_000, 400_000, 200_000, 0];
    for want in expected {
        let cmd = t.run();
        assert_eq!(t.current_velocities.x, want);
        assert_eq!(cmd, Some(Velocities { x: want, y: 0, theta: 0 }));
    }
    t.run();
    assert_eq!(t.current_velocities.x, 0);
}

#[test]
fn safe_mode_decay_stops_at_zero_from_below() {
    let mut t = safe_state(-300_000, 200_000);
    t.run();
    assert_eq!(t.current_velocities.x, -100_000);
    t.run();
    assert_eq!(t.current_velocities.x, 0);
}

#[test]
fn safe_mode_input_is_clamped_to_the_maximum() {
    let mut t = safe_state(0, 100_000);
    t.max_vel = 250_000;
    assert_eq!(t.handle_input(Action::Up), None);
    assert_eq!(t.current_velocities.x, 200_000);
    t.handle_input(Action::Up);
    assert_eq!(t.current_velocities.x, 250_000);
    t.handle_input(Action::RotateRight);
    assert_eq!(t.current_velocities.theta, -200_000);
}

#[test]
fn classic_mode_adds_one_increment_and_keeps_it() {
    let mut cfg = TeleopConfig::default();
    cfg.mode = TeleopMode::Classic;
    let mut t = Teleoperate::new(&cfg);
    t.handle_input(Action::Up);
    t.handle_input(Action::Up);
    t.handle_input(Action::Right);
    assert_eq!(t.current_velocities, Velocities { x: 200_000, y: -100_000, theta: 0 });
    assert_eq!(t.run(), Some(Velocities { x: 200_000, y: -100_000, theta: 0 }));
    assert_eq!(t.current_velocities.x, 200_000);
}

#[test]
fn step_changes_keep_a_floor_of_one_step() {
    let mut t = Teleoperate::new(&TeleopConfig::default());
    t.handle_input(Action::IncrementStep);
    assert_eq!(t.increment, 200_000);
    t.handle_input(Action::DecrementStep);
    t.handle_input(Action::DecrementStep);
    assert_eq!(t.increment, 100_000);
}

#[test]
fn other_action_stops_and_publishes() {
    let mut cfg = TeleopConfig::default();
    cfg.mode = TeleopMode::Classic;
    let mut t = Teleoperate::new(&cfg);
    t.handle_input(Action::Up);
    let cmd = t.handle_input(Action::from_name(ZOOM_IN));
    assert_eq!(cmd, Some(Velocities { x: 0, y: 0, theta: 0 }));
    assert_eq!(t.current_velocities, Velocities { x: 0, y: 0, theta: 0 });
}

#[test]
fn idle_stop_is_published_once() {
    let mut cfg = TeleopConfig::default();
    cfg.publish_cmd_vel_when_idle = false;
    let mut t = Teleoperate::new(&cfg);
    assert_eq!(t.run(), None);
    t.handle_input(Action::Up);
    assert_eq!(t.run(), Some(Velocities { x: 100_000, y: 0, theta: 0 }));
    assert_eq!(t.run(), Some(Velocities { x: 0, y: 0, theta: 0 }));
    assert_eq!(t.run(), None);
    assert_eq!(t.run(), None);
}

#[test]
fn action_names() {
    assert_eq!(Action::from_name(UP), Action::Up);
    assert_eq!(Action::from_name(CONFIRM), Action::Confirm);
    assert_eq!(Action::from_name("Clockwise rotation"), Action::RotateRight);
    assert_eq!(Action::from_name(UNMAPPED), Action::Other);
    assert_eq!(Action::from_name("up"), Action::Other);
}

#[test]
fn teleop_defaults() {
    let c = TeleopConfig::default();
    assert_eq!(c.default_increment, 100_000);
    assert_eq!(c.max_vel, 200_000);
    assert_eq!(c.cmd_vel_topic, "cmd_vel");
    assert_eq!(c.mode, TeleopMode::Safe);
    assert_eq!(TeleopMode::default(), TeleopMode::Safe);
    assert_eq!(TeleopMode::Classic.name(), "Classic");
}

#[test]
fn confirm_without_moving_does_not_publish() {
    let mut s = SendPose::new(2);
    assert_eq!(s.handle_input(Action::Confirm, false), PoseCommand::Nothing);
    assert!(s.tracks_robot());
}

#[test]
fn confirm_after_moving_publishes_and_releases_the_ghost() {
    let mut s = SendPose::new(2);
    assert_eq!(
        s.handle_input(Action::Up, true),
        PoseCommand::Move { forward: 100_000, left: 0, turn: 0 }
    );
    assert!(!s.tracks_robot());
    assert_eq!(s.handle_input(Action::Confirm, true), PoseCommand::Publish { topic: 0 });
    assert!(s.tracks_robot());
}

#[test]
fn pose_topics_cycle_both_ways() {
    let mut s = SendPose::new(3);
    s.handle_input(Action::Previous, false);
    assert_eq!(s.current_topic, 2);
    s.handle_input(Action::Next, false);
    assert_eq!(s.current_topic, 0);
    s.handle_input(Action::IncrementStep, false);
    assert_eq!(
        s.handle_input(Action::RotateRight, false),
        PoseCommand::Move { forward: 0, left: 0, turn: -200_000 }
    );
    assert_eq!(s.handle_input(Action::Cancel, false), PoseCommand::Reset);
    assert!(s.tracks_robot());
}

#[test]
fn pose_message_kinds() {
    assert_eq!(PoseMsgKind::from_name("Pose"), Some(PoseMsgKind::Pose));
    assert_eq!(
        PoseMsgKind::from_name("PoseWithCovarianceStamped"),
        Some(PoseMsgKind::PoseWithCovarianceStamped)
    );
    assert_eq!(PoseMsgKind::from_name("Twist"), None);
}
