//! Pose-estimate editing: the decisions of the mode that moves a ghost pose and sends it.
//!
//! The ghost pose itself is kept by the caller; this state says how to move it and when to send.
use crate::input::Action;
use crate::teleop::saturated;
use vstd::prelude::*;

verus! {

/// The change of the cursor step on each step action, in millionths.
pub const STEP_CHANGE: i64 = 100_000;

/// The message type a pose is sent as.
#[derive(Clone, Copy, Debug, PartialEq, Eq, Structural)]
pub enum PoseMsgKind {
    Pose,
    PoseStamped,
    PoseWithCovarianceStamped,
}

impl PoseMsgKind {
    /// The kind named `name`; other names are not supported.
    pub fn from_name(name: &str) -> (r: Option<PoseMsgKind>)
        ensures
            r == (if name@ == "Pose"@ {
                Some(PoseMsgKind::Pose)
            } else if name@ == "PoseStamped"@ {
                Some(PoseMsgKind::PoseStamped)
            } else if name@ == "PoseWithCovarianceStamped"@ {
                Some(PoseMsgKind::PoseWithCovarianceStamped)
            } else {
                None
            }),
    {
        if crate::input::same_text(name, "Pose") {
            Some(PoseMsgKind::Pose)
        } else if crate::input::same_text(name, "PoseStamped") {
            Some(PoseMsgKind::PoseStamped)
        } else if crate::input::same_text(name, "PoseWithCovarianceStamped") {
            Some(PoseMsgKind::PoseWithCovarianceStamped)
        } else {
            None
        }
    }
}

/// What the caller does after an action.
#[derive(Clone, Copy, Debug, PartialEq, Eq, Structural)]
pub enum PoseCommand {
    Nothing,
    /// Move the ghost by `forward` and `left` in its own frame after turning it by `turn`
    /// (millionths of metres and radians).
    Move { forward: i64, left: i64, turn: i64 },
    /// Send the ghost pose on topic number `topic`.
    Publish { topic: usize },
    /// Put the ghost back on the robot.
    Reset,
}

/// The state of the pose-sending mode.
#[derive(Clone, Copy, Debug)]
pub struct SendPose {
    /// The cursor step, in millionths.
    pub increment: i64,
    pub current_topic: usize,
    pub topic_count: usize,
    /// Whether the ghost has been moved away from the robot since the last send or reset.
    pub ghost_active: bool,
}

/// The state after an action and what the caller does. `differs` says whether the ghost pose
/// is farther than the tolerance from the robot's pose.
pub open spec fn after_pose_action(s: SendPose, a: Action, differs: bool) -> (SendPose, PoseCommand) {
    let i = s.increment;
    let back = saturated(-i) as i64;
    let moved = SendPose { ghost_active: true, ..s };
    match a {
        Action::Up => (moved, PoseCommand::Move { forward: i, left: 0, turn: 0 }),
        Action::Down => (moved, PoseCommand::Move { forward: back, left: 0, turn: 0 }),
        Action::Left => (moved, PoseCommand::Move { forward: 0, left: i, turn: 0 }),
        Action::Right => (moved, PoseCommand::Move { forward: 0, left: back, turn: 0 }),
        Action::RotateLeft => (moved, PoseCommand::Move { forward: 0, left: 0, turn: i }),
        Action::RotateRight => (moved, PoseCommand::Move { forward: 0, left: 0, turn: back }),
        Action::IncrementStep => (
            SendPose { increment: saturated(i + STEP_CHANGE) as i64, ..s },
            PoseCommand::Nothing,
        ),
        Action::DecrementStep => (
            SendPose { increment: saturated(i - STEP_CHANGE) as i64, ..s },
            PoseCommand::Nothing,
        ),
        Action::Next => (
            if s.topic_count > 0 {
                SendPose { current_topic: ((s.current_topic + 1) % (s.topic_count as int)) as usize, ..s }
            } else {
                s
            },
            PoseCommand::Nothing,
        ),
        Action::Previous => (
            if s.topic_count > 0 {
                SendPose {
                    current_topic: if s.current_topic > 0 {
                        (s.current_topic - 1) as usize
                    } else {
                        (s.topic_count - 1) as usize
                    },
                    ..s
                }
            } else {
                s
            },
            PoseCommand::Nothing,
        ),
        Action::Cancel => (SendPose { ghost_active: false, ..s }, PoseCommand::Reset),
        Action::Confirm => if differs && s.current_topic < s.topic_count {
            (SendPose { ghost_active: false, ..s }, PoseCommand::Publish { topic: s.current_topic })
        } else {
            (s, PoseCommand::Nothing)
        },
        _ => (s, PoseCommand::Nothing),
    }
}

impl SendPose {
    /// The mode with `topic_count` destinations, the first one current, and a step of 0.1.
    pub fn new(topic_count: usize) -> (r: SendPose)
        ensures
            r == (SendPose { increment: STEP_CHANGE, current_topic: 0, topic_count, ghost_active: false }),
    {
        SendPose { increment: STEP_CHANGE, current_topic: 0, topic_count, ghost_active: false }
    }

    /// Whether the ghost follows the robot on each tick, that is, has not been moved.
    pub fn tracks_robot(&self) -> (r: bool)
        ensures
            r == !self.ghost_active,
    {
        !self.ghost_active
    }

    /// Reacts to one action; `differs` tells whether the ghost is away from the robot.
    pub fn handle_input(&mut self, action: Action, differs: bool) -> (r: PoseCommand)
        ensures
            (*final(self), r) == after_pose_action(*old(self), action, differs),
    {
        let i = self.increment;
        let back: i64 = if i == i64::MIN {
            i64::MAX
        } else {
            -i
        };
        match action {
            Action::Up => {
                self.ghost_active = true;
                PoseCommand::Move { forward: i, left: 0, turn: 0 }
            },
            Action::Down => {
                self.ghost_active = true;
                PoseCommand::Move { forward: back, left: 0, turn: 0 }
            },
            Action::Left => {
                self.ghost_active = true;
                PoseCommand::Move { forward: 0, left: i, turn: 0 }
            },
            Action::Right => {
                self.ghost_active = true;
                PoseCommand::Move { forward: 0, left: back, turn: 0 }
            },
            Action::RotateLeft => {
                self.ghost_active = true;
                PoseCommand::Move { forward: 0, left: 0, turn: i }
            },
            Action::RotateRight => {
                self.ghost_active = true;
                PoseCommand::Move { forward: 0, left: 0, turn: back }
            },
            Action::IncrementStep => {
                self.increment = if i > i64::MAX - STEP_CHANGE {
                    i64::MAX
                } else {
                    i + STEP_CHANGE
                };
                PoseCommand::Nothing
            },
            Action::DecrementStep => {
                self.increment = if i < i64::MIN + STEP_CHANGE {
                    i64::MIN
                } else {
                    i - STEP_CHANGE
                };
                PoseCommand::Nothing
            },
            Action::Next => {
                if self.topic_count > 0 {
                    let next: u128 = (self.current_topic as u128 + 1) % (self.topic_count as u128);
                    assert(next < self.topic_count);
                    self.current_topic = next as usize;
                }
                PoseCommand::Nothing
            },
            Action::Previous => {
                if self.topic_count > 0 {
                    self.current_topic = if self.current_topic > 0 {
                        self.current_topic - 1
                    } else {
                        self.topic_count - 1
                    };
                }
                PoseCommand::Nothing
            },
            Action::Cancel => {
                self.ghost_active = false;
                PoseCommand::Reset
            },
            Action::Confirm => {
                if differs && self.current_topic < self.topic_count {
                    self.ghost_active = false;
                    PoseCommand::Publish { topic: self.current_topic }
                } else {
                    PoseCommand::Nothing
                }
            },
            _ => PoseCommand::Nothing,
        }
    }
}


/// Confirming sends the ghost only when it is away from the robot: with the ghost within the
/// tolerance, a confirmation changes nothing and publishes nothing.
pub proof fn lemma_confirm_needs_a_moved_ghost(s: SendPose)
    ensures
        after_pose_action(s, Action::Confirm, false) == (s, PoseCommand::Nothing),
        after_pose_action(s, Action::Confirm, true).1 is Publish ==> !after_pose_action(
            s,
            Action::Confirm,
            true,
        ).0.ghost_active,
{
}

} // verus!
