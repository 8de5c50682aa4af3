//! Teleoperation: shaping the commanded velocity from user actions and ticks.
//!
//! Speeds are fixed-point millionths (see `config`). The controller decides; the caller publishes
//! the command that a call hands back.
use crate::config::{TeleopConfig, TeleopMode};
use crate::input::Action;
use vstd::prelude::*;

verus! {

/// A planar velocity command: forward, sideways and turning speed.
#[derive(Clone, Copy, Debug, PartialEq, Eq, Structural)]
pub struct Velocities {
    pub x: i64,
    pub y: i64,
    pub theta: i64,
}

/// The state of the teleoperation mode.
#[derive(Clone, Copy, Debug)]
pub struct Teleoperate {
    pub current_velocities: Velocities,
    pub increment: i64,
    pub increment_step: i64,
    pub publish_cmd_vel_when_idle: bool,
    /// Whether the stop command has been sent since the speeds last became zero.
    pub has_published_zero_once: bool,
    pub mode: TeleopMode,
    pub max_vel: i64,
}

/// `x` held within the range of `i64`.
pub open spec fn saturated(x: int) -> int {
    if x > i64::MAX {
        i64::MAX as int
    } else if x < i64::MIN {
        i64::MIN as int
    } else {
        x
    }
}

/// The absolute value of `x`.
pub open spec fn magnitude(x: int) -> int {
    if x < 0 {
        -x
    } else {
        x
    }
}

/// `v` moved toward zero by `step`, stopping at zero.
pub open spec fn toward_zero(v: int, step: int) -> int {
    if v > 0 {
        if v > step {
            v - step
        } else {
            0
        }
    } else if v < -step {
        v + step
    } else {
        0
    }
}

/// The largest speed magnitude that the safe law lets through.
pub open spec fn speed_limit(max_vel: i64) -> int {
    if magnitude(max_vel as int) > i64::MAX {
        i64::MAX as int
    } else {
        magnitude(max_vel as int)
    }
}

/// `v` held within `[-m, m]`.
pub open spec fn within(v: int, m: int) -> int {
    if v > m {
        m
    } else if v < -m {
        -m
    } else {
        v
    }
}

/// The command that stops the robot.
pub open spec fn zero_velocities() -> Velocities {
    Velocities { x: 0, y: 0, theta: 0 }
}

/// The speeds after one tick: decayed by one increment in the safe mode, kept in the classic one.
pub open spec fn ticked(t: Teleoperate) -> Velocities {
    let v = t.current_velocities;
    let d = magnitude(t.increment as int);
    match t.mode {
        TeleopMode::Safe => Velocities {
            x: toward_zero(v.x as int, d) as i64,
            y: toward_zero(v.y as int, d) as i64,
            theta: toward_zero(v.theta as int, d) as i64,
        },
        TeleopMode::Classic => v,
    }
}

/// The state after one tick, and the command to publish if any. With idle publishing off, a
/// zero command goes out once when the speeds become zero and then not until they move again.
pub open spec fn after_tick(t: Teleoperate) -> (Teleoperate, Option<Velocities>) {
    let v = ticked(t);
    if !t.publish_cmd_vel_when_idle && v == zero_velocities() {
        if !t.has_published_zero_once {
            (Teleoperate { current_velocities: v, has_published_zero_once: true, ..t }, Some(v))
        } else {
            (Teleoperate { current_velocities: v, ..t }, None)
        }
    } else {
        (Teleoperate { current_velocities: v, has_published_zero_once: false, ..t }, Some(v))
    }
}

/// One speed component pushed up (or down) by one increment without bound in the classic mode,
/// by two increments within the speed limit in the safe mode.
pub open spec fn pushed(t: Teleoperate, v: i64, up: bool) -> i64 {
    let d = if up {
        t.increment as int
    } else {
        -t.increment
    };
    match t.mode {
        TeleopMode::Classic => saturated(v + d) as i64,
        TeleopMode::Safe => within(v + 2 * d, speed_limit(t.max_vel)) as i64,
    }
}

/// The state after an action, and the command to publish if any. Any action outside the
/// movement and step vocabulary stops the robot and publishes at once.
pub open spec fn after_action(t: Teleoperate, a: Action) -> (Teleoperate, Option<Velocities>) {
    let v = t.current_velocities;
    match a {
        Action::Up => (Teleoperate { current_velocities: Velocities { x: pushed(t, v.x, true), ..v }, ..t }, None),
        Action::Down => (Teleoperate { current_velocities: Velocities { x: pushed(t, v.x, false), ..v }, ..t }, None),
        Action::Left => (Teleoperate { current_velocities: Velocities { y: pushed(t, v.y, true), ..v }, ..t }, None),
        Action::Right => (Teleoperate { current_velocities: Velocities { y: pushed(t, v.y, false), ..v }, ..t }, None),
        Action::RotateLeft => (
            Teleoperate { current_velocities: Velocities { theta: pushed(t, v.theta, true), ..v }, ..t },
            None,
        ),
        Action::RotateRight => (
            Teleoperate { current_velocities: Velocities { theta: pushed(t, v.theta, false), ..v }, ..t },
            None,
        ),
        Action::IncrementStep => (
            Teleoperate { increment: saturated(t.increment + t.increment_step) as i64, ..t },
            None,
        ),
        Action::DecrementStep => {
            let lower = saturated(t.increment - t.increment_step);
            (
                Teleoperate {
                    increment: if t.increment_step > lower {
                        t.increment_step
                    } else {
                        lower as i64
                    },
                    ..t
                },
                None,
            )
        },
        _ => after_tick(Teleoperate { current_velocities: zero_velocities(), ..t }),
    }
}

fn saturate(v: i128) -> (r: i64)
    ensures
        r == saturated(v as int),
{
    if v > i64::MAX as i128 {
        i64::MAX
    } else if v < i64::MIN as i128 {
        i64::MIN
    } else {
        v as i64
    }
}

fn decay(v: i64, step: i64) -> (r: i64)
    ensures
        r == toward_zero(v as int, magnitude(step as int)),
{
    let d: i128 = if step < 0 {
        -(step as i128)
    } else {
        step as i128
    };
    let w = v as i128;
    let r: i128 = if w > 0 {
        if w > d {
            w - d
        } else {
            0
        }
    } else if w < -d {
        w + d
    } else {
        0
    };
    r as i64
}

impl Teleoperate {
    /// The mode at rest, as the configuration sets it up. No stop command is owed on entry.
    pub fn new(config: &TeleopConfig) -> (r: Teleoperate)
        ensures
            r.current_velocities == zero_velocities(),
            r.increment == config.default_increment,
            r.increment_step == config.increment_step,
            r.publish_cmd_vel_when_idle == config.publish_cmd_vel_when_idle,
            r.has_published_zero_once,
            r.mode == config.mode,
            r.max_vel == config.max_vel,
    {
        Teleoperate {
            current_velocities: Velocities { x: 0, y: 0, theta: 0 },
            increment: config.default_increment,
            increment_step: config.increment_step,
            publish_cmd_vel_when_idle: config.publish_cmd_vel_when_idle,
            has_published_zero_once: true,
            mode: config.mode,
            max_vel: config.max_vel,
        }
    }

    fn push(&self, v: i64, up: bool) -> (r: i64)
        ensures
            r == pushed(*self, v, up),
    {
        let d: i128 = if up {
            self.increment as i128
        } else {
            -(self.increment as i128)
        };
        match self.mode {
            TeleopMode::Classic => saturate(v as i128 + d),
            TeleopMode::Safe => {
                let m0: i128 = if self.max_vel < 0 {
                    -(self.max_vel as i128)
                } else {
                    self.max_vel as i128
                };
                let m: i128 = if m0 > i64::MAX as i128 {
                    i64::MAX as i128
                } else {
                    m0
                };
                let w: i128 = v as i128 + 2 * d;
                if w > m {
                    m as i64
                } else if w < -m {
                    (-m) as i64
                } else {
                    w as i64
                }
            },
        }
    }

    /// One tick: decays the speeds in the safe mode and returns the command to publish, if any.
    pub fn run(&mut self) -> (r: Option<Velocities>)
        ensures
            (*final(self), r) == after_tick(*old(self)),
    {
        if self.mode == TeleopMode::Safe {
            let v = self.current_velocities;
            self.current_velocities = Velocities {
                x: decay(v.x, self.increment),
                y: decay(v.y, self.increment),
                theta: decay(v.theta, self.increment),
            };
        }
        let v = self.current_velocities;
        if !self.publish_cmd_vel_when_idle && v.x == 0 && v.y == 0 && v.theta == 0 {
            if !self.has_published_zero_once {
                self.has_published_zero_once = true;
                Some(v)
            } else {
                None
            }
        } else {
            self.has_published_zero_once = false;
            Some(v)
        }
    }

    /// Stops the robot: zero speeds, then one tick, whose command is returned.
    pub fn reset(&mut self) -> (r: Option<Velocities>)
        ensures
            (*final(self), r) == after_tick(
                Teleoperate { current_velocities: zero_velocities(), ..*old(self) },
            ),
    {
        self.current_velocities = Velocities { x: 0, y: 0, theta: 0 };
        self.run()
    }

    /// Reacts to one user action; returns the command to publish, if the action asks for one.
    pub fn handle_input(&mut self, action: Action) -> (r: Option<Velocities>)
        ensures
            (*final(self), r) == after_action(*old(self), action),
    {
        let v = self.current_velocities;
        match action {
            Action::Up => {
                self.current_velocities.x = self.push(v.x, true);
                None
            },
            Action::Down => {
                self.current_velocities.x = self.push(v.x, false);
                None
            },
            Action::Left => {
                self.current_velocities.y = self.push(v.y, true);
                None
            },
            Action::Right => {
                self.current_velocities.y = self.push(v.y, false);
                None
            },
            Action::RotateLeft => {
                self.current_velocities.theta = self.push(v.theta, true);
                None
            },
            Action::RotateRight => {
                self.current_velocities.theta = self.push(v.theta, false);
                None
            },
            Action::IncrementStep => {
                self.increment = saturate(self.increment as i128 + self.increment_step as i128);
                None
            },
            Action::DecrementStep => {
                let lower = saturate(self.increment as i128 - self.increment_step as i128);
                self.increment = if self.increment_step > lower {
                    self.increment_step
                } else {
                    lower
                };
                None
            },
            _ => self.reset(),
        }
    }
}


/// The state after `n` ticks with no action in between.
pub open spec fn after_ticks(t: Teleoperate, n: nat) -> Teleoperate
    decreases n,
{
    if n == 0 {
        t
    } else {
        after_tick(after_ticks(t, (n - 1) as nat)).0
    }
}

/// `v` brought toward zero by `n` steps of `d`, stopping at zero.
pub open spec fn decayed_by(v: int, d: int, n: nat) -> int {
    if v >= 0 {
        if v - n * d > 0 {
            v - n * d
        } else {
            0
        }
    } else if v + n * d < 0 {
        v + n * d
    } else {
        0
    }
}

proof fn lemma_decay_step(v: int, d: int, n: nat)
    requires
        d >= 0,
    ensures
        toward_zero(decayed_by(v, d, n), d) == decayed_by(v, d, n + 1),
{
    assert((n + 1) * d == n * d + d) by (nonlinear_arith);
    assert(n * d >= 0) by (nonlinear_arith)
        requires
            d >= 0,
    ;
}

/// In the safe mode, with no action, each speed moves toward zero by one increment per tick,
/// reaches zero and stays there, never changing sign; the increment is unchanged.
pub proof fn lemma_safe_mode_decay(t: Teleoperate, n: nat)
    requires
        t.mode == TeleopMode::Safe,
    ensures
        after_ticks(t, n).mode == TeleopMode::Safe,
        after_ticks(t, n).increment == t.increment,
        after_ticks(t, n).current_velocities.x == decayed_by(
            t.current_velocities.x as int,
            magnitude(t.increment as int),
            n,
        ),
        after_ticks(t, n).current_velocities.y == decayed_by(
            t.current_velocities.y as int,
            magnitude(t.increment as int),
            n,
        ),
        after_ticks(t, n).current_velocities.theta == decayed_by(
            t.current_velocities.theta as int,
            magnitude(t.increment as int),
            n,
        ),
    decreases n,
{
    let d = magnitude(t.increment as int);
    if n > 0 {
        let m = (n - 1) as nat;
        lemma_safe_mode_decay(t, m);
        let v = t.current_velocities;
        lemma_decay_step(v.x as int, d, m);
        lemma_decay_step(v.y as int, d, m);
        lemma_decay_step(v.theta as int, d, m);
    } else {
        assert(0 * d == 0);
    }
}


/// With idle publishing off, the stop command goes out on the tick at which the speeds become
/// zero (unless it already went out) and is not repeated on the next tick if they stay zero.
pub proof fn lemma_stop_published_once(t: Teleoperate)
    requires
        !t.publish_cmd_vel_when_idle,
        ticked(t) == zero_velocities(),
    ensures
        after_tick(t).1 is Some <==> !t.has_published_zero_once,
        after_tick(after_tick(t).0).1 is None,
{
}

} // verus!
