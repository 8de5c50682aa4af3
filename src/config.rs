//! Configuration records of the listeners and modes, as plain values.
//!
//! Speeds and lengths are fixed-point: an integer count of millionths of the unit
//! (metres, metres per second, radians per second).
use vstd::prelude::*;

verus! {

/// Millionths in one unit of the fixed-point quantities.
pub const MICROS_PER_UNIT: i64 = 1_000_000;

/// An RGB color.
#[derive(Clone, Copy, Debug, PartialEq, Eq, Structural)]
pub struct Color {
    pub r: u8,
    pub b: u8,
    pub g: u8,
}

/// A listener that needs only its topic.
#[derive(Clone, Debug)]
pub struct ListenerConfig {
    pub topic: String,
}

/// A point-cloud listener: its topic, and whether points are colored from their packed RGB
/// field rather than by height.
#[derive(Clone, Debug)]
pub struct PointCloud2ListenerConfig {
    pub topic: String,
    pub use_rgb: bool,
}

/// An image listener: its topic and its initial rotation in degrees.
#[derive(Clone, Debug)]
pub struct ImageListenerConfig {
    pub topic: String,
    pub rotation: i64,
}

/// A topic that pose estimates are sent to, with the message type sent there.
#[derive(Clone, Debug)]
pub struct SendPoseConfig {
    pub topic: String,
    pub msg_type: String,
}

/// A listener drawn in one color.
#[derive(Clone, Debug)]
pub struct ListenerConfigColor {
    pub topic: String,
    pub color: Color,
}

/// An occupancy-grid listener: cells at or above `threshold` are drawn in `color`.
#[derive(Clone, Debug)]
pub struct MapListenerConfig {
    pub topic: String,
    pub color: Color,
    pub threshold: i8,
}

/// The control law of teleoperation.
#[derive(Clone, Copy, Debug, PartialEq, Eq, Structural)]
pub enum TeleopMode {
    /// Each input adds one increment; speeds stay until changed.
    Classic,
    /// Speeds decay by one increment on every tick and stay within the maximum.
    Safe,
}

impl TeleopMode {
    /// The mode's name.
    pub fn name(&self) -> (r: String)
        ensures
            r@ == (match self {
                TeleopMode::Classic => "Classic"@,
                TeleopMode::Safe => "Safe"@,
            }),
    {
        match self {
            TeleopMode::Classic => String::from_str("Classic"),
            TeleopMode::Safe => String::from_str("Safe"),
        }
    }
}

impl Default for TeleopMode {
    fn default() -> (r: TeleopMode)
        ensures
            r == TeleopMode::Safe,
    {
        TeleopMode::Safe
    }
}

/// Teleoperation settings; speeds and increments in millionths.
#[derive(Clone, Debug)]
pub struct TeleopConfig {
    pub default_increment: i64,
    pub increment_step: i64,
    pub cmd_vel_topic: String,
    pub publish_cmd_vel_when_idle: bool,
    pub mode: TeleopMode,
    pub max_vel: i64,
}

impl Default for TeleopConfig {
    fn default() -> (r: TeleopConfig)
        ensures
            r.default_increment == 100_000,
            r.increment_step == 100_000,
            r.cmd_vel_topic@ == "cmd_vel"@,
            r.publish_cmd_vel_when_idle,
            r.mode == TeleopMode::Safe,
            r.max_vel == 200_000,
    {
        TeleopConfig {
            default_increment: 100_000,
            increment_step: 100_000,
            cmd_vel_topic: String::from_str("cmd_vel"),
            publish_cmd_vel_when_idle: true,
            mode: TeleopMode::Safe,
            max_vel: 200_000,
        }
    }
}

/// The rotation of an image listener when none is configured.
pub fn default_int() -> (r: i64)
    ensures
        r == 0,
{
    0
}

/// The occupancy threshold of a map listener when none is configured.
pub fn default_map_threshold() -> (r: i8)
    ensures
        r == 1,
{
    1
}

/// White, the color of a map when none is configured.
pub fn color_white() -> (r: Color)
    ensures
        r == (Color { r: 255, b: 255, g: 255 }),
{
    Color { r: 255, g: 255, b: 255 }
}

/// Red, the color of a pose when none is configured.
pub fn color_red() -> (r: Color)
    ensures
        r == (Color { r: 255, b: 0, g: 0 }),
{
    Color { r: 255, g: 0, b: 0 }
}

} // verus!
