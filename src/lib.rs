//! Verified core of a terminal visualizer for robot spatial data: the marker store with its
//! expiry, the topology of drawn primitives, the decoders of packed sensor data, and the decision
//! states of the interactive modes.
pub mod config;
pub mod geometry;
pub mod grid;
pub mod image;
pub mod input;
pub mod markers;
pub mod modes;
pub mod pointcloud;
pub mod rosout;
pub mod send_pose;
pub mod teleop;
pub mod tf;
pub mod topics;
