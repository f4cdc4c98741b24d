//! Android HID control: frames, control messages, coalesced writing, command
//! queueing and dispatch, device events, AI frame summaries and agent targets.
pub mod agent;
pub mod ai;
pub mod batch;
pub mod client;
pub mod clock;
pub mod coalesce;
pub mod command;
pub mod device;
pub mod dispatch;
pub mod error;
pub mod frames;
pub mod gamepad;
pub mod gamepad_batch;
pub mod geometry;
pub mod gestures;
pub mod latest;
pub mod message;
pub mod plan;
pub mod pushes;
pub mod requests;
pub mod single;
pub mod text;
pub mod transport;
pub mod types;
pub mod wire;
