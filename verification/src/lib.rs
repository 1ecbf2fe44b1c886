//! A binary message codec for a small command/telemetry protocol between a
//! host and a device.
//!
//! Typed messages are turned into a byte sequence for transmission and back:
//! each message is written as a one-byte type id followed by its fields in a
//! fixed order, with little-endian byte order for multi-byte integers and a
//! two-byte length prefix (a byte count) for variable-length payloads.

pub mod boxes;
pub mod cereal;
pub mod message;
pub mod serial_params;
pub mod wire;
