//! Verified core of a data-acquisition bridge: bounded sample queues, the
//! real-time control tick, and the framed message protocol between the device
//! and its supervisor.

pub mod buffers;
pub mod samples;
pub mod stats;
pub mod handle;
pub mod control;
pub mod wire;
pub mod mcu_msg;
pub mod app_msg;
pub mod framing;
pub mod error;
pub mod adc;
pub mod dac;
pub mod debug;
pub mod device;
pub mod ioc;
