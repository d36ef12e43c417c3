//! A GPU telemetry acquisition library.
//!
//! The library polls hardware telemetry (device name, utilization,
//! temperature, memory, fan speed, power draw) by building command lines for
//! one of several vendor tools, handing them to a caller-supplied process
//! executor, parsing the captured output into lines, and formatting the
//! values for display. A reconciler keeps a displayed device list in sync
//! with freshly enumerated devices and switches between acquisition
//! backends on demand.
//!
//! Process execution itself is outside the library: callers implement
//! [`processor::Executor`] and every contract here holds for any
//! implementation of it.

pub mod formatter;
pub mod numeric;
pub mod processor;
pub mod provider;
pub mod reconciler;
pub mod text;
