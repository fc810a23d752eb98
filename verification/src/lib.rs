//! Monitors arranged on a virtual screen, their clockwise order, and the
//! queries answered from it: which monitor holds a point, and which monitor
//! comes next when walking around the screen in either direction.
//!
//! - [`geometry`]: points and rectangles.
//! - [`monitor`]: a single monitor.
//! - [`clockwise`]: the clockwise order of points about the origin.
//! - [`arrangement`]: what it means for monitors to stand in clockwise order.
//! - [`setup`]: the monitor setup and its queries.
//! - [`pipeline`]: queries strung together, and how their outcome is written.
//! - [`x11`]: reading the monitors off the output of `xrandr`.
//! - [`decimal`]: reading and writing numbers in base ten.
//! - [`error`]: the ways in which a query can fail.

pub mod arrangement;
pub mod clockwise;
pub mod decimal;
pub mod error;
pub mod geometry;
pub mod monitor;
pub mod pipeline;
pub mod setup;
pub mod x11;

pub use error::MonitorUtilsError;
pub use geometry::{Point, Rect};
pub use monitor::{Monitor, MonitorView};
pub use setup::{LoadMonitors, MonitorSetup};
