//! The ways in which a query on a monitor setup can fail.

use crate::geometry::Point;
use vstd::prelude::*;

verus! {

#[derive(Clone, Copy, PartialEq, Eq, Debug, Structural)]
pub enum MonitorUtilsError {
    /// The point lies on none of the monitors.
    PointOutOfBounds(Point),
    /// The setup does not hold what the operation needs: it has no monitors,
    /// or a snapshot of it is not in clockwise order.
    InvalidMonitorSetup,
}

} // verus!
