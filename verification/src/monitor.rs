//! A single monitor and its place on the virtual screen.

use crate::geometry::Rect;
use vstd::prelude::*;
use vstd::std_specs::cmp::PartialEqSpecImpl;

verus! {

/// What a monitor is, as a value: two monitors are equal when these agree.
pub struct MonitorView {
    /// The position of the monitor in the clockwise order of its setup.
    pub order: u32,
    /// The name of the adapter.
    pub name: Seq<char>,
    /// The CRTC index.
    pub crtc: u32,
    /// The place of the monitor on the virtual screen.
    pub rect: Rect,
}

/// A `Monitor` represents a rectangular graphical display, positioned within a
/// virtual screen.
#[derive(Debug)]
pub struct Monitor {
    /// The index of the monitor in the clockwise order of the `MonitorSetup`
    /// that holds it. Only a setup assigns it.
    order: u32,
    /// The name of the adapter corresponding to the monitor.
    name: String,
    /// CRTC index, used internally by graphics cards.
    crtc: u32,
    /// Rectangle representing the monitor within the virtual screen.
    pub rect: Rect,
}

impl View for Monitor {
    type V = MonitorView;

    closed spec fn view(&self) -> MonitorView {
        MonitorView { order: self.order, name: self.name@, crtc: self.crtc, rect: self.rect }
    }
}

impl Monitor {
    /// Creates a new `Monitor`. It belongs to no setup yet, so its order is 0.
    pub fn new(name: String, crtc: u32, rect: Rect) -> (monitor: Monitor)
        ensures
            monitor@ == (MonitorView { order: 0, name: name@, crtc, rect }),
    {
        Monitor { order: 0, name, crtc, rect }
    }

    /// Yields the name of the adapter associated with the monitor.
    pub fn name(&self) -> (name: &str)
        ensures
            name@ == self@.name,
    {
        self.name.as_str()
    }

    /// Yields the CRTC index of the monitor.
    pub fn crtc(&self) -> (crtc: u32)
        ensures
            crtc == self@.crtc,
    {
        self.crtc
    }

    /// Yields the rectangle representing the monitor within the virtual
    /// screen.
    pub fn rect(&self) -> (rect: &Rect)
        ensures
            *rect == self@.rect,
    {
        &self.rect
    }

    /// Yields the position of the monitor in the clockwise order of its setup,
    /// counted from 0.
    pub fn order(&self) -> (order: u32)
        ensures
            order == self@.order,
    {
        self.order
    }

    /// The same monitor at another position of the clockwise order.
    pub(crate) fn with_order(self, order: u32) -> (monitor: Monitor)
        ensures
            monitor@ == (MonitorView { order, ..self@ }),
    {
        Monitor { order, name: self.name, crtc: self.crtc, rect: self.rect }
    }

    /// The same monitor with another CRTC index.
    pub(crate) fn with_crtc(self, crtc: u32) -> (monitor: Monitor)
        ensures
            monitor@ == (MonitorView { crtc, ..self@ }),
    {
        Monitor { order: self.order, name: self.name, crtc, rect: self.rect }
    }
}

impl Clone for Monitor {
    fn clone(&self) -> (copy: Monitor)
        ensures
            copy == *self,
            copy@ == self@,
    {
        Monitor { order: self.order, name: self.name.clone(), crtc: self.crtc, rect: self.rect }
    }
}

impl PartialEq for Monitor {
    fn eq(&self, other: &Monitor) -> (equal: bool) {
        self.order == other.order && self.name == other.name && self.crtc == other.crtc
            && self.rect == other.rect
    }
}

impl Eq for Monitor {

}

/// Monitors compare by value: order, name, CRTC index and rectangle.
impl PartialEqSpecImpl for Monitor {
    open spec fn obeys_eq_spec() -> bool {
        true
    }

    open spec fn eq_spec(&self, other: &Monitor) -> bool {
        self@ == other@
    }
}

} // verus!
