//! Queries strung together: each action takes what the action before it
//! yielded, and yields a point, a monitor or a rectangle in turn.

use crate::decimal::{decimal_digits, u32_to_text};
use crate::error::MonitorUtilsError;
use crate::geometry::{Point, Rect};
use crate::monitor::{Monitor, MonitorView};
use crate::setup::{monitor_at_point, neighbor, MonitorSetup};
use vstd::prelude::*;
use vstd::string::StringExecFns;

verus! {

/// One step of a pipeline.
#[derive(Clone, Copy, PartialEq, Eq, Debug, Structural)]
pub enum Action {
    /// Yields the monitor containing the point. Takes nothing from the step
    /// before it.
    MonitorAtPoint(Point),
    /// Given a monitor, yields the next monitor in a clockwise rotation.
    NextMonitorClockwise,
    /// Given a monitor, yields the next monitor in a counter-clockwise
    /// rotation.
    NextMonitorCounterClockwise,
    /// Given a monitor, yields the point at the center of the monitor.
    MonitorCenter,
    /// Given a monitor, yields the geometry of the monitor.
    MonitorGeometry,
}

/// What one action hands to the next.
#[derive(Debug)]
pub enum Accumulator<'a> {
    AccumPoint(Point),
    AccumMonitor(&'a Monitor),
    AccumRect(Rect),
}

/// What an accumulator holds, as a value.
pub enum AccumulatorView {
    Point(Point),
    Monitor(MonitorView),
    Rect(Rect),
}

impl<'a> View for Accumulator<'a> {
    type V = AccumulatorView;

    open spec fn view(&self) -> AccumulatorView {
        match *self {
            Accumulator::AccumPoint(point) => AccumulatorView::Point(point),
            Accumulator::AccumMonitor(monitor) => AccumulatorView::Monitor(monitor@),
            Accumulator::AccumRect(rect) => AccumulatorView::Rect(rect),
        }
    }
}

/// Why a pipeline stopped.
#[derive(Clone, Copy, PartialEq, Eq, Debug, Structural)]
pub enum PipelineError {
    /// A query on the monitor setup failed.
    Query(MonitorUtilsError),
    /// An action that works on a monitor was handed a point or a rectangle.
    ExpectedMonitor,
}

/// The outcome of a pipeline as a value.
pub open spec fn outcome_view(outcome: Result<Accumulator<'_>, PipelineError>) -> Result<
    AccumulatorView,
    PipelineError,
> {
    match outcome {
        Ok(accumulator) => Ok(accumulator@),
        Err(e) => Err(e),
    }
}

/// What `action` yields on the setup `s` when the step before it yielded
/// `accumulator`.
pub open spec fn step(s: Seq<MonitorView>, accumulator: AccumulatorView, action: Action) -> Result<
    AccumulatorView,
    PipelineError,
> {
    match action {
        Action::MonitorAtPoint(point) => match monitor_at_point(s, point) {
            Some(monitor) => Ok(AccumulatorView::Monitor(monitor)),
            None => Err(PipelineError::Query(MonitorUtilsError::PointOutOfBounds(point))),
        },
        _ => match accumulator {
            AccumulatorView::Monitor(monitor) => match action {
                Action::NextMonitorClockwise => if s.len() > 0 {
                    Ok(AccumulatorView::Monitor(neighbor(s, monitor, 1)))
                } else {
                    Err(PipelineError::Query(MonitorUtilsError::InvalidMonitorSetup))
                },
                Action::NextMonitorCounterClockwise => if s.len() > 0 {
                    Ok(AccumulatorView::Monitor(neighbor(s, monitor, -1)))
                } else {
                    Err(PipelineError::Query(MonitorUtilsError::InvalidMonitorSetup))
                },
                Action::MonitorCenter => Ok(AccumulatorView::Point(monitor.rect.center())),
                _ => Ok(AccumulatorView::Rect(monitor.rect)),
            },
            _ => Err(PipelineError::ExpectedMonitor),
        },
    }
}

/// What the actions yield when they are run from left to right, the first on
/// `accumulator` and each of the others on what the one before it yielded. The
/// first action that fails ends the run.
pub open spec fn run(s: Seq<MonitorView>, accumulator: AccumulatorView, actions: Seq<Action>) -> Result<
    AccumulatorView,
    PipelineError,
>
    decreases actions.len(),
{
    if actions.len() == 0 {
        Ok(accumulator)
    } else {
        match step(s, accumulator, actions.first()) {
            Ok(next) => run(s, next, actions.drop_first()),
            Err(e) => Err(e),
        }
    }
}

/// Runs one action on what the step before it yielded.
pub fn apply_action<'a>(
    setup: &'a MonitorSetup,
    accumulator: Accumulator<'a>,
    action: &Action,
) -> (res: Result<Accumulator<'a>, PipelineError>)
    ensures
        outcome_view(res) == step(setup@, accumulator@, *action),
{
    match action {
        Action::MonitorAtPoint(point) => match setup.monitor_containing_point(point) {
            Ok(monitor) => Ok(Accumulator::AccumMonitor(monitor)),
            Err(e) => Err(PipelineError::Query(e)),
        },
        _ => {
            let monitor = match accumulator {
                Accumulator::AccumMonitor(monitor) => monitor,
                _ => {
                    return Err(PipelineError::ExpectedMonitor);
                },
            };
            match action {
                Action::NextMonitorClockwise => match setup.next_monitor_clockwise(monitor) {
                    Ok(next) => Ok(Accumulator::AccumMonitor(next)),
                    Err(e) => Err(PipelineError::Query(e)),
                },
                Action::NextMonitorCounterClockwise => match setup.next_monitor_counterclockwise(
                    monitor,
                ) {
                    Ok(next) => Ok(Accumulator::AccumMonitor(next)),
                    Err(e) => Err(PipelineError::Query(e)),
                },
                Action::MonitorCenter => Ok(Accumulator::AccumPoint(monitor.rect().center())),
                _ => Ok(Accumulator::AccumRect(*monitor.rect())),
            }
        },
    }
}

/// Runs the actions from left to right, beginning with the point at the
/// top-left corner of the virtual screen.
pub fn run_actions<'a>(setup: &'a MonitorSetup, actions: &Vec<Action>) -> (res: Result<
    Accumulator<'a>,
    PipelineError,
>)
    ensures
        outcome_view(res) == run(setup@, AccumulatorView::Point(Point::new(0, 0)), actions@),
{
    let mut accumulator = Accumulator::AccumPoint(Point::new(0, 0));
    let mut done: usize = 0;
    assert(actions@.skip(0) =~= actions@);
    while done < actions.len()
        invariant
            done <= actions.len(),
            run(setup@, AccumulatorView::Point(Point::new(0, 0)), actions@) == run(
                setup@,
                accumulator@,
                actions@.skip(done as int),
            ),
        decreases actions.len() - done,
    {
        let ghost rest = actions@.skip(done as int);
        assert(rest.drop_first() =~= actions@.skip(done as int + 1));
        match apply_action(setup, accumulator, &actions[done]) {
            Ok(next) => {
                accumulator = next;
            },
            Err(e) => {
                return Err(e);
            },
        }
        done = done + 1;
    }
    Ok(accumulator)
}

/// A point as it is shown: `Point { x: 960, y: 540 }`.
pub open spec fn point_text(point: Point) -> Seq<char> {
    "Point { x: "@ + decimal_digits(point.x() as nat) + ", y: "@ + decimal_digits(
        point.y() as nat,
    ) + " }"@
}

/// A rectangle as it is shown:
/// `Rect { width: 1920, height: 1080, offset: Point { x: 0, y: 0 } }`.
pub open spec fn rect_text(rect: Rect) -> Seq<char> {
    "Rect { width: "@ + decimal_digits(rect.width() as nat) + ", height: "@ + decimal_digits(
        rect.height() as nat,
    ) + ", offset: "@ + point_text(rect.offset()) + " }"@
}

/// What a pipeline prints of its outcome. For a shell these are assignments
/// to variables, one to a line, fit to be evaluated: `X` and `Y` for a point,
/// `ADAPTER` for a monitor, and `X_OFFSET`, `Y_OFFSET`, `WIDTH` and `HEIGHT`
/// for a rectangle. For a reader it is the point or the rectangle as it is
/// shown, or the name of the monitor.
pub open spec fn rendered(outcome: AccumulatorView, shell: bool) -> Seq<char> {
    match outcome {
        AccumulatorView::Point(point) => if shell {
            "X="@ + decimal_digits(point.x() as nat) + "\nY="@ + decimal_digits(point.y() as nat)
        } else {
            point_text(point)
        },
        AccumulatorView::Monitor(monitor) => if shell {
            "ADAPTER="@ + monitor.name
        } else {
            monitor.name
        },
        AccumulatorView::Rect(rect) => if shell {
            "X_OFFSET="@ + decimal_digits(rect.offset().x() as nat) + "\nY_OFFSET="@
                + decimal_digits(rect.offset().y() as nat) + "\nWIDTH="@ + decimal_digits(
                rect.width() as nat,
            ) + "\nHEIGHT="@ + decimal_digits(rect.height() as nat)
        } else {
            rect_text(rect)
        },
    }
}

fn with_number(text: String, number: u32) -> (longer: String)
    ensures
        longer@ == text@ + decimal_digits(number as nat),
{
    let digits = u32_to_text(number);
    text.concat(digits.as_str())
}

fn show_point(point: &Point) -> (text: String)
    ensures
        text@ == point_text(*point),
{
    let text: String = "Point { x: ".to_owned();
    let text = with_number(text, point.x());
    let text = text.concat(", y: ");
    let text = with_number(text, point.y());
    text.concat(" }")
}

fn show_rect(rect: &Rect) -> (text: String)
    ensures
        text@ == rect_text(*rect),
{
    let text: String = "Rect { width: ".to_owned();
    let text = with_number(text, rect.width());
    let text = text.concat(", height: ");
    let text = with_number(text, rect.height());
    let text = text.concat(", offset: ");
    let offset = show_point(&rect.offset());
    let text = text.concat(offset.as_str());
    let text = text.concat(" }");
    text
}

/// Writes the outcome of a pipeline as it is printed: as shell variables
/// where `shell` is set, and for a reader where it is not.
pub fn render(outcome: &Accumulator<'_>, shell: bool) -> (text: String)
    ensures
        text@ == rendered(outcome@, shell),
{
    match outcome {
        Accumulator::AccumPoint(point) => {
            if shell {
                let text: String = "X=".to_owned();
                let text = with_number(text, point.x());
                let text = text.concat("\nY=");
                with_number(text, point.y())
            } else {
                show_point(point)
            }
        },
        Accumulator::AccumMonitor(monitor) => {
            if shell {
                let text: String = "ADAPTER=".to_owned();
                text.concat(monitor.name())
            } else {
                monitor.name().to_owned()
            }
        },
        Accumulator::AccumRect(rect) => {
            if shell {
                let text: String = "X_OFFSET=".to_owned();
                let text = with_number(text, rect.offset().x());
                let text = text.concat("\nY_OFFSET=");
                let text = with_number(text, rect.offset().y());
                let text = text.concat("\nWIDTH=");
                let text = with_number(text, rect.width());
                let text = text.concat("\nHEIGHT=");
                with_number(text, rect.height())
            } else {
                show_rect(rect)
            }
        },
    }
}

} // verus!
