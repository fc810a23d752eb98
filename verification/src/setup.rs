//! A group of monitors used together, kept in clockwise order.

use crate::arrangement::{
    arranged, corner, lemma_arranged_is_well_arranged, lemma_insert_position,
    lemma_orders_are_positions, numbered, order_at, sorted_clockwise, views, well_arranged,
};
use crate::clockwise::{
    clockwise_before, clockwise_le, lemma_clockwise_transitive, lemma_clockwise_trichotomy,
    precedes_clockwise,
};
use crate::error::MonitorUtilsError;
use crate::geometry::Point;
use crate::monitor::{Monitor, MonitorView};
use vstd::prelude::*;

verus! {

/// Abstracts loading the list of monitors from the respective environment. By
/// implementing this trait, the library can be used with arbitrary windowing
/// systems. Nothing is asked of the list: a setup puts it in order itself.
pub trait LoadMonitors<E> {
    /// What the source may answer when it is asked for the monitors. A loader
    /// that says nothing of itself may answer anything; one that says more
    /// is held to it, and what a setup makes of its answer is known as far as
    /// the answer is.
    open spec fn may_load(&self, answer: Result<Vec<Monitor>, E>) -> bool {
        true
    }

    fn load_monitors(&self) -> (answer: Result<Vec<Monitor>, E>)
        ensures
            self.may_load(answer),
    ;
}

/// `res` is what is made of an answer of a loader: a setup of the monitors
/// that were loaded, arranged, or the error of the loader as it is.
pub open spec fn made_of<E>(answer: Result<Vec<Monitor>, E>, res: Result<MonitorSetup, E>) -> bool {
    match answer {
        Ok(monitors) => res matches Ok(setup) && setup@ == arranged(views(monitors@)),
        Err(e) => res matches Err(f) && f == e,
    }
}

/// A setup that held `before` holds `after` once an answer of a loader is
/// taken in, and `res` tells how it went: the monitors that were loaded,
/// arranged, replace those of the setup, or the setup stays as it is and the
/// error of the loader is handed on.
pub open spec fn taken_in<E>(
    answer: Result<Vec<Monitor>, E>,
    before: Seq<MonitorView>,
    after: Seq<MonitorView>,
    res: Result<(), E>,
) -> bool {
    match answer {
        Ok(monitors) => res is Ok && after == arranged(views(monitors@)),
        Err(e) => res matches Err(f) && f == e && after == before,
    }
}

/// A `MonitorSetup` represents a group of monitors used in conjunction with
/// one another. Once loaded, its monitors stand in clockwise order, and each
/// carries the number of its position. A setup restored from a snapshot holds
/// what the snapshot held.
#[derive(Debug)]
pub struct MonitorSetup {
    monitors: Vec<Monitor>,
}

impl View for MonitorSetup {
    type V = Seq<MonitorView>;

    closed spec fn view(&self) -> Seq<MonitorView> {
        views(self.monitors@)
    }
}

/// The position, among `count` monitors standing in a circle, that lies
/// `offset` steps behind position `index`: forwards for a positive offset,
/// backwards for a negative one, around the circle as often as needed.
pub open spec fn index_at_offset(count: int, index: int, offset: int) -> int {
    (index + offset) % count
}

/// The monitor of `s` that lies `offset` steps from `m` in clockwise direction,
/// where `m` is found by its order number.
pub open spec fn neighbor(s: Seq<MonitorView>, m: MonitorView, offset: int) -> MonitorView {
    s[index_at_offset(s.len() as int, m.order as int, offset)]
}

/// `i` is the first position of `s` whose monitor holds the point `p`.
pub open spec fn is_first_containing(s: Seq<MonitorView>, p: Point, i: int) -> bool {
    &&& 0 <= i < s.len()
    &&& s[i].rect.contains(p)
    &&& forall|j: int| 0 <= j < i ==> !(#[trigger] s[j]).rect.contains(p)
}

/// No monitor of `s` holds the point `p`.
pub open spec fn none_contains(s: Seq<MonitorView>, p: Point) -> bool {
    forall|j: int| 0 <= j < s.len() ==> !(#[trigger] s[j]).rect.contains(p)
}

/// The monitor on which the point `p` is found: the first of `s` that holds
/// it, if any does.
pub open spec fn monitor_at_point(s: Seq<MonitorView>, p: Point) -> Option<MonitorView> {
    if none_contains(s, p) {
        None
    } else {
        Some(s[choose|i: int| is_first_containing(s, p, i)])
    }
}

/// The monitor reached from `m` by `times` steps of `offset` positions each.
pub open spec fn walk(s: Seq<MonitorView>, m: MonitorView, offset: int, times: nat) -> MonitorView
    decreases times,
{
    if times == 0 {
        m
    } else {
        neighbor(s, walk(s, m, offset, (times - 1) as nat), offset)
    }
}

/// The monitors that a snapshot stands for: each entry is an order number and
/// the monitor that carried it.
pub open spec fn stored(entries: Seq<(u32, Monitor)>) -> Seq<MonitorView> {
    Seq::new(entries.len(), |i: int| MonitorView { order: entries[i].0, ..entries[i].1@ })
}

/// At most one position is the first whose monitor holds a point.
pub proof fn lemma_first_containing_is_unique(s: Seq<MonitorView>, p: Point, i: int, k: int)
    requires
        is_first_containing(s, p, i),
        is_first_containing(s, p, k),
    ensures
        i == k,
{
}

/// A point that lies on exactly one monitor is found on that monitor and on
/// no other.
pub proof fn lemma_sole_container_is_first(s: Seq<MonitorView>, p: Point, i: int)
    requires
        0 <= i < s.len(),
        s[i].rect.contains(p),
        forall|j: int| 0 <= j < s.len() && j != i ==> !(#[trigger] s[j]).rect.contains(p),
    ensures
        is_first_containing(s, p, i),
        !none_contains(s, p),
        forall|k: int| is_first_containing(s, p, k) ==> k == i,
        monitor_at_point(s, p) == Some(s[i]),
{
    assert(is_first_containing(s, p, i));
}

/// A point that lies on no monitor is found on none.
pub proof fn lemma_outside_every_monitor(s: Seq<MonitorView>, p: Point)
    requires
        forall|j: int| 0 <= j < s.len() ==> !(#[trigger] s[j]).rect.contains(p),
    ensures
        none_contains(s, p),
        monitor_at_point(s, p) is None,
        forall|k: int| !is_first_containing(s, p, k),
{
}

/// Walking from the monitor at position `i` of a setup for `times` steps of
/// `offset` positions each ends at the position that lies `times * offset`
/// behind `i` on the circle.
pub proof fn lemma_walk(s: Seq<MonitorView>, i: int, offset: int, times: nat)
    requires
        well_arranged(s),
        s.len() <= 0x1_0000_0000,
        0 <= i < s.len(),
    ensures
        walk(s, s[i], offset, times) == s[index_at_offset(s.len() as int, i, times * offset)],
    decreases times,
{
    let n = s.len() as int;
    lemma_orders_are_positions(s);
    if times == 0 {
        assert(times * offset == 0) by (nonlinear_arith)
            requires
                times == 0,
        ;
        vstd::arithmetic::div_mod::lemma_small_mod(i as nat, n as nat);
    } else {
        let before = (times - 1) as nat;
        lemma_walk(s, i, offset, before);
        vstd::arithmetic::div_mod::lemma_mod_bound(i + before * offset, n);
        vstd::arithmetic::div_mod::lemma_add_mod_noop_right(offset, i + before * offset, n);
        assert(times * offset == before * offset + offset) by (nonlinear_arith)
            requires
                times == before + 1,
        ;
    }
}

/// Stepping clockwise as many times as the setup has monitors leads back to
/// the monitor from which the walk began, and so does stepping
/// counter-clockwise as many times.
pub proof fn lemma_full_circle(s: Seq<MonitorView>, i: int)
    requires
        well_arranged(s),
        s.len() <= 0x1_0000_0000,
        0 <= i < s.len(),
    ensures
        walk(s, s[i], 1, s.len()) == s[i],
        walk(s, s[i], -1, s.len()) == s[i],
{
    let n = s.len() as int;
    lemma_walk(s, i, 1, s.len());
    lemma_walk(s, i, -1, s.len());
    vstd::arithmetic::div_mod::lemma_small_mod(i as nat, n as nat);
    vstd::arithmetic::div_mod::lemma_mod_multiples_vanish(1, i, n);
    vstd::arithmetic::div_mod::lemma_mod_multiples_vanish(-1, i, n);
    assert(s.len() * 1 == n * 1 && s.len() * (-1) == n * (-1)) by (nonlinear_arith)
        requires
            n == s.len(),
    ;
}

/// The steps in the two directions undo each other: from the clockwise
/// neighbor of a monitor of the setup the counter-clockwise step leads back to
/// it, and the other way round.
pub proof fn lemma_neighbors_are_inverse(s: Seq<MonitorView>, i: int)
    requires
        well_arranged(s),
        s.len() <= 0x1_0000_0000,
        0 <= i < s.len(),
    ensures
        neighbor(s, neighbor(s, s[i], 1), -1) == s[i],
        neighbor(s, neighbor(s, s[i], -1), 1) == s[i],
{
    lemma_walk(s, i, 1, 1);
    lemma_walk(s, i, -1, 1);
    lemma_orders_are_positions(s);
    let n = s.len() as int;
    vstd::arithmetic::div_mod::lemma_mod_bound(i + 1, n);
    vstd::arithmetic::div_mod::lemma_mod_bound(i - 1, n);
    vstd::arithmetic::div_mod::lemma_add_mod_noop_right(-1, i + 1, n);
    vstd::arithmetic::div_mod::lemma_add_mod_noop_right(1, i - 1, n);
    vstd::arithmetic::div_mod::lemma_small_mod(i as nat, n as nat);
}

/// In a setup of a single monitor that monitor is its own neighbor on either
/// side.
pub proof fn lemma_single_monitor_is_its_own_neighbor(s: Seq<MonitorView>, m: MonitorView)
    requires
        s.len() == 1,
    ensures
        neighbor(s, m, 1) == s[0],
        neighbor(s, m, -1) == s[0],
{
}

impl MonitorSetup {
    /// Sorts the monitors in clockwise order, with farther monitors coming
    /// before nearer ones on the same ray, and gives each the number of its
    /// position.
    pub fn sort_clockwise(monitors: &mut Vec<Monitor>)
        ensures
            views(final(monitors)@) == arranged(views(old(monitors)@)),
    {
        let mut unsorted: Vec<Monitor> = Vec::new();
        core::mem::swap(monitors, &mut unsorted);
        let ghost given = views(unsorted@);
        for monitor in it: unsorted
            invariant
                views(it.seq()) == given,
                views(monitors@) == sorted_clockwise(given.take(it.index() as int)),
        {
            let ghost before = views(monitors@);
            let corner_of_new = monitor.rect().offset();
            let mut at: usize = monitors.len();
            loop
                invariant
                    at <= monitors.len(),
                    corner_of_new == corner(monitor@),
                    forall|k: int|
                        at <= k < monitors.len() ==> clockwise_before(
                            corner(monitor@),
                            corner(#[trigger] monitors@[k]@),
                        ),
                ensures
                    at > 0 ==> !clockwise_before(corner(monitor@), corner(monitors@[at - 1]@)),
                decreases at,
            {
                if at == 0 {
                    break ;
                }
                let corner_of_last = monitors[at - 1].rect().offset();
                if !precedes_clockwise(&corner_of_new, &corner_of_last) {
                    break ;
                }
                at = at - 1;
            }
            proof {
                lemma_insert_position(before, monitor@, at as int);
                let done = given.take(it.index() as int);
                let next = given.take(it.index() as int + 1);
                assert(next.drop_last() =~= done);
            }
            monitors.insert(at, monitor);
        }
        assert(given.take(given.len() as int) =~= given);
        MonitorSetup::update_monitor_ordering(monitors);
    }

    /// Updates the order of the monitors, such that each holds the number of its
    /// position in the list.
    pub fn update_monitor_ordering(monitors: &mut Vec<Monitor>)
        ensures
            views(final(monitors)@) == numbered(views(old(monitors)@)),
    {
        let mut unnumbered: Vec<Monitor> = Vec::new();
        core::mem::swap(monitors, &mut unnumbered);
        let ghost given = views(unnumbered@);
        for monitor in it: unnumbered
            invariant
                views(it.seq()) == given,
                monitors.len() == it.index(),
                views(monitors@) == numbered(given).take(it.index() as int),
        {
            let position: u64 = monitors.len() as u64;
            let order: u32 = (position % 0x1_0000_0000) as u32;
            monitors.push(monitor.with_order(order));
        }
    }

    /// Makes a setup without monitors, to be filled by `reload`.
    pub fn new() -> (setup: MonitorSetup)
        ensures
            setup@ == Seq::<MonitorView>::empty(),
            well_arranged(setup@),
    {
        MonitorSetup { monitors: Vec::new() }
    }

    /// Makes a setup of the given monitors: they are put in clockwise order
    /// and numbered, whatever order numbers they came with.
    pub fn from_monitors(monitors: Vec<Monitor>) -> (setup: MonitorSetup)
        ensures
            setup@ == arranged(views(monitors@)),
            setup@.len() == monitors@.len(),
            well_arranged(setup@),
    {
        let mut monitors = monitors;
        let ghost given = views(monitors@);
        MonitorSetup::sort_clockwise(&mut monitors);
        proof {
            lemma_arranged_is_well_arranged(given);
        }
        MonitorSetup { monitors }
    }

    /// What `with_loader` makes of the answer of its loader: a setup of the
    /// monitors that were loaded, or the loader's error.
    pub fn from_loaded<E>(loaded: Result<Vec<Monitor>, E>) -> (res: Result<MonitorSetup, E>)
        ensures
            match loaded {
                Ok(monitors) => res matches Ok(setup) && setup@ == arranged(views(monitors@)),
                Err(e) => res matches Err(f) && f == e,
            },
            res matches Ok(setup) ==> well_arranged(setup@),
    {
        match loaded {
            Ok(monitors) => Ok(MonitorSetup::from_monitors(monitors)),
            Err(e) => Err(e),
        }
    }

    /// Given an implementor of `LoadMonitors`, yields a `MonitorSetup` of the
    /// monitors that it loads, or the error with which it fails.
    pub fn with_loader<E>(loader: impl LoadMonitors<E>) -> (res: Result<MonitorSetup, E>)
        ensures
            exists|answer: Result<Vec<Monitor>, E>|
                #[trigger] loader.may_load(answer) && made_of(answer, res),
            res matches Ok(setup) ==> well_arranged(setup@),
    {
        let mut setup = MonitorSetup::new();
        let ghost loader_before = loader;
        let reloaded = setup.reload(loader);
        let res = match reloaded {
            Ok(()) => Ok(setup),
            Err(e) => Err(e),
        };
        proof {
            let answer = choose|answer: Result<Vec<Monitor>, E>|
                #[trigger] loader_before.may_load(answer) && taken_in(
                    answer,
                    Seq::<MonitorView>::empty(),
                    setup@,
                    reloaded,
                );
            assert(loader_before.may_load(answer) && made_of(answer, res));
        }
        res
    }

    /// What `reload` makes of the answer of its loader: the monitors that were
    /// loaded replace those of the setup; on an error the setup stays as it
    /// is.
    pub fn install<E>(&mut self, loaded: Result<Vec<Monitor>, E>) -> (res: Result<(), E>)
        ensures
            match loaded {
                Ok(monitors) => res is Ok && final(self)@ == arranged(views(monitors@)),
                Err(e) => res matches Err(f) && f == e && final(self)@ == old(self)@,
            },
            res is Ok ==> well_arranged(final(self)@),
    {
        match loaded {
            Ok(monitors) => {
                let mut monitors = monitors;
                let ghost given = views(monitors@);
                MonitorSetup::sort_clockwise(&mut monitors);
                proof {
                    lemma_arranged_is_well_arranged(given);
                }
                self.monitors = monitors;
                Ok(())
            },
            Err(e) => Err(e),
        }
    }

    /// Reloads the list of monitors from the source, and puts it in clockwise
    /// order. Where the source fails, its error is returned and the setup
    /// stays as it is.
    pub fn reload<E>(&mut self, loader: impl LoadMonitors<E>) -> (res: Result<(), E>)
        ensures
            exists|answer: Result<Vec<Monitor>, E>|
                #[trigger] loader.may_load(answer) && taken_in(
                    answer,
                    old(self)@,
                    final(self)@,
                    res,
                ),
            res is Ok ==> well_arranged(final(self)@),
            res is Err ==> final(self)@ == old(self)@,
    {
        let answer = loader.load_monitors();
        let ghost given = answer;
        let res = self.install(answer);
        assert(loader.may_load(given) && taken_in(given, old(self)@, self@, res));
        res
    }

    /// The monitors of the setup, in the order in which it holds them.
    pub fn monitors(&self) -> (monitors: &Vec<Monitor>)
        ensures
            views(monitors@) == self@,
    {
        &self.monitors
    }

    /// The number of monitors in the setup.
    pub fn len(&self) -> (count: usize)
        ensures
            count == self@.len(),
    {
        self.monitors.len()
    }

    /// Tells whether the setup meets the ordering invariant: its monitors stand
    /// in clockwise order, and each carries the number of its position. A setup
    /// that was loaded always does; one that was restored does if the snapshot
    /// did.
    pub fn is_well_arranged(&self) -> (ok: bool)
        ensures
            ok == well_arranged(self@),
    {
        let mut i: usize = 0;
        while i < self.monitors.len()
            invariant
                i <= self.monitors.len(),
                well_arranged(self@.take(i as int)),
            decreases self.monitors.len() - i,
        {
            let ghost before = self@.take(i as int);
            let ghost after = self@.take(i as int + 1);
            let position: u64 = i as u64;
            if self.monitors[i].order() != (position % 0x1_0000_0000) as u32 {
                assert(self@[i as int].order != order_at(i as int));
                return false;
            }
            if i > 0 {
                let corner_of_last = self.monitors[i - 1].rect().offset();
                let corner_of_this = self.monitors[i].rect().offset();
                if precedes_clockwise(&corner_of_this, &corner_of_last) {
                    assert(!clockwise_le(corner(self@[i as int - 1]), corner(self@[i as int])));
                    return false;
                }
            }
            proof {
                assert forall|a: int, b: int| 0 <= a <= b < after.len() implies clockwise_le(
                    corner(#[trigger] after[a]),
                    corner(#[trigger] after[b]),
                ) by {
                    lemma_clockwise_trichotomy(corner(after[a]), corner(after[b]));
                    if b < i {
                        assert(clockwise_le(corner(before[a]), corner(before[b])));
                    } else if a < i {
                        assert(clockwise_le(corner(before[a]), corner(before[i as int - 1])));
                        lemma_clockwise_transitive(
                            corner(before[a]),
                            corner(before[i as int - 1]),
                            corner(after[i as int]),
                        );
                    }
                }
                assert forall|a: int| 0 <= a < after.len() implies (#[trigger] after[a]).order
                    == order_at(a) by {
                    if a < i {
                        assert(before[a].order == order_at(a));
                    }
                }
            }
            i = i + 1;
        }
        assert(self@.take(i as int) =~= self@);
        true
    }

    /// What the setup holds, to be kept and handed to `restore` later: its
    /// monitors in their order, each with its order number.
    pub fn snapshot(&self) -> (entries: Vec<(u32, Monitor)>)
        ensures
            stored(entries@) == self@,
    {
        let mut entries: Vec<(u32, Monitor)> = Vec::new();
        let mut i: usize = 0;
        while i < self.monitors.len()
            invariant
                i <= self.monitors.len(),
                entries.len() == i,
                stored(entries@) == self@.take(i as int),
            decreases self.monitors.len() - i,
        {
            let monitor = self.monitors[i].clone();
            entries.push((monitor.order(), monitor));
            i = i + 1;
        }
        entries
    }

    /// Makes a setup of a snapshot, as it is: the monitors stay in the order
    /// of the snapshot and keep the order numbers stored with them. Nothing is
    /// sorted, numbered or looked into: the snapshot is trusted, and every
    /// snapshot gives a setup.
    pub fn restore(entries: Vec<(u32, Monitor)>) -> (res: Result<MonitorSetup, MonitorUtilsError>)
        ensures
            res matches Ok(setup) && setup@ == stored(entries@),
    {
        let ghost given = entries@;
        let mut monitors: Vec<Monitor> = Vec::new();
        for entry in it: entries
            invariant
                it.seq() == given,
                monitors.len() == it.index(),
                views(monitors@) == stored(given).take(it.index() as int),
        {
            let (order, monitor) = entry;
            monitors.push(monitor.with_order(order));
        }
        Ok(MonitorSetup { monitors })
    }

    /// Makes a setup of a snapshot as `restore` does, where the snapshot meets
    /// the ordering invariant, as every snapshot of a loaded setup does. Any
    /// other snapshot is refused with `InvalidMonitorSetup`.
    pub fn restore_checked(entries: Vec<(u32, Monitor)>) -> (res: Result<
        MonitorSetup,
        MonitorUtilsError,
    >)
        ensures
            match res {
                Ok(setup) => well_arranged(stored(entries@)) && setup@ == stored(entries@),
                Err(e) => !well_arranged(stored(entries@)) && e
                    == MonitorUtilsError::InvalidMonitorSetup,
            },
    {
        match MonitorSetup::restore(entries) {
            Ok(setup) => {
                if setup.is_well_arranged() {
                    Ok(setup)
                } else {
                    Err(MonitorUtilsError::InvalidMonitorSetup)
                }
            },
            Err(e) => Err(e),
        }
    }

    /// Yields the monitor which contains the given point: the first of the
    /// setup, which in a loaded setup is the first in clockwise order, where
    /// monitors overlap. Fails with `PointOutOfBounds`
    /// if and only if no monitor contains the point.
    pub fn monitor_containing_point(&self, point: &Point) -> (res: Result<
        &Monitor,
        MonitorUtilsError,
    >)
        ensures
            match res {
                Ok(monitor) => exists|i: int|
                    is_first_containing(self@, *point, i) && monitor@ == self@[i],
                Err(e) => e == MonitorUtilsError::PointOutOfBounds(*point) && none_contains(
                    self@,
                    *point,
                ),
            },
            res is Err <==> none_contains(self@, *point),
            match res {
                Ok(monitor) => monitor_at_point(self@, *point) == Some(monitor@),
                Err(_) => monitor_at_point(self@, *point) is None,
            },
    {
        let mut i: usize = 0;
        while i < self.monitors.len()
            invariant
                i <= self.monitors.len(),
                forall|j: int| 0 <= j < i ==> !(#[trigger] self@[j]).rect.contains(*point),
            decreases self.monitors.len() - i,
        {
            let monitor = &self.monitors[i];
            if monitor.rect().contains_point(point) {
                assert(is_first_containing(self@, *point, i as int));
                proof {
                    let chosen = choose|k: int| is_first_containing(self@, *point, k);
                    lemma_first_containing_is_unique(self@, *point, i as int, chosen);
                }
                return Ok(monitor);
            }
            i = i + 1;
        }
        Err(MonitorUtilsError::PointOutOfBounds(*point))
    }

    /// Given a monitor index and an offset, returns the monitor at the offset
    /// index, such that overflows loop back to the beginning, and underflows
    /// loop back from the end. Fails with `InvalidMonitorSetup` if and only if
    /// the setup has no monitors.
    pub fn monitor_at_offset_index(&self, index: u32, offset: i32) -> (res: Result<
        &Monitor,
        MonitorUtilsError,
    >)
        ensures
            match res {
                Ok(monitor) => self@.len() > 0 && monitor@ == self@[index_at_offset(
                    self@.len() as int,
                    index as int,
                    offset as int,
                )],
                Err(e) => self@.len() == 0 && e == MonitorUtilsError::InvalidMonitorSetup,
            },
    {
        let num_monitors: usize = self.monitors.len();
        if num_monitors == 0 {
            return Err(MonitorUtilsError::InvalidMonitorSetup);
        }
        let count: u128 = num_monitors as u128;
        // Add back a multiple of the count, so that the index is not negative
        // however far the offset reaches back.
        let turns: u128 = 0x8000_0000u128 / count + 1;
        assert(0x8000_0000 <= turns * count <= 0x8000_0000 + count) by (nonlinear_arith)
            requires
                turns == 0x8000_0000u128 / count + 1,
                count > 0,
        ;
        let lift: u128 = turns * count;
        let lifted: i128 = index as i128 + offset as i128 + lift as i128;
        let new_index: u128 = lifted as u128 % count;
        proof {
            vstd::arithmetic::div_mod::lemma_mod_multiples_vanish(
                turns as int,
                index as int + offset as int,
                count as int,
            );
            assert(count as int * turns as int == lift as int) by (nonlinear_arith)
                requires
                    lift == turns * count,
            ;
        }
        Ok(&self.monitors[new_index as usize])
    }

    /// Yields the monitor that lies `offset` steps from `monitor` in clockwise
    /// direction, or in counter-clockwise direction where `offset` is
    /// negative. The monitor is found by its order number. Fails with
    /// `InvalidMonitorSetup` if and only if the setup has no monitors.
    pub fn monitor_at_offset(&self, monitor: &Monitor, offset: i32) -> (res: Result<
        &Monitor,
        MonitorUtilsError,
    >)
        ensures
            match res {
                Ok(found) => self@.len() > 0 && found@ == neighbor(self@, monitor@, offset as int),
                Err(e) => self@.len() == 0 && e == MonitorUtilsError::InvalidMonitorSetup,
            },
    {
        self.monitor_at_offset_index(monitor.order(), offset)
    }

    /// Yields the next monitor in a clockwise traversal of the setup.
    pub fn next_monitor_clockwise(&self, monitor: &Monitor) -> (res: Result<
        &Monitor,
        MonitorUtilsError,
    >)
        ensures
            match res {
                Ok(next) => self@.len() > 0 && next@ == neighbor(self@, monitor@, 1),
                Err(e) => self@.len() == 0 && e == MonitorUtilsError::InvalidMonitorSetup,
            },
    {
        self.monitor_at_offset(monitor, 1)
    }

    /// Yields the next monitor in a counter-clockwise traversal of the setup.
    pub fn next_monitor_counterclockwise(&self, monitor: &Monitor) -> (res: Result<
        &Monitor,
        MonitorUtilsError,
    >)
        ensures
            match res {
                Ok(next) => self@.len() > 0 && next@ == neighbor(self@, monitor@, -1),
                Err(e) => self@.len() == 0 && e == MonitorUtilsError::InvalidMonitorSetup,
            },
    {
        self.monitor_at_offset(monitor, -1)
    }
}

} // verus!
