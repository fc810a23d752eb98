//! What it means for a sequence of monitors to be in clockwise order, and
//! what the clockwise arrangement of a sequence is.
//!
//! A monitor is placed by the top-left corner of its rectangle, in the order
//! of [`crate::clockwise`]. Monitors that share a corner keep the order in
//! which they were given.

use crate::clockwise::{
    clockwise_before, clockwise_le, lemma_clockwise_transitive, lemma_clockwise_trichotomy,
};
use crate::geometry::Point;
use crate::monitor::{Monitor, MonitorView};
use vstd::prelude::*;

verus! {

/// The monitors of a list as values.
pub open spec fn views(monitors: Seq<Monitor>) -> Seq<MonitorView> {
    Seq::new(monitors.len(), |i: int| monitors[i]@)
}

/// The point by which a monitor is placed in the clockwise order: the top-left
/// corner of its rectangle.
pub open spec fn corner(m: MonitorView) -> Point {
    m.rect.offset()
}

/// The order number of the monitor at position `i`. Order numbers are 32 bits
/// wide: positions from 2^32 on start again at 0.
pub open spec fn order_at(i: int) -> u32 {
    (i % 0x1_0000_0000) as u32
}

/// No monitor of `s` comes after a later one.
pub open spec fn in_clockwise_order(s: Seq<MonitorView>) -> bool {
    forall|i: int, j: int|
        0 <= i <= j < s.len() ==> clockwise_le(corner(#[trigger] s[i]), corner(#[trigger] s[j]))
}

/// Every monitor of `s` carries the number of its position.
pub open spec fn numbered_by_position(s: Seq<MonitorView>) -> bool {
    forall|i: int| 0 <= i < s.len() ==> (#[trigger] s[i]).order == order_at(i)
}

/// The ordering invariant of a monitor setup: the monitors stand in clockwise
/// order, and each carries the number of its position.
pub open spec fn well_arranged(s: Seq<MonitorView>) -> bool {
    in_clockwise_order(s) && numbered_by_position(s)
}

/// `s` with `m` put in behind every monitor that does not come after it.
pub open spec fn insert_clockwise(s: Seq<MonitorView>, m: MonitorView) -> Seq<MonitorView>
    decreases s.len(),
{
    if s.len() > 0 && clockwise_before(corner(m), corner(s.last())) {
        insert_clockwise(s.drop_last(), m).push(s.last())
    } else {
        s.push(m)
    }
}

/// The monitors of `s` in clockwise order, those that share a corner in the
/// order in which `s` has them.
pub open spec fn sorted_clockwise(s: Seq<MonitorView>) -> Seq<MonitorView>
    decreases s.len(),
{
    if s.len() == 0 {
        s
    } else {
        insert_clockwise(sorted_clockwise(s.drop_last()), s.last())
    }
}

/// The monitors of `s`, each with the number of its position as its order.
pub open spec fn numbered(s: Seq<MonitorView>) -> Seq<MonitorView> {
    Seq::new(s.len(), |i: int| MonitorView { order: order_at(i), ..s[i] })
}

/// The clockwise arrangement of `s`: sorted, then numbered.
pub open spec fn arranged(s: Seq<MonitorView>) -> Seq<MonitorView> {
    numbered(sorted_clockwise(s))
}

/// Where `m` comes before everything from position `at` on, and not before
/// the monitor in front of that position, `at` is where it is put in.
pub proof fn lemma_insert_position(s: Seq<MonitorView>, m: MonitorView, at: int)
    requires
        0 <= at <= s.len(),
        forall|k: int| at <= k < s.len() ==> clockwise_before(corner(m), corner(#[trigger] s[k])),
        at > 0 ==> !clockwise_before(corner(m), corner(s[at - 1])),
    ensures
        insert_clockwise(s, m) == s.insert(at, m),
    decreases s.len() - at,
{
    if at < s.len() {
        lemma_insert_position(s.drop_last(), m, at);
    }
}

/// Putting a monitor in is inserting it at some position: in front of it stand
/// only monitors that do not come after it, behind it only monitors that do.
proof fn lemma_insert_is_insertion(s: Seq<MonitorView>, m: MonitorView) -> (at: int)
    ensures
        0 <= at <= s.len(),
        insert_clockwise(s, m) == s.insert(at, m),
        forall|k: int| at <= k < s.len() ==> clockwise_before(corner(m), corner(#[trigger] s[k])),
        at > 0 ==> !clockwise_before(corner(m), corner(s[at - 1])),
    decreases s.len(),
{
    if s.len() > 0 && clockwise_before(corner(m), corner(s.last())) {
        let front = s.drop_last();
        let at = lemma_insert_is_insertion(front, m);
        assert forall|k: int| at <= k < s.len() implies clockwise_before(
            corner(m),
            corner(#[trigger] s[k]),
        ) by {
            if k < front.len() {
                assert(s[k] == front[k]);
            }
        }
        lemma_insert_position(s, m, at);
        at
    } else {
        let at = s.len() as int;
        lemma_insert_position(s, m, at);
        at
    }
}

/// Sorting neither adds nor drops a monitor: the sorted sequence holds every
/// monitor as often as the given one.
pub proof fn lemma_sorted_is_permutation(s: Seq<MonitorView>)
    ensures
        sorted_clockwise(s).len() == s.len(),
        sorted_clockwise(s).to_multiset() == s.to_multiset(),
    decreases s.len(),
{
    if s.len() > 0 {
        let front = s.drop_last();
        lemma_sorted_is_permutation(front);
        let at = lemma_insert_is_insertion(sorted_clockwise(front), s.last());
        vstd::seq_lib::to_multiset_insert(sorted_clockwise(front), at, s.last());
        vstd::seq_lib::to_multiset_build(front, s.last());
        assert(front.push(s.last()) =~= s);
    }
}

/// The sorted sequence is in clockwise order: by angle ascending, and on one
/// ray by distance from the origin descending.
pub proof fn lemma_sorted_in_order(s: Seq<MonitorView>)
    ensures
        in_clockwise_order(sorted_clockwise(s)),
    decreases s.len(),
{
    if s.len() > 0 {
        let front = sorted_clockwise(s.drop_last());
        let m = s.last();
        lemma_sorted_in_order(s.drop_last());
        let at = lemma_insert_is_insertion(front, m);
        let all = front.insert(at, m);
        assert forall|i: int, j: int| 0 <= i <= j < all.len() implies clockwise_le(
            corner(#[trigger] all[i]),
            corner(#[trigger] all[j]),
        ) by {
            lemma_clockwise_trichotomy(corner(all[i]), corner(all[j]));
            if i < at && j == at {
                lemma_clockwise_transitive(corner(front[i]), corner(front[at - 1]), corner(m));
            }
        }
    }
}

/// The monitors whose corner is `c`.
pub open spec fn placed_at(c: Point) -> spec_fn(MonitorView) -> bool {
    |m: MonitorView| corner(m) == c
}

/// Sorting is stable: the monitors that share a corner stand in the sorted
/// sequence in the order in which they were given.
pub proof fn lemma_sorted_is_stable(s: Seq<MonitorView>, c: Point)
    ensures
        sorted_clockwise(s).filter(placed_at(c)) == s.filter(placed_at(c)),
    decreases s.len(),
{
    let here = placed_at(c);
    if s.len() > 0 {
        let given = s.drop_last();
        let m = s.last();
        let front = sorted_clockwise(given);
        lemma_sorted_is_stable(given, c);
        let at = lemma_insert_is_insertion(front, m);
        let head = front.take(at);
        let tail = front.skip(at);
        assert(front =~= head + tail);
        Seq::filter_distributes_over_add(head, tail, here);
        Seq::filter_distributes_over_add(head.push(m), tail, here);
        head.lemma_filter_push(m, here);
        given.lemma_filter_push(m, here);
        assert(given.push(m) =~= s);
        if here(m) {
            assert forall|k: int| 0 <= k < tail.len() implies !here(#[trigger] tail[k]) by {
                lemma_clockwise_trichotomy(corner(m), corner(tail[k]));
            }
            tail.lemma_all_neg_filter_empty(here);
            assert(head.filter(here).push(m) + tail.filter(here) =~= (head.filter(here)
                + tail.filter(here)).push(m));
        }
    }
}

/// Numbering keeps the places and gives every monitor the number of its
/// position.
pub proof fn lemma_numbered(s: Seq<MonitorView>)
    ensures
        numbered(s).len() == s.len(),
        numbered_by_position(numbered(s)),
        forall|i: int| 0 <= i < s.len() ==> corner(#[trigger] numbered(s)[i]) == corner(s[i]),
        in_clockwise_order(s) ==> in_clockwise_order(numbered(s)),
{
}

/// Arranging establishes the ordering invariant: the result holds as many
/// monitors as were given, in clockwise order, each with the number of its
/// position.
pub proof fn lemma_arranged_is_well_arranged(s: Seq<MonitorView>)
    ensures
        arranged(s).len() == s.len(),
        well_arranged(arranged(s)),
{
    lemma_sorted_is_permutation(s);
    lemma_sorted_in_order(s);
    lemma_numbered(sorted_clockwise(s));
}

/// A sequence that meets the ordering invariant is its own arrangement:
/// arranging it again changes nothing.
pub proof fn lemma_well_arranged_is_fixed(s: Seq<MonitorView>)
    requires
        well_arranged(s),
    ensures
        sorted_clockwise(s) == s,
        arranged(s) == s,
    decreases s.len(),
{
    if s.len() > 0 {
        lemma_well_arranged_is_fixed(s.drop_last());
    }
}

/// In a setup of at most 2^32 monitors that meets the ordering invariant the
/// order numbers are the positions: they run from 0 to one less than the
/// number of monitors, none is missing and none occurs twice, and a monitor
/// that stands before another has the smaller number.
pub proof fn lemma_orders_are_positions(s: Seq<MonitorView>)
    requires
        well_arranged(s),
        s.len() <= 0x1_0000_0000,
    ensures
        forall|i: int| 0 <= i < s.len() ==> (#[trigger] s[i]).order == i,
        forall|i: int, j: int|
            0 <= i < j < s.len() ==> (#[trigger] s[i]).order < (#[trigger] s[j]).order,
        s.map_values(|m: MonitorView| m.order as int) == Seq::new(s.len(), |i: int| i),
        forall|i: int, j: int|
            0 <= i < s.len() && 0 <= j < s.len() && (#[trigger] s[i]).order == (#[trigger] s[j]).order
                ==> i == j,
{
}

/// Arranging at most 2^32 monitors numbers them from 0 to one less than
/// their count, in the order in which they then stand.
pub proof fn lemma_arranged_orders_are_positions(s: Seq<MonitorView>)
    requires
        s.len() <= 0x1_0000_0000,
    ensures
        arranged(s).len() == s.len(),
        forall|i: int| 0 <= i < s.len() ==> (#[trigger] arranged(s)[i]).order == i,
        forall|i: int, j: int|
            0 <= i < j < s.len() ==> (#[trigger] arranged(s)[i]).order < (#[trigger] arranged(
                s,
            )[j]).order,
{
    lemma_arranged_is_well_arranged(s);
    lemma_orders_are_positions(arranged(s));
}

} // verus!
