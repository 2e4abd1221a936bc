//! The band of versions to which a requirement is reduced before two
//! requirements are compared: a lower and an upper bound, each a triple of
//! major, minor and patch, and each possibly absent.

use vstd::prelude::*;
use crate::version::comparator_at;
use crate::version::comparator_count;
use crate::version::comparators_of;
use crate::version::Comparator;
use crate::version::ComparatorView;
use crate::version::Op;

verus! {

/// Whether `a` comes before `b` when triples are ordered by major, then minor,
/// then patch.
pub open spec fn parts_below(a: (u64, u64, u64), b: (u64, u64, u64)) -> bool {
    a.0 < b.0 || (a.0 == b.0 && (a.1 < b.1 || (a.1 == b.1 && a.2 < b.2)))
}

/// The later of two triples.
pub open spec fn later_parts(a: (u64, u64, u64), b: (u64, u64, u64)) -> (u64, u64, u64) {
    if parts_below(a, b) {
        b
    } else {
        a
    }
}

/// The earlier of two triples.
pub open spec fn earlier_parts(a: (u64, u64, u64), b: (u64, u64, u64)) -> (u64, u64, u64) {
    if parts_below(b, a) {
        b
    } else {
        a
    }
}

/// The pin point of a comparator: its leftmost part that is given and at least
/// one, with zero in the other two places; the patch where major and minor are
/// both zero or not given; nothing where no such part is given.
pub open spec fn pin_point(c: ComparatorView) -> Option<(u64, u64, u64)> {
    if c.major >= 1 {
        Some((c.major, 0u64, 0u64))
    } else if c.minor is Some && c.minor.unwrap() >= 1 {
        Some((0u64, c.minor.unwrap(), 0u64))
    } else if c.patch is Some {
        Some((0u64, 0u64, c.patch.unwrap()))
    } else {
        None
    }
}

/// One more than `part`, or `part` itself where no larger number exists.
pub open spec fn part_above(part: u64) -> u64 {
    if part == u64::MAX {
        part
    } else {
        (part + 1) as u64
    }
}

/// One less than `part`, or zero where `part` is zero.
pub open spec fn part_below(part: u64) -> u64 {
    if part == 0 {
        part
    } else {
        (part - 1) as u64
    }
}

/// A pin point moved one band up: its pinned part, the leftmost that is not
/// zero or else the patch, is raised by one.
pub open spec fn band_above(pin: (u64, u64, u64)) -> (u64, u64, u64) {
    if pin.0 >= 1 {
        (part_above(pin.0), 0u64, 0u64)
    } else if pin.1 >= 1 {
        (0u64, part_above(pin.1), 0u64)
    } else {
        (0u64, 0u64, part_above(pin.2))
    }
}

/// A pin point moved one band down: its pinned part is lowered by one, but not
/// below zero.
pub open spec fn band_below(pin: (u64, u64, u64)) -> (u64, u64, u64) {
    if pin.0 >= 1 {
        (part_below(pin.0), 0u64, 0u64)
    } else if pin.1 >= 1 {
        (0u64, part_below(pin.1), 0u64)
    } else {
        (0u64, 0u64, part_below(pin.2))
    }
}

/// The band above a pin point, where there is one.
pub open spec fn raised(pin: Option<(u64, u64, u64)>) -> Option<(u64, u64, u64)> {
    match pin {
        Some(parts) => Some(band_above(parts)),
        None => None,
    }
}

/// The band below a pin point, where there is one.
pub open spec fn lowered(pin: Option<(u64, u64, u64)>) -> Option<(u64, u64, u64)> {
    match pin {
        Some(parts) => Some(band_below(parts)),
        None => None,
    }
}

/// The bounds that one comparator sets: lower first, upper second.
pub open spec fn comparator_interval(c: ComparatorView) -> (
    Option<(u64, u64, u64)>,
    Option<(u64, u64, u64)>,
) {
    match c.op {
        Op::Exact | Op::GreaterEq | Op::Tilde | Op::Caret | Op::Wildcard => (
            pin_point(c),
            pin_point(c),
        ),
        Op::Greater => (raised(pin_point(c)), None),
        Op::Less => (None, lowered(pin_point(c))),
        Op::LessEq => (None, pin_point(c)),
        Op::Other => (None, None),
    }
}

/// The tighter of two lower bounds: the later one, where both are set.
pub open spec fn tighter_lower(
    a: Option<(u64, u64, u64)>,
    b: Option<(u64, u64, u64)>,
) -> Option<(u64, u64, u64)> {
    match (a, b) {
        (Some(x), Some(y)) => Some(later_parts(x, y)),
        (Some(x), None) => Some(x),
        (None, _) => b,
    }
}

/// The tighter of two upper bounds: the earlier one, where both are set.
pub open spec fn tighter_upper(
    a: Option<(u64, u64, u64)>,
    b: Option<(u64, u64, u64)>,
) -> Option<(u64, u64, u64)> {
    match (a, b) {
        (Some(x), Some(y)) => Some(earlier_parts(x, y)),
        (Some(x), None) => Some(x),
        (None, _) => b,
    }
}

/// The bounds that a whole requirement sets: the intersection of what its
/// comparators set. A requirement without comparators sets none.
pub open spec fn requirement_interval(comparators: Seq<ComparatorView>) -> (
    Option<(u64, u64, u64)>,
    Option<(u64, u64, u64)>,
)
    decreases comparators.len(),
{
    if comparators.len() == 0 {
        (None, None)
    } else {
        let before = requirement_interval(comparators.drop_last());
        let last = comparator_interval(comparators.last());
        (tighter_lower(before.0, last.0), tighter_upper(before.1, last.1))
    }
}

/// The lower bound to compare with: all zero where none is set.
pub open spec fn lower_or_least(bound: Option<(u64, u64, u64)>) -> (u64, u64, u64) {
    match bound {
        Some(parts) => parts,
        None => (0u64, 0u64, 0u64),
    }
}

/// The upper bound to compare with: the largest triple where none is set.
pub open spec fn upper_or_greatest(bound: Option<(u64, u64, u64)>) -> (u64, u64, u64) {
    match bound {
        Some(parts) => parts,
        None => (u64::MAX, u64::MAX, u64::MAX),
    }
}

/// Whether going from the requirement `before` to the requirement `after` breaks
/// compatibility: the lower bound has risen or the upper bound has fallen.
pub open spec fn requirement_breaks(
    before: Seq<ComparatorView>,
    after: Seq<ComparatorView>,
) -> bool {
    let old_band = requirement_interval(before);
    let new_band = requirement_interval(after);
    parts_below(lower_or_least(old_band.0), lower_or_least(new_band.0)) || parts_below(
        upper_or_greatest(new_band.1),
        upper_or_greatest(old_band.1),
    )
}

/// Whether `a` comes before `b` in the order of major, minor, patch.
pub fn parts_less(a: (u64, u64, u64), b: (u64, u64, u64)) -> (less: bool)
    ensures
        less == parts_below(a, b),
{
    a.0 < b.0 || (a.0 == b.0 && (a.1 < b.1 || (a.1 == b.1 && a.2 < b.2)))
}

/// The pin point of `comparator`.
pub fn exact_break(comparator: &Comparator) -> (pin: Option<(u64, u64, u64)>)
    ensures
        pin == pin_point(comparator@),
{
    if 1 <= comparator.major {
        return Some((comparator.major, 0, 0));
    }
    if let Some(minor) = comparator.minor {
        if 1 <= minor {
            return Some((0, minor, 0));
        }
    }
    match comparator.patch {
        Some(patch) => Some((0, 0, patch)),
        None => None,
    }
}

/// The bounds that `comparator` sets.
pub fn breaking_comparator(comparator: &Comparator) -> (band: (
    Option<(u64, u64, u64)>,
    Option<(u64, u64, u64)>,
))
    ensures
        band == comparator_interval(comparator@),
{
    match comparator.op {
        Op::Exact | Op::GreaterEq | Op::Tilde | Op::Caret | Op::Wildcard => {
            let pin = exact_break(comparator);
            (pin, pin)
        },
        Op::Greater => {
            let lower = match exact_break(comparator) {
                Some((major, minor, patch)) => {
                    if 1 <= major {
                        Some((major.saturating_add(1), 0, 0))
                    } else if 1 <= minor {
                        Some((0, minor.saturating_add(1), 0))
                    } else {
                        Some((0, 0, patch.saturating_add(1)))
                    }
                },
                None => None,
            };
            (lower, None)
        },
        Op::Less => {
            let upper = match exact_break(comparator) {
                Some((major, minor, patch)) => {
                    if 1 <= major {
                        Some((major - 1, 0, 0))
                    } else if 1 <= minor {
                        Some((0, minor - 1, 0))
                    } else {
                        Some((0, 0, patch.saturating_sub(1)))
                    }
                },
                None => None,
            };
            (None, upper)
        },
        Op::LessEq => (None, exact_break(comparator)),
        Op::Other => (None, None),
    }
}

/// The bounds that the requirement `version` sets.
pub fn breaking(version: &semver::VersionReq) -> (band: (
    Option<(u64, u64, u64)>,
    Option<(u64, u64, u64)>,
))
    ensures
        band == requirement_interval(comparators_of(*version)),
{
    let ghost all = comparators_of(*version);
    let count = comparator_count(version);
    let mut lower: Option<(u64, u64, u64)> = None;
    let mut upper: Option<(u64, u64, u64)> = None;
    let mut i: usize = 0;
    assert(all.take(0) =~= Seq::empty());
    while i < count
        invariant
            i <= count,
            count == all.len(),
            all == comparators_of(*version),
            (lower, upper) == requirement_interval(all.take(i as int)),
        decreases count - i,
    {
        let comparator = comparator_at(version, i);
        let (current_lower, current_upper) = breaking_comparator(&comparator);
        proof {
            assert(all.take(i + 1).drop_last() =~= all.take(i as int));
            assert(all.take(i + 1).last() == comparator@);
        }
        lower = match (lower, current_lower) {
            (Some(held), Some(current)) => Some(if parts_less(held, current) { current } else { held }),
            (Some(held), None) => Some(held),
            (None, _) => current_lower,
        };
        upper = match (upper, current_upper) {
            (Some(held), Some(current)) => Some(if parts_less(current, held) { current } else { held }),
            (Some(held), None) => Some(held),
            (None, _) => current_upper,
        };
        i = i + 1;
    }
    assert(all.take(count as int) =~= all);
    (lower, upper)
}

} // verus!
