use crate_api::interval::breaking;
use crate_api::interval::breaking_comparator;
use crate_api::interval::exact_break;
use crate_api::interval::parts_less;
use crate_api::version::Comparator;
use crate_api::version::Op;

fn comparator(op: Op, major: u64, minor: Option<u64>, patch: Option<u64>) -> Comparator {
    Comparator { op, major, minor, patch, pre: String::new() }
}

fn req(text: &str) -> semver::VersionReq {
    semver::VersionReq::parse(text).unwrap()
}

#[test]
fn parts_are_ordered_by_major_then_minor_then_patch() {
    assert!(parts_less((1, 9, 9), (2, 0, 0)));
    assert!(parts_less((1, 2, 9), (1, 3, 0)));
    assert!(parts_less((1, 2, 3), (1, 2, 4)));
    assert!(!parts_less((1, 2, 3), (1, 2, 3)));
    assert!(!parts_less((2, 0, 0), (1, 9, 9)));
    assert!(!parts_less((1, 3, 0), (1, 2, 9)));
    assert!(!parts_less((0, 0, 1), (0, 0, 0)));
}

#[test]
fn pin_point_is_the_leftmost_part_that_counts() {
    assert_eq!(exact_break(&comparator(Op::Caret, 1, Some(2), Some(3))), Some((1, 0, 0)));
    assert_eq!(exact_break(&comparator(Op::Caret, 7, None, None)), Some((7, 0, 0)));
    assert_eq!(exact_break(&comparator(Op::Caret, 0, Some(2), Some(3))), Some((0, 2, 0)));
    assert_eq!(exact_break(&comparator(Op::Caret, 0, Some(2), None)), Some((0, 2, 0)));
    assert_eq!(exact_break(&comparator(Op::Caret, 0, Some(0), Some(3))), Some((0, 0, 3)));
    assert_eq!(exact_break(&comparator(Op::Caret, 0, Some(0), Some(0))), Some((0, 0, 0)));
}

#[test]
fn pin_point_is_absent_where_nothing_pins() {
    assert_eq!(exact_break(&comparator(Op::Caret, 0, None, None)), None);
    assert_eq!(exact_break(&comparator(Op::Caret, 0, Some(0), None)), None);
}

#[test]
fn pin_point_falls_to_the_patch_where_the_minor_is_missing() {
    assert_eq!(exact_break(&comparator(Op::Exact, 0, None, Some(4))), Some((0, 0, 4)));
}

#[test]
fn pinning_operators_give_a_degenerate_band() {
    for op in [Op::Exact, Op::GreaterEq, Op::Tilde, Op::Caret, Op::Wildcard] {
        assert_eq!(
            breaking_comparator(&comparator(op, 1, Some(2), Some(3))),
            (Some((1, 0, 0)), Some((1, 0, 0)))
        );
        assert_eq!(
            breaking_comparator(&comparator(op, 0, Some(4), None)),
            (Some((0, 4, 0)), Some((0, 4, 0)))
        );
        assert_eq!(breaking_comparator(&comparator(op, 0, None, None)), (None, None));
    }
}

#[test]
fn greater_gives_the_band_above() {
    assert_eq!(
        breaking_comparator(&comparator(Op::Greater, 1, Some(2), Some(3))),
        (Some((2, 0, 0)), None)
    );
    assert_eq!(breaking_comparator(&comparator(Op::Greater, 1, None, None)), (Some((2, 0, 0)), None));
    assert_eq!(
        breaking_comparator(&comparator(Op::Greater, 0, Some(2), None)),
        (Some((0, 3, 0)), None)
    );
    assert_eq!(
        breaking_comparator(&comparator(Op::Greater, 0, Some(0), Some(5))),
        (Some((0, 0, 6)), None)
    );
    assert_eq!(breaking_comparator(&comparator(Op::Greater, 0, None, None)), (None, None));
}

#[test]
fn greater_stops_at_the_largest_number() {
    assert_eq!(
        breaking_comparator(&comparator(Op::Greater, u64::MAX, None, None)),
        (Some((u64::MAX, 0, 0)), None)
    );
    assert_eq!(
        breaking_comparator(&comparator(Op::Greater, 0, Some(u64::MAX), None)),
        (Some((0, u64::MAX, 0)), None)
    );
    assert_eq!(
        breaking_comparator(&comparator(Op::Greater, 0, Some(0), Some(u64::MAX))),
        (Some((0, 0, u64::MAX)), None)
    );
}

#[test]
fn less_gives_the_band_below() {
    assert_eq!(
        breaking_comparator(&comparator(Op::Less, 2, Some(0), Some(0))),
        (None, Some((1, 0, 0)))
    );
    assert_eq!(breaking_comparator(&comparator(Op::Less, 1, None, None)), (None, Some((0, 0, 0))));
    assert_eq!(
        breaking_comparator(&comparator(Op::Less, 0, Some(3), None)),
        (None, Some((0, 2, 0)))
    );
    assert_eq!(
        breaking_comparator(&comparator(Op::Less, 0, Some(0), Some(5))),
        (None, Some((0, 0, 4)))
    );
    assert_eq!(breaking_comparator(&comparator(Op::Less, 0, None, None)), (None, None));
}

#[test]
fn less_does_not_go_below_zero() {
    assert_eq!(
        breaking_comparator(&comparator(Op::Less, 0, Some(0), Some(0))),
        (None, Some((0, 0, 0)))
    );
}

#[test]
fn less_eq_gives_the_pin_point_as_upper_bound() {
    assert_eq!(
        breaking_comparator(&comparator(Op::LessEq, 1, Some(5), None)),
        (None, Some((1, 0, 0)))
    );
    assert_eq!(
        breaking_comparator(&comparator(Op::LessEq, 0, Some(5), None)),
        (None, Some((0, 5, 0)))
    );
    assert_eq!(breaking_comparator(&comparator(Op::LessEq, 0, None, None)), (None, None));
}

#[test]
fn unknown_operator_sets_no_bound() {
    assert_eq!(breaking_comparator(&comparator(Op::Other, 1, Some(2), Some(3))), (None, None));
}

#[test]
fn unconstrained_requirement_sets_no_bound() {
    assert_eq!(breaking(&req("*")), (None, None));
    assert_eq!(breaking(&semver::VersionReq::STAR), (None, None));
}

#[test]
fn breaking_reads_the_comparators_of_the_requirement() {
    assert_eq!(breaking(&req("^1.2.3")), (Some((1, 0, 0)), Some((1, 0, 0))));
    assert_eq!(breaking(&req("^0.2.3")), (Some((0, 2, 0)), Some((0, 2, 0))));
    assert_eq!(breaking(&req("=0.0.7")), (Some((0, 0, 7)), Some((0, 0, 7))));
    assert_eq!(breaking(&req("~3.1")), (Some((3, 0, 0)), Some((3, 0, 0))));
    assert_eq!(breaking(&req("2.*")), (Some((2, 0, 0)), Some((2, 0, 0))));
    assert_eq!(breaking(&req(">1.2.3")), (Some((2, 0, 0)), None));
    assert_eq!(breaking(&req("<0.3")), (None, Some((0, 2, 0))));
    assert_eq!(breaking(&req("<=4")), (None, Some((4, 0, 0))));
    assert_eq!(breaking(&req(">=0.3.0")), (Some((0, 3, 0)), Some((0, 3, 0))));
}

#[test]
fn breaking_intersects_the_comparators() {
    assert_eq!(breaking(&req(">=1.2, <3")), (Some((1, 0, 0)), Some((1, 0, 0))));
    assert_eq!(breaking(&req("<3, <=5")), (None, Some((2, 0, 0))));
    assert_eq!(breaking(&req("<=5, <3")), (None, Some((2, 0, 0))));
    assert_eq!(breaking(&req(">1, >0.5")), (Some((2, 0, 0)), None));
    assert_eq!(breaking(&req(">0.5, >1")), (Some((2, 0, 0)), None));
    assert_eq!(breaking(&req(">1, <5")), (Some((2, 0, 0)), Some((4, 0, 0))));
    assert_eq!(breaking(&req(">0.0.1, <0.0.9, >0.0.3")), (Some((0, 0, 4)), Some((0, 0, 8))));
}
