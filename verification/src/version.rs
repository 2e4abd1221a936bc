//! Version requirements as the comparison reads them: a list of comparators,
//! each an operator with a partial version.

use vstd::prelude::*;

verus! {

/// A requirement on a dependency's version. Its contents are reached through
/// `comparator_count`, `comparator_at` and `same_requirement`.
#[verifier::external_type_specification]
#[verifier::external_body]
pub struct ExVersionReq(semver::VersionReq);

/// A package's own version. The library only carries it.
#[verifier::external_type_specification]
#[verifier::external_body]
pub struct ExVersion(semver::Version);

/// The operator of one comparator.
#[derive(Copy, Clone, Debug, PartialEq, Eq, Structural)]
pub enum Op {
    Exact,
    Greater,
    GreaterEq,
    Less,
    LessEq,
    Tilde,
    Caret,
    Wildcard,
    /// An operator this library does not know; it constrains nothing.
    Other,
}

/// One comparator of a requirement, such as `>=1.2`.
#[derive(Clone, Debug)]
pub struct Comparator {
    pub op: Op,
    pub major: u64,
    pub minor: Option<u64>,
    pub patch: Option<u64>,
    /// The pre-release tag, empty where there is none.
    pub pre: String,
}

/// A comparator as the contracts see it.
pub struct ComparatorView {
    pub op: Op,
    pub major: u64,
    pub minor: Option<u64>,
    pub patch: Option<u64>,
    pub pre: Seq<char>,
}

impl View for Comparator {
    type V = ComparatorView;

    open spec fn view(&self) -> ComparatorView {
        ComparatorView {
            op: self.op,
            major: self.major,
            minor: self.minor,
            patch: self.patch,
            pre: self.pre@,
        }
    }
}

/// The comparators that a requirement holds, in the order in which it holds them.
pub uninterp spec fn comparators_of(req: semver::VersionReq) -> Seq<ComparatorView>;

/// `semver::VersionReq::comparators`, its length: the number of comparators in `req`.
#[verifier::external_body]
pub(crate) fn comparator_count(req: &semver::VersionReq) -> (n: usize)
    ensures
        n == comparators_of(*req).len(),
{
    req.comparators.len()
}

/// `semver::VersionReq::comparators`, one element: the comparator at position `i`
/// with its operator, its three version parts and the text of its pre-release tag.
#[verifier::external_body]
pub(crate) fn comparator_at(req: &semver::VersionReq, i: usize) -> (c: Comparator)
    requires
        i < comparators_of(*req).len(),
    ensures
        c@ == comparators_of(*req)[i as int],
{
    let c = &req.comparators[i];
    let op = match c.op {
        semver::Op::Exact => Op::Exact,
        semver::Op::Greater => Op::Greater,
        semver::Op::GreaterEq => Op::GreaterEq,
        semver::Op::Less => Op::Less,
        semver::Op::LessEq => Op::LessEq,
        semver::Op::Tilde => Op::Tilde,
        semver::Op::Caret => Op::Caret,
        semver::Op::Wildcard => Op::Wildcard,
        _ => Op::Other,
    };
    Comparator { op, major: c.major, minor: c.minor, patch: c.patch, pre: c.pre.as_str().to_owned() }
}

/// `semver::VersionReq`'s `==`: two requirements are equal exactly when they hold
/// the same comparators in the same order.
#[verifier::external_body]
pub(crate) fn same_requirement(a: &semver::VersionReq, b: &semver::VersionReq) -> (same: bool)
    ensures
        same == (comparators_of(*a) == comparators_of(*b)),
{
    a == b
}

/// `semver::VersionReq`'s `clone`: the copy holds the same comparators.
pub assume_specification[ <semver::VersionReq as Clone>::clone ](
    req: &semver::VersionReq,
) -> (copy: semver::VersionReq)
    ensures
        comparators_of(copy) == comparators_of(*req),
;

/// The text in which a requirement with the given comparators is written.
pub uninterp spec fn requirement_shown(comparators: Seq<ComparatorView>) -> Seq<char>;

/// `semver::VersionReq`'s `to_string`: the requirement as it is written, which
/// depends on its comparators alone.
#[verifier::external_body]
pub(crate) fn requirement_text(req: &semver::VersionReq) -> (text: String)
    ensures
        text@ == requirement_shown(comparators_of(*req)),
{
    req.to_string()
}

} // verus!
