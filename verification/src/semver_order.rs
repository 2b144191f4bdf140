//! Semantic-version ordering of raw version strings, supplied by the
//! `semver` crate behind trusted wrappers. The resolver collapses
//! duplicate (group, artifact) pairs by this order.
use vstd::prelude::*;

verus! {

/// Outcome of comparing two version strings by semantic-version order.
#[derive(Clone, Copy, PartialEq, Eq, Structural, Debug)]
pub enum VersionOrder {
    Less,
    Equal,
    Greater,
    Unparseable,
}

/// Whether `semver::Version::parse` accepts the string.
pub uninterp spec fn sem_ok(s: Seq<char>) -> bool;

/// The strict order that `semver::Version`'s `Ord` puts on two
/// parseable version strings.
pub uninterp spec fn sem_lt(a: Seq<char>, b: Seq<char>) -> bool;

/// `sem_lt` is transitive on parseable strings. `semver::Version`
/// derives `Ord`, and std's `Ord` contract demands a total order,
/// so the comparison the crate implements is transitive.
pub open spec fn sem_lt_transitive() -> bool {
    forall|x: Seq<char>, y: Seq<char>, z: Seq<char>|
        sem_ok(x) && sem_ok(y) && sem_ok(z) && #[trigger] sem_lt(x, y) && #[trigger] sem_lt(y, z)
            ==> sem_lt(x, z)
}

/// Relies on `semver::Version::parse`: it succeeds or fails on the text
/// of its argument alone.
#[verifier::external_body]
pub fn semver_parses(s: &str) -> (r: bool)
    ensures
        r == sem_ok(s@),
{
    semver::Version::parse(s).is_ok()
}

/// Relies on `semver::Version::parse` and on `semver::Version`'s
/// derived `Ord` (precedence first, build metadata as tie-breaker).
/// `parse` depends on the text alone and maps distinct valid texts to
/// distinct versions (numeric components reject leading zeros,
/// pre-release and build identifiers are kept verbatim and ordered so
/// that only identical texts compare equal), so `Equal` means the two
/// texts are identical. `Ord` is a total order per std's `Ord`
/// contract; each successful comparison states the order's
/// transitivity, which is where callers need it.
#[verifier::external_body]
pub fn semver_compare(a: &str, b: &str) -> (r: VersionOrder)
    ensures
        (r is Unparseable) == !(sem_ok(a@) && sem_ok(b@)),
        (r is Less) == (sem_ok(a@) && sem_ok(b@) && sem_lt(a@, b@)),
        (r is Greater) == (sem_ok(a@) && sem_ok(b@) && sem_lt(b@, a@)),
        (r is Equal) == (sem_ok(a@) && sem_ok(b@) && a@ == b@),
        (r is Less || r is Equal || r is Greater) ==> sem_lt_transitive(),
{
    match (semver::Version::parse(a), semver::Version::parse(b)) {
        (Ok(va), Ok(vb)) => match va.cmp(&vb) {
            core::cmp::Ordering::Less => VersionOrder::Less,
            core::cmp::Ordering::Equal => VersionOrder::Equal,
            core::cmp::Ordering::Greater => VersionOrder::Greater,
        },
        _ => VersionOrder::Unparseable,
    }
}

} // verus!
