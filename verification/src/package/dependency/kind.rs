//! The kind of a dependency in a manifest.

use crate::order::{ordering_value, sign_of_diff, to_ordering, compare_u64};
use core::cmp::Ordering;
use vstd::prelude::*;

verus! {

/// Where a dependency is listed.
#[derive(Clone, Copy, Debug, PartialEq, Eq, Structural)]
pub enum Kind {
    Build,
    Development,
    Normal,
    Peer,
}

/// The rank of a kind: normal, development, build, peer.
pub open spec fn kind_rank(kind: Kind) -> u8 {
    match kind {
        Kind::Normal => 0,
        Kind::Development => 1,
        Kind::Build => 2,
        Kind::Peer => 3,
    }
}

/// How a kind is shown.
pub open spec fn kind_label(kind: Kind) -> Seq<char> {
    match kind {
        Kind::Build => seq!['b', 'u', 'i', 'l', 'd'],
        Kind::Development => seq!['d', 'e', 'v'],
        Kind::Normal => seq![],
        Kind::Peer => seq!['p', 'e', 'e', 'r'],
    }
}

/// The order of two kinds: by rank.
pub open spec fn kind_order(a: Kind, b: Kind) -> int {
    sign_of_diff(kind_rank(a) as int, kind_rank(b) as int)
}

fn kind_order_value(a: &Kind, b: &Kind) -> (r: i8)
    ensures
        r == kind_order(*a, *b),
        -1 <= r <= 1,
{
    compare_u64(a.precedence() as u64, b.precedence() as u64)
}

/// Kinds are ordered by rank; the order is total, and only equal kinds compare equal.
pub proof fn lemma_kind_order(a: Kind, b: Kind, c: Kind)
    ensures
        kind_order(a, b) == 0 <==> a == b,
        kind_order(b, a) == -kind_order(a, b),
        kind_order(a, b) <= 0 && kind_order(b, c) <= 0 ==> kind_order(a, c) <= 0,
{
}

impl Kind {
    /// The rank of the kind, by which kinds are ordered.
    pub fn precedence(&self) -> (r: u8)
        ensures
            r == kind_rank(*self),
    {
        match self {
            Kind::Normal => 0,
            Kind::Development => 1,
            Kind::Build => 2,
            Kind::Peer => 3,
        }
    }

    /// Compares two kinds by rank.
    pub fn cmp(&self, other: &Kind) -> (r: Ordering)
        ensures
            ordering_value(r) == kind_order(*self, *other),
    {
        to_ordering(kind_order_value(self, other))
    }

    /// How the kind is shown: `build`, `dev`, nothing for a normal dependency, `peer`.
    pub fn to_string(&self) -> (r: String)
        ensures
            r@ == kind_label(*self),
    {
        match self {
            Kind::Build => crate::text::string_of(&['b', 'u', 'i', 'l', 'd']),
            Kind::Development => crate::text::string_of(&['d', 'e', 'v']),
            Kind::Normal => String::new(),
            Kind::Peer => crate::text::string_of(&['p', 'e', 'e', 'r']),
        }
    }
}

} // verus!
