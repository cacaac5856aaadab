//! Orders on text and numbers, as -1, 0 or 1.

use crate::text::chars_of;
use core::cmp::Ordering;
use vstd::multiset::Multiset;
use vstd::prelude::*;

verus! {

/// The lexicographic order of two character sequences, characters compared by code
/// point; it agrees with the byte order of their UTF-8 encodings, which `str` uses.
pub open spec fn lex_order(a: Seq<char>, b: Seq<char>) -> int
    decreases a.len(),
{
    if a.len() == 0 {
        if b.len() == 0 {
            0
        } else {
            -1
        }
    } else if b.len() == 0 {
        1
    } else if a[0] < b[0] {
        -1
    } else if a[0] > b[0] {
        1
    } else {
        lex_order(a.drop_first(), b.drop_first())
    }
}

/// The lexicographic order is antisymmetric, and only equal sequences compare equal.
pub proof fn lemma_lex_order(a: Seq<char>, b: Seq<char>)
    ensures
        lex_order(b, a) == -lex_order(a, b),
        -1 <= lex_order(a, b) <= 1,
        lex_order(a, b) == 0 <==> a == b,
    decreases a.len(),
{
    if a.len() > 0 && b.len() > 0 {
        lemma_lex_order(a.drop_first(), b.drop_first());
        if a[0] == b[0] && a.drop_first() == b.drop_first() {
            assert(a == seq![a[0]] + a.drop_first());
            assert(b == seq![b[0]] + b.drop_first());
        }
        if a == b {
            assert(a.drop_first() == b.drop_first());
        }
    } else if a.len() == 0 && b.len() == 0 {
        assert(a =~= b);
    }
}

/// The lexicographic order is decided by the first position at which the two
/// sequences differ; where one is a prefix of the other, the shorter comes first.
pub proof fn lemma_lex_order_first_difference(a: Seq<char>, b: Seq<char>, i: int)
    requires
        0 <= i <= a.len(),
        i <= b.len(),
        a.take(i) == b.take(i),
    ensures
        i < a.len() && i < b.len() && a[i] < b[i] ==> lex_order(a, b) == -1,
        i < a.len() && i < b.len() && a[i] > b[i] ==> lex_order(a, b) == 1,
        i == a.len() && i < b.len() ==> lex_order(a, b) == -1,
        i < a.len() && i == b.len() ==> lex_order(a, b) == 1,
    decreases i,
{
    if i > 0 {
        assert(a[0] == a.take(i)[0] && b[0] == b.take(i)[0]);
        assert(a.drop_first().take(i - 1) == a.take(i).drop_first());
        assert(b.drop_first().take(i - 1) == b.take(i).drop_first());
        lemma_lex_order_first_difference(a.drop_first(), b.drop_first(), i - 1);
        assert(i < a.len() ==> a.drop_first()[i - 1] == a[i]);
        assert(i < b.len() ==> b.drop_first()[i - 1] == b[i]);
    }
}

/// The lexicographic order is transitive.
pub proof fn lemma_lex_order_transitive(a: Seq<char>, b: Seq<char>, c: Seq<char>)
    requires
        lex_order(a, b) <= 0,
        lex_order(b, c) <= 0,
    ensures
        lex_order(a, c) <= 0,
    decreases a.len(),
{
    if a.len() > 0 && b.len() > 0 && c.len() > 0 && a[0] == b[0] && b[0] == c[0] {
        lemma_lex_order_transitive(a.drop_first(), b.drop_first(), c.drop_first());
    }
}

/// -1, 0 or 1 for `Less`, `Equal` and `Greater`.
pub open spec fn ordering_value(o: Ordering) -> int {
    match o {
        Ordering::Less => -1,
        Ordering::Equal => 0,
        Ordering::Greater => 1,
    }
}

/// `Less`, `Equal` or `Greater` for -1, 0 and 1.
pub fn to_ordering(x: i8) -> (r: Ordering)
    requires
        -1 <= x <= 1,
    ensures
        ordering_value(r) == x,
{
    if x < 0 {
        Ordering::Less
    } else if x > 0 {
        Ordering::Greater
    } else {
        Ordering::Equal
    }
}

proof fn lemma_lex_skip(a: Seq<char>, b: Seq<char>, i: int)
    requires
        0 <= i < a.len(),
        i < b.len(),
        a[i] == b[i],
    ensures
        lex_order(a.skip(i), b.skip(i)) == lex_order(a.skip(i + 1), b.skip(i + 1)),
{
    assert(a.skip(i).drop_first() == a.skip(i + 1));
    assert(b.skip(i).drop_first() == b.skip(i + 1));
}

/// Compares two strings lexicographically.
pub fn lex_compare(a: &str, b: &str) -> (r: i8)
    ensures
        r == lex_order(a@, b@),
        -1 <= r <= 1,
{
    let x = chars_of(a);
    let y = chars_of(b);
    let mut i: usize = 0;
    assert(a@.skip(0) == a@);
    assert(b@.skip(0) == b@);
    while i < x.len() && i < y.len()
        invariant
            i <= x.len(),
            i <= y.len(),
            x@ == a@,
            y@ == b@,
            lex_order(a@, b@) == lex_order(a@.skip(i as int), b@.skip(i as int)),
        decreases x.len() - i,
    {
        if x[i] < y[i] {
            return -1;
        }
        if x[i] > y[i] {
            return 1;
        }
        proof {
            lemma_lex_skip(a@, b@, i as int);
        }
        i = i + 1;
    }
    if i < x.len() {
        1
    } else if i < y.len() {
        -1
    } else {
        0
    }
}

/// -1, 0 or 1 as `a` is below, equal to or above `b`.
pub open spec fn sign_of_diff(a: int, b: int) -> int {
    if a < b {
        -1
    } else if a > b {
        1
    } else {
        0
    }
}

/// Compares two numbers.
pub fn compare_u64(a: u64, b: u64) -> (r: i8)
    ensures
        r == sign_of_diff(a as int, b as int),
{
    if a < b {
        -1
    } else if a > b {
        1
    } else {
        0
    }
}

} // verus!

verus! {

/// Values that can be put in order, one pair at a time.
pub trait Ranked: Sized {
    /// The order of `self` against `other`: -1, 0 or 1.
    spec fn rank_order(&self, other: &Self) -> int;

    /// Compares `self` with `other`; swapping the two negates the result.
    fn compare_rank(&self, other: &Self) -> (r: i8)
        ensures
            r == self.rank_order(other),
            other.rank_order(self) == -r,
            -1 <= r <= 1,
    ;
}

/// Each element is at most the next one.
pub open spec fn is_sorted<T: Ranked>(s: Seq<T>) -> bool {
    forall|i: int| 0 <= i < s.len() - 1 ==> #[trigger] s[i].rank_order(&s[i + 1]) <= 0
}

fn insert_sorted<T: Ranked>(r: &mut Vec<T>, x: T)
    requires
        is_sorted(old(r)@),
    ensures
        is_sorted(final(r)@),
        final(r)@.to_multiset() == old(r)@.to_multiset().insert(x),
{
    let mut p: usize = 0;
    while p < r.len()
        invariant
            p <= r.len(),
            r@ == old(r)@,
            is_sorted(r@),
            p > 0 ==> r@[p - 1].rank_order(&x) <= 0,
        ensures
            p <= r.len(),
            r@ == old(r)@,
            p > 0 ==> r@[p - 1].rank_order(&x) <= 0,
            p < r.len() ==> x.rank_order(&r@[p as int]) == -1,
        decreases r.len() - p,
    {
        let c = x.compare_rank(&r[p]);
        if c == -1 {
            break;
        }
        p = p + 1;
    }
    let ghost before = r@;
    let ghost xx = x;
    let ghost at_end = p == r.len();
    proof {
        if !at_end {
            assert(xx.rank_order(&before[p as int]) == -1);
        }
    }
    r.insert(p, x);
    proof {
        vstd::seq_lib::to_multiset_insert(before, p as int, xx);
        assert(r@ == before.insert(p as int, xx));
        assert forall|i: int| 0 <= i < r@.len() - 1 implies #[trigger] r@[i].rank_order(&r@[i + 1]) <= 0 by {
            if i + 1 < p {
                assert(r@[i] == before[i] && r@[i + 1] == before[i + 1]);
                assert(before[i].rank_order(&before[i + 1]) <= 0);
            } else if i + 1 == p {
                assert(r@[i] == before[i] && r@[i + 1] == xx);
            } else if i == p {
                assert(r@[i] == xx && r@[i + 1] == before[i]);
            } else {
                let k = i - 1;
                assert(r@[i] == before[k] && r@[i + 1] == before[k + 1]);
                assert(before[k].rank_order(&before[k + 1]) <= 0);
            }
        }
    }
}

/// Sorts `v`: the result holds the same elements, each at most the next.
pub fn sort_ranked<T: Ranked>(v: Vec<T>) -> (r: Vec<T>)
    ensures
        r@.to_multiset() == v@.to_multiset(),
        is_sorted(r@),
{
    let mut rest = v;
    let mut r: Vec<T> = Vec::new();
    proof {
        broadcast use vstd::multiset::group_multiset_axioms;
        r@.to_multiset_ensures();
        assert(r@.to_multiset() =~= Multiset::<T>::empty());
    }
    while rest.len() > 0
        invariant
            is_sorted(r@),
            r@.to_multiset().add(rest@.to_multiset()) == v@.to_multiset(),
        decreases rest.len(),
    {
        let ghost before_rest = rest@;
        let x = rest.pop().unwrap();
        proof {
            vstd::seq_lib::to_multiset_build(rest@, x);
            assert(before_rest == rest@.push(x));
        }
        let ghost before_r = r@;
        insert_sorted(&mut r, x);
        proof {
            broadcast use vstd::multiset::group_multiset_axioms;
            assert(r@.to_multiset().add(rest@.to_multiset()) =~= before_r.to_multiset().add(
                before_rest.to_multiset(),
            ));
        }
    }
    proof {
        broadcast use vstd::multiset::group_multiset_axioms;
        rest@.to_multiset_ensures();
        assert(rest@.to_multiset() =~= Multiset::<T>::empty());
        assert(r@.to_multiset().add(Multiset::<T>::empty()) =~= r@.to_multiset());
    }
    r
}

} // verus!
