//! A stable sort, for the lists that the views show in order.
use crate::host::Host;
use vstd::prelude::*;

verus! {

/// Values that a list can be sorted by. Paths sort by the rules of the host.
pub trait Ranked: Sized {
    /// `self` belongs before `other`.
    spec fn ranks_before(&self, other: &Self, host: Host) -> bool;

    /// Whether `self` belongs before `other`.
    fn before(&self, other: &Self, host: Host) -> (r: bool)
        ensures
            r == self.ranks_before(other, host),
    ;

    /// No two values belong before each other, and whatever stands between two
    /// values belongs after the first or before the second.
    proof fn ranks_lawfully(a: &Self, b: &Self, c: &Self, host: Host)
        ensures
            !(a.ranks_before(b, host) && b.ranks_before(a, host)),
            a.ranks_before(c, host) ==> a.ranks_before(b, host) || b.ranks_before(c, host),
    ;
}

/// Where `x` belongs in `s`: before the first value that does not rank before
/// it.
pub open spec fn place_of<T: Ranked>(host: Host, s: Seq<T>, x: T) -> int
    decreases s.len(),
{
    if s.len() == 0 || !s[0].ranks_before(&x, host) {
        0
    } else {
        1 + place_of(host, s.drop_first(), x)
    }
}

/// `s` in order; values that rank alike keep the order they came in.
pub open spec fn sorted_of<T: Ranked>(host: Host, s: Seq<T>) -> Seq<T>
    decreases s.len(),
{
    if s.len() == 0 {
        Seq::empty()
    } else {
        let rest = sorted_of(host, s.drop_first());
        rest.insert(place_of(host, rest, s[0]), s[0])
    }
}

/// No value ranks before one that stands earlier.
pub open spec fn in_order<T: Ranked>(host: Host, s: Seq<T>) -> bool {
    forall|i: int, j: int|
        #![trigger s[i], s[j]]
        0 <= i < j < s.len() ==> !s[j].ranks_before(&s[i], host)
}

proof fn lemma_place<T: Ranked>(host: Host, s: Seq<T>, x: T)
    ensures
        0 <= place_of(host, s, x) <= s.len(),
        forall|i: int| 0 <= i < place_of(host, s, x) ==> (#[trigger] s[i]).ranks_before(&x, host),
        place_of(host, s, x) < s.len() ==> !s[place_of(host, s, x)].ranks_before(&x, host),
    decreases s.len(),
{
    if s.len() > 0 && s[0].ranks_before(&x, host) {
        let rest = s.drop_first();
        lemma_place(host, rest, x);
        assert forall|i: int| 0 <= i < place_of(host, s, x) implies (#[trigger] s[i]).ranks_before(&x, host) by {
            if i > 0 {
                assert(rest[i - 1] == s[i]);
            }
        }
    }
}

proof fn lemma_place_at<T: Ranked>(host: Host, s: Seq<T>, x: T, k: int)
    requires
        0 <= k <= s.len(),
        forall|i: int| 0 <= i < k ==> (#[trigger] s[i]).ranks_before(&x, host),
        k < s.len() ==> !s[k].ranks_before(&x, host),
    ensures
        place_of(host, s, x) == k,
    decreases s.len(),
{
    if k > 0 {
        let rest = s.drop_first();
        assert(s[0].ranks_before(&x, host));
        assert forall|i: int| 0 <= i < k - 1 implies (#[trigger] rest[i]).ranks_before(&x, host) by {
            assert(rest[i] == s[i + 1]);
        }
        lemma_place_at(host, rest, x, k - 1);
    }
}

/// The values in order.
pub fn sort<T: Ranked>(host: Host, items: Vec<T>) -> (r: Vec<T>)
    ensures
        r@ == sorted_of(host, items@),
{
    let ghost all = items@;
    let mut left = items;
    let mut out: Vec<T> = Vec::new();
    proof {
        assert(all.skip(all.len() as int) =~= Seq::empty());
        assert(all.take(all.len() as int) =~= all);
    }
    while left.len() > 0
        invariant
            left@.len() <= all.len(),
            left@ == all.take(left@.len() as int),
            out@ == sorted_of(host, all.skip(left@.len() as int)),
        decreases left@.len(),
    {
        let ghost n = left@.len();
        let x = left.pop().unwrap();
        proof {
            assert(left@ =~= all.take(left@.len() as int));
            assert(all.skip(n - 1).drop_first() =~= all.skip(n as int));
            assert(all.skip(n - 1)[0] == x);
        }
        let mut k: usize = 0;
        while k < out.len() && out[k].before(&x, host)
            invariant
                k <= out@.len(),
                forall|i: int| 0 <= i < k ==> (#[trigger] out@[i]).ranks_before(&x, host),
            decreases out@.len() - k,
        {
            k = k + 1;
        }
        proof {
            lemma_place_at(host, out@, x, k as int);
        }
        out.insert(k, x);
    }
    assert(all.skip(0) =~= all);
    out
}

/// Sorting puts the values in order.
pub proof fn sorting_orders<T: Ranked>(host: Host, s: Seq<T>)
    ensures
        in_order(host, sorted_of(host, s)),
    decreases s.len(),
{
    if s.len() > 0 {
        let rest = sorted_of(host, s.drop_first());
        let x = s[0];
        sorting_orders(host, s.drop_first());
        lemma_place(host, rest, x);
        let p = place_of(host, rest, x);
        let out = rest.insert(p, x);
        assert forall|i: int, j: int|
            #![trigger out[i], out[j]]
            0 <= i < j < out.len() implies !out[j].ranks_before(&out[i], host) by {
            let a = if i < p {
                i
            } else {
                i - 1
            };
            let b = if j < p {
                j
            } else {
                j - 1
            };
            if i != p && j != p {
                assert(out[i] == rest[a] && out[j] == rest[b]);
            } else if j == p {
                assert(out[i] == rest[i]);
                T::ranks_lawfully(&rest[i], &x, &x, host);
                T::ranks_lawfully(&x, &rest[i], &x, host);
            } else {
                // x stands before rest[b], and rest[p] does not rank before x
                assert(out[j] == rest[b]);
                if rest[b].ranks_before(&x, host) {
                    T::ranks_lawfully(&rest[b], &rest[p], &x, host);
                    if b != p {
                        assert(!rest[b].ranks_before(&rest[p], host));
                    }
                }
            }
        }
    }
}

/// Sorting loses no value and adds none.
pub proof fn sorting_permutes<T: Ranked>(host: Host, s: Seq<T>)
    ensures
        sorted_of(host, s).to_multiset() =~= s.to_multiset(),
        sorted_of(host, s).len() == s.len(),
    decreases s.len(),
{
    broadcast use vstd::seq_lib::group_to_multiset_ensures;

    if s.len() > 0 {
        let rest = sorted_of(host, s.drop_first());
        sorting_permutes(host, s.drop_first());
        lemma_place(host, rest, s[0]);
        let p = place_of(host, rest, s[0]);
        let out = rest.insert(p, s[0]);
        assert(out[p] == s[0]);
        assert(out.remove(p) =~= rest);
        assert(s.remove(0) =~= s.drop_first());
        vstd::seq_lib::to_multiset_remove(out, p);
        vstd::seq_lib::to_multiset_remove(s, 0);
        assert(out.contains(s[0]) && s.contains(s[0]));
        let before = s.to_multiset();
        let after = out.to_multiset();
        assert(after.count(s[0]) > 0 && before.count(s[0]) > 0);
        assert(after.remove(s[0]) =~= before.remove(s[0]));
        assert(after =~= after.remove(s[0]).insert(s[0]));
        assert(before =~= before.remove(s[0]).insert(s[0]));
    } else {
        assert(s =~= Seq::empty());
    }
}

} // verus!
