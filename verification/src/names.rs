//! Sets of names, held in sorted order.

use vstd::prelude::*;
use crate::text;

verus! {

/// Whether every name comes strictly before the ones after it.
pub open spec fn ascending(names: Seq<Seq<char>>) -> bool {
    forall|i: int, j: int|
        0 <= i < j < names.len() ==> text::text_lt(#[trigger] names[i], #[trigger] names[j])
}

/// The names of a set in sorted order, each once.
pub open spec fn listing(names: Set<Seq<char>>) -> Seq<Seq<char>> {
    choose|l: Seq<Seq<char>>| ascending(l) && l.to_set() == names
}

/// A set has only one sorted listing.
pub proof fn listing_is_unique(a: Seq<Seq<char>>, b: Seq<Seq<char>>)
    requires
        ascending(a),
        ascending(b),
        a.to_set() == b.to_set(),
    ensures
        a == b,
    decreases a.len(),
{
    if a.len() == 0 {
        if b.len() > 0 {
            assert(b.to_set().contains(b[0]));
            assert(a.to_set().contains(b[0]));
        }
        assert(a =~= b);
    } else if b.len() == 0 {
        assert(a.to_set().contains(a[0]));
        assert(b.to_set().contains(a[0]));
    } else {
        let x = a[0];
        let y = b[0];
        assert(b.to_set().contains(x)) by {
            assert(a.to_set().contains(x));
        }
        assert(a.to_set().contains(y)) by {
            assert(b.to_set().contains(y));
        }
        let k = choose|k: int| 0 <= k < b.len() && b[k] == x;
        let m = choose|m: int| 0 <= m < a.len() && a[m] == y;
        if k > 0 && m > 0 {
            assert(text::text_lt(b[0], b[k]));
            assert(text::text_lt(a[0], a[m]));
            text::text_order_antisymmetric(x, y);
        }
        assert(x == y);
        let (p, q) = (a.drop_first(), b.drop_first());
        rest_of_listing(a);
        rest_of_listing(b);
        assert(p.to_set() =~= q.to_set());
        listing_is_unique(p, q);
        assert(a =~= seq![x] + p);
        assert(b =~= seq![y] + q);
    }
}

/// Without its first name, a sorted listing lists the rest of its set.
proof fn rest_of_listing(a: Seq<Seq<char>>)
    requires
        ascending(a),
        a.len() > 0,
    ensures
        ascending(a.drop_first()),
        a.drop_first().to_set() == a.to_set().remove(a[0]),
{
    let p = a.drop_first();
    assert forall|i: int, j: int| 0 <= i < j < p.len() implies text::text_lt(
        #[trigger] p[i],
        #[trigger] p[j],
    ) by {
        assert(text::text_lt(a[i + 1], a[j + 1]));
    }
    assert forall|n: Seq<char>| p.to_set().contains(n) == a.to_set().remove(a[0]).contains(n) by {
        if p.to_set().contains(n) {
            let k = choose|k: int| 0 <= k < p.len() && p[k] == n;
            assert(a[k + 1] == n);
            assert(text::text_lt(a[0], a[k + 1]));
        }
        if a.to_set().remove(a[0]).contains(n) {
            let k = choose|k: int| 0 <= k < a.len() && a[k] == n;
            assert(p[k - 1] == n);
        }
    }
    assert(p.to_set() =~= a.to_set().remove(a[0]));
}

/// Where a new name has to be put into a sorted listing.
proof fn place_in_listing(l: Seq<Seq<char>>, n: Seq<char>) -> (p: int)
    requires
        ascending(l),
        !l.contains(n),
    ensures
        0 <= p <= l.len(),
        forall|i: int| 0 <= i < p ==> text::text_lt(#[trigger] l[i], n),
        forall|i: int| p <= i < l.len() ==> text::text_lt(n, #[trigger] l[i]),
    decreases l.len(),
{
    if l.len() == 0 {
        0
    } else {
        let init = l.drop_last();
        let last = l.last();
        assert(last == l[l.len() - 1]);
        assert(last != n) by {
            assert(l.contains(last));
        }
        text::text_order_total(last, n);
        if text::text_le(last, n) {
            assert forall|i: int| 0 <= i < l.len() implies text::text_lt(#[trigger] l[i], n) by {
                if i < l.len() - 1 {
                    assert(text::text_lt(l[i], last));
                    text::text_order_transitive(l[i], last, n);
                    if l[i] == n {
                        text::text_order_antisymmetric(last, n);
                    }
                }
            }
            l.len() as int
        } else {
            assert(ascending(init)) by {
                assert forall|i: int, j: int| 0 <= i < j < init.len() implies text::text_lt(
                    #[trigger] init[i],
                    #[trigger] init[j],
                ) by {
                    assert(text::text_lt(l[i], l[j]));
                }
            }
            assert(!init.contains(n)) by {
                if init.contains(n) {
                    let k = choose|k: int| 0 <= k < init.len() && init[k] == n;
                    assert(l[k] == n);
                    assert(l.contains(n));
                }
            }
            let p = place_in_listing(init, n);
            assert forall|i: int| 0 <= i < p implies text::text_lt(#[trigger] l[i], n) by {
                assert(init[i] == l[i]);
            }
            assert forall|i: int| p <= i < l.len() implies text::text_lt(n, #[trigger] l[i]) by {
                if i < init.len() {
                    assert(init[i] == l[i]);
                }
            }
            p
        }
    }
}

/// Putting a new name in its place keeps a listing sorted and adds the name.
proof fn listing_with_one_more(l: Seq<Seq<char>>, n: Seq<char>, p: int)
    requires
        ascending(l),
        0 <= p <= l.len(),
        forall|i: int| 0 <= i < p ==> text::text_lt(#[trigger] l[i], n),
        forall|i: int| p <= i < l.len() ==> text::text_lt(n, #[trigger] l[i]),
    ensures
        ascending(l.insert(p, n)),
        l.insert(p, n).to_set() == l.to_set().insert(n),
{
    let after = l.insert(p, n);
    assert forall|i: int, j: int| 0 <= i < j < after.len() implies text::text_lt(
        #[trigger] after[i],
        #[trigger] after[j],
    ) by {
        let bi = if i < p {
            i
        } else {
            i - 1
        };
        let bj = if j < p {
            j
        } else {
            j - 1
        };
        if i == p {
            assert(text::text_lt(n, l[bj]));
        } else if j == p {
            assert(text::text_lt(l[i], n));
        } else {
            assert(text::text_lt(l[bi], l[bj]));
        }
    }
    assert forall|x: Seq<char>|
        after.to_set().contains(x) == l.to_set().insert(n).contains(x) by {
        if after.to_set().contains(x) {
            let k = choose|k: int| 0 <= k < after.len() && after[k] == x;
            if k < p {
                assert(l[k] == x);
            } else if k > p {
                assert(l[k - 1] == x);
            }
        }
        if l.to_set().insert(n).contains(x) {
            if x == n {
                assert(after[p] == x);
            } else {
                let k = choose|k: int| 0 <= k < l.len() && l[k] == x;
                if k < p {
                    assert(after[k] == x);
                } else {
                    assert(after[k + 1] == x);
                }
            }
        }
    }
    assert(after.to_set() =~= l.to_set().insert(n));
}

/// The names of any list can be listed in sorted order, each once.
pub proof fn every_list_has_a_listing(all: Seq<Seq<char>>)
    ensures
        ascending(listing(all.to_set())),
        listing(all.to_set()).to_set() == all.to_set(),
    decreases all.len(),
{
    if all.len() == 0 {
        let none = Seq::<Seq<char>>::empty();
        assert(ascending(none));
        assert(none.to_set() =~= all.to_set());
    } else {
        let init = all.drop_last();
        let n = all.last();
        every_list_has_a_listing(init);
        let l = listing(init.to_set());
        assert(all.to_set() =~= init.to_set().insert(n)) by {
            assert forall|x: Seq<char>|
                all.to_set().contains(x) == init.to_set().insert(n).contains(x) by {
                if all.to_set().contains(x) {
                    let k = choose|k: int| 0 <= k < all.len() && all[k] == x;
                    if k < init.len() {
                        assert(init[k] == x);
                    }
                }
                if init.to_set().contains(x) {
                    let k = choose|k: int| 0 <= k < init.len() && init[k] == x;
                    assert(all[k] == x);
                }
                assert(all[all.len() - 1] == n);
            }
        }
        if l.contains(n) {
            assert(l.to_set().contains(n));
            assert(l.to_set() =~= all.to_set());
        } else {
            let p = place_in_listing(l, n);
            listing_with_one_more(l, n, p);
            assert(l.insert(p, n).to_set() == all.to_set());
        }
    }
}

/// A set of names.
#[derive(Debug)]
pub struct NameSet {
    pub names: Vec<String>,
}

impl NameSet {
    /// The names in their order.
    pub open spec fn list(self) -> Seq<Seq<char>> {
        text::texts(self.names@)
    }

    /// The names are sorted, and none stands twice.
    pub open spec fn well_formed(self) -> bool {
        ascending(self.list())
    }

    /// The set of the names.
    pub open spec fn set(self) -> Set<Seq<char>> {
        self.list().to_set()
    }

    /// The empty set.
    pub fn new() -> (r: Self)
        ensures
            r.well_formed(),
            r.set() == Set::<Seq<char>>::empty(),
    {
        let r: NameSet = NameSet { names: Vec::new() };
        assert(r.set() =~= Set::<Seq<char>>::empty());
        r
    }

    /// The set of a single name.
    pub fn single(name: &str) -> (r: Self)
        ensures
            r.well_formed(),
            r.set() == Set::<Seq<char>>::empty().insert(name@),
    {
        let mut r: NameSet = NameSet::new();
        r.insert(name);
        r
    }

    /// The listing of a sorted set is the list itself.
    pub proof fn list_is_listing(self)
        requires
            self.well_formed(),
        ensures
            self.list() == listing(self.set()),
    {
        listing_is_unique(self.list(), listing(self.set()));
    }

    /// Whether the set is empty.
    pub fn is_empty(&self) -> (r: bool)
        ensures
            r == (self.set() == Set::<Seq<char>>::empty()),
    {
        proof {
            if self.names@.len() > 0 {
                assert(self.set().contains(self.list()[0]));
            } else {
                assert(self.set() =~= Set::<Seq<char>>::empty());
            }
        }
        self.names.len() == 0
    }

    /// Whether a name is in the set.
    pub fn contains(&self, name: &str) -> (r: bool)
        ensures
            r == self.set().contains(name@),
    {
        text::holds_name(self.names.as_slice(), name)
    }

    /// Where a name stands, or would have to be put.
    fn place(&self, name: &str) -> (r: (usize, bool))
        requires
            self.well_formed(),
        ensures
            r.0 <= self.names@.len(),
            r.1 == self.set().contains(name@),
            r.1 ==> r.0 < self.names@.len() && self.list()[r.0 as int] == name@,
            forall|i: int| 0 <= i < r.0 ==> text::text_lt(#[trigger] self.list()[i], name@),
            !r.1 ==> forall|i: int|
                r.0 <= i < self.names@.len() ==> text::text_lt(name@, #[trigger] self.list()[i]),
    {
        let mut at: usize = 0;
        while at < self.names.len() && !text::at_most(name, self.names[at].as_str())
            invariant
                self.well_formed(),
                at <= self.names@.len(),
                forall|i: int| 0 <= i < at ==> text::text_lt(#[trigger] self.list()[i], name@),
            decreases self.names@.len() - at,
        {
            proof {
                let here = self.list()[at as int];
                text::text_order_total(name@, here);
                if here == name@ {
                    text::text_order_reflexive(here);
                }
            }
            at += 1;
        }
        if at < self.names.len() && text::same_text(self.names[at].as_str(), name) {
            assert(self.list()[at as int] == name@);
            return (at, true);
        }
        proof {
            assert forall|i: int| at <= i < self.names@.len() implies text::text_lt(
                name@,
                #[trigger] self.list()[i],
            ) by {
                let here = self.list()[at as int];
                if i > at {
                    assert(text::text_lt(self.list()[at as int], self.list()[i]));
                    text::text_order_transitive(name@, here, self.list()[i]);
                    if name@ == self.list()[i] {
                        text::text_order_antisymmetric(here, self.list()[i]);
                    }
                }
            }
            assert(!self.set().contains(name@)) by {
                if self.set().contains(name@) {
                    let k = choose|k: int| 0 <= k < self.list().len() && self.list()[k] == name@;
                    if k < at {
                        assert(text::text_lt(self.list()[k], name@));
                    } else {
                        assert(text::text_lt(name@, self.list()[k]));
                    }
                }
            }
        }
        (at, false)
    }

    /// Adds a name.
    pub fn insert(&mut self, name: &str)
        requires
            old(self).well_formed(),
        ensures
            final(self).well_formed(),
            final(self).set() == old(self).set().insert(name@),
    {
        let (at, present) = self.place(name);
        let ghost before = self.list();
        if present {
            assert(before.to_set().insert(name@) =~= before.to_set());
            return;
        }
        self.names.insert(at, name.to_owned());
        proof {
            assert(self.list() =~= before.insert(at as int, name@));
            listing_with_one_more(before, name@, at as int);
        }
    }

    /// Takes a name out.
    pub fn remove(&mut self, name: &str)
        requires
            old(self).well_formed(),
        ensures
            final(self).well_formed(),
            final(self).set() == old(self).set().remove(name@),
    {
        let (at, present) = self.place(name);
        let ghost before = self.list();
        if !present {
            assert(before.to_set().remove(name@) =~= before.to_set());
            return;
        }
        let _gone: String = self.names.remove(at);
        proof {
            let after = self.list();
            assert(after =~= before.remove(at as int));
            assert forall|i: int, j: int| 0 <= i < j < after.len() implies text::text_lt(
                #[trigger] after[i],
                #[trigger] after[j],
            ) by {
                let bi = if i < at {
                    i
                } else {
                    i + 1
                };
                let bj = if j < at {
                    j
                } else {
                    j + 1
                };
                assert(text::text_lt(before[bi], before[bj]));
            }
            assert forall|n: Seq<char>|
                after.to_set().contains(n) == before.to_set().remove(name@).contains(n) by {
                if after.to_set().contains(n) {
                    let k = choose|k: int| 0 <= k < after.len() && after[k] == n;
                    if k < at {
                        assert(before[k] == n);
                        assert(text::text_lt(before[k], before[at as int]));
                    } else {
                        assert(before[k + 1] == n);
                        assert(text::text_lt(before[at as int], before[k + 1]));
                    }
                }
                if before.to_set().remove(name@).contains(n) {
                    let k = choose|k: int| 0 <= k < before.len() && before[k] == n;
                    if k < at {
                        assert(after[k] == n);
                    } else {
                        assert(after[k - 1] == n);
                    }
                }
            }
            assert(after.to_set() =~= before.to_set().remove(name@));
        }
    }

    /// The names in sorted order.
    pub fn to_list(&self) -> (r: Vec<String>)
        requires
            self.well_formed(),
        ensures
            text::texts(r@) == listing(self.set()),
    {
        let mut out: Vec<String> = Vec::new();
        let mut i: usize = 0;
        while i < self.names.len()
            invariant
                i <= self.names@.len(),
                out@.len() == i,
                forall|j: int| 0 <= j < i ==> (#[trigger] out@[j])@ == self.list()[j],
            decreases self.names@.len() - i,
        {
            out.push(self.names[i].clone());
            i += 1;
        }
        proof {
            assert(text::texts(out@) =~= self.list());
            self.list_is_listing();
        }
        out
    }

    /// A copy of the set.
    pub fn copy(&self) -> (r: Self)
        requires
            self.well_formed(),
        ensures
            r.well_formed(),
            r.set() == self.set(),
    {
        proof {
            self.list_is_listing();
        }
        let r: NameSet = NameSet { names: self.to_list() };
        assert(r.list() == self.list());
        r
    }
}

} // verus!
