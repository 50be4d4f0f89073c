//! A fixed-capacity map that evicts the least recently used entry.

use vstd::prelude::*;
use crate::film::FilmPreset;
use crate::text;

verus! {

/// A key of the cache: what it stands for, and how two keys are told apart.
pub trait CacheKey: Sized {
    /// What a key stands for.
    type Model;

    /// What this key stands for.
    spec fn model(&self) -> Self::Model;

    /// Whether two keys stand for the same.
    fn same_key(&self, other: &Self) -> (r: bool)
        ensures
            r == (self.model() == other.model()),
    ;
}

impl CacheKey for String {
    type Model = Seq<char>;

    open spec fn model(&self) -> Seq<char> {
        self@
    }

    fn same_key(&self, other: &Self) -> (r: bool) {
        text::same_text(self.as_str(), other.as_str())
    }
}

/// The key of a decoded overview: the roll's directory, the film preset it was
/// decoded under, and the file name.
#[derive(Debug)]
pub struct DetailKey {
    pub dir: String,
    pub preset: FilmPreset,
    pub name: String,
}

impl DetailKey {
    /// The key of a frame of a roll under a preset.
    pub fn new(dir: &str, preset: FilmPreset, name: &str) -> (r: DetailKey)
        ensures
            r.model() == (dir@, preset, name@),
    {
        DetailKey { dir: dir.to_owned(), preset, name: name.to_owned() }
    }
}

impl CacheKey for DetailKey {
    type Model = (Seq<char>, FilmPreset, Seq<char>);

    open spec fn model(&self) -> (Seq<char>, FilmPreset, Seq<char>) {
        (self.dir@, self.preset, self.name@)
    }

    fn same_key(&self, other: &Self) -> (r: bool) {
        self.preset == other.preset && text::same_text(self.dir.as_str(), other.dir.as_str())
            && text::same_text(self.name.as_str(), other.name.as_str())
    }
}

/// A fixed-capacity least-recently-used map. Entries stand in the order of
/// their last use, the least recent first.
#[derive(Debug)]
pub struct LruCache<K: CacheKey, V> {
    pub entries: Vec<(K, V)>,
    pub capacity: usize,
}

/// Where a key stands among entries, or their number where it does not.
pub open spec fn position<M, V>(items: Seq<(M, V)>, key: M) -> int
    decreases items.len(),
{
    if items.len() == 0 {
        0
    } else if items[0].0 == key {
        0
    } else {
        1 + position(items.drop_first(), key)
    }
}

/// Whether some entry has a key.
pub open spec fn holds<M, V>(items: Seq<(M, V)>, key: M) -> bool {
    position(items, key) < items.len()
}

/// The entries whose flag is `want`, in their order.
pub open spec fn chosen<T>(items: Seq<T>, flags: Seq<bool>, want: bool) -> Seq<T>
    decreases items.len(),
{
    if items.len() == 0 {
        Seq::empty()
    } else if flags[items.len() - 1] == want {
        chosen(items.drop_last(), flags, want).push(items.last())
    } else {
        chosen(items.drop_last(), flags, want)
    }
}

/// The position of a key is the first place where it stands.
pub proof fn position_is_first<M, V>(items: Seq<(M, V)>, key: M)
    ensures
        0 <= position(items, key) <= items.len(),
        holds(items, key) ==> items[position(items, key)].0 == key,
        forall|i: int| 0 <= i < position(items, key) ==> (#[trigger] items[i]).0 != key,
    decreases items.len(),
{
    if items.len() > 0 && items[0].0 != key {
        let rest = items.drop_first();
        position_is_first(rest, key);
        assert forall|i: int| 0 <= i < position(items, key) implies (#[trigger] items[i]).0
            != key by {
            if i > 0 {
                assert(rest[i - 1] == items[i]);
            }
        }
    }
}

/// A place with a key before which no entry has the key is its position.
proof fn position_from_place<M, V>(items: Seq<(M, V)>, key: M, k: int)
    requires
        0 <= k <= items.len(),
        k < items.len() ==> items[k].0 == key,
        forall|i: int| 0 <= i < k ==> (#[trigger] items[i]).0 != key,
    ensures
        position(items, key) == k,
{
    position_is_first(items, key);
    let p = position(items, key);
    if p < k {
        assert(items[p].0 != key);
    } else if k < p {
        assert(items[k].0 != key);
    }
}

/// Whether no two entries have the same key.
pub open spec fn distinct_keys<M, V>(items: Seq<(M, V)>) -> bool {
    forall|i: int, j: int|
        0 <= i < j < items.len() ==> (#[trigger] items[i]).0 != (#[trigger] items[j]).0
}

/// What an insertion leaves in a cache of the given capacity.
pub open spec fn inserted<M, V>(items: Seq<(M, V)>, capacity: int, key: M, value: V) -> Seq<(M, V)> {
    if capacity == 0 {
        items
    } else if holds(items, key) {
        items.remove(position(items, key)).push((key, value))
    } else if items.len() >= capacity {
        items.drop_first().push((key, value))
    } else {
        items.push((key, value))
    }
}

/// What an insertion hands back: in a full cache the value of the least recent
/// entry, in a cache without room the value itself.
pub open spec fn handed_back<M, V>(
    items: Seq<(M, V)>,
    capacity: int,
    key: M,
    value: V,
) -> Option<V> {
    if capacity == 0 {
        Some(value)
    } else if !holds(items, key) && items.len() >= capacity {
        Some(items[0].1)
    } else {
        None
    }
}

/// What a use of a key leaves: its entry moved to the end.
pub open spec fn touched<M, V>(items: Seq<(M, V)>, key: M) -> Seq<(M, V)> {
    if holds(items, key) {
        items.remove(position(items, key)).push(items[position(items, key)])
    } else {
        items
    }
}

impl<K: CacheKey, V> LruCache<K, V> {
    /// The entries, by what their keys stand for, the least recent first.
    pub open spec fn items(self) -> Seq<(K::Model, V)> {
        self.entries@.map_values(|e: (K, V)| (e.0.model(), e.1))
    }

    /// No key stands twice, and there are no more entries than the capacity
    /// allows.
    pub open spec fn well_formed(self) -> bool {
        distinct_keys(self.items()) && self.items().len() <= self.capacity
    }

    /// An empty cache.
    pub fn new(capacity: usize) -> (r: Self)
        ensures
            r.well_formed(),
            r.items().len() == 0,
            r.capacity == capacity,
    {
        LruCache { entries: Vec::new(), capacity }
    }

    fn find(&self, key: &K) -> (r: Option<usize>)
        ensures
            r is Some <==> holds(self.items(), key.model()),
            r is Some ==> r.unwrap() == position(self.items(), key.model()),
    {
        let mut i: usize = 0;
        while i < self.entries.len()
            invariant
                i <= self.entries@.len(),
                forall|j: int| 0 <= j < i ==> (#[trigger] self.items()[j]).0 != key.model(),
            decreases self.entries@.len() - i,
        {
            if self.entries[i].0.same_key(key) {
                proof {
                    assert(self.items()[i as int].0 == key.model());
                    position_from_place(self.items(), key.model(), i as int);
                }
                return Some(i);
            }
            assert(self.items()[i as int].0 != key.model());
            i += 1;
        }
        proof {
            position_from_place(self.items(), key.model(), i as int);
        }
        None
    }

    /// Returns the cached value for `key`, marking it most recently used.
    pub fn get(&mut self, key: &K) -> (r: Option<&V>)
        requires
            old(self).well_formed(),
        ensures
            final(self).well_formed(),
            final(self).capacity == old(self).capacity,
            final(self).items() == touched(old(self).items(), key.model()),
            r is Some <==> holds(old(self).items(), key.model()),
            r is Some ==> *r.unwrap() == old(self).items()[position(
                old(self).items(),
                key.model(),
            )].1,
    {
        let ghost before = self.items();
        match self.find(key) {
            None => None,
            Some(at) => {
                proof {
                    position_is_first(before, key.model());
                }
                let entry: (K, V) = self.entries.remove(at);
                self.entries.push(entry);
                proof {
                    assert(self.items() =~= touched(before, key.model()));
                    touch_keeps_keys_distinct(before, at as int);
                }
                let last: usize = self.entries.len() - 1;
                Some(&self.entries[last].1)
            },
        }
    }

    /// Inserts `value` under `key`, marking it most recently used. Once the
    /// capacity is exceeded the least recently used entry is evicted and its
    /// value returned. With a zero capacity every insert is handed back, so
    /// the cache stays empty.
    pub fn insert(&mut self, key: K, value: V) -> (r: Option<V>)
        requires
            old(self).well_formed(),
        ensures
            final(self).well_formed(),
            final(self).capacity == old(self).capacity,
            final(self).items() == inserted(
                old(self).items(),
                old(self).capacity as int,
                key.model(),
                value,
            ),
            r == handed_back(
                old(self).items(),
                old(self).capacity as int,
                key.model(),
                value,
            ),
    {
        if self.capacity == 0 {
            return Some(value);
        }
        let ghost before = self.items();
        let ghost wanted = key.model();
        proof {
            position_is_first(before, wanted);
        }
        match self.find(&key) {
            Some(at) => {
                let _old: (K, V) = self.entries.remove(at);
                self.entries.push((key, value));
                proof {
                    assert(self.items() =~= inserted(
                        before,
                        self.capacity as int,
                        wanted,
                        value,
                    ));
                    replace_keeps_keys_distinct(before, at as int, value);
                }
                None
            },
            None => {
                proof {
                    assert forall|i: int| 0 <= i < before.len() implies (#[trigger] before[i]).0
                        != wanted by {}
                }
                if self.entries.len() >= self.capacity {
                    let oldest: (K, V) = self.entries.remove(0);
                    self.entries.push((key, value));
                    proof {
                        assert(self.items() =~= before.drop_first().push((wanted, value)));
                    }
                    Some(oldest.1)
                } else {
                    self.entries.push((key, value));
                    proof {
                        assert(self.items() =~= before.push((wanted, value)));
                    }
                    None
                }
            },
        }
    }

    /// The cached value for `key`; its entry is not touched.
    pub fn peek(&self, key: &K) -> (r: Option<&V>)
        ensures
            r is Some <==> holds(self.items(), key.model()),
            r is Some ==> *r.unwrap() == self.items()[position(self.items(), key.model())].1,
    {
        match self.find(key) {
            Some(at) => {
                proof {
                    position_is_first(self.items(), key.model());
                }
                Some(&self.entries[at].1)
            },
            None => None,
        }
    }

    /// Whether a key is cached; its entry is not touched.
    pub fn contains(&self, key: &K) -> (r: bool)
        ensures
            r == holds(self.items(), key.model()),
    {
        self.find(key).is_some()
    }

    /// Drops every entry whose key no longer passes `keep`, and returns the
    /// dropped values. The order of the other entries is preserved.
    pub fn retain<F: Fn(&K) -> bool>(&mut self, keep: F) -> (r: Vec<V>)
        requires
            old(self).well_formed(),
            forall|k: &K| #[trigger] keep.requires((k,)),
        ensures
            final(self).well_formed(),
            final(self).capacity == old(self).capacity,
            exists|flags: Seq<bool>|
                #![trigger chosen(old(self).entries@, flags, true)]
                {
                    &&& flags.len() == old(self).entries@.len()
                    &&& forall|i: int|
                        0 <= i < flags.len() ==> keep.ensures(
                            (&old(self).entries@[i].0,),
                            #[trigger] flags[i],
                        )
                    &&& final(self).entries@ == chosen(old(self).entries@, flags, true)
                    &&& r@ == chosen(old(self).entries@, flags, false).map_values(
                        |e: (K, V)| e.1,
                    )
                },
    {
        let ghost all = self.entries@;
        let mut rest: Vec<(K, V)> = Vec::new();
        std::mem::swap(&mut rest, &mut self.entries);
        let mut kept: Vec<(K, V)> = Vec::new();
        let mut dropped: Vec<V> = Vec::new();
        let ghost mut flags: Seq<bool> = Seq::empty();
        proof {
            assert(all.skip(0) =~= all);
            assert(all.take(0) =~= Seq::<(K, V)>::empty());
            assert(dropped@ =~= chosen(all.take(0), flags, false).map_values(|e: (K, V)| e.1));
        }
        while rest.len() > 0
            invariant
                forall|k: &K| #[trigger] keep.requires((k,)),
                flags.len() <= all.len(),
                rest@ == all.skip(flags.len() as int),
                forall|i: int|
                    0 <= i < flags.len() ==> keep.ensures((&all[i].0,), #[trigger] flags[i]),
                kept@ == chosen(all.take(flags.len() as int), flags, true),
                dropped@ == chosen(all.take(flags.len() as int), flags, false).map_values(
                    |e: (K, V)| e.1,
                ),
            decreases rest@.len(),
        {
            let ghost k = flags.len() as int;
            let ghost before = flags;
            let entry: (K, V) = rest.remove(0);
            assert(entry == all[k]);
            let keeps: bool = keep(&entry.0);
            proof {
                flags = flags.push(keeps);
                assert(rest@ =~= all.skip(k + 1));
                assert(all.take(k + 1).drop_last() =~= all.take(k));
                chosen_ignores_later_flags(all.take(k), before, keeps, true);
                chosen_ignores_later_flags(all.take(k), before, keeps, false);
            }
            if keeps {
                kept.push(entry);
            } else {
                dropped.push(entry.1);
            }
            assert(dropped@ =~= chosen(all.take(k + 1), flags, false).map_values(
                |e: (K, V)| e.1,
            ));
        }
        proof {
            assert(all.take(flags.len() as int) =~= all);
            chosen_keeps_keys_distinct::<K, V>(all, flags, true);
        }
        self.entries = kept;
        dropped
    }

    /// Drops all entries.
    pub fn clear(&mut self)
        ensures
            final(self).well_formed(),
            final(self).items().len() == 0,
            final(self).capacity == old(self).capacity,
    {
        self.entries.clear();
    }

    /// The number of entries.
    pub fn len(&self) -> (r: usize)
        ensures
            r == self.items().len(),
    {
        self.entries.len()
    }
}

/// What the key of a decoded overview stands for.
pub type KeyModel = (Seq<char>, FilmPreset, Seq<char>);

/// The test of being an entry of another roll than the given one.
pub open spec fn of_other_roll<V>(dir: Seq<char>) -> spec_fn((KeyModel, V)) -> bool {
    |e: (KeyModel, V)| e.0.0 != dir
}

impl<V> LruCache<DetailKey, V> {
    /// Drops every entry of a roll. The order of the others is preserved.
    pub fn drop_roll(&mut self, dir: &str)
        requires
            old(self).well_formed(),
        ensures
            final(self).well_formed(),
            final(self).capacity == old(self).capacity,
            final(self).items() == old(self).items().filter(of_other_roll(dir@)),
    {
        let ghost all = self.entries@;
        let mut rest: Vec<(DetailKey, V)> = Vec::new();
        std::mem::swap(&mut rest, &mut self.entries);
        let mut kept: Vec<(DetailKey, V)> = Vec::new();
        let ghost mut flags: Seq<bool> = Seq::empty();
        proof {
            assert(all.skip(0) =~= all);
            assert(all.take(0) =~= Seq::<(DetailKey, V)>::empty());
        }
        while rest.len() > 0
            invariant
                flags.len() <= all.len(),
                rest@ == all.skip(flags.len() as int),
                forall|i: int|
                    0 <= i < flags.len() ==> #[trigger] flags[i] == (all[i].0.dir@ != dir@),
                kept@ == chosen(all.take(flags.len() as int), flags, true),
            decreases rest@.len(),
        {
            let ghost k = flags.len() as int;
            let ghost before = flags;
            let entry: (DetailKey, V) = rest.remove(0);
            assert(entry == all[k]);
            let keeps: bool = !text::same_text(entry.0.dir.as_str(), dir);
            proof {
                flags = flags.push(keeps);
                assert(rest@ =~= all.skip(k + 1));
                assert(all.take(k + 1).drop_last() =~= all.take(k));
                chosen_ignores_later_flags(all.take(k), before, keeps, true);
            }
            if keeps {
                kept.push(entry);
            }
        }
        self.entries = kept;
        proof {
            assert(all.take(flags.len() as int) =~= all);
            chosen_is_filter(all, flags, dir@);
            chosen_keeps_keys_distinct::<DetailKey, V>(all, flags, true);
        }
    }
}

/// What is chosen by being of another roll is what the test keeps.
proof fn chosen_is_filter<V>(all: Seq<(DetailKey, V)>, flags: Seq<bool>, dir: Seq<char>)
    requires
        flags.len() >= all.len(),
        forall|i: int| 0 <= i < all.len() ==> #[trigger] flags[i] == (all[i].0.dir@ != dir),
    ensures
        chosen(all, flags, true).map_values(|e: (DetailKey, V)| (e.0.model(), e.1))
            == all.map_values(|e: (DetailKey, V)| (e.0.model(), e.1)).filter(of_other_roll(dir)),
    decreases all.len(),
{
    reveal(Seq::filter);
    let look = |e: (DetailKey, V)| (e.0.model(), e.1);
    if all.len() > 0 {
        let init = all.drop_last();
        chosen_is_filter(init, flags, dir);
        assert(all.map_values(look).drop_last() =~= init.map_values(look));
        assert(flags[all.len() - 1] == (all[all.len() - 1].0.dir@ != dir));
        assert(chosen(all, flags, true).map_values(look) =~= if flags[all.len() - 1] {
            chosen(init, flags, true).map_values(look).push(look(all.last()))
        } else {
            chosen(init, flags, true).map_values(look)
        });
    } else {
        assert(chosen(all, flags, true).map_values(look) =~= all.map_values(look).filter(
            of_other_roll(dir),
        ));
    }
}

proof fn touch_keeps_keys_distinct<M, V>(items: Seq<(M, V)>, at: int)
    requires
        distinct_keys(items),
        0 <= at < items.len(),
    ensures
        distinct_keys(items.remove(at).push(items[at])),
{
    replace_keeps_keys_distinct(items, at, items[at].1);
}

proof fn replace_keeps_keys_distinct<M, V>(items: Seq<(M, V)>, at: int, value: V)
    requires
        distinct_keys(items),
        0 <= at < items.len(),
    ensures
        distinct_keys(items.remove(at).push((items[at].0, value))),
{
    let next = items.remove(at).push((items[at].0, value));
    assert forall|i: int, j: int| 0 <= i < j < next.len() implies (#[trigger] next[i]).0 != (
    #[trigger] next[j]).0 by {
        let a = if i < at {
            i
        } else {
            i + 1
        };
        assert(next[i] == items[a]);
        if j == next.len() - 1 {
            if a < at {
                assert(items[a].0 != items[at].0);
            } else {
                assert(items[at].0 != items[a].0);
            }
        } else {
            let b = if j < at {
                j
            } else {
                j + 1
            };
            assert(next[j] == items[b]);
            assert(items[a].0 != items[b].0);
        }
    }
}

proof fn chosen_ignores_later_flags<T>(items: Seq<T>, flags: Seq<bool>, flag: bool, want: bool)
    requires
        items.len() <= flags.len(),
    ensures
        chosen(items, flags.push(flag), want) == chosen(items, flags, want),
    decreases items.len(),
{
    if items.len() > 0 {
        chosen_ignores_later_flags(items.drop_last(), flags, flag, want);
    }
}

/// Every chosen entry is one of the entries, and keys stay distinct.
proof fn chosen_keeps_keys_distinct<K: CacheKey, V>(all: Seq<(K, V)>, flags: Seq<bool>, want: bool)
    requires
        distinct_keys(all.map_values(|e: (K, V)| (e.0.model(), e.1))),
    ensures
        chosen(all, flags, want).len() <= all.len(),
        distinct_keys(chosen(all, flags, want).map_values(|e: (K, V)| (e.0.model(), e.1))),
        forall|i: int|
            0 <= i < chosen(all, flags, want).len() ==> all.contains(
                #[trigger] chosen(all, flags, want)[i],
            ),
    decreases all.len(),
{
    if all.len() > 0 {
        let init = all.drop_last();
        let items = all.map_values(|e: (K, V)| (e.0.model(), e.1));
        assert(distinct_keys(init.map_values(|e: (K, V)| (e.0.model(), e.1)))) by {
            let less = init.map_values(|e: (K, V)| (e.0.model(), e.1));
            assert forall|i: int, j: int| 0 <= i < j < less.len() implies (#[trigger] less[i]).0
                != (#[trigger] less[j]).0 by {
                assert(items[i].0 != items[j].0);
            }
        }
        chosen_keeps_keys_distinct::<K, V>(init, flags, want);
        let part = chosen(init, flags, want);
        let whole = chosen(all, flags, want);
        assert forall|i: int| 0 <= i < whole.len() implies all.contains(#[trigger] whole[i]) by {
            if i < part.len() {
                assert(whole[i] == part[i]);
                assert(init.contains(part[i]));
                let j = choose|j: int| 0 <= j < init.len() && init[j] == part[i];
                assert(whole[i] == all[j]);
            } else {
                assert(whole[i] == all[all.len() - 1]);
            }
        }
        let out = whole.map_values(|e: (K, V)| (e.0.model(), e.1));
        let less = part.map_values(|e: (K, V)| (e.0.model(), e.1));
        assert forall|i: int, j: int| 0 <= i < j < out.len() implies (#[trigger] out[i]).0 != (
        #[trigger] out[j]).0 by {
            assert(whole[i] == part[i]);
            if j < part.len() {
                assert(less[i].0 != less[j].0);
            } else {
                assert(init.contains(part[i]));
                let m = choose|m: int| 0 <= m < init.len() && init[m] == part[i];
                assert(items[m].0 != items[all.len() - 1].0);
            }
        }
    }
}

/// A value just inserted is found again, as long as the cache has room for
/// anything.
pub proof fn inserted_value_is_found<M, V>(items: Seq<(M, V)>, capacity: int, key: M, value: V)
    requires
        capacity > 0,
        distinct_keys(items),
    ensures
        ({
            let next = inserted(items, capacity, key, value);
            holds(next, key) && next[position(next, key)].1 == value
        }),
{
    let next = inserted(items, capacity, key, value);
    let last = next.len() - 1;
    position_is_first(items, key);
    assert(next[last] == (key, value));
    assert forall|i: int| 0 <= i < last implies (#[trigger] next[i]).0 != key by {
        if holds(items, key) {
            let p = position(items, key);
            if i < p {
                assert(next[i] == items[i]);
                assert(items[i].0 != items[p].0);
            } else {
                assert(next[i] == items[i + 1]);
                assert(items[p].0 != items[i + 1].0);
            }
        } else if items.len() >= capacity {
            assert(next[i] == items[i + 1]);
        } else {
            assert(next[i] == items[i]);
        }
    }
    position_from_place(next, key, last);
}

/// Using an entry saves it from the next eviction, unless it is the only one:
/// the entry that a full cache evicts is the one longest unused.
pub proof fn touched_entry_survives<M, V>(items: Seq<(M, V)>, key: M, fresh: M, value: V)
    requires
        distinct_keys(items),
        holds(items, key),
        !holds(items, fresh),
        items.len() >= 2,
    ensures
        holds(inserted(touched(items, key), items.len() as int, fresh, value), key),
{
    position_is_first(items, key);
    let mid = touched(items, key);
    let p = position(items, key);
    touch_keeps_keys_distinct(items, p);
    position_is_first(mid, fresh);
    position_is_first(items, fresh);
    if holds(mid, fresh) {
        let q = position(mid, fresh);
        assert(mid[q].0 == fresh);
        if q < p {
            assert(items[q].0 == fresh);
        } else if q < mid.len() - 1 {
            assert(items[q + 1].0 == fresh);
        } else {
            assert(items[p].0 == fresh);
        }
        assert forall|i: int| 0 <= i < items.len() implies (#[trigger] items[i]).0 != fresh by {}
    }
    let next = inserted(mid, items.len() as int, fresh, value);
    assert(next == mid.drop_first().push((fresh, value)));
    let k = items.len() - 2;
    assert(next[k].0 == key);
    position_is_first(next, key);
    if !holds(next, key) {
        assert(next[k].0 != key);
    }
}

} // verus!
