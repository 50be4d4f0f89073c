//! Searching and picking in sequences.

use vstd::prelude::*;
use crate::text;

verus! {

/// The place of the first item that passes a test.
pub open spec fn first_where<T>(items: Seq<T>, test: spec_fn(T) -> bool) -> Option<int>
    decreases items.len(),
{
    if items.len() == 0 {
        None
    } else if test(items[0]) {
        Some(0)
    } else {
        match first_where(items.drop_first(), test) {
            Some(i) => Some(i + 1),
            None => None,
        }
    }
}

/// The place found passes the test, and no item before it does; where none is
/// found, no item passes.
pub proof fn first_where_is_first<T>(items: Seq<T>, test: spec_fn(T) -> bool)
    ensures
        match first_where(items, test) {
            Some(k) => {
                &&& 0 <= k < items.len()
                &&& test(items[k])
                &&& forall|i: int| 0 <= i < k ==> !test(#[trigger] items[i])
            },
            None => forall|i: int| 0 <= i < items.len() ==> !test(#[trigger] items[i]),
        },
    decreases items.len(),
{
    if items.len() > 0 && !test(items[0]) {
        let rest = items.drop_first();
        first_where_is_first(rest, test);
        match first_where(rest, test) {
            Some(k) => {
                assert forall|i: int| 0 <= i < k + 1 implies !test(#[trigger] items[i]) by {
                    if i > 0 {
                        assert(rest[i - 1] == items[i]);
                    }
                }
            },
            None => {
                assert forall|i: int| 0 <= i < items.len() implies !test(#[trigger] items[i]) by {
                    if i > 0 {
                        assert(rest[i - 1] == items[i]);
                    }
                }
            },
        }
    }
}

/// A place whose item passes the test, behind items that do not, is the one
/// found.
pub proof fn first_where_from_place<T>(items: Seq<T>, test: spec_fn(T) -> bool, k: int)
    requires
        0 <= k <= items.len(),
        k < items.len() ==> test(items[k]),
        forall|i: int| 0 <= i < k ==> !test(#[trigger] items[i]),
    ensures
        first_where(items, test) == (if k < items.len() {
            Some(k)
        } else {
            None
        }),
{
    first_where_is_first(items, test);
    match first_where(items, test) {
        Some(p) => {
            if p < k {
                assert(!test(items[p]));
            } else if k < p {
                assert(!test(items[k]));
            }
        },
        None => {
            if k < items.len() {
                assert(!test(items[k]));
            }
        },
    }
}

/// The beginning of a sequence, of the given length at most.
pub open spec fn at_most<T>(items: Seq<T>, limit: int) -> Seq<T> {
    if items.len() <= limit {
        items
    } else {
        items.take(limit)
    }
}

/// Taking one item more into a filtered beginning.
pub proof fn filter_one_more<T>(items: Seq<T>, test: spec_fn(T) -> bool, i: int)
    requires
        0 <= i < items.len(),
    ensures
        items.take(i + 1).filter(test) == (if test(items[i]) {
            items.take(i).filter(test).push(items[i])
        } else {
            items.take(i).filter(test)
        }),
{
    reveal(Seq::filter);
    assert(items.take(i + 1).drop_last() =~= items.take(i));
    assert(items.take(i + 1).last() == items[i]);
}

/// A sequence without the items that equal a given one.
pub open spec fn without<T>(items: Seq<T>, gone: T) -> Seq<T> {
    items.filter(other_than(gone))
}

/// The test of being another item than the given one.
pub open spec fn other_than<T>(gone: T) -> spec_fn(T) -> bool {
    |x: T| x != gone
}

/// Taking an item out leaves nothing that was not there, and the item is gone.
pub proof fn without_takes_out<T>(items: Seq<T>, gone: T)
    ensures
        without(items, gone).len() <= items.len(),
        !without(items, gone).contains(gone),
        forall|x: T| #[trigger] without(items, gone).contains(x) ==> items.contains(x),
        items.no_duplicates() ==> without(items, gone).no_duplicates(),
    decreases items.len(),
{
    reveal(Seq::filter);
    let test = other_than(gone);
    if items.len() > 0 {
        let init = items.drop_last();
        without_takes_out(init, gone);
        let part = without(init, gone);
        let out = without(items, gone);
        assert(out == if items.last() != gone {
            part.push(items.last())
        } else {
            part
        });
        assert forall|x: T| #[trigger] out.contains(x) implies items.contains(x) by {
            let k = choose|k: int| 0 <= k < out.len() && out[k] == x;
            if k < part.len() {
                assert(part.contains(x));
                assert(init.contains(x));
                let j = choose|j: int| 0 <= j < init.len() && init[j] == x;
                assert(items[j] == x);
            } else {
                assert(items[items.len() - 1] == x);
            }
        }
        assert(!out.contains(gone)) by {
            if out.contains(gone) {
                let k = choose|k: int| 0 <= k < out.len() && out[k] == gone;
                if k < part.len() {
                    assert(part.contains(gone));
                }
            }
        }
        if items.no_duplicates() {
            assert(init.no_duplicates());
            assert forall|i: int, j: int|
                0 <= i < out.len() && 0 <= j < out.len() && i != j implies out[i] != out[j] by {
                if i < part.len() && j == part.len() {
                    assert(part.contains(part[i]));
                    assert(init.contains(part[i]));
                    let m = choose|m: int| 0 <= m < init.len() && init[m] == part[i];
                    assert(items[m] != items[items.len() - 1]);
                }
                if j < part.len() && i == part.len() {
                    assert(part.contains(part[j]));
                    assert(init.contains(part[j]));
                    let m = choose|m: int| 0 <= m < init.len() && init[m] == part[j];
                    assert(items[m] != items[items.len() - 1]);
                }
            }
        }
    }
}

/// Takes every occurrence of a name out of a list.
pub fn remove_name(list: &mut Vec<String>, name: &str)
    ensures
        text::texts(final(list)@) == without(text::texts(old(list)@), name@),
{
    let ghost all = text::texts(list@);
    let mut rest: Vec<String> = Vec::new();
    std::mem::swap(&mut rest, list);
    let mut kept: Vec<String> = Vec::new();
    let ghost mut k: int = 0;
    proof {
        reveal(Seq::filter);
        assert(all.skip(0) =~= all);
        assert(all.take(0) =~= Seq::<Seq<char>>::empty());
        assert(text::texts(kept@) =~= all.take(0).filter(other_than(name@)));
    }
    while rest.len() > 0
        invariant
            0 <= k <= all.len(),
            text::texts(rest@) == all.skip(k),
            text::texts(kept@) == all.take(k).filter(other_than(name@)),
        decreases rest@.len(),
    {
        let ghost before = rest@;
        let ghost held = kept@;
        let item: String = rest.remove(0);
        proof {
            assert(text::texts(before).len() == all.len() - k);
            assert(text::texts(before)[0] == all.skip(k)[0]);
            assert(item@ == all[k]);
            filter_one_more(all, other_than(name@), k);
            assert forall|i: int| 0 <= i < rest@.len() implies text::texts(rest@)[i] == all.skip(
                k + 1,
            )[i] by {
                assert(text::texts(before)[i + 1] == all.skip(k)[i + 1]);
            }
            assert(text::texts(rest@) =~= all.skip(k + 1));
        }
        if !text::same_text(item.as_str(), name) {
            kept.push(item);
            assert(text::texts(kept@) =~= text::texts(held).push(item@));
        }
        proof {
            k = k + 1;
        }
    }
    proof {
        assert(text::texts(rest@).len() == all.len() - k);
        assert(all.take(k) =~= all);
    }
    *list = kept;
}

} // verus!
