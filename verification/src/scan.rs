//! What a scan of a roll's directory finds.

use vstd::prelude::*;
use crate::edit_manifest::{ManifestModel, RollManifest};
use crate::export;
use crate::library::{Roll, RollModel, Thumb};
use crate::paths;
use crate::text;

verus! {

/// An entry of a directory whose name is a text.
#[derive(Debug)]
pub struct DirEntry {
    pub name: String,
    /// Whether it is a regular file.
    pub is_file: bool,
}

/// Whether a file is a frame: neither hidden nor written by an export.
pub open spec fn is_frame(name: Seq<char>) -> bool {
    !(name.len() > 0 && name[0] == '.') && !export::export_artifact(name)
}

/// The frames among the entries of a directory, in the order of the entries.
pub open spec fn frames_among(entries: Seq<DirEntry>) -> Seq<Seq<char>>
    decreases entries.len(),
{
    if entries.len() == 0 {
        Seq::empty()
    } else if entries.last().is_file && is_frame(entries.last().name@) {
        frames_among(entries.drop_last()).push(entries.last().name@)
    } else {
        frames_among(entries.drop_last())
    }
}

/// Whether names never go back.
pub open spec fn in_order(names: Seq<Seq<char>>) -> bool {
    forall|i: int, j: int|
        0 <= i < j < names.len() ==> text::text_le(#[trigger] names[i], #[trigger] names[j])
}

/// Whether a file is a frame.
pub fn is_frame_file(name: &str) -> (r: bool)
    ensures
        r == is_frame(name@),
{
    let chars: Vec<char> = text::chars_of(name);
    let hidden: bool = chars.len() > 0 && chars[0] == '.';
    !hidden && !export::is_export_artifact(name)
}

/// Puts a name into a list in order.
fn insert_name(sorted: &mut Vec<String>, name: String)
    requires
        in_order(text::texts(old(sorted)@)),
    ensures
        in_order(text::texts(final(sorted)@)),
        text::texts(final(sorted)@).to_multiset() == text::texts(
            old(sorted)@,
        ).to_multiset().insert(name@),
{
    broadcast use vstd::seq_lib::group_to_multiset_ensures;

    let ghost before = text::texts(sorted@);
    let mut at: usize = sorted.len();
    while at > 0 && !text::at_most(sorted[at - 1].as_str(), name.as_str())
        invariant
            at <= sorted@.len(),
            before == text::texts(sorted@),
            forall|i: int|
                at <= i < before.len() ==> !text::text_le(#[trigger] before[i], name@),
        decreases at,
    {
        assert(before[at - 1] == sorted@[at - 1]@);
        at = at - 1;
    }
    let ghost n = name@;
    proof {
        if at > 0 {
            assert(before[at - 1] == sorted@[at - 1]@);
            assert(text::text_le(before[at - 1], n));
        }
    }
    sorted.insert(at, name);
    proof {
        let after = text::texts(sorted@);
        assert(after =~= before.insert(at as int, n));
        assert forall|i: int, j: int| 0 <= i < j < after.len() implies text::text_le(
            #[trigger] after[i],
            #[trigger] after[j],
        ) by {
            if i < at && j == at {
                if i < at - 1 {
                    assert(text::text_le(before[i], before[at - 1]));
                    text::text_order_transitive(before[i], before[at - 1], n);
                }
            } else if i == at {
                assert(after[j] == before[j - 1]);
                assert(!text::text_le(before[j - 1], n));
                text::text_order_total(n, before[j - 1]);
            } else if j < at {
                assert(text::text_le(before[i], before[j]));
            } else if i < at {
                assert(text::text_le(before[i], before[j - 1]));
            } else {
                assert(text::text_le(before[i - 1], before[j - 1]));
            }
        }
        before.insert_ensures(at as int, n);
        assert(after.to_multiset() =~= before.to_multiset().insert(n)) by {
            inserting_adds_one(before, at as int, n);
        }
    }
}

/// Putting an item into a sequence adds it to the multiset.
proof fn inserting_adds_one<T>(s: Seq<T>, at: int, x: T)
    requires
        0 <= at <= s.len(),
    ensures
        s.insert(at, x).to_multiset() == s.to_multiset().insert(x),
{
    broadcast use vstd::seq_lib::group_to_multiset_ensures;

    let (a, b) = (s.take(at), s.skip(at));
    assert(s =~= a + b);
    assert(s.insert(at, x) =~= a.push(x) + b);
    vstd::seq_lib::lemma_multiset_commutative(a, b);
    vstd::seq_lib::lemma_multiset_commutative(a.push(x), b);
    assert(s.insert(at, x).to_multiset() =~= s.to_multiset().insert(x));
}

/// The frame files of a directory, in order: regular files that are neither
/// hidden nor written by an export.
pub fn frame_files(entries: Vec<DirEntry>) -> (r: Vec<String>)
    ensures
        in_order(text::texts(r@)),
        text::texts(r@).to_multiset() == frames_among(entries@).to_multiset(),
{
    let mut files: Vec<String> = Vec::new();
    let mut i: usize = 0;
    assert(entries@.take(0) =~= Seq::<DirEntry>::empty());
    assert(text::texts(files@) =~= frames_among(entries@.take(0)));
    while i < entries.len()
        invariant
            i <= entries@.len(),
            in_order(text::texts(files@)),
            text::texts(files@).to_multiset() == frames_among(entries@.take(i as int)).to_multiset(),
        decreases entries@.len() - i,
    {
        proof {
            assert(entries@.take(i + 1).drop_last() =~= entries@.take(i as int));
            assert(entries@.take(i + 1).last() == entries@[i as int]);
        }
        if entries[i].is_file && is_frame_file(entries[i].name.as_str()) {
            insert_name(&mut files, entries[i].name.clone());
            proof {
                let found = frames_among(entries@.take(i as int));
                let name = entries@[i as int].name@;
                assert(frames_among(entries@.take(i + 1)) == found.push(name));
                assert(found.push(name).to_multiset() =~= found.to_multiset().insert(name)) by {
                    broadcast use vstd::seq_lib::group_to_multiset_ensures;

                }
            }
        }
        i += 1;
    }
    assert(entries@.take(i as int) =~= entries@);
    files
}

/// The frame files of a directory have one order only.
pub proof fn frame_order_is_unique(a: Seq<Seq<char>>, b: Seq<Seq<char>>)
    requires
        in_order(a),
        in_order(b),
        a.to_multiset() == b.to_multiset(),
    ensures
        a == b,
{
    let leq = |x: Seq<char>, y: Seq<char>| text::text_le(x, y);
    assert forall|x: Seq<char>| #[trigger] leq(x, x) by {
        text::text_order_reflexive(x);
    }
    assert forall|x: Seq<char>, y: Seq<char>| #[trigger] leq(x, y) || #[trigger] leq(y, x) by {
        text::text_order_total(x, y);
    }
    assert forall|x: Seq<char>, y: Seq<char>|
        #[trigger] leq(x, y) && #[trigger] leq(y, x) implies x == y by {
        text::text_order_antisymmetric(x, y);
    }
    assert forall|x: Seq<char>, y: Seq<char>, z: Seq<char>|
        #[trigger] leq(x, y) && #[trigger] leq(y, z) implies leq(x, z) by {
        text::text_order_transitive(x, y, z);
    }
    assert(vstd::relations::total_ordering(leq));
    assert(vstd::relations::sorted_by(a, leq)) by {
        assert forall|i: int, j: int| 0 <= i < j < a.len() implies #[trigger] leq(a[i], a[j]) by {
            assert(text::text_le(a[i], a[j]));
        }
    }
    assert(vstd::relations::sorted_by(b, leq)) by {
        assert forall|i: int, j: int| 0 <= i < j < b.len() implies #[trigger] leq(b[i], b[j]) by {
            assert(text::text_le(b[i], b[j]));
        }
    }
    vstd::seq_lib::lemma_sorted_unique(a, b, leq);
}

/// What stands for a roll that has no label: its directory's own name.
pub open spec fn leaf_name(dir: Seq<char>) -> Seq<char> {
    match paths::file_name(dir) {
        Some(leaf) => leaf,
        None => dir,
    }
}

/// A roll as a scan finds it.
pub open spec fn scanned(dir: Seq<char>, files: Seq<Seq<char>>, manifest: ManifestModel) -> RollModel {
    RollModel {
        dir,
        name: match manifest.name {
            Some(label) => label,
            None => leaf_name(dir),
        },
        cover: if files.len() > 0 {
            Some(files[0])
        } else {
            None
        },
        frame_count: files.len() as usize,
        preset: manifest.film(),
        base_mode: manifest.strategy(),
        start_date: manifest.start_date,
        end_date: manifest.end_date,
        thumb: Thumb::Loading,
    }
}

/// A roll as a scan finds it: named by its label or its directory, with its
/// first frame for a cover, and what its manifest records.
pub fn scanned_roll(dir: &str, files: &[String], manifest: &RollManifest) -> (r: Roll)
    ensures
        r.model() == scanned(dir@, text::texts(files@), manifest.model()),
        r.model() == (RollModel {
            dir: dir@,
            name: match manifest.model().name {
                Some(label) => label,
                None => leaf_name(dir@),
            },
            cover: if files@.len() > 0 {
                Some(files@[0]@)
            } else {
                None
            },
            frame_count: files@.len() as usize,
            preset: manifest.model().film(),
            base_mode: manifest.model().strategy(),
            start_date: manifest.model().start_date,
            end_date: manifest.model().end_date,
            thumb: Thumb::Loading,
        }),
{
    let name: String = match manifest.name() {
        Some(label) => label.to_owned(),
        None => match paths::file_name_of(dir) {
            Some(leaf) => leaf,
            None => dir.to_owned(),
        },
    };
    let cover: Option<String> = if files.len() > 0 {
        Some(files[0].clone())
    } else {
        None
    };
    Roll {
        dir: dir.to_owned(),
        name,
        cover,
        frame_count: files.len(),
        preset: manifest.preset(),
        base_mode: manifest.base_mode(),
        start_date: text::clone_option(&manifest.start_date),
        end_date: text::clone_option(&manifest.end_date),
        thumb: Thumb::Loading,
    }
}

/// The directories of a configuration, plainly spelled, each once, in the order
/// in which they first stand there.
pub open spec fn distinct_dirs(entries: Seq<Seq<char>>) -> Seq<Seq<char>>
    decreases entries.len(),
{
    if entries.len() == 0 {
        Seq::empty()
    } else {
        let init = distinct_dirs(entries.drop_last());
        let dir = paths::tidied(entries.last());
        if init.contains(dir) {
            init
        } else {
            init.push(dir)
        }
    }
}

/// The directories of a configuration to scan.
pub fn dirs_to_scan(entries: &[String]) -> (r: Vec<String>)
    ensures
        text::texts(r@) == distinct_dirs(text::texts(entries@)),
{
    let ghost all = text::texts(entries@);
    let mut out: Vec<String> = Vec::new();
    let mut i: usize = 0;
    assert(all.take(0) =~= Seq::<Seq<char>>::empty());
    assert(text::texts(out@) =~= distinct_dirs(all.take(0)));
    while i < entries.len()
        invariant
            i <= entries@.len(),
            all == text::texts(entries@),
            text::texts(out@) == distinct_dirs(all.take(i as int)),
        decreases entries@.len() - i,
    {
        let ghost held = out@;
        let dir: String = paths::tidy(entries[i].as_str());
        proof {
            assert(all.take(i + 1).drop_last() =~= all.take(i as int));
            assert(all.take(i + 1).last() == entries@[i as int]@);
        }
        if !text::holds_name(out.as_slice(), dir.as_str()) {
            out.push(dir);
            assert(text::texts(out@) =~= text::texts(held).push(dir@));
        }
        i += 1;
    }
    assert(all.take(i as int) =~= all);
    out
}

/// No directory is scanned twice.
pub proof fn scanned_dirs_are_distinct(entries: Seq<Seq<char>>)
    ensures
        distinct_dirs(entries).no_duplicates(),
    decreases entries.len(),
{
    if entries.len() > 0 {
        scanned_dirs_are_distinct(entries.drop_last());
        let init = distinct_dirs(entries.drop_last());
        let out = distinct_dirs(entries);
        assert forall|i: int, j: int|
            0 <= i < out.len() && 0 <= j < out.len() && i != j implies out[i] != out[j] by {
            if out.len() > init.len() {
                if i == init.len() {
                    assert(init.contains(init[j]));
                }
                if j == init.len() {
                    assert(init.contains(init[i]));
                }
            }
        }
    }
}

} // verus!
