//! Paths as texts whose parts are separated by slashes.

use vstd::prelude::*;
use crate::text;

verus! {

/// A path without the slashes and lone dots at its end, which name nothing.
pub open spec fn trimmed(p: Seq<char>) -> Seq<char>
    decreases p.len(),
{
    if p.len() > 0 && p.last() == '/' {
        trimmed(p.drop_last())
    } else if p.len() >= 2 && p.last() == '.' && p[p.len() - 2] == '/' {
        trimmed(p.take(p.len() - 2))
    } else {
        p
    }
}

/// Where the last part of a path begins: behind its last slash.
pub open spec fn last_part(p: Seq<char>) -> int
    decreases p.len(),
{
    if p.len() == 0 {
        0
    } else if p.last() == '/' {
        p.len() as int
    } else {
        last_part(p.drop_last())
    }
}

/// The last part of a path lies within it.
pub proof fn last_part_in_range(p: Seq<char>)
    ensures
        0 <= last_part(p) <= p.len(),
    decreases p.len(),
{
    if p.len() > 0 && p.last() != '/' {
        last_part_in_range(p.drop_last());
    }
}

/// Trimming only takes away at the end.
pub proof fn trimmed_is_prefix(p: Seq<char>)
    ensures
        trimmed(p).len() <= p.len(),
        trimmed(p) == p.take(trimmed(p).len() as int),
    decreases p.len(),
{
    if p.len() > 0 && p.last() == '/' {
        trimmed_is_prefix(p.drop_last());
        let t = trimmed(p);
        assert(p.drop_last().take(t.len() as int) =~= p.take(t.len() as int));
    } else if p.len() >= 2 && p.last() == '.' && p[p.len() - 2] == '/' {
        trimmed_is_prefix(p.take(p.len() - 2));
        let t = trimmed(p);
        assert(p.take(p.len() - 2).take(t.len() as int) =~= p.take(t.len() as int));
    } else {
        assert(p.take(p.len() as int) =~= p);
    }
}

/// Whether a part of a path names a file: it is neither empty nor one of the
/// names for this and the enclosing directory.
pub open spec fn names_a_file(n: Seq<char>) -> bool {
    n.len() > 0 && n != seq!['.'] && n != seq!['.', '.']
}

/// The file name that a path ends in.
pub open spec fn file_name(p: Seq<char>) -> Option<Seq<char>> {
    let t = trimmed(p);
    let n = t.skip(last_part(t));
    if names_a_file(n) {
        Some(n)
    } else {
        None
    }
}

/// Where the last dot of a text stands; -1 where there is none.
pub open spec fn last_dot(n: Seq<char>) -> int
    decreases n.len(),
{
    if n.len() == 0 {
        -1
    } else if n.last() == '.' {
        n.len() - 1
    } else {
        last_dot(n.drop_last())
    }
}

/// The last dot lies within the text, and what follows it has no dot.
pub proof fn last_dot_in_range(n: Seq<char>)
    ensures
        -1 <= last_dot(n) < n.len(),
        last_dot(n) >= 0 ==> n[last_dot(n)] == '.',
        forall|i: int| last_dot(n) < i < n.len() ==> n[i] != '.',
    decreases n.len(),
{
    if n.len() > 0 && n.last() != '.' {
        last_dot_in_range(n.drop_last());
        assert forall|i: int| last_dot(n) < i < n.len() implies n[i] != '.' by {
            if i < n.len() - 1 {
                assert(n.drop_last()[i] == n[i]);
            }
        }
    }
}

/// How long the stem of a file name is: up to its last dot, unless that dot is
/// absent or begins the name.
pub open spec fn stem_length(n: Seq<char>) -> int {
    if last_dot(n) > 0 {
        last_dot(n)
    } else {
        n.len() as int
    }
}

/// A path with the extension of its file name set; a path that ends in no file
/// name as it is.
pub open spec fn extension_set(p: Seq<char>, ext: Seq<char>) -> Seq<char> {
    let t = trimmed(p);
    match file_name(p) {
        None => p,
        Some(n) => t.take(last_part(t) + stem_length(n)) + seq!['.'] + ext,
    }
}

/// A path continued by a relative one; an absolute continuation stands alone.
pub open spec fn joined(dir: Seq<char>, leaf: Seq<char>) -> Seq<char> {
    if leaf.len() > 0 && leaf[0] == '/' {
        leaf
    } else if dir.len() == 0 || dir.last() == '/' {
        dir + leaf
    } else {
        dir + seq!['/'] + leaf
    }
}

/// The directory part of a path that ends in a file name.
pub open spec fn parent(p: Seq<char>) -> Seq<char> {
    let t = trimmed(p);
    let head = trimmed(t.take(last_part(t)));
    if head.len() == 0 && t.len() > 0 && t[0] == '/' {
        seq!['/']
    } else {
        head
    }
}

/// A path with its file name replaced, or continued by the name where it ends
/// in none.
pub open spec fn file_name_set(p: Seq<char>, name: Seq<char>) -> Seq<char> {
    match file_name(p) {
        Some(_) => joined(parent(p), name),
        None => joined(p, name),
    }
}

/// How long the path `chars[..end]` is once trimmed.
fn trimmed_length(chars: &[char], end: usize) -> (r: usize)
    requires
        end <= chars@.len(),
    ensures
        r <= end,
        chars@.take(r as int) == trimmed(chars@.take(end as int)),
{
    let mut n: usize = end;
    while n > 0 && (chars[n - 1] == '/' || (n >= 2 && chars[n - 1] == '.' && chars[n - 2] == '/'))
        invariant
            n <= end <= chars@.len(),
            trimmed(chars@.take(n as int)) == trimmed(chars@.take(end as int)),
        decreases n,
    {
        let ghost p = chars@.take(n as int);
        if chars[n - 1] == '/' {
            assert(p.drop_last() =~= chars@.take(n - 1));
            n = n - 1;
        } else {
            assert(p.take(n - 2) =~= chars@.take(n - 2));
            n = n - 2;
        }
    }
    n
}

/// Where the last part of the path `chars[..end]` begins.
fn last_part_start(chars: &[char], end: usize) -> (r: usize)
    requires
        end <= chars@.len(),
    ensures
        r <= end,
        r == last_part(chars@.take(end as int)),
{
    let mut n: usize = end;
    while n > 0 && chars[n - 1] != '/'
        invariant
            n <= end <= chars@.len(),
            last_part(chars@.take(n as int)) == last_part(chars@.take(end as int)),
        decreases n,
    {
        assert(chars@.take(n as int).drop_last() =~= chars@.take(n - 1));
        n = n - 1;
    }
    n
}

/// Where the file name of a path begins and ends, if it ends in one.
fn file_name_range(chars: &[char]) -> (r: Option<(usize, usize)>)
    ensures
        r is Some <==> file_name(chars@) is Some,
        r is Some ==> r.unwrap().0 < r.unwrap().1 <= chars@.len() && chars@.take(
            r.unwrap().1 as int,
        ) == trimmed(chars@) && r.unwrap().0 == last_part(trimmed(chars@)) && file_name(chars@)
            == Some(chars@.subrange(r.unwrap().0 as int, r.unwrap().1 as int)),
{
    let len: usize = chars.len();
    let end: usize = trimmed_length(chars, len);
    let start: usize = last_part_start(chars, end);
    proof {
        assert(chars@.take(len as int) =~= chars@);
        assert(trimmed(chars@).skip(start as int) =~= chars@.subrange(start as int, end as int));
    }
    let ghost n = chars@.subrange(start as int, end as int);
    if start == end {
        return None;
    }
    if end - start == 1 && chars[start] == '.' {
        assert(n =~= seq!['.']);
        return None;
    }
    if end - start == 2 && chars[start] == '.' && chars[start + 1] == '.' {
        assert(n =~= seq!['.', '.']);
        return None;
    }
    assert(names_a_file(n)) by {
        if n =~= seq!['.'] {
            assert(n[0] == '.');
        }
        if n =~= seq!['.', '.'] {
            assert(n[0] == '.' && n[1] == '.');
        }
    }
    Some((start, end))
}

/// Joins a directory and a path below it.
pub fn join(dir: &str, leaf: &str) -> (r: String)
    ensures
        r@ == joined(dir@, leaf@),
{
    let head: Vec<char> = text::chars_of(leaf);
    if head.len() > 0 && head[0] == '/' {
        return leaf.to_owned();
    }
    let mut out: String = dir.to_owned();
    let chars: Vec<char> = text::chars_of(dir);
    if chars.len() > 0 && chars[chars.len() - 1] != '/' {
        out.push('/');
        assert(out@ =~= dir@ + seq!['/']);
    }
    out.push_str(leaf);
    assert(out@ =~= joined(dir@, leaf@));
    out
}

/// Sets the extension of the file name that a path ends in.
pub fn with_extension(path: &str, ext: &str) -> (r: String)
    ensures
        r@ == extension_set(path@, ext@),
{
    let chars: Vec<char> = text::chars_of(path);
    match file_name_range(chars.as_slice()) {
        None => path.to_owned(),
        Some((start, end)) => {
            let ghost n = chars@.subrange(start as int, end as int);
            let mut dot: usize = end;
            while dot > start && chars[dot - 1] != '.'
                invariant
                    start <= dot <= end <= chars@.len(),
                    n == chars@.subrange(start as int, end as int),
                    last_dot(n) == last_dot(chars@.subrange(start as int, dot as int)),
                decreases dot,
            {
                assert(chars@.subrange(start as int, dot as int).drop_last() =~= chars@.subrange(
                    start as int,
                    dot - 1,
                ));
                dot = dot - 1;
            }
            let stem: usize = if dot > start + 1 {
                dot - 1
            } else {
                end
            };
            assert(stem == start + stem_length(n));
            let mut out: String = text::text_from(chars.as_slice(), 0, stem);
            out.push('.');
            out.push_str(ext);
            assert(chars@.subrange(0, stem as int) =~= chars@.take(end as int).take(stem as int));
            assert(out@ =~= extension_set(path@, ext@));
            out
        },
    }
}

/// The file name that a path ends in.
pub fn file_name_of(path: &str) -> (r: Option<String>)
    ensures
        text::text_of(r) == file_name(path@),
{
    let chars: Vec<char> = text::chars_of(path);
    match file_name_range(chars.as_slice()) {
        None => None,
        Some((start, end)) => Some(text::text_from(chars.as_slice(), start, end)),
    }
}

/// Replaces the file name that a path ends in.
pub fn with_file_name(path: &str, name: &str) -> (r: String)
    ensures
        r@ == file_name_set(path@, name@),
{
    let chars: Vec<char> = text::chars_of(path);
    match file_name_range(chars.as_slice()) {
        None => join(path, name),
        Some((start, end)) => {
            let head: usize = trimmed_length(chars.as_slice(), start);
            assert(chars@.take(end as int).take(start as int) =~= chars@.take(start as int));
            let dir: String = if head == 0 && chars[0] == '/' {
                let mut root: String = String::new();
                root.push('/');
                assert(root@ =~= seq!['/']);
                root
            } else {
                text::text_from(chars.as_slice(), 0, head)
            };
            assert(chars@.subrange(0, head as int) =~= chars@.take(head as int));
            assert(dir@ =~= parent(path@));
            join(dir.as_str(), name)
        },
    }
}

/// The last dot of a text that ends in a dot and something without dots is
/// that dot.
pub proof fn last_dot_of_extension(stem: Seq<char>, ext: Seq<char>)
    requires
        forall|i: int| 0 <= i < ext.len() ==> ext[i] != '.',
    ensures
        last_dot(stem + seq!['.'] + ext) == stem.len(),
    decreases ext.len(),
{
    let whole = stem + seq!['.'] + ext;
    if ext.len() > 0 {
        assert(whole.last() == ext.last());
        assert(whole.drop_last() =~= stem + seq!['.'] + ext.drop_last());
        last_dot_of_extension(stem, ext.drop_last());
    } else {
        assert(whole.last() == '.');
    }
}

/// The last part of a path that ends in a part without slashes begins where
/// that part begins.
pub proof fn last_part_of_leaf(head: Seq<char>, leaf: Seq<char>)
    requires
        head.len() == 0 || head.last() == '/',
        forall|i: int| 0 <= i < leaf.len() ==> leaf[i] != '/',
    ensures
        last_part(head + leaf) == head.len(),
    decreases leaf.len(),
{
    if leaf.len() > 0 {
        assert((head + leaf).last() == leaf.last());
        assert((head + leaf).drop_last() =~= head + leaf.drop_last());
        last_part_of_leaf(head, leaf.drop_last());
    } else {
        assert(head + leaf =~= head);
    }
}

/// A trimmed path stays as it is when trimmed again.
pub proof fn trimming_twice(p: Seq<char>)
    ensures
        trimmed(trimmed(p)) == trimmed(p),
    decreases p.len(),
{
    if p.len() > 0 && p.last() == '/' {
        trimming_twice(p.drop_last());
    } else if p.len() >= 2 && p.last() == '.' && p[p.len() - 2] == '/' {
        trimming_twice(p.take(p.len() - 2));
    }
}

/// The file name of a path has no slash in it.
pub proof fn file_name_has_no_slash(p: Seq<char>)
    requires
        file_name(p) is Some,
    ensures
        forall|i: int| 0 <= i < file_name(p).unwrap().len() ==> file_name(p).unwrap()[i] != '/',
{
    last_part_has_no_slash(trimmed(p));
    last_part_in_range(trimmed(p));
}

proof fn last_part_has_no_slash(t: Seq<char>)
    ensures
        forall|i: int| last_part(t) <= i < t.len() ==> t[i] != '/',
    decreases t.len(),
{
    if t.len() > 0 && t.last() != '/' {
        last_part_has_no_slash(t.drop_last());
        last_part_in_range(t.drop_last());
        assert forall|i: int| last_part(t) <= i < t.len() implies t[i] != '/' by {
            if i < t.len() - 1 {
                assert(t.drop_last()[i] == t[i]);
            }
        }
    }
}

/// Replacing the file name of a path gives a path in the same directory, under
/// the new name.
pub proof fn renamed_file_stays_in_its_directory(p: Seq<char>, name: Seq<char>)
    requires
        file_name(p) is Some,
        name.len() > 0,
        name.last() != '.',
        forall|i: int| 0 <= i < name.len() ==> name[i] != '/',
    ensures
        file_name(file_name_set(p, name)) == Some(name),
        parent(file_name_set(p, name)) == parent(p),
{
    let dir = parent(p);
    let t = trimmed(p);
    last_part_in_range(t);
    trimmed_is_prefix(t.take(last_part(t)));
    trimming_twice(t.take(last_part(t)));
    let head = if dir.len() == 0 || dir.last() == '/' {
        dir
    } else {
        dir + seq!['/']
    };
    let q = file_name_set(p, name);
    assert(q =~= head + name);
    assert(q.last() == name.last());
    assert(name.last() != '/');
    assert(trimmed(q) == q);
    last_part_of_leaf(head, name);
    assert(q.skip(head.len() as int) =~= name);
    assert(name != seq!['.']) by {
        if name == seq!['.'] {
            assert(name.last() == '.');
        }
    }
    assert(name != seq!['.', '.']) by {
        if name == seq!['.', '.'] {
            assert(name.last() == '.');
        }
    }
    assert(q.take(head.len() as int) =~= head);
    let root = trimmed(t.take(last_part(t)));
    if root.len() == 0 && t.len() > 0 && t[0] == '/' {
        assert(dir =~= seq!['/']);
        assert(head == dir);
        assert(head.drop_last() =~= Seq::<char>::empty());
        assert(trimmed(head) == trimmed(head.drop_last()));
        assert(q[0] == '/');
    } else {
        assert(dir == root);
        assert(trimmed(dir) == dir);
        if dir.len() == 0 {
            assert(head == dir);
            assert(q[0] == name[0]);
        } else {
            assert(dir.last() != '/') by {
                trimmed_is_prefix(dir.drop_last());
            }
            assert(head.drop_last() =~= dir);
            assert(trimmed(head) == trimmed(dir));
        }
    }
}

/// Where the first slash of a text stands; its length where there is none.
pub open spec fn first_slash(s: Seq<char>) -> int
    decreases s.len(),
{
    if s.len() == 0 {
        0
    } else if s[0] == '/' {
        0
    } else {
        1 + first_slash(s.drop_first())
    }
}

/// The first slash lies within the text.
proof fn first_slash_in_range(s: Seq<char>)
    ensures
        0 <= first_slash(s) <= s.len(),
        first_slash(s) < s.len() ==> s[first_slash(s)] == '/',
        forall|i: int| 0 <= i < first_slash(s) ==> s[i] != '/',
    decreases s.len(),
{
    if s.len() > 0 && s[0] != '/' {
        first_slash_in_range(s.drop_first());
        assert forall|i: int| 0 <= i < first_slash(s) implies s[i] != '/' by {
            if i > 0 {
                assert(s.drop_first()[i - 1] == s[i]);
            }
        }
    }
}

/// A slash before which there is none is the first.
proof fn first_slash_from_place(s: Seq<char>, k: int)
    requires
        0 <= k <= s.len(),
        k < s.len() ==> s[k] == '/',
        forall|i: int| 0 <= i < k ==> s[i] != '/',
    ensures
        first_slash(s) == k,
{
    first_slash_in_range(s);
    let p = first_slash(s);
    if p < k {
        assert(s[p] != '/');
    } else if k < p {
        assert(s[k] != '/');
    }
}

/// The path `done`, continued by one part, if that names something: an empty
/// part does not, nor does a lone dot, except one that begins the path.
pub open spec fn extended(done: Seq<char>, begun: bool, part: Seq<char>) -> Seq<char> {
    if part.len() == 0 || (part == seq!['.'] && begun) {
        done
    } else if done.len() == 0 || done.last() == '/' {
        done + part
    } else {
        done + seq!['/'] + part
    }
}

/// The path `done`, continued by those parts of `rest` that name something.
pub open spec fn continued(done: Seq<char>, begun: bool, rest: Seq<char>) -> Seq<char>
    decreases rest.len(),
    via continued_decreases
{
    let k = first_slash(rest);
    let next = extended(done, begun, rest.take(k));
    if k >= rest.len() {
        next
    } else {
        continued(next, true, rest.skip(k + 1))
    }
}

#[via_fn]
proof fn continued_decreases(done: Seq<char>, begun: bool, rest: Seq<char>) {
    first_slash_in_range(rest);
}

/// The plain spelling of a path, in which two paths with the same parts agree:
/// no repeated slashes, no slash at the end, and no lone dots but a first one.
pub open spec fn tidied(p: Seq<char>) -> Seq<char> {
    if p.len() > 0 && p[0] == '/' {
        continued(seq!['/'], true, p.drop_first())
    } else {
        continued(Seq::empty(), false, p)
    }
}

/// Appends a part to a path, if it names something.
fn extend(done: &mut String, begun: bool, part: &[char])
    ensures
        final(done)@ == extended(old(done)@, begun, part@),
{
    if part.len() == 0 {
        return;
    }
    if part.len() == 1 && part[0] == '.' && begun {
        assert(part@ =~= seq!['.']);
        return;
    }
    let ghost before = done@;
    let so_far: Vec<char> = text::chars_of(done.as_str());
    if so_far.len() > 0 && so_far[so_far.len() - 1] != '/' {
        done.push('/');
    }
    let added: String = text::text_from(part, 0, part.len());
    done.push_str(added.as_str());
    proof {
        assert(part@.subrange(0, part@.len() as int) =~= part@);
        if part@ == seq!['.'] {
            assert(part@[0] == '.');
        }
        assert(done@ =~= extended(before, begun, part@));
    }
}

/// Spells a path plainly.
pub fn tidy(p: &str) -> (r: String)
    ensures
        r@ == tidied(p@),
{
    let chars: Vec<char> = text::chars_of(p);
    let mut done: String = String::new();
    let mut begun: bool = false;
    let mut from: usize = 0;
    if chars.len() > 0 && chars[0] == '/' {
        done.push('/');
        begun = true;
        from = 1;
        assert(done@ =~= seq!['/']);
        assert(p@.drop_first() =~= chars@.skip(1));
    } else {
        assert(done@ =~= Seq::<char>::empty());
        assert(p@ =~= chars@.skip(0));
    }
    loop
        invariant
            chars@ == p@,
            from <= chars@.len(),
            continued(done@, begun, chars@.skip(from as int)) == tidied(p@),
        decreases chars@.len() - from,
    {
        let mut to: usize = from;
        let mut part: Vec<char> = Vec::new();
        assert(part@ =~= chars@.subrange(from as int, from as int));
        while to < chars.len() && chars[to] != '/'
            invariant
                from <= to <= chars@.len(),
                part@ == chars@.subrange(from as int, to as int),
                forall|i: int| from <= i < to ==> chars@[i] != '/',
            decreases chars@.len() - to,
        {
            part.push(chars[to]);
            to += 1;
            assert(part@ =~= chars@.subrange(from as int, to as int));
        }
        let ghost before = done@;
        proof {
            part_ends_at_slash(chars@, from as int, to as int);
        }
        extend(&mut done, begun, part.as_slice());
        if to >= chars.len() {
            assert(continued(before, begun, chars@.skip(from as int)) == done@);
            return done;
        }
        assert(continued(before, begun, chars@.skip(from as int)) == continued(
            done@,
            true,
            chars@.skip(to + 1),
        ));
        begun = true;
        from = to + 1;
    }
}

/// What stands before the next slash is the first part of what is left.
proof fn part_ends_at_slash(all: Seq<char>, from: int, to: int)
    requires
        0 <= from <= to <= all.len(),
        to < all.len() ==> all[to] == '/',
        forall|i: int| from <= i < to ==> all[i] != '/',
    ensures
        first_slash(all.skip(from)) == to - from,
        all.skip(from).take(to - from) == all.subrange(from, to),
        to < all.len() ==> all.skip(from).skip(to - from + 1) == all.skip(to + 1),
{
    let rest = all.skip(from);
    assert forall|i: int| 0 <= i < to - from implies rest[i] != '/' by {
        assert(rest[i] == all[from + i]);
    }
    first_slash_from_place(rest, to - from);
    assert(rest.take(to - from) =~= all.subrange(from, to));
    if to < all.len() {
        assert(rest.skip(to - from + 1) =~= all.skip(to + 1));
    }
}

/// A slash at the end of a path, unless it is the whole of it, makes no
/// difference to its plain spelling.
pub proof fn trailing_slash_changes_nothing(p: Seq<char>)
    requires
        p.len() > 0,
    ensures
        tidied(p.push('/')) == tidied(p),
{
    if p[0] == '/' {
        assert(p.push('/').drop_first() =~= p.drop_first().push('/'));
        slash_ends_the_last_part(seq!['/'], true, p.drop_first());
    } else {
        slash_ends_the_last_part(Seq::empty(), false, p);
    }
}

/// Behind a slash at the end there is only an empty part, which names nothing.
proof fn slash_ends_the_last_part(done: Seq<char>, begun: bool, rest: Seq<char>)
    ensures
        continued(done, begun, rest.push('/')) == continued(done, begun, rest),
    decreases rest.len(),
{
    let k = first_slash(rest);
    let longer = rest.push('/');
    first_slash_in_range(rest);
    assert forall|i: int| 0 <= i < k implies longer[i] != '/' by {
        assert(longer[i] == rest[i]);
    }
    first_slash_from_place(longer, k);
    assert(longer.take(k) =~= rest.take(k));
    let next = extended(done, begun, rest.take(k));
    if k >= rest.len() {
        assert(longer.skip(k + 1) =~= Seq::<char>::empty());
        assert(longer.skip(k + 1).take(0) =~= Seq::<char>::empty());
        assert(continued(next, true, longer.skip(k + 1)) == next);
    } else {
        assert(longer.skip(k + 1) =~= rest.skip(k + 1).push('/'));
        slash_ends_the_last_part(next, true, rest.skip(k + 1));
    }
}

} // verus!
