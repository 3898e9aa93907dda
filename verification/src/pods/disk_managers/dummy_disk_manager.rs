use vstd::prelude::*;

use crate::assoc::{assoc, assoc_keys, lemma_assoc_contains, lemma_assoc_push, lemma_assoc_remove, lemma_assoc_update};
use crate::error::IoKind;
use crate::pods::filesystem::fs_interface::SimpleFileType;
use crate::pods::disk_managers::DiskManager;
use crate::pods::itree::fsentry::EntrySymlink;
use crate::pods::whpath::{str_eq, WhPath};
use crate::text::views;

verus! {

/// A path on the disk, as its components.
pub type DiskPath = Seq<Seq<char>>;

/// An entry of the in-memory disk: a file and its bytes, or a folder and the
/// paths it lists.
#[derive(Debug)]
pub enum VirtualFile {
    File(Vec<u8>),
    Folder(Vec<WhPath>),
}

/// The abstract value of a [VirtualFile].
pub enum VirtualView {
    File(Seq<u8>),
    Folder(Seq<DiskPath>),
}

/// The components of each of the paths.
pub open spec fn paths_view(v: Seq<WhPath>) -> Seq<DiskPath> {
    v.map_values(|p: WhPath| p@)
}

impl View for VirtualFile {
    type V = VirtualView;

    open spec fn view(&self) -> VirtualView {
        match self {
            VirtualFile::File(d) => VirtualView::File(d@),
            VirtualFile::Folder(v) => VirtualView::Folder(paths_view(v@)),
        }
    }
}

impl VirtualFile {
    /// The kind of file the entry is.
    pub fn kind(&self) -> (r: SimpleFileType)
        ensures
            r == if self is File {
                SimpleFileType::File
            } else {
                SimpleFileType::Directory
            },
    {
        match self {
            VirtualFile::File(_) => SimpleFileType::File,
            VirtualFile::Folder(_) => SimpleFileType::Directory,
        }
    }
}

/// The abstract value of a [DummyDiskManager]: its entries by path, and the
/// number of bytes it counts as stored.
pub struct DiskView {
    pub files: Map<DiskPath, VirtualView>,
    pub size: usize,
}

/// A disk held in memory, for tests: folders list the paths created in them.
#[derive(Debug)]
pub struct DummyDiskManager {
    files: Vec<(WhPath, VirtualFile)>,
    size: usize,
    mount_point: String,
}

/// The paths and views of the entries of a list.
pub open spec fn entries_view(v: Seq<(WhPath, VirtualFile)>) -> Seq<(DiskPath, VirtualView)> {
    v.map_values(|e: (WhPath, VirtualFile)| (e.0@, e.1@))
}

/// Every path that a folder lists has a last component.
pub open spec fn listings_named(m: Map<DiskPath, VirtualView>) -> bool {
    forall|p: DiskPath, i: int|
        #![trigger m[p], m[p]->Folder_0[i]]
        m.contains_key(p) && m[p] is Folder && 0 <= i < m[p]->Folder_0.len() ==> m[p]->Folder_0[i].len() > 0
}

/// The bytes of `file` once `data` is written at `offset`, replacing what lay there.
pub open spec fn written(file: Seq<u8>, data: Seq<u8>, offset: int) -> Seq<u8> {
    let end = if file.len() < offset + data.len() {
        file.len() as int
    } else {
        offset + data.len()
    };
    file.take(offset) + data + file.skip(end)
}

/// The bytes of `file` once cut or padded with zeros to `size` bytes.
pub open spec fn resized(file: Seq<u8>, size: int) -> Seq<u8> {
    if size <= file.len() {
        file.take(size)
    } else {
        file + Seq::new((size - file.len()) as nat, |i: int| 0u8)
    }
}

/// A folder entry lists only paths that have a last component.
pub open spec fn entry_named(v: VirtualView) -> bool {
    v is Folder ==> forall|i: int| 0 <= i < v->Folder_0.len() ==> #[trigger] v->Folder_0[i].len() > 0
}

proof fn lemma_listings_insert(m: Map<DiskPath, VirtualView>, k: DiskPath, v: VirtualView)
    requires
        listings_named(m),
        entry_named(v),
    ensures
        listings_named(m.insert(k, v)),
{
    let m2 = m.insert(k, v);
    assert forall|p: DiskPath, i: int|
        #![trigger m2[p], m2[p]->Folder_0[i]]
        m2.contains_key(p) && m2[p] is Folder && 0 <= i < m2[p]->Folder_0.len() implies m2[p]->Folder_0[i].len() > 0 by {
        if p != k {
            assert(m2[p] == m[p]);
            assert(m[p]->Folder_0[i].len() > 0);
        }
    }
}

proof fn lemma_listings_remove(m: Map<DiskPath, VirtualView>, k: DiskPath)
    requires
        listings_named(m),
    ensures
        listings_named(m.remove(k)),
{
    let m2 = m.remove(k);
    assert forall|p: DiskPath, i: int|
        #![trigger m2[p], m2[p]->Folder_0[i]]
        m2.contains_key(p) && m2[p] is Folder && 0 <= i < m2[p]->Folder_0.len() implies m2[p]->Folder_0[i].len() > 0 by {
        assert(m2[p] == m[p]);
        assert(m[p]->Folder_0[i].len() > 0);
    }
}

/// The listing `s` without the path `p`.
pub open spec fn drop_path(s: Seq<DiskPath>, p: DiskPath) -> Seq<DiskPath> {
    s.filter(|x: DiskPath| x != p)
}

/// A copy of a listing, with `extra` added at its end when given, and without
/// `dropped` when given.
fn copy_listing(v: &Vec<WhPath>, dropped: Option<&WhPath>, extra: Option<&WhPath>) -> (r: Vec<WhPath>)
    ensures
        paths_view(r@) == match (dropped, extra) {
            (Some(d), Some(e)) => drop_path(paths_view(v@), d@).push(e@),
            (Some(d), None) => drop_path(paths_view(v@), d@),
            (None, Some(e)) => paths_view(v@).push(e@),
            (None, None) => paths_view(v@),
        },
{
    let ghost pv = paths_view(v@);
    let mut r: Vec<WhPath> = Vec::new();
    let mut i: usize = 0;
    proof {
        reveal(Seq::filter);
        assert(pv.take(0) =~= Seq::<DiskPath>::empty());
        assert(paths_view(r@) =~= Seq::<DiskPath>::empty());
    }
    while i < v.len()
        invariant
            i <= v.len(),
            pv == paths_view(v@),
            paths_view(r@) == match dropped {
                Some(d) => drop_path(pv.take(i as int), d@),
                None => pv.take(i as int),
            },
        decreases v.len() - i,
    {
        proof {
            reveal(Seq::filter);
            assert(pv.take(i + 1).drop_last() =~= pv.take(i as int));
            assert(pv[i as int] == v@[i as int]@);
        }
        let keep = match dropped {
            Some(d) => !v[i].same_as(d),
            None => true,
        };
        let ghost before = r@;
        if keep {
            r.push(v[i].clone());
            assert(paths_view(r@) =~= paths_view(before).push(v@[i as int]@));
        }
        i = i + 1;
    }
    assert(pv.take(v.len() as int) =~= pv);
    match extra {
        Some(e) => {
            let ghost before = r@;
            r.push(e.clone());
            assert(paths_view(r@) =~= paths_view(before).push(e@));
        },
        None => {},
    }
    r
}

proof fn lemma_drop_path_within(s: Seq<DiskPath>, p: DiskPath)
    ensures
        forall|i: int| 0 <= i < drop_path(s, p).len() ==> s.contains(#[trigger] drop_path(s, p)[i]),
    decreases s.len(),
{
    reveal(Seq::filter);
    if s.len() > 0 {
        lemma_drop_path_within(s.drop_last(), p);
        let t = drop_path(s.drop_last(), p);
        assert forall|i: int| 0 <= i < drop_path(s, p).len() implies s.contains(#[trigger] drop_path(s, p)[i]) by {
            if i < t.len() {
                assert(drop_path(s, p)[i] == t[i]);
                assert(s.drop_last().contains(t[i]));
                let j = choose|j: int| 0 <= j < s.drop_last().len() && s.drop_last()[j] == t[i];
                assert(s[j] == t[i]);
            } else {
                assert(drop_path(s, p)[i] == s.last());
                assert(s[s.len() - 1] == s.last());
            }
        }
    }
}

/// The number of bytes a write of `n` bytes at `offset` adds to a file of
/// `len` bytes.
pub open spec fn grown(len: nat, offset: usize, n: nat) -> nat {
    if offset + n >= len {
        (offset + n - len) as nat
    } else {
        0
    }
}

/// The number of bytes read from `offset` in a file of `len` bytes into a
/// buffer of `buf` bytes.
pub open spec fn read_len(buf: nat, len: nat, offset: usize) -> nat {
    if buf < len - offset {
        buf
    } else {
        (len - offset) as nat
    }
}

/// A read of as many bytes as were written, where they were written, gives
/// them back.
pub proof fn lemma_read_after_write(file: Seq<u8>, data: Seq<u8>, offset: usize)
    requires
        offset <= file.len(),
    ensures
        written(file, data, offset as int).len() >= offset + data.len(),
        read_len(data.len(), written(file, data, offset as int).len(), offset) == data.len(),
        written(file, data, offset as int).subrange(offset as int, offset + data.len()) == data,
{
    let w = written(file, data, offset as int);
    assert(w.subrange(offset as int, offset + data.len()) =~= data);
}

/// Neither path lies under the other.
pub open spec fn apart(a: DiskPath, b: DiskPath) -> bool {
    !a.is_prefix_of(b) && !b.is_prefix_of(a)
}

/// The paths of `m` that lie under `root`.
pub open spec fn under(m: Map<DiskPath, VirtualView>, root: DiskPath) -> Set<DiskPath> {
    m.dom().filter(|k: DiskPath| root.is_prefix_of(k))
}

/// Two paths above a third are one above the other.
proof fn lemma_prefixes_comparable(a: DiskPath, b: DiskPath, k: DiskPath)
    requires
        a.is_prefix_of(k),
        b.is_prefix_of(k),
    ensures
        a.is_prefix_of(b) || b.is_prefix_of(a),
{
    if a.len() <= b.len() {
        assert(a =~= b.subrange(0, a.len() as int));
    } else {
        assert(b =~= a.subrange(0, b.len() as int));
    }
}

proof fn lemma_assoc_finite<K, V>(s: Seq<(K, V)>)
    ensures
        assoc(s).dom().finite(),
    decreases s.len(),
{
    if s.len() > 0 {
        lemma_assoc_finite(s.drop_last());
    }
}

/// Down to `depth` levels, each entry that a folder lists under `old` in
/// `before` was moved to the same name under `new` in `after`: the entry at
/// `old`, where there is one, is found unchanged at `new` and no longer at
/// `old`, and so is each entry its listing names, and so on.
pub open spec fn tree_moved(
    before: Map<DiskPath, VirtualView>,
    after: Map<DiskPath, VirtualView>,
    old: DiskPath,
    new: DiskPath,
    depth: nat,
) -> bool
    decreases depth,
{
    before.contains_key(old) ==> {
        &&& after.contains_key(new)
        &&& after[new] == before[old]
        &&& !after.contains_key(old)
        &&& depth > 0 && before[old] is Folder ==> forall|i: int|
            0 <= i < before[old]->Folder_0.len() ==> tree_moved(
                before,
                after,
                old.push((#[trigger] before[old]->Folder_0[i]).last()),
                new.push(before[old]->Folder_0[i].last()),
                (depth - 1) as nat,
            )
    }
}

/// The names under which the entries of a listing are found.
pub open spec fn names_of(listing: Seq<DiskPath>) -> Seq<Seq<char>> {
    listing.map_values(|p: DiskPath| p.last())
}

/// Each key that differs between `before` and `after` lies under one of the
/// `names` below `old` or below `new`.
pub open spec fn changed_within(
    before: Map<DiskPath, VirtualView>,
    after: Map<DiskPath, VirtualView>,
    old: DiskPath,
    new: DiskPath,
    names: Seq<Seq<char>>,
) -> bool {
    forall|k: DiskPath| #[trigger] after.get(k) != before.get(k) ==> exists|i: int|
        0 <= i < names.len() && (old.push(names[i]).is_prefix_of(k) || new.push(names[i]).is_prefix_of(k))
}

/// What lies under each of the `names` below `old` was moved below `new`.
pub open spec fn subtrees_moved(
    before: Map<DiskPath, VirtualView>,
    after: Map<DiskPath, VirtualView>,
    old: DiskPath,
    new: DiskPath,
    names: Seq<Seq<char>>,
) -> bool {
    forall|i: int, d: nat| 0 <= i < names.len() ==> #[trigger] tree_moved(before, after, old.push(names[i]), new.push(names[i]), d)
}

proof fn lemma_prefix_trans(a: DiskPath, b: DiskPath, c: DiskPath)
    requires
        a.is_prefix_of(b),
        b.is_prefix_of(c),
    ensures
        a.is_prefix_of(c),
{
    assert(b.subrange(0, a.len() as int) =~= c.subrange(0, a.len() as int));
}

proof fn lemma_prefix_push(a: DiskPath, c: Seq<char>)
    ensures
        a.is_prefix_of(a.push(c)),
        !a.push(c).is_prefix_of(a),
{
    assert(a =~= a.push(c).subrange(0, a.len() as int));
}

/// Two entries of one folder under different names hold no path in common.
proof fn lemma_siblings(o: DiskPath, c1: Seq<char>, c2: Seq<char>, k: DiskPath)
    requires
        o.push(c1).is_prefix_of(k),
        o.push(c2).is_prefix_of(k),
    ensures
        c1 == c2,
{
    assert(o.push(c1)[o.len() as int] == k[o.len() as int]);
    assert(o.push(c2)[o.len() as int] == k[o.len() as int]);
}

/// A path under a name below `o` lies under `o`.
proof fn lemma_under_child(o: DiskPath, c: Seq<char>, k: DiskPath)
    requires
        o.push(c).is_prefix_of(k),
    ensures
        o.is_prefix_of(k),
{
    lemma_prefix_push(o, c);
    lemma_prefix_trans(o, o.push(c), k);
}

/// Whether entries were moved depends on `before` only under `old`.
proof fn lemma_tree_moved_before(
    b: Map<DiskPath, VirtualView>,
    b2: Map<DiskPath, VirtualView>,
    a: Map<DiskPath, VirtualView>,
    o: DiskPath,
    n: DiskPath,
    d: nat,
)
    requires
        forall|k: DiskPath| o.is_prefix_of(k) ==> #[trigger] b.get(k) == b2.get(k),
    ensures
        tree_moved(b, a, o, n, d) == tree_moved(b2, a, o, n, d),
    decreases d,
{
    assert(o.is_prefix_of(o));
    assert(b.get(o) == b2.get(o));
    if b.contains_key(o) && d > 0 && b[o] is Folder {
        assert(b2.contains_key(o) && b2[o] == b[o]);
        assert forall|i: int| 0 <= i < b[o]->Folder_0.len() implies tree_moved(
            b,
            a,
            o.push(b[o]->Folder_0[i].last()),
            n.push(b[o]->Folder_0[i].last()),
            (d - 1) as nat,
        ) == tree_moved(
            b2,
            a,
            o.push(b[o]->Folder_0[i].last()),
            n.push(b[o]->Folder_0[i].last()),
            (d - 1) as nat,
        ) by {
            let c = b[o]->Folder_0[i].last();
            assert forall|k: DiskPath| o.push(c).is_prefix_of(k) implies #[trigger] b.get(k) == b2.get(k) by {
                lemma_under_child(o, c, k);
            }
            lemma_tree_moved_before(b, b2, a, o.push(c), n.push(c), (d - 1) as nat);
        }
    }
    if b2.contains_key(o) {
        assert(b.contains_key(o));
    }
}

/// Entries moved stay moved while nothing changes under `old` or `new`.
proof fn lemma_tree_moved_after(
    b: Map<DiskPath, VirtualView>,
    a: Map<DiskPath, VirtualView>,
    a2: Map<DiskPath, VirtualView>,
    o: DiskPath,
    n: DiskPath,
    d: nat,
)
    requires
        tree_moved(b, a, o, n, d),
        forall|k: DiskPath| o.is_prefix_of(k) || n.is_prefix_of(k) ==> #[trigger] a.get(k) == a2.get(k),
    ensures
        tree_moved(b, a2, o, n, d),
    decreases d,
{
    assert(o.is_prefix_of(o));
    assert(n.is_prefix_of(n));
    assert(a.get(o) == a2.get(o));
    assert(a.get(n) == a2.get(n));
    if b.contains_key(o) && d > 0 && b[o] is Folder {
        assert forall|i: int| 0 <= i < b[o]->Folder_0.len() implies tree_moved(
            b,
            a2,
            o.push((#[trigger] b[o]->Folder_0[i]).last()),
            n.push(b[o]->Folder_0[i].last()),
            (d - 1) as nat,
        ) by {
            let c = b[o]->Folder_0[i].last();
            assert(b.contains_key(o));
            assert(a.contains_key(n));
            assert(d > 0 && b[o] is Folder);
            assert(tree_moved(b, a, o.push(b[o]->Folder_0[i].last()), n.push(b[o]->Folder_0[i].last()), (d - 1) as nat));
            assert(tree_moved(b, a, o.push(c), n.push(c), (d - 1) as nat));
            assert forall|k: DiskPath| o.push(c).is_prefix_of(k) || n.push(c).is_prefix_of(k) implies #[trigger] a.get(k)
                == a2.get(k) by {
                if o.push(c).is_prefix_of(k) {
                    lemma_under_child(o, c, k);
                } else {
                    lemma_under_child(n, c, k);
                }
            }
            lemma_tree_moved_after(b, a, a2, o.push(c), n.push(c), (d - 1) as nat);
        }
    }
}

/// One more entry of a folder moved under its name: what was moved under the
/// names before stays moved, and what changed lies under the names so far.
proof fn lemma_child_moved(
    m1: Map<DiskPath, VirtualView>,
    before: Map<DiskPath, VirtualView>,
    after: Map<DiskPath, VirtualView>,
    o: DiskPath,
    n: DiskPath,
    names: Seq<Seq<char>>,
    c: Seq<char>,
)
    requires
        apart(o, n),
        subtrees_moved(m1, before, o, n, names),
        changed_within(m1, before, o, n, names),
        forall|k: DiskPath| o.is_prefix_of(k) && #[trigger] before.contains_key(k) ==> m1.contains_key(k),
        !before.contains_key(o.push(c)) ==> after == before,
        forall|k: DiskPath|
            !o.push(c).is_prefix_of(k) && !n.push(c).is_prefix_of(k) ==> #[trigger] after.get(k) == before.get(k),
        forall|k: DiskPath| #[trigger] after.contains_key(k) && !before.contains_key(k) ==> n.push(c).is_prefix_of(k),
        forall|d: nat| #[trigger] tree_moved(before, after, o.push(c), n.push(c), d),
    ensures
        subtrees_moved(m1, after, o, n, names.push(c)),
        changed_within(m1, after, o, n, names.push(c)),
        forall|k: DiskPath| o.is_prefix_of(k) && #[trigger] after.contains_key(k) ==> m1.contains_key(k),
{
    let names2 = names.push(c);
    if names.contains(c) {
        let i0 = choose|i: int| 0 <= i < names.len() && names[i] == c;
        assert(tree_moved(m1, before, o.push(names[i0]), n.push(names[i0]), 0));
        lemma_prefix_push(o, c);
        assert(!before.contains_key(o.push(c)));
        assert forall|i: int, d: nat| 0 <= i < names2.len() implies #[trigger] tree_moved(
            m1,
            after,
            o.push(names2[i]),
            n.push(names2[i]),
            d,
        ) by {
            if i < names.len() {
                assert(tree_moved(m1, before, o.push(names[i]), n.push(names[i]), d));
            } else {
                assert(tree_moved(m1, before, o.push(names[i0]), n.push(names[i0]), d));
            }
        }
        assert forall|k: DiskPath| #[trigger] after.get(k) != m1.get(k) implies exists|i: int|
            0 <= i < names2.len() && (o.push(names2[i]).is_prefix_of(k) || n.push(names2[i]).is_prefix_of(k)) by {
            assert(before.get(k) != m1.get(k));
            let i = choose|i: int|
                0 <= i < names.len() && (o.push(names[i]).is_prefix_of(k) || n.push(names[i]).is_prefix_of(k));
            assert(names2[i] == names[i]);
        }
    } else {
        assert forall|k: DiskPath| o.push(c).is_prefix_of(k) implies #[trigger] before.get(k) == m1.get(k) by {
            lemma_under_child(o, c, k);
            if before.get(k) != m1.get(k) {
                let i = choose|i: int|
                    0 <= i < names.len() && (o.push(names[i]).is_prefix_of(k) || n.push(names[i]).is_prefix_of(k));
                if o.push(names[i]).is_prefix_of(k) {
                    lemma_siblings(o, c, names[i], k);
                    assert(names.contains(c));
                } else {
                    lemma_under_child(n, names[i], k);
                    lemma_prefixes_comparable(o, n, k);
                }
            }
        }
        assert forall|i: int, d: nat| 0 <= i < names2.len() implies #[trigger] tree_moved(
            m1,
            after,
            o.push(names2[i]),
            n.push(names2[i]),
            d,
        ) by {
            if i < names.len() {
                let ci = names[i];
                assert(names2[i] == ci);
                assert(tree_moved(m1, before, o.push(ci), n.push(ci), d));
                assert(ci != c) by {
                    if ci == c {
                        assert(names.contains(c));
                    }
                }
                assert forall|k: DiskPath| o.push(ci).is_prefix_of(k) || n.push(ci).is_prefix_of(k) implies #[trigger] before.get(k)
                    == after.get(k) by {
                    if o.push(c).is_prefix_of(k) || n.push(c).is_prefix_of(k) {
                        if o.push(ci).is_prefix_of(k) && o.push(c).is_prefix_of(k) {
                            lemma_siblings(o, c, ci, k);
                        } else if n.push(ci).is_prefix_of(k) && n.push(c).is_prefix_of(k) {
                            lemma_siblings(n, c, ci, k);
                        } else if o.push(ci).is_prefix_of(k) {
                            lemma_under_child(o, ci, k);
                            lemma_under_child(n, c, k);
                            lemma_prefixes_comparable(o, n, k);
                        } else {
                            lemma_under_child(n, ci, k);
                            lemma_under_child(o, c, k);
                            lemma_prefixes_comparable(o, n, k);
                        }
                    }
                }
                lemma_tree_moved_after(m1, before, after, o.push(ci), n.push(ci), d);
            } else {
                assert(tree_moved(before, after, o.push(c), n.push(c), d));
                lemma_tree_moved_before(before, m1, after, o.push(c), n.push(c), d);
            }
        }
        assert forall|k: DiskPath| #[trigger] after.get(k) != m1.get(k) implies exists|i: int|
            0 <= i < names2.len() && (o.push(names2[i]).is_prefix_of(k) || n.push(names2[i]).is_prefix_of(k)) by {
            if after.get(k) != before.get(k) {
                assert(names2[names.len() as int] == c);
            } else {
                assert(before.get(k) != m1.get(k));
                let i = choose|i: int|
                    0 <= i < names.len() && (o.push(names[i]).is_prefix_of(k) || n.push(names[i]).is_prefix_of(k));
                assert(names2[i] == names[i]);
            }
        }
    }
    assert forall|k: DiskPath| o.is_prefix_of(k) && #[trigger] after.contains_key(k) implies m1.contains_key(k) by {
        if !before.contains_key(k) {
            lemma_under_child(n, c, k);
            lemma_prefixes_comparable(o, n, k);
        }
    }
}

/// The disk `after` is `before` once the entry at `old` is moved to `new`,
/// with, for a folder, what it lists under `new`: nothing changes when there
/// is no entry at `old`; else the entry is at `new` and no longer at `old`,
/// nothing changes outside the two paths, only paths under `new` are added,
/// no path under `old` is, and every entry that the listings reach from
/// `old`, at any depth, is found unchanged at the same place below `new`.
pub open spec fn moved(before: Map<DiskPath, VirtualView>, after: Map<DiskPath, VirtualView>, old: DiskPath, new: DiskPath) -> bool {
    &&& !before.contains_key(old) ==> after == before
    &&& before.contains_key(old) ==> {
        &&& after.contains_key(new)
        &&& after[new] == before[old]
        &&& !after.contains_key(old)
    }
    &&& forall|k: DiskPath| !old.is_prefix_of(k) && !new.is_prefix_of(k) ==> #[trigger] after.get(k) == before.get(k)
    &&& forall|k: DiskPath| #[trigger] after.contains_key(k) && !before.contains_key(k) ==> new.is_prefix_of(k)
    &&& forall|k: DiskPath| old.is_prefix_of(k) && #[trigger] after.contains_key(k) ==> before.contains_key(k)
    &&& forall|d: nat| #[trigger] tree_moved(before, after, old, new, d)
}

/// The disk `after`, and the answer `r`, once an empty file is made at
/// `path` on the disk `before`; see [DummyDiskManager::new_file].
pub open spec fn made_file(before: DiskView, path: DiskPath, r: Result<(), IoKind>, after: DiskView) -> bool {
    let p = path.drop_last();
    let m = before.files;
    let listed = m.insert(p, VirtualView::Folder(m[p]->Folder_0.push(path)));
    &&& !m.contains_key(p) ==> r == Err::<(), IoKind>(IoKind::NotFound) && after == before
    &&& m.contains_key(p) && m[p] is File ==> r == Err::<(), IoKind>(IoKind::InvalidData)
        && after == before
    &&& m.contains_key(p) && m[p] is Folder ==> {
        &&& after.files == listed.insert(path, VirtualView::File(Seq::empty()))
        &&& match listed.get(path) {
            None => r is Ok && after.size == before.size,
            Some(VirtualView::File(d)) => r is Ok && after.size == if before.size >= d.len() {
                (before.size - d.len()) as usize
            } else {
                0
            },
            Some(VirtualView::Folder(_)) => r == Err::<(), IoKind>(IoKind::AlreadyExists)
                && after.size == before.size,
        }
    }
}

/// The files of the disk `after`, and the answer `r`, once an empty folder
/// is made at `path` on the disk `before`; see [DummyDiskManager::new_dir].
pub open spec fn made_dir(before: DiskView, path: DiskPath, r: Result<(), IoKind>, after: DiskView) -> bool {
    let p = path.drop_last();
    let m = before.files;
    &&& !m.contains_key(p) ==> r == Err::<(), IoKind>(IoKind::NotFound) && after.files == m
    &&& m.contains_key(p) && m[p] is File ==> r == Err::<(), IoKind>(IoKind::InvalidData)
        && after.files == m
    &&& m.contains_key(p) && m[p] is Folder ==> r is Ok && after.files == m.insert(
        p,
        VirtualView::Folder(m[p]->Folder_0.push(path)),
    ).insert(path, VirtualView::Folder(Seq::empty()))
}

/// The disk `after`, and the answer `r`, once the file at `path` is removed
/// from the disk `before`; see [DummyDiskManager::remove_file].
pub open spec fn removed_file(before: DiskView, path: DiskPath, r: Result<(), IoKind>, after: DiskView) -> bool {
    let p = path.drop_last();
    let m = before.files;
    let unlisted = m.insert(p, VirtualView::Folder(drop_path(m[p]->Folder_0, path)));
    &&& !m.contains_key(p) ==> r == Err::<(), IoKind>(IoKind::NotFound) && after == before
    &&& m.contains_key(p) && m[p] is File ==> r == Err::<(), IoKind>(IoKind::InvalidData)
        && after == before
    &&& m.contains_key(p) && m[p] is Folder ==> {
        &&& after.files == unlisted.remove(path)
        &&& match unlisted.get(path) {
            None => r == Err::<(), IoKind>(IoKind::NotFound) && after.size == before.size,
            Some(VirtualView::File(d)) => r is Ok && after.size == if before.size >= d.len() {
                (before.size - d.len()) as usize
            } else {
                before.size
            },
            Some(VirtualView::Folder(_)) => r == Err::<(), IoKind>(IoKind::InvalidData)
                && after.size == before.size,
        }
    }
}

/// The files of the disk `after`, and the answer `r`, once the folder at
/// `path` is removed from the disk `before`; see [DummyDiskManager::remove_dir].
pub open spec fn removed_dir(before: DiskView, path: DiskPath, r: Result<(), IoKind>, after: DiskView) -> bool {
    let p = path.drop_last();
    let m = before.files;
    &&& !m.contains_key(p) ==> r == Err::<(), IoKind>(IoKind::NotFound) && after.files == m
    &&& m.contains_key(p) && m[p] is File ==> r == Err::<(), IoKind>(IoKind::InvalidData)
        && after.files == m
    &&& m.contains_key(p) && m[p] is Folder ==> r is Ok && after.files == m.insert(
        p,
        VirtualView::Folder(drop_path(m[p]->Folder_0, path)),
    ).remove(path)
}

/// The files of the disk `after`, and the answer `r`, once the entry at
/// `old_path` is moved to `new_path` on the disk `before`; see
/// [DummyDiskManager::mv_file].
pub open spec fn moved_file(before: DiskView, old_path: DiskPath, new_path: DiskPath, r: Result<(), IoKind>, after: DiskView) -> bool {
    let po = old_path.drop_last();
    let pn = new_path.drop_last();
    let m = before.files;
    let m1 = m.insert(po, VirtualView::Folder(drop_path(m[po]->Folder_0, old_path)));
    let m2 = m1.insert(pn, VirtualView::Folder(m1[pn]->Folder_0.push(new_path)));
    &&& !m.contains_key(po) ==> r == Err::<(), IoKind>(IoKind::NotFound) && after.files == m
    &&& m.contains_key(po) && m[po] is File ==> r == Err::<(), IoKind>(IoKind::InvalidData)
        && after.files == m
    &&& m.contains_key(po) && m[po] is Folder && !m1.contains_key(pn) ==> r == Err::<(), IoKind>(
        IoKind::NotFound,
    ) && after.files == m1
    &&& m.contains_key(po) && m[po] is Folder && m1.contains_key(pn) && m1[pn] is File ==> r == Err::<
        (),
        IoKind,
    >(IoKind::InvalidData) && after.files == m1
    &&& m.contains_key(po) && m[po] is Folder && m1.contains_key(pn) && m1[pn] is Folder ==> {
        &&& r is Ok
        &&& apart(old_path, new_path) ==> moved(m2, after.files, old_path, new_path)
        &&& !m2.contains_key(old_path) ==> after.files == m2
        &&& m2.contains_key(old_path) ==> after.files.contains_key(new_path) && after.files[new_path]
            == m2[old_path]
    }
}

/// Whether a write of `n` bytes at `offset` in the file at `path`, where
/// there is one, starts within the file and keeps the sizes within `usize`.
pub open spec fn write_fits(d: DiskView, path: DiskPath, n: nat, offset: usize) -> bool {
    d.files.contains_key(path) && d.files[path] is File ==> {
        let f = d.files[path]->File_0;
        &&& offset <= f.len()
        &&& offset + n <= usize::MAX
        &&& d.size + grown(f.len(), offset, n) <= usize::MAX
    }
}

/// The disk `after`, and the answer `r`, once `data` is written at `offset`
/// in the file at `path` on the disk `before`; see
/// [DummyDiskManager::write_file].
pub open spec fn wrote_file(before: DiskView, path: DiskPath, data: Seq<u8>, offset: usize, r: Result<usize, IoKind>, after: DiskView) -> bool {
    let m = before.files;
    &&& !(m.contains_key(path) && m[path] is File) ==> r == Err::<usize, IoKind>(IoKind::NotFound) && after == before
    &&& m.contains_key(path) && m[path] is File ==> {
        let d = m[path]->File_0;
        &&& r == Ok::<usize, IoKind>(data.len() as usize)
        &&& after.files == m.insert(path, VirtualView::File(written(d, data, offset as int)))
        &&& after.size == before.size + grown(d.len(), offset, data.len())
    }
}

/// Whether the file at `path`, where there is one, can be brought to `size`
/// bytes with the count of stored bytes within `usize`.
pub open spec fn resize_fits(d: DiskView, path: DiskPath, size: usize) -> bool {
    d.files.contains_key(path) && d.files[path] is File ==> {
        let f = d.files[path]->File_0;
        &&& size > f.len() ==> d.size + (size - f.len()) <= usize::MAX
        &&& size < f.len() ==> d.size >= f.len() - size
    }
}

/// The disk `after`, and the answer `r`, once the file at `path` on the disk
/// `before` is brought to `size` bytes; see [DummyDiskManager::set_file_size].
pub open spec fn resized_file(before: DiskView, path: DiskPath, size: usize, r: Result<(), IoKind>, after: DiskView) -> bool {
    let m = before.files;
    &&& !(m.contains_key(path) && m[path] is File) ==> r == Err::<(), IoKind>(IoKind::NotFound) && after == before
    &&& m.contains_key(path) && m[path] is File ==> {
        let d = m[path]->File_0;
        &&& r is Ok
        &&& after.files == m.insert(path, VirtualView::File(resized(d, size as int)))
        &&& after.size == before.size + size - d.len()
    }
}

/// Whether `offset` lies within the file at `path`, where there is one.
pub open spec fn read_fits(d: DiskView, path: DiskPath, offset: usize) -> bool {
    d.files.contains_key(path) && d.files[path] is File ==> offset <= d.files[path]->File_0.len()
}

/// The buffer `after`, first `before`, and the answer `r`, once the file at
/// `path` on the disk `disk` is read from `offset`; see
/// [DummyDiskManager::read_file].
pub open spec fn read_into(disk: DiskView, path: DiskPath, offset: usize, before: Seq<u8>, r: Result<usize, IoKind>, after: Seq<u8>) -> bool {
    let m = disk.files;
    &&& !(m.contains_key(path) && m[path] is File) ==> r == Err::<usize, IoKind>(IoKind::NotFound) && after == before
    &&& m.contains_key(path) && m[path] is File ==> {
        let d = m[path]->File_0;
        let n = read_len(before.len(), d.len(), offset);
        &&& r == Ok::<usize, IoKind>(n as usize)
        &&& after == d.subrange(offset as int, offset + n) + before.skip(n as int)
    }
}

impl View for DummyDiskManager {
    type V = DiskView;

    closed spec fn view(&self) -> DiskView {
        DiskView { files: assoc(entries_view(self.files@)), size: self.size }
    }
}

impl DummyDiskManager {
    #[verifier::type_invariant]
    closed spec fn well_formed(&self) -> bool {
        &&& assoc_keys(entries_view(self.files@)).no_duplicates()
        &&& listings_named(assoc(entries_view(self.files@)))
    }

    /// The path under which the disk was made.
    pub closed spec fn mount_point_spec(&self) -> Seq<char> {
        self.mount_point@
    }

    /// A disk holding only its root folder, empty.
    pub fn new(mount_point: &str) -> (r: Result<DummyDiskManager, IoKind>)
        ensures
            r matches Ok(d) && d@.files == map![Seq::<Seq<char>>::empty() => VirtualView::Folder(Seq::empty())]
                && d@.size == 0 && d.mount_point_spec() == mount_point@,
    {
        let mut files: Vec<(WhPath, VirtualFile)> = Vec::new();
        files.push((WhPath::root(), VirtualFile::Folder(Vec::new())));
        let ghost ev = entries_view(files@);
        proof {
            assert(ev =~= seq![(Seq::<Seq<char>>::empty(), VirtualView::Folder(paths_view(Seq::<WhPath>::empty())))]);
            assert(paths_view(Seq::<WhPath>::empty()) =~= Seq::<DiskPath>::empty());
            assert(ev.drop_last() =~= Seq::<(DiskPath, VirtualView)>::empty());
            assert(assoc(ev.drop_last()) == Map::<DiskPath, VirtualView>::empty());
            assert(assoc(ev) =~= map![Seq::<Seq<char>>::empty() => VirtualView::Folder(Seq::empty())]);
            assert(assoc_keys(ev) =~= seq![Seq::<Seq<char>>::empty()]);
        }
        Ok(DummyDiskManager { files, size: 0, mount_point: mount_point.to_owned() })
    }

    /// The position of the entry of `path`, if there is one.
    fn find(&self, path: &WhPath) -> (r: Option<usize>)
        ensures
            match r {
                Some(i) => i < self.files@.len() && self.files@[i as int].0@ == path@ && self@.files.contains_key(
                    path@,
                ) && self@.files[path@] == self.files@[i as int].1@,
                None => !self@.files.contains_key(path@),
            },
    {
        proof {
            use_type_invariant(self);
            lemma_assoc_contains(entries_view(self.files@), path@);
        }
        let mut i: usize = 0;
        while i < self.files.len()
            invariant
                i <= self.files.len(),
                forall|j: int| 0 <= j < i ==> self.files@[j].0@ != path@,
            decreases self.files.len() - i,
        {
            if self.files[i].0.same_as(path) {
                proof {
                    use_type_invariant(self);
                    lemma_assoc_contains(entries_view(self.files@), path@);
                    assert(entries_view(self.files@)[i as int].0 == path@);
                    assert(assoc_keys(entries_view(self.files@))[i as int] == path@);
                    assert(entries_view(self.files@)[i as int].1 == self.files@[i as int].1@);
                }
                return Some(i);
            }
            i = i + 1;
        }
        proof {
            if assoc_keys(entries_view(self.files@)).contains(path@) {
                let j = choose|j: int|
                    0 <= j < assoc_keys(entries_view(self.files@)).len() && assoc_keys(entries_view(self.files@))[j]
                        == path@;
                assert(self.files@[j].0@ == path@);
            }
        }
        None
    }

    /// Replaces the entry at position `i`, keeping its path.
    fn replace_at(&mut self, i: usize, v: VirtualFile)
        requires
            i < old(self).files@.len(),
            entry_named(v@),
        ensures
            final(self)@.files == old(self)@.files.insert(old(self).files@[i as int].0@, v@),
            final(self)@.size == old(self)@.size,
            final(self).files@.len() == old(self).files@.len(),
            final(self).mount_point_spec() == old(self).mount_point_spec(),
    {
        proof {
            use_type_invariant(&*self);
        }
        let ghost ev = entries_view(self.files@);
        let ghost vv = v@;
        let mut files: Vec<(WhPath, VirtualFile)> = Vec::new();
        proof {
            assert(entries_view(files@) =~= Seq::<(DiskPath, VirtualView)>::empty());
            assert(assoc(entries_view(files@)) == Map::<DiskPath, VirtualView>::empty());
            assert(assoc_keys(entries_view(files@)) =~= Seq::<DiskPath>::empty());
        }
        std::mem::swap(&mut files, &mut self.files);
        let key = files[i].0.clone();
        files.set(i, (key, v));
        proof {
            lemma_assoc_update(ev, i as int, vv);
            assert(entries_view(files@) =~= ev.update(i as int, (ev[i as int].0, vv)));
            lemma_listings_insert(assoc(ev), ev[i as int].0, vv);
        }
        self.files = files;
    }

    /// Takes out the entry at position `i`.
    fn remove_at(&mut self, i: usize)
        requires
            i < old(self).files@.len(),
        ensures
            final(self)@.files == old(self)@.files.remove(old(self).files@[i as int].0@),
            final(self)@.size == old(self)@.size,
            final(self).mount_point_spec() == old(self).mount_point_spec(),
    {
        proof {
            use_type_invariant(&*self);
        }
        let ghost ev = entries_view(self.files@);
        let mut files: Vec<(WhPath, VirtualFile)> = Vec::new();
        proof {
            assert(entries_view(files@) =~= Seq::<(DiskPath, VirtualView)>::empty());
            assert(assoc(entries_view(files@)) == Map::<DiskPath, VirtualView>::empty());
            assert(assoc_keys(entries_view(files@)) =~= Seq::<DiskPath>::empty());
        }
        std::mem::swap(&mut files, &mut self.files);
        files.remove(i);
        proof {
            lemma_assoc_remove(ev, i as int);
            assert(entries_view(files@) =~= ev.remove(i as int));
            lemma_listings_remove(assoc(ev), ev[i as int].0);
        }
        self.files = files;
    }

    /// Adds an entry at a path that has none.
    fn push_entry(&mut self, path: WhPath, v: VirtualFile)
        requires
            !old(self)@.files.contains_key(path@),
            entry_named(v@),
        ensures
            final(self)@.files == old(self)@.files.insert(path@, v@),
            final(self)@.size == old(self)@.size,
            final(self).mount_point_spec() == old(self).mount_point_spec(),
    {
        proof {
            use_type_invariant(&*self);
        }
        let ghost ev = entries_view(self.files@);
        let ghost pv = path@;
        let ghost vv = v@;
        let mut files: Vec<(WhPath, VirtualFile)> = Vec::new();
        proof {
            assert(entries_view(files@) =~= Seq::<(DiskPath, VirtualView)>::empty());
            assert(assoc(entries_view(files@)) == Map::<DiskPath, VirtualView>::empty());
            assert(assoc_keys(entries_view(files@)) =~= Seq::<DiskPath>::empty());
        }
        std::mem::swap(&mut files, &mut self.files);
        files.push((path, v));
        proof {
            lemma_assoc_push(ev, pv, vv);
            assert(entries_view(files@) =~= ev.push((pv, vv)));
            lemma_listings_insert(assoc(ev), pv, vv);
        }
        self.files = files;
    }

    /// Sets the number of bytes counted as stored.
    fn set_size(&mut self, size: usize)
        ensures
            final(self)@.files == old(self)@.files,
            final(self)@.size == size,
            final(self).mount_point_spec() == old(self).mount_point_spec(),
    {
        proof {
            use_type_invariant(&*self);
        }
        self.size = size;
    }

    /// Adds `path` to the listing of its parent folder (`add`), or takes it out.
    ///
    /// `NotFound` when the parent is missing, `InvalidData` when it is a file.
    fn relist_in_parent(&mut self, path: &WhPath, add: bool) -> (r: Result<(), IoKind>)
        requires
            path@.len() > 0,
        ensures
            final(self)@.size == old(self)@.size,
            final(self).mount_point_spec() == old(self).mount_point_spec(),
            ({
                let p = path@.drop_last();
                let m = old(self)@.files;
                &&& !m.contains_key(p) ==> r == Err::<(), IoKind>(IoKind::NotFound) && final(self)@.files == m
                &&& m.contains_key(p) && m[p] is File ==> r == Err::<(), IoKind>(IoKind::InvalidData)
                    && final(self)@.files == m
                &&& m.contains_key(p) && m[p] is Folder ==> r is Ok && final(self)@.files == m.insert(
                    p,
                    VirtualView::Folder(
                        if add {
                            m[p]->Folder_0.push(path@)
                        } else {
                            drop_path(m[p]->Folder_0, path@)
                        },
                    ),
                )
            }),
    {
        proof {
            use_type_invariant(&*self);
        }
        let parent = path.parent().unwrap();
        let i = match self.find(&parent) {
            Some(i) => i,
            None => {
                return Err(IoKind::NotFound);
            },
        };
        let listing = match &self.files[i].1 {
            VirtualFile::File(_) => {
                return Err(IoKind::InvalidData);
            },
            VirtualFile::Folder(v) => if add {
                copy_listing(v, None, Some(path))
            } else {
                copy_listing(v, Some(path), None)
            },
        };
        proof {
            let m = old(self)@.files;
            let p = path@.drop_last();
            let old_list = m[p]->Folder_0;
            assert(listings_named(m));
            assert forall|j: int| 0 <= j < old_list.len() implies #[trigger] old_list[j].len() > 0 by {
                assert(m[p]->Folder_0[j].len() > 0);
            }
            lemma_drop_path_within(old_list, path@);
            let new_list = paths_view(listing@);
            assert forall|j: int| 0 <= j < new_list.len() implies #[trigger] new_list[j].len() > 0 by {
                if add {
                    if j < old_list.len() {
                        assert(new_list[j] == old_list[j]);
                    }
                } else {
                    assert(old_list.contains(new_list[j]));
                }
            }
        }
        self.replace_at(i, VirtualFile::Folder(listing));
        Ok(())
    }

    /// Makes an empty file at `path`, listed in its parent folder; a file
    /// already there is emptied and its bytes no longer counted.
    ///
    /// `NotFound` when the parent is missing, `InvalidData` when it is a file
    /// (nothing changes then); `AlreadyExists` when a folder was at `path`: the
    /// folder is then replaced by the file all the same.
    pub fn new_file(&mut self, path: &WhPath, permissions: u16) -> (r: Result<(), IoKind>)
        requires
            path@.len() > 0,
        ensures
            final(self).mount_point_spec() == old(self).mount_point_spec(),
            made_file(old(self)@, path@, r, final(self)@),
    {
        self.relist_in_parent(path, true)?;
        let previous = match self.find(path) {
            Some(i) => {
                let was = match &self.files[i].1 {
                    VirtualFile::File(data) => Some(data.len()),
                    VirtualFile::Folder(_) => None,
                };
                let empty: Vec<u8> = Vec::new();
                assert(empty@ =~= Seq::<u8>::empty());
                self.replace_at(i, VirtualFile::File(empty));
                match was {
                    Some(len) => Some(len),
                    None => {
                        return Err(IoKind::AlreadyExists);
                    },
                }
            },
            None => {
                let empty: Vec<u8> = Vec::new();
                assert(empty@ =~= Seq::<u8>::empty());
                self.push_entry(path.clone(), VirtualFile::File(empty));
                None
            },
        };
        match previous {
            Some(len) => {
                let shrunk = if self.size >= len {
                    self.size - len
                } else {
                    0
                };
                self.set_size(shrunk);
            },
            None => {},
        }
        Ok(())
    }

    /// Makes an empty folder at `path`, listed in its parent folder; what was
    /// at `path` is replaced.
    ///
    /// `NotFound` when the parent is missing, `InvalidData` when it is a file.
    pub fn new_dir(&mut self, path: &WhPath, permissions: u16) -> (r: Result<(), IoKind>)
        requires
            path@.len() > 0,
        ensures
            final(self)@.size == old(self)@.size,
            final(self).mount_point_spec() == old(self).mount_point_spec(),
            made_dir(old(self)@, path@, r, final(self)@),
    {
        self.relist_in_parent(path, true)?;
        let empty: Vec<WhPath> = Vec::new();
        proof {
            assert(paths_view(empty@) =~= Seq::<DiskPath>::empty());
        }
        match self.find(path) {
            Some(i) => self.replace_at(i, VirtualFile::Folder(empty)),
            None => self.push_entry(path.clone(), VirtualFile::Folder(empty)),
        }
        Ok(())
    }

    /// Removes the file at `path` and its listing in its parent folder; its
    /// bytes are no longer counted.
    ///
    /// `NotFound` when the parent or the file is missing, `InvalidData` when
    /// the parent is a file or `path` a folder (the listing and the folder are
    /// taken out all the same).
    pub fn remove_file(&mut self, path: &WhPath) -> (r: Result<(), IoKind>)
        requires
            path@.len() > 0,
        ensures
            final(self).mount_point_spec() == old(self).mount_point_spec(),
            removed_file(old(self)@, path@, r, final(self)@),
    {
        self.relist_in_parent(path, false)?;
        let i = match self.find(path) {
            Some(i) => i,
            None => {
                assert(self@.files.remove(path@) =~= self@.files);
                return Err(IoKind::NotFound);
            },
        };
        let len = match &self.files[i].1 {
            VirtualFile::File(data) => Some(data.len()),
            VirtualFile::Folder(_) => None,
        };
        self.remove_at(i);
        match len {
            Some(len) => {
                if self.size >= len {
                    let shrunk = self.size - len;
                    self.set_size(shrunk);
                }
                Ok(())
            },
            None => Err(IoKind::InvalidData),
        }
    }

    /// Removes the folder at `path` and its listing in its parent folder. What
    /// the folder lists stays on the disk.
    ///
    /// `NotFound` when the parent is missing, `InvalidData` when it is a file.
    pub fn remove_dir(&mut self, path: &WhPath) -> (r: Result<(), IoKind>)
        requires
            path@.len() > 0,
        ensures
            final(self)@.size == old(self)@.size,
            final(self).mount_point_spec() == old(self).mount_point_spec(),
            removed_dir(old(self)@, path@, r, final(self)@),
    {
        self.relist_in_parent(path, false)?;
        match self.find(path) {
            Some(i) => self.remove_at(i),
            None => {
                assert(self@.files.remove(path@) =~= self@.files);
            },
        }
        Ok(())
    }

    /// Writes `binary` at `offset` in the file at `path`, replacing the bytes
    /// there and growing the file as needed; the growth is counted. Returns
    /// the number of bytes written.
    ///
    /// `NotFound` when there is no file at `path`.
    pub fn write_file(&mut self, path: &WhPath, binary: &[u8], offset: usize) -> (r: Result<usize, IoKind>)
        requires
            write_fits(old(self)@, path@, binary@.len(), offset),
        ensures
            final(self).mount_point_spec() == old(self).mount_point_spec(),
            wrote_file(old(self)@, path@, binary@, offset, r, final(self)@),
    {
        let i = match self.find(path) {
            Some(i) => i,
            None => {
                return Err(IoKind::NotFound);
            },
        };
        let file = match &self.files[i].1 {
            VirtualFile::File(file) => file,
            VirtualFile::Folder(_) => {
                return Err(IoKind::NotFound);
            },
        };
        let ghost d = file@;
        let len = binary.len();
        let end = if file.len() < offset + len {
            file.len()
        } else {
            offset + len
        };
        let grow = if offset + len >= file.len() {
            offset + len - file.len()
        } else {
            0
        };
        let mut data: Vec<u8> = Vec::new();
        let mut j: usize = 0;
        while j < offset
            invariant
                j <= offset,
                offset <= file@.len(),
                data@ == file@.take(j as int),
            decreases offset - j,
        {
            data.push(file[j]);
            assert(data@ =~= file@.take(j + 1));
            j = j + 1;
        }
        let mut k: usize = 0;
        while k < len
            invariant
                k <= len,
                len == binary@.len(),
                offset <= file@.len(),
                data@ == file@.take(offset as int) + binary@.take(k as int),
            decreases len - k,
        {
            data.push(binary[k]);
            assert(data@ =~= file@.take(offset as int) + binary@.take(k + 1));
            k = k + 1;
        }
        let mut l: usize = end;
        assert(binary@.take(len as int) =~= binary@);
        assert(file@.skip(end as int).take(0) =~= Seq::<u8>::empty());
        while l < file.len()
            invariant
                end <= l <= file@.len(),
                data@ == file@.take(offset as int) + binary@ + file@.skip(end as int).take(l - end),
            decreases file.len() - l,
        {
            data.push(file[l]);
            assert(data@ =~= file@.take(offset as int) + binary@ + file@.skip(end as int).take(l + 1 - end));
            l = l + 1;
        }
        assert(file@.skip(end as int).take(file@.len() - end) =~= file@.skip(end as int));
        assert(data@ == written(d, binary@, offset as int));
        let total = self.size + grow;
        self.replace_at(i, VirtualFile::File(data));
        self.set_size(total);
        Ok(len)
    }

    /// Cuts the file at `path` to `size` bytes, or pads it with zeros to that
    /// size; the change is counted.
    ///
    /// `NotFound` when there is no file at `path`.
    pub fn set_file_size(&mut self, path: &WhPath, size: usize) -> (r: Result<(), IoKind>)
        requires
            resize_fits(old(self)@, path@, size),
        ensures
            final(self).mount_point_spec() == old(self).mount_point_spec(),
            resized_file(old(self)@, path@, size, r, final(self)@),
    {
        let i = match self.find(path) {
            Some(i) => i,
            None => {
                return Err(IoKind::NotFound);
            },
        };
        let file = match &self.files[i].1 {
            VirtualFile::File(file) => file,
            VirtualFile::Folder(_) => {
                return Err(IoKind::NotFound);
            },
        };
        let ghost d = file@;
        let mut data: Vec<u8> = Vec::new();
        let mut j: usize = 0;
        while j < size
            invariant
                j <= size,
                d == file@,
                data@ == resized(d, size as int).take(j as int),
            decreases size - j,
        {
            if j < file.len() {
                data.push(file[j]);
            } else {
                data.push(0);
            }
            assert(data@ =~= resized(d, size as int).take(j + 1));
            j = j + 1;
        }
        assert(resized(d, size as int).take(size as int) =~= resized(d, size as int));
        let total = if size > file.len() {
            self.size + (size - file.len())
        } else {
            self.size - (file.len() - size)
        };
        self.replace_at(i, VirtualFile::File(data));
        self.set_size(total);
        Ok(())
    }

    /// Reads the file at `path` from `offset` into `buf`, as far as either
    /// goes. Returns the number of bytes read; the rest of `buf` is untouched.
    ///
    /// `NotFound` when there is no file at `path`.
    pub fn read_file(&self, path: &WhPath, offset: usize, buf: &mut [u8]) -> (r: Result<usize, IoKind>)
        requires
            read_fits(self@, path@, offset),
        ensures
            read_into(self@, path@, offset, old(buf)@, r, final(buf)@),
    {
        let i = match self.find(path) {
            Some(i) => i,
            None => {
                return Err(IoKind::NotFound);
            },
        };
        let file = match &self.files[i].1 {
            VirtualFile::File(file) => file,
            VirtualFile::Folder(_) => {
                return Err(IoKind::NotFound);
            },
        };
        let ghost d = file@;
        let ghost b0 = buf@;
        let avail = file.len() - offset;
        let len = if buf.len() < avail {
            buf.len()
        } else {
            avail
        };
        let mut j: usize = 0;
        while j < len
            invariant
                j <= len,
                len <= buf@.len(),
                offset + len <= file@.len(),
                file@.len() == file.len(),
                buf@.len() == b0.len(),
                buf@ == file@.subrange(offset as int, offset + j) + b0.skip(j as int),
            decreases len - j,
        {
            assert(offset + j < file.len());
            buf[j] = file[offset + j];
            assert(buf@ =~= file@.subrange(offset as int, offset + j + 1) + b0.skip(j + 1));
            j = j + 1;
        }
        Ok(len)
    }

    /// A copy of the entry at position `i`.
    fn entry_at(&self, i: usize) -> (r: VirtualFile)
        requires
            i < self.files@.len(),
        ensures
            r@ == self.files@[i as int].1@,
    {
        match &self.files[i].1 {
            VirtualFile::File(d) => VirtualFile::File(d.clone()),
            VirtualFile::Folder(v) => VirtualFile::Folder(copy_listing(v, None, None)),
        }
    }

    /// The paths of the disk are finitely many.
    proof fn lemma_finite(&self)
        ensures
            self@.files.dom().finite(),
    {
        lemma_assoc_finite(entries_view(self.files@));
    }

    /// Moves what lies at `old_path` to `new_path`, and, when it is a folder,
    /// each entry it lists to the same name under `new_path`, depth first.
    /// The folders keep their listings as they were.
    fn mv_within(&mut self, old_path: &WhPath, new_path: &WhPath, Ghost(old_root): Ghost<DiskPath>, Ghost(
        new_root,
    ): Ghost<DiskPath>)
        requires
            old_root.is_prefix_of(old_path@),
            new_root.is_prefix_of(new_path@),
            apart(old_root, new_root),
        ensures
            final(self)@.size == old(self)@.size,
            final(self).mount_point_spec() == old(self).mount_point_spec(),
            !old(self)@.files.contains_key(old_path@) ==> final(self)@ == old(self)@,
            old(self)@.files.contains_key(old_path@) ==> {
                &&& final(self)@.files.contains_key(new_path@)
                &&& final(self)@.files[new_path@] == old(self)@.files[old_path@]
                &&& !final(self)@.files.contains_key(old_path@)
            },
            forall|k: DiskPath|
                !old_root.is_prefix_of(k) && !new_root.is_prefix_of(k) ==> #[trigger] final(self)@.files.get(k)
                    == old(self)@.files.get(k),
            forall|k: DiskPath|
                #[trigger] final(self)@.files.contains_key(k) && !old(self)@.files.contains_key(k)
                    ==> new_root.is_prefix_of(k),
            under(final(self)@.files, old_root).subset_of(under(old(self)@.files, old_root)),
            forall|k: DiskPath|
                !old_path@.is_prefix_of(k) && !new_path@.is_prefix_of(k) ==> #[trigger] final(self)@.files.get(k)
                    == old(self)@.files.get(k),
            forall|k: DiskPath|
                #[trigger] final(self)@.files.contains_key(k) && !old(self)@.files.contains_key(k)
                    ==> new_path@.is_prefix_of(k),
            forall|d: nat| #[trigger] tree_moved(old(self)@.files, final(self)@.files, old_path@, new_path@, d),
        decreases under(old(self)@.files, old_root).len(),
    {
        proof {
            use_type_invariant(&*self);
            self.lemma_finite();
        }
        let ghost m0 = self@.files;
        let i = match self.find(old_path) {
            Some(i) => i,
            None => {
                return;
            },
        };
        let moved = self.entry_at(i);
        self.remove_at(i);
        proof {
            assert(listings_named(m0));
            if moved@ is Folder {
                assert forall|j: int| 0 <= j < moved@->Folder_0.len() implies #[trigger] moved@->Folder_0[j].len() > 0 by {
                    assert(m0[old_path@]->Folder_0[j].len() > 0);
                }
            }
            assert(under(self@.files, old_root) =~= under(m0, old_root).remove(old_path@));
            assert(under(m0, old_root).contains(old_path@));
            assert(under(m0, old_root).finite());
        }
        let ghost m1 = self@.files;
        let ghost o = old_path@;
        let ghost n = new_path@;
        proof {
            if o.is_prefix_of(n) {
                lemma_prefix_trans(old_root, o, n);
                lemma_prefixes_comparable(old_root, new_root, n);
            }
            if n.is_prefix_of(o) {
                lemma_prefix_trans(new_root, n, o);
                lemma_prefixes_comparable(old_root, new_root, o);
            }
            assert(apart(o, n));
            assert(subtrees_moved(m1, self@.files, o, n, Seq::<Seq<char>>::empty()));
            assert(changed_within(m1, self@.files, o, n, Seq::<Seq<char>>::empty()));
        }
        if let VirtualFile::Folder(entries) = &moved {
            let mut j: usize = 0;
            while j < entries.len()
                invariant
                    j <= entries.len(),
                    moved@ == VirtualView::Folder(paths_view(entries@)),
                    entry_named(moved@),
                    old_root.is_prefix_of(old_path@),
                    new_root.is_prefix_of(new_path@),
                    apart(old_root, new_root),
                    m0.dom().finite(),
                    under(m0, old_root).contains(old_path@),
                    self@.size == old(self)@.size,
                    self.mount_point_spec() == old(self).mount_point_spec(),
                    m0 == old(self)@.files,
                    !self@.files.contains_key(old_path@),
                    under(self@.files, old_root).subset_of(under(m0, old_root).remove(old_path@)),
                    forall|k: DiskPath|
                        !old_root.is_prefix_of(k) && !new_root.is_prefix_of(k) ==> #[trigger] self@.files.get(k)
                            == m0.get(k),
                    forall|k: DiskPath|
                        #[trigger] self@.files.contains_key(k) && !m0.contains_key(k) ==> new_root.is_prefix_of(k),
                    o == old_path@,
                    n == new_path@,
                    apart(o, n),
                    m1 == m0.remove(o),
                    subtrees_moved(m1, self@.files, o, n, names_of(moved@->Folder_0).take(j as int)),
                    changed_within(m1, self@.files, o, n, names_of(moved@->Folder_0).take(j as int)),
                    forall|k: DiskPath| o.is_prefix_of(k) && #[trigger] self@.files.contains_key(k) ==> m1.contains_key(k),
                decreases entries.len() - j,
            {
                assert(paths_view(entries@)[j as int] == entries@[j as int]@);
                assert(moved@->Folder_0 == paths_view(entries@));
                assert(moved@->Folder_0[j as int].len() > 0);
                assert(entries@[j as int]@.len() > 0);
                let name = entries[j].last_component();
                let child_old = old_path.join(&name);
                let child_new = new_path.join(&name);
                proof {
                    assert(old_root.is_prefix_of(child_old@)) by {
                        assert(child_old@.subrange(0, old_root.len() as int) =~= old_path@.subrange(0, old_root.len() as int));
                    }
                    assert(new_root.is_prefix_of(child_new@)) by {
                        assert(child_new@.subrange(0, new_root.len() as int) =~= new_path@.subrange(0, new_root.len() as int));
                    }
                    vstd::set_lib::lemma_len_subset(under(self@.files, old_root), under(m0, old_root).remove(old_path@));
                }
                let ghost before = self@.files;
                let ghost c = names_of(moved@->Folder_0)[j as int];
                proof {
                    assert(c == entries@[j as int]@.last());
                    assert(child_old@ =~= o.push(c));
                    assert(child_new@ =~= n.push(c));
                }
                self.mv_within(&child_old, &child_new, Ghost(old_root), Ghost(new_root));
                proof {
                    lemma_child_moved(m1, before, self@.files, o, n, names_of(moved@->Folder_0).take(j as int), c);
                    assert(names_of(moved@->Folder_0).take(j as int).push(c) =~= names_of(moved@->Folder_0).take(
                        j + 1,
                    ));
                    if self@.files.contains_key(old_path@) {
                        assert(!before.contains_key(old_path@));
                        assert(new_root.is_prefix_of(old_path@));
                        lemma_prefixes_comparable(old_root, new_root, old_path@);
                    }
                    assert forall|k: DiskPath|
                        #[trigger] self@.files.contains_key(k) && !m0.contains_key(k) implies new_root.is_prefix_of(k) by {
                        if before.contains_key(k) {
                        }
                    }
                    assert(under(self@.files, old_root).subset_of(under(m0, old_root).remove(old_path@))) by {
                        assert forall|k: DiskPath| #[trigger] under(self@.files, old_root).contains(k) implies under(
                            m0,
                            old_root,
                        ).remove(old_path@).contains(k) by {
                            if !before.contains_key(k) {
                                assert(new_root.is_prefix_of(k));
                                lemma_prefixes_comparable(old_root, new_root, k);
                            }
                            assert(under(before, old_root).contains(k));
                        }
                    }
                    assert forall|k: DiskPath|
                        !old_root.is_prefix_of(k) && !new_root.is_prefix_of(k) implies #[trigger] self@.files.get(k)
                            == m0.get(k) by {
                        assert(before.get(k) == m0.get(k));
                    }
                }
                j = j + 1;
            }
        }
        let ghost nm = if moved@ is Folder {
            names_of(moved@->Folder_0)
        } else {
            Seq::<Seq<char>>::empty()
        };
        proof {
            if moved@ is Folder {
                assert(names_of(moved@->Folder_0).take(names_of(moved@->Folder_0).len() as int) =~= nm);
            }
            assert(subtrees_moved(m1, self@.files, o, n, nm));
            assert(changed_within(m1, self@.files, o, n, nm));
        }
        let ghost before = self@.files;
        match self.find(new_path) {
            Some(k) => self.replace_at(k, moved),
            None => self.push_entry(new_path.clone(), moved),
        }
        proof {
            assert(!new_root.is_prefix_of(old_path@)) by {
                if new_root.is_prefix_of(old_path@) {
                    lemma_prefixes_comparable(old_root, new_root, old_path@);
                }
            }
            assert(old_path@ != new_path@);
            assert(!old_root.is_prefix_of(new_path@)) by {
                if old_root.is_prefix_of(new_path@) {
                    lemma_prefixes_comparable(old_root, new_root, new_path@);
                }
            }
            assert(under(self@.files, old_root) =~= under(before, old_root));
            assert forall|k: DiskPath|
                !old_root.is_prefix_of(k) && !new_root.is_prefix_of(k) implies #[trigger] self@.files.get(k) == m0.get(k) by {
                assert(k != new_path@);
                assert(before.get(k) == m0.get(k));
            }
            let fin = self@.files;
            assert(fin == before.insert(n, moved@));
            assert(o.is_prefix_of(o) && n.is_prefix_of(n));
            assert forall|k: DiskPath| !o.is_prefix_of(k) && !n.is_prefix_of(k) implies #[trigger] fin.get(k) == m0.get(
                k,
            ) by {
                assert(k != n);
                if before.get(k) != m1.get(k) {
                    let i = choose|i: int|
                        0 <= i < nm.len() && (o.push(nm[i]).is_prefix_of(k) || n.push(nm[i]).is_prefix_of(k));
                    if o.push(nm[i]).is_prefix_of(k) {
                        lemma_under_child(o, nm[i], k);
                    } else {
                        lemma_under_child(n, nm[i], k);
                    }
                }
            }
            assert forall|k: DiskPath| #[trigger] fin.contains_key(k) && !m0.contains_key(k) implies n.is_prefix_of(k) by {
                if k != n {
                    assert(before.get(k) != m1.get(k));
                    let i = choose|i: int|
                        0 <= i < nm.len() && (o.push(nm[i]).is_prefix_of(k) || n.push(nm[i]).is_prefix_of(k));
                    if o.push(nm[i]).is_prefix_of(k) {
                        lemma_under_child(o, nm[i], k);
                    } else {
                        lemma_under_child(n, nm[i], k);
                    }
                }
            }
            assert(m0[o] == moved@);
            assert(!fin.contains_key(o));
            assert(fin.contains_key(n) && fin[n] == m0[o]);
            assert forall|d: nat| #[trigger] tree_moved(m0, fin, o, n, d) by {
                if d > 0 && moved@ is Folder {
                    let l = moved@->Folder_0;
                    assert forall|i: int| 0 <= i < l.len() implies tree_moved(
                        m0,
                        fin,
                        o.push((#[trigger] l[i]).last()),
                        n.push(l[i].last()),
                        (d - 1) as nat,
                    ) by {
                        let c = l[i].last();
                        assert(nm[i] == c);
                        assert(tree_moved(m1, before, o.push(nm[i]), n.push(nm[i]), (d - 1) as nat));
                        assert forall|k: DiskPath| o.push(c).is_prefix_of(k) || n.push(c).is_prefix_of(k) implies #[trigger] before.get(
                            k,
                        ) == fin.get(k) by {
                            lemma_prefix_push(n, c);
                            if k == n && o.push(c).is_prefix_of(k) {
                                lemma_under_child(o, c, k);
                            }
                        }
                        lemma_tree_moved_after(m1, before, fin, o.push(c), n.push(c), (d - 1) as nat);
                        assert forall|k: DiskPath| o.push(c).is_prefix_of(k) implies #[trigger] m1.get(k) == m0.get(k) by {
                            lemma_prefix_push(o, c);
                        }
                        lemma_tree_moved_before(m1, m0, fin, o.push(c), n.push(c), (d - 1) as nat);
                    }
                }
            }
        }
    }

    /// Moves what lies at `old_path` to `new_path` in the order of
    /// [Self::mv_within], for any two paths, one possibly lying under the
    /// other: entries moved into the moved folder itself can then take the
    /// place of entries that its listings reach later.
    fn mv_any(&mut self, old_path: &WhPath, new_path: &WhPath)
        ensures
            final(self)@.size == old(self)@.size,
            final(self).mount_point_spec() == old(self).mount_point_spec(),
            final(self)@.files.dom().len() <= old(self)@.files.dom().len(),
            !old(self)@.files.contains_key(old_path@) ==> final(self)@ == old(self)@,
            old(self)@.files.contains_key(old_path@) ==> final(self)@.files.contains_key(new_path@)
                && final(self)@.files[new_path@] == old(self)@.files[old_path@],
        decreases old(self)@.files.dom().len(),
    {
        proof {
            use_type_invariant(&*self);
            self.lemma_finite();
        }
        let ghost m0 = self@.files;
        let i = match self.find(old_path) {
            Some(i) => i,
            None => {
                return;
            },
        };
        let moved = self.entry_at(i);
        self.remove_at(i);
        proof {
            assert(listings_named(m0));
            if moved@ is Folder {
                assert forall|j: int| 0 <= j < moved@->Folder_0.len() implies #[trigger] moved@->Folder_0[j].len() > 0 by {
                    assert(m0[old_path@]->Folder_0[j].len() > 0);
                }
            }
            self.lemma_finite();
            assert(self@.files.dom() =~= m0.dom().remove(old_path@));
        }
        if let VirtualFile::Folder(entries) = &moved {
            let mut j: usize = 0;
            while j < entries.len()
                invariant
                    j <= entries.len(),
                    moved@ == VirtualView::Folder(paths_view(entries@)),
                    entry_named(moved@),
                    m0 == old(self)@.files,
                    m0.dom().finite(),
                    m0.contains_key(old_path@),
                    m0[old_path@] == moved@,
                    self@.files.dom().len() < m0.dom().len(),
                    self@.size == old(self)@.size,
                    self.mount_point_spec() == old(self).mount_point_spec(),
                decreases entries.len() - j,
            {
                assert(paths_view(entries@)[j as int] == entries@[j as int]@);
                assert(moved@->Folder_0[j as int].len() > 0);
                let name = entries[j].last_component();
                let child_old = old_path.join(&name);
                let child_new = new_path.join(&name);
                self.mv_any(&child_old, &child_new);
                j = j + 1;
            }
        }
        proof {
            self.lemma_finite();
        }
        match self.find(new_path) {
            Some(k) => self.replace_at(k, moved),
            None => self.push_entry(new_path.clone(), moved),
        }
    }

    /// Moves what lies at `old_path`, and what it lists, under `new_path`:
    /// see [moved] when neither path lies under the other. When one does, the
    /// entry is still found at `new_path` and no longer counted elsewhere,
    /// but what else the folder lists may take the place of entries moved
    /// before.
    pub fn mv_recurse(&mut self, old_path: &WhPath, new_path: &WhPath)
        ensures
            final(self)@.size == old(self)@.size,
            final(self).mount_point_spec() == old(self).mount_point_spec(),
            apart(old_path@, new_path@) ==> moved(old(self)@.files, final(self)@.files, old_path@, new_path@),
            !old(self)@.files.contains_key(old_path@) ==> final(self)@ == old(self)@,
            old(self)@.files.contains_key(old_path@) ==> final(self)@.files.contains_key(new_path@)
                && final(self)@.files[new_path@] == old(self)@.files[old_path@],
    {
        if crate::pods::whpath::path_prefix(old_path, new_path) || crate::pods::whpath::path_prefix(new_path, old_path) {
            self.mv_any(old_path, new_path);
            return;
        }
        proof {
            assert(old_path@.is_prefix_of(old_path@));
            assert(new_path@.is_prefix_of(new_path@));
        }
        let ghost m0 = self@.files;
        self.mv_within(old_path, new_path, Ghost(old_path@), Ghost(new_path@));
        proof {
            assert forall|k: DiskPath| old_path@.is_prefix_of(k) && #[trigger] self@.files.contains_key(k) implies m0.contains_key(k) by {
                assert(under(self@.files, old_path@).contains(k));
            }
        }
    }

    /// Moves the entry at `old_path` to `new_path`: the listing of the old
    /// parent forgets it, that of the new parent gets it, then the entry and,
    /// for a folder, what it lists are moved; see [Self::mv_recurse].
    ///
    /// `NotFound` when a parent is missing, `InvalidData` when it is a file;
    /// what was done before is kept.
    pub fn mv_file(&mut self, old_path: &WhPath, new_path: &WhPath) -> (r: Result<(), IoKind>)
        requires
            old_path@.len() > 0,
            new_path@.len() > 0,
        ensures
            final(self)@.size == old(self)@.size,
            final(self).mount_point_spec() == old(self).mount_point_spec(),
            moved_file(old(self)@, old_path@, new_path@, r, final(self)@),
    {
        self.relist_in_parent(old_path, false)?;
        self.relist_in_parent(new_path, true)?;
        self.mv_recurse(old_path, new_path);
        Ok(())
    }

    /// The room of the disk: `free_size` as the system reports the memory
    /// left, and the bytes counted as stored.
    pub fn size_info(&self, free_size: usize) -> (r: Result<crate::pods::disk_managers::DiskSizeInfo, IoKind>)
        ensures
            r == Ok::<crate::pods::disk_managers::DiskSizeInfo, IoKind>(
                crate::pods::disk_managers::DiskSizeInfo {
                    free_size,
                    total_size: self@.size,
                    files: 0,
                    ffree: 0,
                    bsize: 0,
                },
            ),
    {
        Ok(crate::pods::disk_managers::DiskSizeInfo { free_size, total_size: self.size, files: 0, ffree: 0, bsize: 0 })
    }

    /// Whether the disk has an entry at `path`.
    pub fn file_exists(&self, path: &WhPath) -> (r: bool)
        ensures
            r == self@.files.contains_key(path@),
    {
        self.find(path).is_some()
    }

    /// Nothing is kept of permissions: always succeeds.
    pub fn set_permisions(&self, path: &WhPath, permissions: u16) -> (r: Result<(), IoKind>)
        ensures
            r is Ok,
    {
        Ok(())
    }

    /// The number of bytes the disk counts as stored.
    pub fn total_size(&self) -> (r: usize)
        ensures
            r == self@.size,
    {
        self.size
    }
}


impl DummyDiskManager {
    /// The length of the file at `path`, when there is a file there.
    fn file_len(&self, path: &WhPath) -> (r: Option<usize>)
        ensures
            match r {
                Some(n) => self@.files.contains_key(path@) && self@.files[path@] is File && n
                    == self@.files[path@]->File_0.len(),
                None => !(self@.files.contains_key(path@) && self@.files[path@] is File),
            },
    {
        match self.find(path) {
            Some(i) => match &self.files[i].1 {
                VirtualFile::File(d) => Some(d.len()),
                VirtualFile::Folder(_) => None,
            },
            None => None,
        }
    }
}

/// The disk held in memory, for the operations built on a disk. An argument
/// that the memory disk cannot take is refused: `InvalidInput` for the root
/// or an offset past the end of a file, `Other` when the counted size would
/// overflow. It holds no links: making one gives `Other`.
impl DiskManager for DummyDiskManager {
    fn new_file(&mut self, path: &WhPath, permissions: u16) -> (r: Result<(), IoKind>)
        ensures
            path@.len() == 0 ==> r == Err::<(), IoKind>(IoKind::InvalidInput) && final(self)@ == old(self)@,
            path@.len() > 0 ==> made_file(old(self)@, path@, r, final(self)@),
    {
        if path.iter().len() == 0 {
            return Err(IoKind::InvalidInput);
        }
        DummyDiskManager::new_file(self, path, permissions)
    }

    fn new_dir(&mut self, path: &WhPath, permissions: u16) -> (r: Result<(), IoKind>)
        ensures
            final(self)@.size == old(self)@.size,
            path@.len() == 0 ==> r == Err::<(), IoKind>(IoKind::InvalidInput) && final(self)@ == old(self)@,
            path@.len() > 0 ==> made_dir(old(self)@, path@, r, final(self)@),
    {
        if path.iter().len() == 0 {
            return Err(IoKind::InvalidInput);
        }
        DummyDiskManager::new_dir(self, path, permissions)
    }

    fn new_symlink(&mut self, path: &WhPath, permissions: u16, link: &EntrySymlink) -> (r: Result<(), IoKind>)
        ensures
            r == Err::<(), IoKind>(IoKind::Other),
            final(self)@ == old(self)@,
    {
        Err(IoKind::Other)
    }

    fn remove_file(&mut self, path: &WhPath) -> (r: Result<(), IoKind>)
        ensures
            path@.len() == 0 ==> r == Err::<(), IoKind>(IoKind::InvalidInput) && final(self)@ == old(self)@,
            path@.len() > 0 ==> removed_file(old(self)@, path@, r, final(self)@),
    {
        if path.iter().len() == 0 {
            return Err(IoKind::InvalidInput);
        }
        DummyDiskManager::remove_file(self, path)
    }

    fn remove_dir(&mut self, path: &WhPath) -> (r: Result<(), IoKind>)
        ensures
            final(self)@.size == old(self)@.size,
            path@.len() == 0 ==> r == Err::<(), IoKind>(IoKind::InvalidInput) && final(self)@ == old(self)@,
            path@.len() > 0 ==> removed_dir(old(self)@, path@, r, final(self)@),
    {
        if path.iter().len() == 0 {
            return Err(IoKind::InvalidInput);
        }
        DummyDiskManager::remove_dir(self, path)
    }

    /// A link is held as a file: it is removed as one.
    fn remove_symlink(&mut self, path: &WhPath) -> (r: Result<(), IoKind>)
        ensures
            path@.len() == 0 ==> r == Err::<(), IoKind>(IoKind::InvalidInput) && final(self)@ == old(self)@,
            path@.len() > 0 ==> removed_file(old(self)@, path@, r, final(self)@),
    {
        if path.iter().len() == 0 {
            return Err(IoKind::InvalidInput);
        }
        DummyDiskManager::remove_file(self, path)
    }

    fn write_file(&mut self, path: &WhPath, binary: &[u8], offset: usize) -> (r: Result<usize, IoKind>)
        ensures
            write_fits(old(self)@, path@, binary@.len(), offset) ==> wrote_file(
                old(self)@,
                path@,
                binary@,
                offset,
                r,
                final(self)@,
            ),
            !write_fits(old(self)@, path@, binary@.len(), offset) ==> final(self)@ == old(self)@ && r == Err::<
                usize,
                IoKind,
            >(
                if offset <= old(self)@.files[path@]->File_0.len() && offset + binary@.len() <= usize::MAX {
                    IoKind::Other
                } else {
                    IoKind::InvalidInput
                },
            ),
    {
        if let Some(len) = self.file_len(path) {
            if offset > len || binary.len() > usize::MAX - offset {
                return Err(IoKind::InvalidInput);
            }
            let end = offset + binary.len();
            if end > len && end - len > usize::MAX - self.total_size() {
                return Err(IoKind::Other);
            }
        }
        DummyDiskManager::write_file(self, path, binary, offset)
    }

    fn set_file_size(&mut self, path: &WhPath, size: usize) -> (r: Result<(), IoKind>)
        ensures
            resize_fits(old(self)@, path@, size) ==> resized_file(old(self)@, path@, size, r, final(self)@),
            !resize_fits(old(self)@, path@, size) ==> r == Err::<(), IoKind>(IoKind::Other) && final(self)@
                == old(self)@,
    {
        if let Some(len) = self.file_len(path) {
            if size > len && size - len > usize::MAX - self.total_size() {
                return Err(IoKind::Other);
            }
            if size < len && self.total_size() < len - size {
                return Err(IoKind::Other);
            }
        }
        DummyDiskManager::set_file_size(self, path, size)
    }

    fn mv_file(&mut self, path: &WhPath, new_path: &WhPath) -> (r: Result<(), IoKind>)
        ensures
            final(self)@.size == old(self)@.size,
            path@.len() == 0 || new_path@.len() == 0 ==> r == Err::<(), IoKind>(IoKind::InvalidInput)
                && final(self)@ == old(self)@,
            path@.len() > 0 && new_path@.len() > 0 ==> moved_file(old(self)@, path@, new_path@, r, final(self)@),
    {
        if path.iter().len() == 0 || new_path.iter().len() == 0 {
            return Err(IoKind::InvalidInput);
        }
        DummyDiskManager::mv_file(self, path, new_path)
    }

    fn read_file(&self, path: &WhPath, offset: usize, buf: &mut [u8]) -> (r: Result<usize, IoKind>)
        ensures
            read_fits(self@, path@, offset) ==> read_into(self@, path@, offset, old(buf)@, r, final(buf)@),
            !read_fits(self@, path@, offset) ==> r == Err::<usize, IoKind>(IoKind::InvalidInput) && final(buf)@
                == old(buf)@,
    {
        if let Some(len) = self.file_len(path) {
            if offset > len {
                return Err(IoKind::InvalidInput);
            }
        }
        DummyDiskManager::read_file(self, path, offset, buf)
    }

    fn file_exists(&self, path: &WhPath) -> (r: bool)
        ensures
            r == self@.files.contains_key(path@),
    {
        DummyDiskManager::file_exists(self, path)
    }

    /// Nothing is to be released: always succeeds.
    fn stop(&mut self) -> (r: Result<(), IoKind>)
        ensures
            r is Ok,
            final(self)@ == old(self)@,
    {
        Ok(())
    }
}

} // verus!
