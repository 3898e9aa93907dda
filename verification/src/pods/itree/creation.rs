use vstd::prelude::*;

use crate::error::{IoKind, WhError};
use crate::pods::filesystem::fs_interface::{LocalCreation, SimpleFileType};
use crate::pods::itree::fsentry::{
    has_root, inside_target, EntryView, EntrySymlink, EntrySymlinkView, FsEntry, HostId, SymlinkView,
};
use crate::pods::itree::inode::{fresh_meta, Ino, Inode, InodeView, Metadata, ROOT};
use crate::pods::itree::{special_ino, with_child, ITree, TreeView};
use crate::pods::whpath::{name_is_valid, InodeName};

use vstd::string::StringSliceAdditionalSpecFns;

verus! {

/// The link that [EntrySymlink::parse] makes of `target`, whether it takes it
/// as a link of the drive or refuses it as an external one.
pub open spec fn parsed_link(target: &str, mountpoint: Seq<char>) -> EntrySymlinkView {
    let external = EntrySymlinkView { target: SymlinkView::External(target.spec_bytes()), hint: None };
    if !has_root(target@) {
        EntrySymlinkView { target: SymlinkView::Relative(target@), hint: None }
    } else {
        match inside_target(target@, mountpoint) {
            Some(Ok(c)) => EntrySymlinkView { target: SymlinkView::Absolute(c), hint: None },
            _ => external,
        }
    }
}

/// The entry that indexing gives to a file of kind `kind` found on the disk
/// of `host`: a file held by that peer, an empty directory, or a link.
pub open spec fn indexed_entry(kind: SimpleFileType, host: HostId, link: EntrySymlinkView) -> EntryView {
    match kind {
        SimpleFileType::File => EntryView::File(seq![host]),
        SimpleFileType::Directory => EntryView::Directory(Seq::empty()),
        SimpleFileType::Symlink => EntryView::Symlink(link),
    }
}

/// Adds to the tree an entry named `name`, of kind `kind`, found on the disk
/// in the directory `parent` while indexing it, with the unix mode `perm` and
/// the metadata `meta` that the disk reports; `link_target` is the target of a
/// link. Returns the ino given to it: its own for a protected name, else a
/// newly reserved one. The caller indexes a directory's entries next.
///
/// `InvalidFilename` for a name that holds a path separator, `InvalidData` for
/// a protected name that is not a file, `Other` when no ino is left or the
/// tree refuses the inode (the reserved ino is then lost).
pub fn index_entry(
    itree: &mut ITree,
    parent: Ino,
    name: &str,
    kind: SimpleFileType,
    perm: u16,
    meta: Metadata,
    link_target: &str,
    host: HostId,
    mountpoint: &str,
) -> (r: Result<Ino, IoKind>)
    ensures
        ({
            let m = old(itree)@;
            let special = special_ino(name@, parent);
            let next = old(itree).next_ino_spec();
            let id = if special is Some { special.unwrap() } else { next };
            let entry = indexed_entry(kind, host, parsed_link(link_target, mountpoint@));
            let fits = !m.contains_key(id) && m.contains_key(parent) && m[parent].entry is Directory;
            &&& !name_is_valid(name@) ==> r == Err::<Ino, IoKind>(IoKind::InvalidFilename) && *final(itree) == *old(itree)
            &&& name_is_valid(name@) && special is Some && kind != SimpleFileType::File ==> r == Err::<Ino, IoKind>(
                IoKind::InvalidData,
            ) && *final(itree) == *old(itree)
            &&& name_is_valid(name@) && special is None && next == u64::MAX ==> r == Err::<Ino, IoKind>(IoKind::Other)
                && final(itree)@ == m
            &&& name_is_valid(name@) && (special is Some && kind == SimpleFileType::File || special is None && next
                < u64::MAX) ==> {
                &&& final(itree).next_ino_spec() == if special is None {
                    (next + 1) as u64
                } else {
                    next
                }
                &&& fits ==> r == Ok::<Ino, IoKind>(id) && final(itree)@ == m.insert(
                    parent,
                    with_child(m[parent], id),
                ).insert(
                    id,
                    InodeView {
                        parent,
                        id,
                        name: name@,
                        entry,
                        meta: Metadata { ino: id, ..meta },
                        xattrs: Map::empty(),
                    },
                )
                &&& !fits ==> r == Err::<Ino, IoKind>(IoKind::Other) && final(itree)@ == m
            }
        }),
        old(itree).wf() && r is Ok ==> final(itree).wf(),
{
    let fname = match InodeName::try_from_str(name) {
        Ok(n) => n,
        Err(_) => {
            return Err(IoKind::InvalidFilename);
        },
    };
    let special = ITree::get_special(fname.as_str(), parent);
    let used_ino = match special {
        Some(ino) => {
            if kind != SimpleFileType::File {
                return Err(IoKind::InvalidData);
            }
            ino
        },
        None => match itree.reserve_ino() {
            Ok(ino) => ino,
            Err(_) => {
                return Err(IoKind::Other);
            },
        },
    };
    let fs_entry = match kind {
        SimpleFileType::Directory => FsEntry::new_directory(),
        SimpleFileType::File => {
            let hosts = vec![host];
            assert(hosts@ =~= seq![host]);
            FsEntry::File(hosts)
        },
        SimpleFileType::Symlink => {
            let link = match EntrySymlink::parse(link_target, mountpoint) {
                Ok(l) => l,
                Err(l) => l,
            };
            FsEntry::Symlink(link)
        },
    };
    assert(fs_entry@ == indexed_entry(kind, host, parsed_link(link_target, mountpoint@)));
    match itree.add_inode(Inode::new(fname, parent, used_ino, fs_entry, perm)) {
        Ok(()) => {},
        Err(_) => {
            return Err(IoKind::Other);
        },
    }
    let mut meta = meta;
    meta.ino = used_ino;
    let ghost before = itree@;
    let _ = itree.set_inode_meta(used_ino, meta);
    proof {
        assert(itree@ == before.insert(used_ino, InodeView { meta, ..before[used_ino] }));
    }
    Ok(used_ino)
}


/// Whether joining a network makes something on the local disk for the inode
/// `k`: a directory other than the root, or a link. Files are pulled later.
pub open spec fn is_shared(m: TreeView, k: Ino) -> bool {
    m.contains_key(k) && (m[k].entry is Symlink || (m[k].entry is Directory && k != ROOT))
}

/// The path that a creation concerns.
pub open spec fn creation_path(c: LocalCreation) -> Seq<Seq<char>> {
    match c {
        LocalCreation::File(p, _) => p@,
        LocalCreation::Dir(p, _) => p@,
        LocalCreation::Symlink(p, _, _) => p@,
        LocalCreation::Nothing => Seq::empty(),
    }
}

/// `c` is what joining a network makes on the local disk for the inode `k`:
/// the directory or the link, at its path, with its mode.
pub open spec fn shared_creation(itree: ITree, k: Ino, c: LocalCreation) -> bool {
    let m = itree@;
    &&& is_shared(m, k)
    &&& match m[k].entry {
        EntryView::Symlink(s) => c matches LocalCreation::Symlink(p, perm, l) && p@ == itree.path_of(k).unwrap()
            && perm == m[k].meta.perm && l@ == s,
        _ => c matches LocalCreation::Dir(p, perm) && p@ == itree.path_of(k).unwrap() && perm == m[k].meta.perm,
    }
}

/// `c` is what joining a network makes on the local disk for some inode.
pub open spec fn made_by_sharing(itree: ITree, c: LocalCreation) -> bool {
    exists|k: Ino| #[trigger] shared_creation(itree, k, c)
}

fn shared_kind(itree: &ITree, k: Ino) -> (r: bool)
    ensures
        r == is_shared(itree@, k),
{
    match itree.get_inode(k) {
        Ok(inode) => match &inode.entry {
            FsEntry::Symlink(_) => true,
            FsEntry::Directory(_) => k != ROOT,
            FsEntry::File(_) => false,
        },
        Err(_) => false,
    }
}

fn creation_for(itree: &ITree, k: Ino) -> (r: LocalCreation)
    requires
        itree.wf(),
        is_shared(itree@, k),
    ensures
        shared_creation(*itree, k, r),
        creation_path(r) == itree.path_of(k).unwrap(),
{
    proof {
        itree.lemma_path_of(k);
    }
    let path = match itree.get_path_from_inode_id(k) {
        Ok(p) => p,
        Err(_) => {
            assert(false);
            return LocalCreation::Nothing;
        },
    };
    let inode = match itree.get_inode(k) {
        Ok(i) => i,
        Err(_) => {
            assert(false);
            return LocalCreation::Nothing;
        },
    };
    match &inode.entry {
        FsEntry::Symlink(l) => LocalCreation::Symlink(path, inode.meta.perm, l.clone()),
        _ => LocalCreation::Dir(path, inode.meta.perm),
    }
}

/// The inode `k` lies in the subtree of `from`: the path of `from` begins
/// its own.
pub open spec fn under(itree: ITree, from: Ino, k: Ino) -> bool {
    itree.path_of(from).unwrap().is_prefix_of(itree.path_of(k).unwrap())
}

/// The inode `k` is shared (see [is_shared]) and lies in the subtree of
/// `from`.
pub open spec fn shared_under(itree: ITree, from: Ino, k: Ino) -> bool {
    is_shared(itree@, k) && under(itree, from, k)
}

/// The entries of `plan` are made for the inodes `ks` of the subtree of
/// `from`, one each, and no inode twice.
pub open spec fn made_once(itree: ITree, from: Ino, plan: Seq<LocalCreation>, ks: Seq<Ino>) -> bool {
    &&& ks.len() == plan.len()
    &&& ks.no_duplicates()
    &&& forall|i: int| 0 <= i < plan.len() ==> #[trigger] shared_creation(itree, ks[i], plan[i]) && under(itree, from, ks[i])
}

/// `plan` is what joining a network makes on the local disk for the subtree
/// of `from` in the tree `itree`: each entry made for some shared inode of
/// it, every shared inode of it made, no inode twice, the paths shortest
/// first; see [create_all_shared].
pub open spec fn sharing_plan(itree: ITree, from: Ino, plan: Seq<LocalCreation>) -> bool {
    &&& forall|i: int| 0 <= i < plan.len() ==> #[trigger] made_by_sharing(itree, plan[i])
    &&& exists|ks: Seq<Ino>| #[trigger] made_once(itree, from, plan, ks)
    &&& forall|k: Ino|
        #[trigger] shared_under(itree, from, k) ==> exists|i: int| 0 <= i < plan.len() && #[trigger] shared_creation(itree, k, plan[i])
    &&& forall|i: int, j: int|
        0 <= i <= j < plan.len() ==> creation_path(#[trigger] plan[i]).len() <= creation_path(#[trigger] plan[j]).len()
}

/// No two candidates are for the same ino.
spec fn distinct_inos(cands: Seq<(usize, Ino)>) -> bool {
    forall|a: int, b: int| 0 <= a < b < cands.len() ==> #[trigger] cands[a].1 != #[trigger] cands[b].1
}

/// Each candidate is for one of the first `i` of `inos`.
spec fn from_inos(cands: Seq<(usize, Ino)>, inos: Seq<Ino>, i: int) -> bool {
    forall|c: int| 0 <= c < cands.len() ==> exists|x: int| 0 <= x < i && #[trigger] cands[c].1 == inos[x]
}

/// Each ino of `ks` is that of the candidate that `src` gives for it, of
/// depth below `d`, or of depth `d` among the first `j`.
spec fn drawn(cands: Seq<(usize, Ino)>, ks: Seq<Ino>, src: Seq<int>, d: int, j: int) -> bool {
    &&& src.len() == ks.len()
    &&& forall|t: int| #![trigger src[t]] 0 <= t < ks.len() ==> {
        &&& 0 <= src[t] < cands.len()
        &&& cands[src[t]].1 == ks[t]
        &&& cands[src[t]].0 < d || cands[src[t]].0 == d && src[t] < j
    }
}

/// Candidates drawn from distinct inos, each from a later one, stay distinct.
proof fn lemma_candidate_distinct(before: Seq<(usize, Ino)>, depth: usize, inos: Seq<Ino>, i: int)
    requires
        0 <= i < inos.len(),
        inos.no_duplicates(),
        from_inos(before, inos, i),
        distinct_inos(before),
    ensures
        from_inos(before.push((depth, inos[i])), inos, i + 1),
        distinct_inos(before.push((depth, inos[i]))),
{
    let after = before.push((depth, inos[i]));
    assert forall|c: int| 0 <= c < after.len() implies exists|x: int| 0 <= x < i + 1 && #[trigger] after[c].1 == inos[x] by {
        if c < before.len() {
            assert(after[c] == before[c]);
            let x = choose|x: int| 0 <= x < i && #[trigger] before[c].1 == inos[x];
            assert(after[c].1 == inos[x]);
        } else {
            assert(after[c].1 == inos[i]);
        }
    }
    assert forall|a: int, b: int| 0 <= a < b < after.len() implies #[trigger] after[a].1 != #[trigger] after[b].1 by {
        assert(after[a] == before[a]);
        if b < before.len() {
            assert(after[b] == before[b]);
        } else {
            let x = choose|x: int| 0 <= x < i && #[trigger] before[a].1 == inos[x];
            assert(inos[x] != inos[i]);
        }
    }
}

/// Drawing the candidate `j` of depth `d` draws an ino not drawn before.
proof fn lemma_drawn_push(cands: Seq<(usize, Ino)>, ks: Seq<Ino>, src: Seq<int>, d: int, j: int)
    requires
        0 <= j < cands.len(),
        cands[j].0 == d,
        distinct_inos(cands),
        ks.no_duplicates(),
        drawn(cands, ks, src, d, j),
    ensures
        !ks.contains(cands[j].1),
        ks.push(cands[j].1).no_duplicates(),
        drawn(cands, ks.push(cands[j].1), src.push(j), d, j + 1),
{
    let k = cands[j].1;
    let ks2 = ks.push(k);
    let src2 = src.push(j);
    if ks.contains(k) {
        let t = choose|t: int| 0 <= t < ks.len() && ks[t] == k;
        let c = src[t];
        if c < j {
            assert(cands[c].1 != cands[j].1);
        } else if c > j {
            assert(cands[j].1 != cands[c].1);
        }
    }
    assert forall|a: int, b: int| 0 <= a < b < ks2.len() implies ks2[a] != ks2[b] by {
        if b == ks2.len() - 1 {
            assert(ks2[a] == ks[a]);
            assert(ks.contains(ks2[a]));
        } else {
            assert(ks2[a] == ks[a] && ks2[b] == ks[b]);
        }
    }
    assert forall|t: int| #![trigger src2[t]] 0 <= t < ks2.len() implies {
        &&& 0 <= src2[t] < cands.len()
        &&& cands[src2[t]].1 == ks2[t]
        &&& cands[src2[t]].0 < d || cands[src2[t]].0 == d && src2[t] < j + 1
    } by {
        if t < ks.len() {
            assert(src2[t] == src[t] && ks2[t] == ks[t]);
        }
    }
}

/// What joining a network makes on the local disk before any file is pulled,
/// in the subtree of `from`: every directory but the root and every link
/// (see [shared_creation]), each once, parents first: the paths come
/// shortest first. Making one that already exists is not an error.
///
/// `InodeNotFound` when `from` is not in the tree.
#[verifier::rlimit(40)]
pub fn create_all_shared(itree: &ITree, from: Ino) -> (r: Result<Vec<LocalCreation>, WhError>)
    requires
        itree.wf(),
    ensures
        !itree@.contains_key(from) ==> r == Err::<Vec<LocalCreation>, WhError>(WhError::InodeNotFound),
        itree@.contains_key(from) ==> (r matches Ok(plan) && sharing_plan(*itree, from, plan@)),
{
    if itree.get_inode(from).is_err() {
        return Err(WhError::InodeNotFound);
    }
    proof {
        itree.lemma_path_of(from);
    }
    let from_path = match itree.get_path_from_inode_id(from) {
        Ok(p) => p,
        Err(_) => {
            assert(false);
            return Err(WhError::InodeNotFound);
        },
    };
    let inos = itree.inos();
    let mut cands: Vec<(usize, Ino)> = Vec::new();
    let mut max: usize = 0;
    let mut i: usize = 0;
    while i < inos.len()
        invariant
            itree.wf(),
            inos@.to_set() == itree@.dom(),
            i <= inos@.len(),
            from_path@ == itree.path_of(from).unwrap(),
            forall|c: int|
                0 <= c < cands@.len() ==> shared_under(*itree, from, #[trigger] cands@[c].1) && itree.path_of(
                    cands@[c].1,
                ).unwrap().len() == cands@[c].0 && cands@[c].0 <= max,
            forall|x: int|
                0 <= x < i && shared_under(*itree, from, #[trigger] inos@[x]) ==> exists|c: int|
                    0 <= c < cands@.len() && #[trigger] cands@[c].1 == inos@[x],
            inos@.no_duplicates(),
            from_inos(cands@, inos@, i as int),
            distinct_inos(cands@),
        decreases inos@.len() - i,
    {
        let k = inos[i];
        if shared_kind(itree, k) {
            proof {
                itree.lemma_path_of(k);
            }
            let path = match itree.get_path_from_inode_id(k) {
                Ok(p) => p,
                Err(_) => {
                    assert(false);
                    return Err(WhError::InodeNotFound);
                },
            };
            let depth = path.iter().len();
            if crate::pods::whpath::path_prefix(&from_path, &path) {
                if depth > max {
                    max = depth;
                }
                let ghost before = cands@;
                cands.push((depth, k));
                assert(cands@[before.len() as int].1 == k);
                assert forall|x: int| 0 <= x < i + 1 && shared_under(*itree, from, #[trigger] inos@[x]) implies exists|
                    c: int,
                | 0 <= c < cands@.len() && #[trigger] cands@[c].1 == inos@[x] by {
                    if x < i {
                        let c = choose|c: int| 0 <= c < before.len() && #[trigger] before[c].1 == inos@[x];
                        assert(cands@[c] == before[c]);
                    }
                }
                proof {
                    lemma_candidate_distinct(before, depth, inos@, i as int);
                }
            }
        }
        i = i + 1;
    }
    assert forall|k: Ino| #[trigger] shared_under(*itree, from, k) implies exists|c: int|
        0 <= c < cands@.len() && #[trigger] cands@[c].1 == k by {
        assert(inos@.to_set().contains(k));
        let x = choose|x: int| 0 <= x < inos@.len() && inos@[x] == k;
        assert(shared_under(*itree, from, inos@[x]));
    }
    let mut out: Vec<LocalCreation> = Vec::new();
    let ghost mut ks: Seq<Ino> = Seq::empty();
    let ghost mut src: Seq<int> = Seq::empty();
    let mut d: usize = 0;
    loop
        invariant_except_break
            d <= max,
            drawn(cands@, ks, src, d as int, 0),
        invariant
            itree.wf(),
            forall|c: int|
                0 <= c < cands@.len() ==> shared_under(*itree, from, #[trigger] cands@[c].1) && itree.path_of(
                    cands@[c].1,
                ).unwrap().len() == cands@[c].0 && cands@[c].0 <= max,
            forall|k: Ino|
                #[trigger] shared_under(*itree, from, k) ==> exists|c: int|
                    0 <= c < cands@.len() && #[trigger] cands@[c].1 == k,
            forall|t: int| 0 <= t < ks.len() ==> under(*itree, from, #[trigger] ks[t]),
            out@.len() == ks.len(),
            forall|i: int| 0 <= i < out@.len() ==> #[trigger] shared_creation(*itree, ks[i], out@[i]),
            forall|i: int| 0 <= i < out@.len() ==> creation_path(#[trigger] out@[i]).len() <= d,
            forall|i: int, j: int|
                0 <= i <= j < out@.len() ==> creation_path(#[trigger] out@[i]).len() <= creation_path(
                    #[trigger] out@[j],
                ).len(),
            forall|c: int| 0 <= c < cands@.len() && #[trigger] cands@[c].0 < d ==> ks.contains(cands@[c].1),
            distinct_inos(cands@),
            ks.no_duplicates(),
        ensures
            ks.no_duplicates(),
            forall|t: int| 0 <= t < ks.len() ==> under(*itree, from, #[trigger] ks[t]),
            out@.len() == ks.len(),
            forall|i: int| 0 <= i < out@.len() ==> #[trigger] shared_creation(*itree, ks[i], out@[i]),
            forall|i: int, j: int|
                0 <= i <= j < out@.len() ==> creation_path(#[trigger] out@[i]).len() <= creation_path(
                    #[trigger] out@[j],
                ).len(),
            forall|c: int| 0 <= c < cands@.len() ==> ks.contains(#[trigger] cands@[c].1),
        decreases max - d,
    {
        let mut j: usize = 0;
        while j < cands.len()
            invariant
                itree.wf(),
                d <= max,
                0 <= j <= cands@.len(),
                forall|c: int|
                    0 <= c < cands@.len() ==> shared_under(*itree, from, #[trigger] cands@[c].1) && itree.path_of(
                        cands@[c].1,
                    ).unwrap().len() == cands@[c].0 && cands@[c].0 <= max,
                forall|t: int| 0 <= t < ks.len() ==> under(*itree, from, #[trigger] ks[t]),
                out@.len() == ks.len(),
                forall|i: int| 0 <= i < out@.len() ==> #[trigger] shared_creation(*itree, ks[i], out@[i]),
                forall|i: int| 0 <= i < out@.len() ==> creation_path(#[trigger] out@[i]).len() <= d,
                forall|i: int, j: int|
                    0 <= i <= j < out@.len() ==> creation_path(#[trigger] out@[i]).len() <= creation_path(
                        #[trigger] out@[j],
                    ).len(),
                forall|c: int| 0 <= c < cands@.len() && #[trigger] cands@[c].0 < d ==> ks.contains(cands@[c].1),
                forall|c: int| 0 <= c < j && #[trigger] cands@[c].0 == d ==> ks.contains(cands@[c].1),
                distinct_inos(cands@),
                ks.no_duplicates(),
                drawn(cands@, ks, src, d as int, j as int),
            decreases cands@.len() - j,
        {
            let (depth, k) = cands[j];
            if depth == d {
                let c = creation_for(itree, k);
                let ghost old_out = out@;
                let ghost old_ks = ks;
                proof {
                    lemma_drawn_push(cands@, ks, src, d as int, j as int);
                }
                out.push(c);
                proof {
                    ks = ks.push(k);
                    src = src.push(j as int);
                    assert(ks[ks.len() - 1] == k);
                    assert forall|i: int| 0 <= i < out@.len() implies #[trigger] shared_creation(
                        *itree,
                        ks[i],
                        out@[i],
                    ) by {
                        if i < old_out.len() {
                            assert(out@[i] == old_out[i]);
                            assert(ks[i] == old_ks[i]);
                        }
                    }
                    assert forall|x: Ino| old_ks.contains(x) implies ks.contains(x) by {
                        let w = choose|w: int| 0 <= w < old_ks.len() && old_ks[w] == x;
                        assert(ks[w] == x);
                    }
                }
            }
            j = j + 1;
        }
        if d == max {
            break;
        }
        d = d + 1;
    }
    assert forall|k: Ino| #[trigger] shared_under(*itree, from, k) implies exists|i: int|
        0 <= i < out@.len() && #[trigger] shared_creation(*itree, k, out@[i]) by {
        let c = choose|c: int| 0 <= c < cands@.len() && #[trigger] cands@[c].1 == k;
        assert(ks.contains(cands@[c].1));
        let i = choose|i: int| 0 <= i < ks.len() && ks[i] == k;
        assert(shared_creation(*itree, ks[i], out@[i]));
    }
    assert forall|i: int| 0 <= i < out@.len() implies #[trigger] made_by_sharing(*itree, out@[i]) by {
        let k = ks[i];
        assert(shared_creation(*itree, k, out@[i]));
    }
    assert(made_once(*itree, from, out@, ks));
    Ok(out)
}

} // verus!
