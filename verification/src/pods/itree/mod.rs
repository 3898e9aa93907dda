pub mod creation;
pub mod fsentry;
pub mod inode;
pub mod listing;

use std::collections::HashMap;
use vstd::prelude::*;

use crate::error::{WhError, WhResult};
use crate::pods::filesystem::fs_interface::SimpleFileType;
use crate::pods::filesystem::make_inode::MakeInodeError;
use crate::pods::filesystem::remove_inode::RemoveInodeError;
use crate::pods::itree::fsentry::{entry_children, EntryView, FsEntry, HostId};
use crate::pods::itree::inode::{now, Ino, Inode, InodeView, Metadata, XAttrs, ROOT};
use crate::pods::whpath::{InodeName, WhPath};

verus! {

broadcast use vstd::std_specs::hash::group_hash_axioms;

pub const GLOBAL_CONFIG_INO: u64 = 2;
pub const GLOBAL_CONFIG_FNAME: &'static str = ".global_config.toml";
pub const LOCAL_CONFIG_INO: u64 = 3;
pub const LOCAL_CONFIG_FNAME: &'static str = ".local_config.toml";
pub const ITREE_FILE_INO: u64 = 4;
pub const ITREE_FILE_FNAME: &'static str = ".itree";
pub const FIRST_INO: u64 = 11;

// SECTION model

/// The abstract value of the inode tree: each ino mapped to its inode.
pub type TreeView = Map<Ino, InodeView>;

pub open spec fn inodes_view(m: Map<Ino, Inode>) -> TreeView {
    m.map_values(|i: Inode| i@)
}

pub proof fn lemma_inodes_view_insert(m: Map<Ino, Inode>, k: Ino, v: Inode)
    ensures
        inodes_view(m.insert(k, v)) == inodes_view(m).insert(k, v@),
{
    assert(inodes_view(m.insert(k, v)) =~= inodes_view(m).insert(k, v@));
}

pub proof fn lemma_inodes_view_remove(m: Map<Ino, Inode>, k: Ino)
    ensures
        inodes_view(m.remove(k)) == inodes_view(m).remove(k),
{
    assert(inodes_view(m.remove(k)) =~= inodes_view(m).remove(k));
}

/// The inode with another entry.
pub open spec fn with_entry(iv: InodeView, e: EntryView) -> InodeView {
    InodeView { entry: e, ..iv }
}

/// The directory inode with `c` appended to its children.
pub open spec fn with_child(iv: InodeView, c: Ino) -> InodeView {
    with_entry(iv, EntryView::Directory(entry_children(iv.entry).push(c)))
}

/// The sequence with every occurrence of `c` taken out.
pub open spec fn drop_ino(s: Seq<Ino>, c: Ino) -> Seq<Ino> {
    s.filter(|x: Ino| x != c)
}

pub proof fn lemma_drop_ino_step(s: Seq<Ino>, c: Ino, i: int)
    requires
        0 <= i < s.len(),
    ensures
        drop_ino(s.take(i + 1), c) == if s[i] != c {
            drop_ino(s.take(i), c).push(s[i])
        } else {
            drop_ino(s.take(i), c)
        },
{
    reveal(Seq::filter);
    assert(s.take(i + 1).drop_last() =~= s.take(i));
}

pub proof fn lemma_drop_ino(s: Seq<Ino>, c: Ino)
    ensures
        forall|x: Ino| drop_ino(s, c).contains(x) <==> s.contains(x) && x != c,
        s.no_duplicates() ==> drop_ino(s, c).no_duplicates(),
        !s.contains(c) ==> drop_ino(s, c) == s,
    decreases s.len(),
{
    reveal(Seq::filter);
    broadcast use vstd::seq_lib::group_seq_properties;
    if s.len() > 0 {
        let t = s.drop_last();
        lemma_drop_ino(t, c);
        assert(s =~= t.push(s.last()));
        if s.no_duplicates() {
            assert(!t.contains(s.last()));
        }
    } else {
        assert(drop_ino(s, c) =~= s);
    }
}

/// The directory inode with every occurrence of `c` taken out of its children.
pub open spec fn without_child(iv: InodeView, c: Ino) -> InodeView {
    with_entry(iv, EntryView::Directory(drop_ino(entry_children(iv.entry), c)))
}

/// The shape that the tree keeps: a root directory, inodes stored under their
/// own ino, and parents and children that name each other.
pub open spec fn tree_shape(m: TreeView) -> bool {
    &&& m.contains_key(ROOT)
    &&& m[ROOT].parent == ROOT
    &&& m[ROOT].entry is Directory
    &&& forall|k: Ino| #[trigger] m.contains_key(k) ==> m[k].id == k
    &&& forall|k: Ino|
        #[trigger] m.contains_key(k) && k != ROOT ==> {
            &&& m.contains_key(m[k].parent)
            &&& m[m[k].parent].entry is Directory
            &&& entry_children(m[m[k].parent].entry).contains(k)
        }
    &&& forall|k: Ino| #[trigger] m.contains_key(k) ==> entry_children(m[k].entry).no_duplicates()
    &&& forall|k: Ino, c: Ino|
        #[trigger] m.contains_key(k) && #[trigger] entry_children(m[k].entry).contains(c) ==> {
            &&& m.contains_key(c)
            &&& c != ROOT
            &&& m[c].parent == k
        }
}

/// Each inode lies one step deeper than its parent: following parents always
/// reaches the root.
pub open spec fn depth_ok(m: TreeView, d: Map<Ino, nat>) -> bool {
    &&& forall|k: Ino| #[trigger] m.contains_key(k) ==> d.contains_key(k)
    &&& d[ROOT] == 0
    &&& forall|k: Ino| #[trigger] m.contains_key(k) && k != ROOT ==> d[k] == d[m[k].parent] + 1
}

// !SECTION

/// The tree of every inode of a pod, as all peers replicate it.
pub struct ITree {
    entries: HashMap<Ino, Inode>,
    next_ino: u64,
    depth: Ghost<Map<Ino, nat>>,
}

impl View for ITree {
    type V = TreeView;

    closed spec fn view(&self) -> TreeView {
        inodes_view(self.entries@)
    }
}

impl ITree {
    /// The first ino that [Self::reserve_ino] may give out.
    pub closed spec fn next_ino_spec(&self) -> u64 {
        self.next_ino
    }

    /// The tree is well formed: see [tree_shape]; and it has no cycle.
    pub closed spec fn wf(&self) -> bool {
        &&& tree_shape(self@)
        &&& depth_ok(self@, self.depth@)
    }

    /// A well formed tree has the shape of [tree_shape]: a root directory,
    /// inodes stored under their own ino, and parents and children that name
    /// each other.
    pub proof fn lemma_wf_shape(&self)
        requires
            self.wf(),
        ensures
            tree_shape(self@),
    {
    }

    /// A tree holding only the root directory.
    pub fn new() -> (r: ITree)
        ensures
            r.wf(),
            r@.dom() == set![ROOT],
            r@[ROOT].id == ROOT,
            r@[ROOT].parent == ROOT,
            r@[ROOT].name == Seq::<char>::empty(),
            r@[ROOT].entry == EntryView::Directory(Seq::empty()),
            r@[ROOT].meta.ino == ROOT,
            r@[ROOT].meta.perm == 0o755,
            r@[ROOT].meta.kind == SimpleFileType::Directory,
            r@[ROOT].meta.nlink == 2,
            r@[ROOT].meta.size == 0,
            r@[ROOT].xattrs == Map::<Seq<char>, Seq<u8>>::empty(),
            r.next_ino_spec() == FIRST_INO,
    {
        let time = now();
        let root = Inode {
            parent: ROOT,
            id: ROOT,
            name: InodeName::root(),
            entry: FsEntry::Directory(Vec::new()),
            meta: Metadata {
                ino: ROOT,
                size: 0,
                blocks: 0,
                atime: time,
                mtime: time,
                ctime: time,
                crtime: time,
                kind: SimpleFileType::Directory,
                perm: 0o755,
                // one link for the directory itself and one for its `.` entry
                nlink: 2,
                uid: 0,
                gid: 0,
                rdev: 0,
                blksize: 1,
                flags: 0,
            },
            xattrs: XAttrs::new(),
        };
        let mut entries: HashMap<Ino, Inode> = HashMap::new();
        let ghost rv = root@;
        entries.insert(ROOT, root);
        let r = ITree { entries, next_ino: FIRST_INO, depth: Ghost(Map::<Ino, nat>::empty().insert(ROOT, 0nat)) };
        proof {
            lemma_inodes_view_insert(Map::empty(), ROOT, root);
            assert(inodes_view(Map::<Ino, Inode>::empty()) =~= Map::empty());
            assert(r@ == Map::<Ino, InodeView>::empty().insert(ROOT, rv));
            assert(r@.dom() =~= set![ROOT]);
        }
        r
    }

    /// The inode of number `ino`.
    pub fn get_inode(&self, ino: Ino) -> (r: WhResult<&Inode>)
        ensures
            self@.contains_key(ino) ==> r is Ok && r->Ok_0@ == self@[ino],
            !self@.contains_key(ino) ==> r == Err::<&Inode, WhError>(WhError::InodeNotFound),
    {
        match self.entries.get(&ino) {
            Some(inode) => Ok(inode),
            None => Err(WhError::InodeNotFound),
        }
    }

    /// The number of inodes in the tree.
    pub fn len(&self) -> (r: usize)
        ensures
            r == self@.len(),
    {
        proof {
            assert(self@.dom() =~= self.entries@.dom());
        }
        self.entries.len()
    }

    /// The first ino that [Self::reserve_ino] may give out.
    pub fn next_ino(&self) -> (r: u64)
        ensures
            r == self.next_ino_spec(),
    {
        self.next_ino
    }

    /// Reserves an ino: once given out, it is never given out again.
    ///
    /// Gives `WouldBlock` once every ino has been given out.
    pub fn reserve_ino(&mut self) -> (r: WhResult<Ino>)
        ensures
            final(self)@ == old(self)@,
            old(self).wf() ==> final(self).wf(),
            forall|x: Ino| #[trigger] final(self).path_of(x) == old(self).path_of(x),
            old(self).next_ino_spec() < u64::MAX ==> r == Ok::<Ino, WhError>(old(self).next_ino_spec())
                && final(self).next_ino_spec() == old(self).next_ino_spec() + 1,
            old(self).next_ino_spec() == u64::MAX ==> r is Err && r->Err_0 is WouldBlock
                && final(self).next_ino_spec() == old(self).next_ino_spec(),
    {
        if self.next_ino == u64::MAX {
            return Err(WhError::WouldBlock { called_from: "reserve_ino".to_owned() });
        }
        let ino = self.next_ino;
        self.next_ino = self.next_ino + 1;
        Ok(ino)
    }

    /// Marks every ino up to `new` as reserved, as when a peer reserved `new`.
    ///
    /// Gives `WouldBlock` when `new` lies before the next ino to give out.
    pub fn mark_reserved_ino(&mut self, new: Ino) -> (r: WhResult<()>)
        requires
            new < u64::MAX,
        ensures
            final(self)@ == old(self)@,
            old(self).wf() ==> final(self).wf(),
            old(self).next_ino_spec() > new ==> r is Err && r->Err_0 is WouldBlock
                && final(self).next_ino_spec() == old(self).next_ino_spec(),
            old(self).next_ino_spec() <= new ==> r is Ok && final(self).next_ino_spec() == new + 1,
    {
        if self.next_ino > new {
            return Err(WhError::WouldBlock {
                called_from: "mark_reserved_ino: new is less than current".to_owned(),
            });
        }
        self.next_ino = new + 1;
        Ok(())
    }

    /// The ino reserved for a protected name in a given directory.
    pub fn get_special(name: &str, parent_ino: u64) -> (r: Option<u64>)
        ensures
            r == special_ino(name@, parent_ino),
    {
        proof {
            reveal_strlit(".global_config.toml");
            reveal_strlit(".local_config.toml");
        }
        if parent_ino == 1 && crate::pods::whpath::str_eq(name, GLOBAL_CONFIG_FNAME) {
            Some(GLOBAL_CONFIG_INO)
        } else if parent_ino == 1 && crate::pods::whpath::str_eq(name, LOCAL_CONFIG_FNAME) {
            Some(LOCAL_CONFIG_INO)
        } else {
            None
        }
    }

    /// Inos up to 10 are reserved for special files.
    pub fn is_special(ino: u64) -> (r: bool)
        ensures
            r == (ino <= 10),
    {
        ino <= 10
    }

    /// Only the local configuration is never shared with the other peers.
    pub fn is_local_only(ino: u64) -> (r: bool)
        ensures
            r == (ino == LOCAL_CONFIG_INO),
    {
        ino == LOCAL_CONFIG_INO
    }
}

impl ITree {
    /// Inserts a given [Inode] inside the tree, as a child of its parent.
    pub fn add_inode(&mut self, inode: Inode) -> (r: Result<(), MakeInodeError>)
        ensures
            final(self).next_ino_spec() == old(self).next_ino_spec(),
            old(self)@.contains_key(inode.id) ==> r is Err && r->Err_0 is AlreadyExist
                && final(self)@ == old(self)@,
            !old(self)@.contains_key(inode.id) && !old(self)@.contains_key(inode.parent) ==> r is Err
                && r->Err_0 is ParentNotFound && final(self)@ == old(self)@,
            !old(self)@.contains_key(inode.id) && old(self)@.contains_key(inode.parent) && !(old(
                self,
            )@[inode.parent].entry is Directory) ==> r is Err && r->Err_0 is ParentNotFolder
                && final(self)@ == old(self)@,
            !old(self)@.contains_key(inode.id) && old(self)@.contains_key(inode.parent) && old(
                self,
            )@[inode.parent].entry is Directory ==> r is Ok && final(self)@ == old(self)@.insert(
                inode.parent,
                with_child(old(self)@[inode.parent], inode.id),
            ).insert(inode.id, inode@),
            old(self).wf() && r is Ok && entry_children(inode@.entry).len() == 0 ==> final(self).wf(),
            old(self).wf() && r is Err ==> final(self).wf(),
    {
        if self.entries.contains_key(&inode.id) {
            return Err(MakeInodeError::AlreadyExist);
        }
        match self.entries.get(&inode.parent) {
            None => {
                return Err(MakeInodeError::ParentNotFound);
            },
            Some(p) => {
                match &p.entry {
                    FsEntry::Directory(_) => {},
                    _ => {
                        return Err(MakeInodeError::ParentNotFolder);
                    },
                }
            },
        }
        let ghost old_m = self@;
        let ghost old_d = self.depth@;
        let ghost k = inode.id;
        let ghost pk = inode.parent;
        let ghost iv = inode@;
        let parent = self.entries.remove(&inode.parent).unwrap();
        let Inode { parent: pp, id: pid, name: pname, entry: pentry, meta: pmeta, xattrs: pxattrs } = parent;
        let new_entry = match pentry {
            FsEntry::Directory(children) => {
                let mut children = children;
                children.push(inode.id);
                FsEntry::Directory(children)
            },
            other => other,
        };
        let new_parent = Inode { parent: pp, id: pid, name: pname, entry: new_entry, meta: pmeta, xattrs: pxattrs };
        let ghost npv = new_parent@;
        let ghost e_after_remove = self.entries@;
        self.entries.insert(inode.parent, new_parent);
        let ghost e_after_parent = self.entries@;
        self.entries.insert(inode.id, inode);
        proof {
            lemma_inodes_view_remove(old(self).entries@, pk);
            lemma_inodes_view_insert(e_after_remove, pk, new_parent);
            lemma_inodes_view_insert(e_after_parent, k, inode);
            assert(npv == with_child(old_m[pk], k));
            assert(old_m.remove(pk).insert(pk, npv) =~= old_m.insert(pk, npv));
            self.depth = Ghost(old_d.insert(k, old_d[pk] + 1));
            if old(self).wf() && entry_children(iv.entry).len() == 0 {
                self.lemma_add_keeps_wf(old_m, old_d, k, pk, iv);
            }
        }
        Ok(())
    }

    proof fn lemma_add_keeps_wf(&self, m: TreeView, d: Map<Ino, nat>, k: Ino, pk: Ino, iv: InodeView)
        requires
            tree_shape(m),
            depth_ok(m, d),
            !m.contains_key(k),
            m.contains_key(pk),
            m[pk].entry is Directory,
            iv.id == k,
            iv.parent == pk,
            entry_children(iv.entry).len() == 0,
            self@ == m.insert(pk, with_child(m[pk], k)).insert(k, iv),
            self.depth@ == d.insert(k, d[pk] + 1),
        ensures
            self.wf(),
    {
        let m2 = self@;
        assert(k != ROOT);
        assert forall|x: Ino| #[trigger] m2.contains_key(x) && x != ROOT implies {
            &&& m2.contains_key(m2[x].parent)
            &&& m2[m2[x].parent].entry is Directory
            &&& entry_children(m2[m2[x].parent].entry).contains(x)
        } by {
            if x != k {
                assert(m.contains_key(x));
                let q = m[x].parent;
                assert(m.contains_key(q));
                if q == pk {
                    assert(entry_children(m2[pk].entry) == entry_children(m[pk].entry).push(k));
                    assert(entry_children(m2[pk].entry)[entry_children(m[pk].entry).index_of(x)] == x);
                }
            } else {
                assert(entry_children(m2[pk].entry) == entry_children(m[pk].entry).push(k));
                assert(entry_children(m2[pk].entry).last() == k);
            }
        }
        assert forall|x: Ino| #[trigger] m2.contains_key(x) implies entry_children(m2[x].entry).no_duplicates() by {
            if x == pk {
                let ch = entry_children(m[pk].entry);
                assert(!ch.contains(k));
                assert(entry_children(m2[pk].entry) == ch.push(k));
                assert forall|a: int, b: int| 0 <= a < b < ch.push(k).len() implies ch.push(k)[a] != ch.push(k)[b] by {
                    if b == ch.len() {
                        assert(ch[a] != k);
                    }
                }
            }
        }
        assert forall|x: Ino, c: Ino| #[trigger] m2.contains_key(x) && #[trigger] entry_children(m2[x].entry).contains(c) implies {
            &&& m2.contains_key(c)
            &&& c != ROOT
            &&& m2[c].parent == x
        } by {
            if x == pk {
                let ch = entry_children(m[pk].entry);
                assert(entry_children(m2[pk].entry) == ch.push(k));
                if c != k {
                    let i = choose|i: int| 0 <= i < ch.push(k).len() && ch.push(k)[i] == c;
                    assert(ch[i] == c);
                    assert(ch.contains(c));
                }
            } else if x != k {
                assert(entry_children(m2[x].entry) == entry_children(m[x].entry));
            }
        }
        assert forall|x: Ino| #[trigger] m2.contains_key(x) && x != ROOT implies self.depth@[x] == self.depth@[m2[x].parent] + 1 by {
            if x != k {
                assert(m.contains_key(m[x].parent));
            }
        }
    }
}

/// Every occurrence of `child` taken out of `children`.
fn children_without(children: &Vec<Ino>, child: Ino) -> (r: Vec<Ino>)
    ensures
        r@ == drop_ino(children@, child),
{
    let mut out: Vec<Ino> = Vec::new();
    let mut i: usize = 0;
    proof {
        reveal(Seq::filter);
        assert(children@.take(0) =~= Seq::<Ino>::empty());
    }
    while i < children.len()
        invariant
            i <= children.len(),
            out@ == drop_ino(children@.take(i as int), child),
        decreases children.len() - i,
    {
        proof {
            lemma_drop_ino_step(children@, child, i as int);
        }
        if children[i] != child {
            out.push(children[i]);
        }
        i = i + 1;
    }
    assert(children@.take(children.len() as int) =~= children@);
    out
}

impl ITree {
    /// Takes every occurrence of `child` out of the children of `parent`.
    pub fn remove_child(&mut self, parent: Ino, child: Ino) -> (r: WhResult<()>)
        ensures
            final(self).next_ino_spec() == old(self).next_ino_spec(),
            !old(self)@.contains_key(parent) ==> r == Err::<(), WhError>(WhError::InodeNotFound)
                && final(self)@ == old(self)@,
            old(self)@.contains_key(parent) && !(old(self)@[parent].entry is Directory) ==> r == Err::<
                (),
                WhError,
            >(WhError::InodeIsNotADirectory) && final(self)@ == old(self)@,
            old(self)@.contains_key(parent) && old(self)@[parent].entry is Directory ==> r is Ok
                && final(self)@ == old(self)@.insert(parent, without_child(old(self)@[parent], child)),
    {
        self.drop_child(parent, child)
    }

    fn drop_child(&mut self, parent: Ino, child: Ino) -> (r: WhResult<()>)
        ensures
            final(self).next_ino_spec() == old(self).next_ino_spec(),
            final(self).depth@ == old(self).depth@,
            !old(self)@.contains_key(parent) ==> r == Err::<(), WhError>(WhError::InodeNotFound)
                && final(self)@ == old(self)@,
            old(self)@.contains_key(parent) && !(old(self)@[parent].entry is Directory) ==> r == Err::<
                (),
                WhError,
            >(WhError::InodeIsNotADirectory) && final(self)@ == old(self)@,
            old(self)@.contains_key(parent) && old(self)@[parent].entry is Directory ==> r is Ok
                && final(self)@ == old(self)@.insert(parent, without_child(old(self)@[parent], child)),
    {
        match self.entries.get(&parent) {
            None => {
                return Err(WhError::InodeNotFound);
            },
            Some(p) => {
                match &p.entry {
                    FsEntry::Directory(_) => {},
                    _ => {
                        return Err(WhError::InodeIsNotADirectory);
                    },
                }
            },
        }
        let ghost old_m = self@;
        let p = self.entries.remove(&parent).unwrap();
        let Inode { parent: pp, id: pid, name: pname, entry: pentry, meta: pmeta, xattrs: pxattrs } = p;
        let new_entry = match pentry {
            FsEntry::Directory(children) => FsEntry::Directory(children_without(&children, child)),
            other => other,
        };
        let new_parent = Inode { parent: pp, id: pid, name: pname, entry: new_entry, meta: pmeta, xattrs: pxattrs };
        let ghost npv = new_parent@;
        let ghost e_after_remove = self.entries@;
        self.entries.insert(parent, new_parent);
        proof {
            lemma_inodes_view_remove(old(self).entries@, parent);
            lemma_inodes_view_insert(e_after_remove, parent, new_parent);
            assert(npv == without_child(old_m[parent], child));
            assert(old_m.remove(parent).insert(parent, npv) =~= old_m.insert(parent, npv));
        }
        Ok(())
    }

    /// Appends `child` to the children of `parent`.
    pub fn add_child(&mut self, parent: Ino, child: Ino) -> (r: WhResult<()>)
        ensures
            final(self).next_ino_spec() == old(self).next_ino_spec(),
            !old(self)@.contains_key(parent) ==> r == Err::<(), WhError>(WhError::InodeNotFound)
                && final(self)@ == old(self)@,
            old(self)@.contains_key(parent) && !(old(self)@[parent].entry is Directory) ==> r == Err::<
                (),
                WhError,
            >(WhError::InodeIsNotADirectory) && final(self)@ == old(self)@,
            old(self)@.contains_key(parent) && old(self)@[parent].entry is Directory ==> r is Ok
                && final(self)@ == old(self)@.insert(parent, with_child(old(self)@[parent], child)),
    {
        self.push_child(parent, child)
    }

    fn push_child(&mut self, parent: Ino, child: Ino) -> (r: WhResult<()>)
        ensures
            final(self).next_ino_spec() == old(self).next_ino_spec(),
            final(self).depth@ == old(self).depth@,
            !old(self)@.contains_key(parent) ==> r == Err::<(), WhError>(WhError::InodeNotFound)
                && final(self)@ == old(self)@,
            old(self)@.contains_key(parent) && !(old(self)@[parent].entry is Directory) ==> r == Err::<
                (),
                WhError,
            >(WhError::InodeIsNotADirectory) && final(self)@ == old(self)@,
            old(self)@.contains_key(parent) && old(self)@[parent].entry is Directory ==> r is Ok
                && final(self)@ == old(self)@.insert(parent, with_child(old(self)@[parent], child)),
    {
        match self.entries.get(&parent) {
            None => {
                return Err(WhError::InodeNotFound);
            },
            Some(p) => {
                match &p.entry {
                    FsEntry::Directory(_) => {},
                    _ => {
                        return Err(WhError::InodeIsNotADirectory);
                    },
                }
            },
        }
        let ghost old_m = self@;
        let p = self.entries.remove(&parent).unwrap();
        let Inode { parent: pp, id: pid, name: pname, entry: pentry, meta: pmeta, xattrs: pxattrs } = p;
        let new_entry = match pentry {
            FsEntry::Directory(children) => {
                let mut children = children;
                children.push(child);
                FsEntry::Directory(children)
            },
            other => other,
        };
        let new_parent = Inode { parent: pp, id: pid, name: pname, entry: new_entry, meta: pmeta, xattrs: pxattrs };
        let ghost npv = new_parent@;
        let ghost e_after_remove = self.entries@;
        self.entries.insert(parent, new_parent);
        proof {
            lemma_inodes_view_remove(old(self).entries@, parent);
            lemma_inodes_view_insert(e_after_remove, parent, new_parent);
            assert(npv == with_child(old_m[parent], child));
            assert(old_m.remove(parent).insert(parent, npv) =~= old_m.insert(parent, npv));
        }
        Ok(())
    }

    /// Removes an inode from the tree and from its parent's children. A
    /// directory must be empty to be removed.
    pub fn remove_inode(&mut self, id: Ino) -> (r: Result<Inode, RemoveInodeError>)
        ensures
            final(self).next_ino_spec() == old(self).next_ino_spec(),
            !old(self)@.contains_key(id) ==> r == Err::<Inode, RemoveInodeError>(
                RemoveInodeError::WhError { source: WhError::InodeNotFound },
            ) && final(self)@ == old(self)@,
            old(self)@.contains_key(id) && entry_children(old(self)@[id].entry).len() > 0 ==> r
                == Err::<Inode, RemoveInodeError>(RemoveInodeError::NonEmpty) && final(self)@ == old(
                self,
            )@,
            old(self)@.contains_key(id) && entry_children(old(self)@[id].entry).len() == 0 && !old(
                self,
            )@.contains_key(old(self)@[id].parent) ==> r == Err::<Inode, RemoveInodeError>(
                RemoveInodeError::WhError { source: WhError::InodeNotFound },
            ) && final(self)@ == old(self)@,
            old(self)@.contains_key(id) && entry_children(old(self)@[id].entry).len() == 0 && old(
                self,
            )@.contains_key(old(self)@[id].parent) && !(old(self)@[old(self)@[id].parent].entry is Directory)
                ==> r == Err::<Inode, RemoveInodeError>(
                RemoveInodeError::WhError { source: WhError::InodeIsNotADirectory },
            ) && final(self)@ == old(self)@,
            old(self)@.contains_key(id) && entry_children(old(self)@[id].entry).len() == 0 && old(
                self,
            )@.contains_key(old(self)@[id].parent) && old(self)@[old(self)@[id].parent].entry is Directory
                ==> r is Ok && r->Ok_0@ == old(self)@[id] && final(self)@ == old(self)@.insert(
                old(self)@[id].parent,
                without_child(old(self)@[old(self)@[id].parent], id),
            ).remove(id),
            old(self).wf() && id != ROOT && r is Ok ==> final(self).wf(),
            old(self).wf() && r is Err ==> final(self).wf(),
    {
        let ghost old_m = self@;
        let ghost old_d = self.depth@;
        let parent = match self.get_inode(id) {
            Err(source) => {
                return Err(RemoveInodeError::WhError { source });
            },
            Ok(inode) => {
                match &inode.entry {
                    FsEntry::Directory(children) => {
                        if children.len() > 0 {
                            return Err(RemoveInodeError::NonEmpty);
                        }
                    },
                    _ => {},
                }
                inode.parent
            },
        };
        match self.drop_child(parent, id) {
            Err(source) => {
                return Err(RemoveInodeError::WhError { source });
            },
            Ok(()) => {},
        }
        let ghost mid = self.entries@;
        assert(self@.contains_key(id));
        assert(mid.contains_key(id));
        let removed = self.entries.remove(&id);
        proof {
            lemma_inodes_view_remove(mid, id);
            lemma_drop_ino(Seq::<Ino>::empty(), id);
            if parent == id {
                assert(entry_children(old_m[id].entry) =~= Seq::<Ino>::empty());
                assert(without_child(old_m[id], id) == old_m[id]);
            }
        }
        match removed {
            Some(inode) => {
                proof {
                    assert(mid.contains_key(id));
                    assert(inodes_view(mid)[id] == mid[id]@);
                    assert(inode == mid[id]);
                    if old(self).wf() && id != ROOT {
                        self.lemma_remove_keeps_wf(old_m, old_d, id);
                    }
                }
                Ok(inode)
            },
            None => Err(RemoveInodeError::WhError { source: WhError::InodeNotFound }),
        }
    }

    proof fn lemma_remove_keeps_wf(&self, m: TreeView, d: Map<Ino, nat>, k: Ino)
        requires
            tree_shape(m),
            depth_ok(m, d),
            m.contains_key(k),
            k != ROOT,
            entry_children(m[k].entry).len() == 0,
            self@ == m.insert(m[k].parent, without_child(m[m[k].parent], k)).remove(k),
            self.depth@ == d,
        ensures
            self.wf(),
    {
        let m2 = self@;
        let pk = m[k].parent;
        assert(m.contains_key(pk));
        lemma_drop_ino(entry_children(m[pk].entry), k);
        assert forall|x: Ino| #[trigger] m.contains_key(x) && x != ROOT implies m[x].parent != k by {
            let q = m[x].parent;
            if q == k {
                assert(entry_children(m[k].entry).contains(x));
            }
        }
        assert forall|x: Ino| #[trigger] m2.contains_key(x) && x != ROOT implies {
            &&& m2.contains_key(m2[x].parent)
            &&& m2[m2[x].parent].entry is Directory
            &&& entry_children(m2[m2[x].parent].entry).contains(x)
        } by {
            assert(m.contains_key(x));
            assert(m[x].parent != k);
        }
        assert forall|x: Ino| #[trigger] m2.contains_key(x) implies entry_children(m2[x].entry).no_duplicates() by {
            assert(m.contains_key(x));
        }
        assert forall|x: Ino, c: Ino| #[trigger] m2.contains_key(x) && #[trigger] entry_children(m2[x].entry).contains(c) implies {
            &&& m2.contains_key(c)
            &&& c != ROOT
            &&& m2[c].parent == x
        } by {
            assert(m.contains_key(x));
            if x == pk {
                assert(entry_children(m[pk].entry).contains(c));
            } else {
                assert(entry_children(m[x].entry).contains(c));
                if c == k {
                    assert(m[c].parent == x);
                }
            }
        }
        assert forall|x: Ino| #[trigger] m2.contains_key(x) && x != ROOT implies self.depth@[x] == self.depth@[m2[x].parent] + 1 by {
            assert(m.contains_key(x));
        }
    }
}

/// The first of `children` that the tree holds under the name `name`.
pub open spec fn find_named(m: TreeView, children: Seq<Ino>, name: Seq<char>) -> Option<Ino>
    decreases children.len(),
{
    if children.len() == 0 {
        None
    } else if m.contains_key(children[0]) && m[children[0]].name == name {
        Some(children[0])
    } else {
        find_named(m, children.drop_first(), name)
    }
}

pub proof fn lemma_find_named_found(m: TreeView, children: Seq<Ino>, name: Seq<char>)
    ensures
        find_named(m, children, name) matches Some(c) ==> children.contains(c) && m.contains_key(c)
            && m[c].name == name,
    decreases children.len(),
{
    if children.len() > 0 {
        lemma_find_named_found(m, children.drop_first(), name);
        if let Some(c) = find_named(m, children.drop_first(), name) {
            if !(m.contains_key(children[0]) && m[children[0]].name == name) {
                let i = choose|i: int| 0 <= i < children.drop_first().len() && children.drop_first()[i] == c;
                assert(children[i + 1] == c);
            }
        }
    }
}

/// The child named `name` of the directory `dir`.
pub open spec fn lookup(m: TreeView, dir: Ino, name: Seq<char>) -> WhResult<Ino> {
    if !(m[dir].entry is Directory) {
        Err(WhError::InodeIsNotADirectory)
    } else {
        match find_named(m, entry_children(m[dir].entry), name) {
            Some(c) => Ok(c),
            None => Err(WhError::InodeNotFound),
        }
    }
}

/// The inode reached from `from` by following the names `comps`.
pub open spec fn resolve(m: TreeView, from: Ino, comps: Seq<Seq<char>>) -> WhResult<Ino>
    decreases comps.len(),
{
    if comps.len() == 0 {
        Ok(from)
    } else {
        match lookup(m, from, comps[0]) {
            Ok(c) => resolve(m, c, comps.drop_first()),
            Err(e) => Err(e),
        }
    }
}

/// The path of `ino`: the names of the inodes from the root down to it,
/// found within `fuel` steps up the tree.
pub open spec fn path_fuel(m: TreeView, ino: Ino, fuel: nat) -> Option<Seq<Seq<char>>>
    decreases fuel,
{
    if ino == ROOT {
        Some(Seq::empty())
    } else if !m.contains_key(ino) {
        None
    } else if fuel == 0 {
        None
    } else {
        match path_fuel(m, m[ino].parent, (fuel - 1) as nat) {
            Some(p) => Some(p + crate::pods::whpath::name_as_path(m[ino].name)),
            None => None,
        }
    }
}

impl ITree {
    /// How far below the root `ino` lies.
    pub closed spec fn depth_of(&self, ino: Ino) -> nat {
        self.depth@[ino]
    }

    /// The path of `ino` in the tree: the names from the root down to it.
    pub closed spec fn path_of(&self, ino: Ino) -> Option<Seq<Seq<char>>> {
        path_fuel(self@, ino, self.depth@[ino])
    }

    /// How [Self::path_of] unfolds on a well formed tree: the root's path is
    /// empty, an ino outside the tree has none, and an inode's path is its
    /// parent's path followed by its name.
    pub proof fn lemma_path_of(&self, ino: Ino)
        requires
            self.wf(),
        ensures
            ino == ROOT ==> self.path_of(ino) == Some(Seq::<Seq<char>>::empty()),
            !self@.contains_key(ino) ==> self.path_of(ino) is None,
            self@.contains_key(ino) ==> self.path_of(ino) is Some,
            self@.contains_key(ino) && ino != ROOT ==> self.path_of(ino) == Some(
                self.path_of(self@[ino].parent).unwrap() + crate::pods::whpath::name_as_path(self@[ino].name),
            ),
        decreases self.depth_of(ino),
    {
        if self@.contains_key(ino) && ino != ROOT {
            let p = self@[ino].parent;
            assert(self@.contains_key(p));
            self.lemma_path_of(p);
        }
    }

    /// The child of `parent` named `name`.
    ///
    /// `InodeIsNotADirectory` when `parent` is not a directory, and
    /// `InodeNotFound` when none of its children held in the tree is named `name`.
    pub fn get_inode_child_by_name(&self, parent: &Inode, name: &str) -> (r: WhResult<&Inode>)
        ensures
            !(parent@.entry is Directory) ==> r == Err::<&Inode, WhError>(WhError::InodeIsNotADirectory),
            parent@.entry is Directory ==> match find_named(self@, entry_children(parent@.entry), name@) {
                Some(c) => r is Ok && r->Ok_0@ == self@[c],
                None => r == Err::<&Inode, WhError>(WhError::InodeNotFound),
            },
    {
        match parent.entry.get_children() {
            Ok(children) => {
                let ghost ch = children@;
                let mut i: usize = 0;
                assert(ch.skip(0) =~= ch);
                while i < children.len()
                    invariant
                        i <= children.len(),
                        ch == children@,
                        parent@.entry is Directory,
                        ch == entry_children(parent@.entry),
                        find_named(self@, ch, name@) == find_named(self@, ch.skip(i as int), name@),
                    decreases children.len() - i,
                {
                    assert(ch.skip(i as int).drop_first() =~= ch.skip(i + 1));
                    assert(ch.skip(i as int)[0] == ch[i as int]);
                    match self.entries.get(&children[i]) {
                        Some(child) => {
                            assert(self@[ch[i as int]] == child@);
                            if child.name.eq_str(name) {
                                return Ok(child);
                            }
                        },
                        None => {},
                    }
                    i = i + 1;
                }
                assert(ch.skip(i as int).len() == 0);
                Err(WhError::InodeNotFound)
            },
            Err(e) => Err(e),
        }
    }

    /// The inode reached from the root by following the components of `path`.
    pub fn get_inode_from_path(&self, path: &WhPath) -> (r: WhResult<&Inode>)
        requires
            self@.contains_key(ROOT),
        ensures
            match resolve(self@, ROOT, path@) {
                Ok(ino) => r is Ok && self@.contains_key(ino) && r->Ok_0@ == self@[ino],
                Err(e) => r == Err::<&Inode, WhError>(e),
            },
    {
        let mut actual_inode = self.entries.get(&ROOT).unwrap();
        let ghost mut cur: Ino = ROOT;
        let names = path.iter();
        let mut i: usize = 0;
        assert(path@.skip(0) =~= path@);
        while i < names.len()
            invariant
                i <= names.len(),
                crate::text::views(names@) == path@,
                self@.contains_key(cur),
                actual_inode@ == self@[cur],
                resolve(self@, ROOT, path@) == resolve(self@, cur, path@.skip(i as int)),
            decreases names.len() - i,
        {
            proof {
                assert(path@.skip(i as int).drop_first() =~= path@.skip(i + 1));
                assert(path@.skip(i as int)[0] == path@[i as int]);
                assert(path@[i as int] == names@[i as int]@);
                lemma_find_named_found(self@, entry_children(self@[cur].entry), path@[i as int]);
            }
            match self.get_inode_child_by_name(actual_inode, names[i].as_str()) {
                Ok(next) => {
                    proof {
                        cur = find_named(self@, entry_children(self@[cur].entry), path@[i as int]).unwrap();
                    }
                    actual_inode = next;
                },
                Err(e) => {
                    return Err(e);
                },
            }
            i = i + 1;
        }
        assert(path@.skip(i as int) =~= Seq::<Seq<char>>::empty());
        Ok(actual_inode)
    }

    /// The path of `ino`: the names from the root down to it.
    ///
    /// `InodeNotFound` when `ino` is not in the tree.
    pub fn get_path_from_inode_id(&self, inode_index: Ino) -> (r: WhResult<WhPath>)
        requires
            self.wf(),
        ensures
            self.path_of(inode_index) is Some ==> r is Ok && r->Ok_0@ == self.path_of(inode_index).unwrap(),
            self.path_of(inode_index) is None ==> r == Err::<WhPath, WhError>(WhError::InodeNotFound),
        decreases self.depth_of(inode_index),
    {
        if inode_index == ROOT {
            return Ok(WhPath::root());
        }
        let inode = match self.entries.get(&inode_index) {
            Some(inode) => inode,
            None => {
                return Err(WhError::InodeNotFound);
            },
        };
        proof {
            assert(self@.contains_key(inode_index));
            assert(self@[inode_index] == inode@);
            assert(self@.contains_key(inode.parent));
            assert(self.depth_of(inode.parent) < self.depth_of(inode_index));
        }
        let mut parent_path = self.get_path_from_inode_id(inode.parent)?;
        parent_path.push(WhPath::from_name(&inode.name));
        Ok(parent_path)
    }
}

/// The hosts of a file entry; none for the other entries.
pub open spec fn entry_hosts(e: EntryView) -> Seq<HostId> {
    match e {
        EntryView::File(h) => h,
        _ => Seq::empty(),
    }
}

/// The sequence is strictly increasing: sorted, with no host twice.
pub open spec fn strictly_sorted(s: Seq<HostId>) -> bool {
    forall|i: int, j: int| 0 <= i < j < s.len() ==> s[i] < s[j]
}

/// The tree `after` is `before` once the hosts `new_hosts` are added to the
/// file `ino`: its hosts, strictly increasing, are those it had and the new
/// ones; nothing else changes.
pub open spec fn hosts_added(before: TreeView, ino: Ino, new_hosts: Seq<HostId>, after: TreeView) -> bool {
    &&& after == before.insert(ino, with_entry(before[ino], after[ino].entry))
    &&& after[ino].entry is File
    &&& strictly_sorted(entry_hosts(after[ino].entry))
    &&& entry_hosts(after[ino].entry).to_set() == (entry_hosts(before[ino].entry) + new_hosts).to_set()
}

/// Two strictly increasing sequences that hold the same hosts are the same.
pub proof fn lemma_sorted_hosts_unique(a: Seq<HostId>, b: Seq<HostId>)
    requires
        strictly_sorted(a),
        strictly_sorted(b),
        a.to_set() == b.to_set(),
    ensures
        a == b,
    decreases a.len(),
{
    if a.len() == 0 {
        if b.len() > 0 {
            assert(b.to_set().contains(b[0]));
        }
        assert(a =~= b);
    } else {
        if b.len() == 0 {
            assert(a.to_set().contains(a[0]));
        }
        assert(b.to_set().contains(a[0]));
        assert(a.to_set().contains(b[0]));
        let i = choose|i: int| 0 <= i < b.len() && b[i] == a[0];
        let j = choose|j: int| 0 <= j < a.len() && a[j] == b[0];
        assert(b[0] <= b[i]);
        assert(a[0] <= a[j]);
        let a1 = a.drop_first();
        let b1 = b.drop_first();
        assert forall|x: HostId| a1.to_set().contains(x) implies b1.to_set().contains(x) by {
            let k = choose|k: int| 0 <= k < a1.len() && a1[k] == x;
            assert(a[k + 1] == x);
            assert(b.to_set().contains(x));
            let l = choose|l: int| 0 <= l < b.len() && b[l] == x;
            assert(l != 0);
            assert(b1[l - 1] == x);
        }
        assert forall|x: HostId| b1.to_set().contains(x) implies a1.to_set().contains(x) by {
            let k = choose|k: int| 0 <= k < b1.len() && b1[k] == x;
            assert(b[k + 1] == x);
            assert(a.to_set().contains(x));
            let l = choose|l: int| 0 <= l < a.len() && a[l] == x;
            assert(l != 0);
            assert(a1[l - 1] == x);
        }
        assert(a1.to_set() =~= b1.to_set());
        lemma_sorted_hosts_unique(a1, b1);
        assert(a =~= b) by {
            assert forall|k: int| 0 <= k < a.len() implies a[k] == b[k] by {
                if k > 0 {
                    assert(a[k] == a1[k - 1]);
                    assert(b[k] == b1[k - 1]);
                }
            }
        }
    }
}

/// Adding hosts is idempotent: adding to a file, as [ITree::add_inode_hosts]
/// does, the same hosts a second time leaves the tree as the first time left
/// it.
pub proof fn lemma_add_hosts_twice(t0: TreeView, t1: TreeView, t2: TreeView, ino: Ino, new_hosts: Seq<HostId>)
    requires
        t0.contains_key(ino),
        t0[ino].entry is File,
        hosts_added(t0, ino, new_hosts, t1),
        hosts_added(t1, ino, new_hosts, t2),
    ensures
        t2 == t1,
{
    let h0 = entry_hosts(t0[ino].entry);
    let h1 = entry_hosts(t1[ino].entry);
    let h2 = entry_hosts(t2[ino].entry);
    assert(t1.contains_key(ino));
    assert(t2.contains_key(ino));
    assert forall|x: HostId| (h1 + new_hosts).to_set().contains(x) implies h1.to_set().contains(x) by {
        let k = choose|k: int| 0 <= k < (h1 + new_hosts).len() && (h1 + new_hosts)[k] == x;
        if k >= h1.len() {
            assert(new_hosts[k - h1.len()] == x);
            assert((h0 + new_hosts)[h0.len() + k - h1.len()] == x);
            assert((h0 + new_hosts).to_set().contains(x));
        } else {
            assert(h1[k] == x);
        }
    }
    assert forall|x: HostId| h1.to_set().contains(x) implies (h1 + new_hosts).to_set().contains(x) by {
        let k = choose|k: int| 0 <= k < h1.len() && h1[k] == x;
        assert((h1 + new_hosts)[k] == x);
    }
    assert(h2.to_set() =~= h1.to_set());
    lemma_sorted_hosts_unique(h2, h1);
    assert(t2[ino].entry == t1[ino].entry);
    assert(with_entry(t1[ino], t2[ino].entry) == t1[ino]);
    assert(t2 =~= t1);
}

/// The hosts of `s` that `r` does not hold.
pub open spec fn hosts_without(s: Seq<HostId>, r: Seq<HostId>) -> Seq<HostId> {
    s.filter(|h: HostId| !r.contains(h))
}

proof fn lemma_hosts_without_step(s: Seq<HostId>, r: Seq<HostId>, i: int)
    requires
        0 <= i < s.len(),
    ensures
        hosts_without(s.take(i + 1), r) == if !r.contains(s[i]) {
            hosts_without(s.take(i), r).push(s[i])
        } else {
            hosts_without(s.take(i), r)
        },
{
    reveal(Seq::filter);
    assert(s.take(i + 1).drop_last() =~= s.take(i));
}

/// Inserts `h` in a strictly increasing vector, unless it is already there.
fn insert_sorted(v: &mut Vec<HostId>, h: HostId)
    requires
        strictly_sorted(old(v)@),
    ensures
        strictly_sorted(final(v)@),
        final(v)@.to_set() == old(v)@.to_set().insert(h),
{
    let mut i: usize = 0;
    while i < v.len() && v[i] < h
        invariant
            i <= v.len(),
            forall|j: int| 0 <= j < i ==> v@[j] < h,
        decreases v.len() - i,
    {
        i = i + 1;
    }
    if i < v.len() && v[i] == h {
        assert(old(v)@.to_set().insert(h) =~= old(v)@.to_set()) by {
            assert(old(v)@.contains(h));
        }
        return;
    }
    let ghost before = v@;
    v.insert(i, h);
    proof {
        assert(v@ == before.insert(i as int, h));
        assert forall|a: int, b: int| 0 <= a < b < v@.len() implies v@[a] < v@[b] by {
            if b < i {
            } else if a < i && b == i {
            } else if a < i {
                assert(v@[b] == before[b - 1]);
            } else if a == i {
                assert(v@[b] == before[b - 1]);
                assert(i < before.len());
                assert(before[i as int] > h);
                if b - 1 > i {
                    assert(before[i as int] < before[b - 1]);
                }
            } else {
                assert(v@[a] == before[a - 1]);
                assert(v@[b] == before[b - 1]);
            }
        }
        assert forall|x: HostId| v@.to_set().contains(x) <==> before.to_set().insert(h).contains(x) by {
            if v@.contains(x) {
                let j = choose|j: int| 0 <= j < v@.len() && v@[j] == x;
                if j < i {
                    assert(before[j] == x);
                } else if j > i {
                    assert(before[j - 1] == x);
                }
            }
            if before.contains(x) {
                let j = choose|j: int| 0 <= j < before.len() && before[j] == x;
                if j < i {
                    assert(v@[j] == x);
                } else {
                    assert(v@[j + 1] == x);
                }
            }
            if x == h {
                assert(v@[i as int] == h);
            }
        }
        assert(v@.to_set() =~= before.to_set().insert(h));
    }
}

impl ITree {
    /// The inode `k` changed in a way that keeps the shape of the tree.
    proof fn lemma_same_shape(&self, m: TreeView, d: Map<Ino, nat>, k: Ino)
        requires
            tree_shape(m),
            depth_ok(m, d),
            m.contains_key(k),
            self@ == m.insert(k, self@[k]),
            self@[k].id == m[k].id,
            self@[k].parent == m[k].parent,
            entry_children(self@[k].entry) == entry_children(m[k].entry),
            self@[k].entry is Directory <==> m[k].entry is Directory,
            self.depth@ == d,
        ensures
            self.wf(),
    {
        let m2 = self@;
        assert forall|x: Ino| #[trigger] m2.contains_key(x) && x != ROOT implies {
            &&& m2.contains_key(m2[x].parent)
            &&& m2[m2[x].parent].entry is Directory
            &&& entry_children(m2[m2[x].parent].entry).contains(x)
        } by {
            assert(m.contains_key(x));
            assert(m.contains_key(m[x].parent));
        }
        assert forall|x: Ino, c: Ino| #[trigger] m2.contains_key(x) && #[trigger] entry_children(m2[x].entry).contains(c) implies {
            &&& m2.contains_key(c)
            &&& c != ROOT
            &&& m2[c].parent == x
        } by {
            assert(m.contains_key(x));
            assert(entry_children(m[x].entry).contains(c));
        }
        assert forall|x: Ino| #[trigger] m2.contains_key(x) implies entry_children(m2[x].entry).no_duplicates() by {
            assert(m.contains_key(x));
        }
        assert forall|x: Ino| #[trigger] m2.contains_key(x) && x != ROOT implies self.depth@[x] == self.depth@[m2[x].parent] + 1 by {
            assert(m.contains_key(x));
        }
    }

    /// The hosts of a file.
    ///
    /// `InodeIsADirectory` when `ino` is a directory or a link.
    pub fn get_inode_hosts(&self, ino: Ino) -> (r: WhResult<&[HostId]>)
        ensures
            !self@.contains_key(ino) ==> r == Err::<&[HostId], WhError>(WhError::InodeNotFound),
            self@.contains_key(ino) && !(self@[ino].entry is File) ==> r == Err::<&[HostId], WhError>(
                WhError::InodeIsADirectory,
            ),
            self@.contains_key(ino) && self@[ino].entry is File ==> r is Ok && r->Ok_0@ == entry_hosts(
                self@[ino].entry,
            ),
    {
        let inode = self.get_inode(ino)?;
        match &inode.entry {
            FsEntry::File(hosts) => Ok(hosts.as_slice()),
            _ => Err(WhError::InodeIsADirectory),
        }
    }

    /// Adds hosts to a file. The hosts end sorted, each once.
    ///
    /// `InodeIsADirectory` when `ino` is a directory or a link.
    pub fn add_inode_hosts(&mut self, ino: Ino, new_hosts: &[HostId]) -> (r: WhResult<()>)
        ensures
            final(self).next_ino_spec() == old(self).next_ino_spec(),
            !old(self)@.contains_key(ino) ==> r == Err::<(), WhError>(WhError::InodeNotFound)
                && final(self)@ == old(self)@,
            old(self)@.contains_key(ino) && !(old(self)@[ino].entry is File) ==> r == Err::<(), WhError>(
                WhError::InodeIsADirectory,
            ) && final(self)@ == old(self)@,
            old(self)@.contains_key(ino) && old(self)@[ino].entry is File ==> r is Ok && hosts_added(
                old(self)@,
                ino,
                new_hosts@,
                final(self)@,
            ),
            old(self).wf() ==> final(self).wf(),
    {
        match self.get_inode(ino)?.entry {
            FsEntry::File(_) => {},
            _ => {
                return Err(WhError::InodeIsADirectory);
            },
        }
        let ghost old_m = self@;
        let ghost old_e = self.entries@;
        let inode = self.entries.remove(&ino).unwrap();
        let Inode { parent, id, name, entry, meta, xattrs } = inode;
        let old_hosts = match entry {
            FsEntry::File(h) => h,
            _ => Vec::new(),
        };
        let ghost all = old_hosts@ + new_hosts@;
        let mut hosts: Vec<HostId> = Vec::new();
        let mut i: usize = 0;
        while i < old_hosts.len()
            invariant
                i <= old_hosts.len(),
                all == old_hosts@ + new_hosts@,
                strictly_sorted(hosts@),
                hosts@.to_set() == all.take(i as int).to_set(),
            decreases old_hosts.len() - i,
        {
            insert_sorted(&mut hosts, old_hosts[i]);
            assert(all.take(i + 1) =~= all.take(i as int).push(all[i as int]));
            proof {
                all.take(i as int).lemma_push_to_set_commute(all[i as int]);
            }
            i = i + 1;
        }
        let mut j: usize = 0;
        while j < new_hosts.len()
            invariant
                j <= new_hosts.len(),
                all == old_hosts@ + new_hosts@,
                strictly_sorted(hosts@),
                hosts@.to_set() == all.take(old_hosts.len() + j).to_set(),
            decreases new_hosts.len() - j,
        {
            insert_sorted(&mut hosts, new_hosts[j]);
            assert(all.take(old_hosts.len() + j + 1) =~= all.take(old_hosts.len() + j).push(all[old_hosts.len() + j]));
            proof {
                all.take(old_hosts.len() + j).lemma_push_to_set_commute(all[old_hosts.len() + j]);
            }
            j = j + 1;
        }
        assert(all.take(old_hosts.len() + new_hosts.len()) =~= all);
        let ghost e_after_remove = self.entries@;
        let updated = Inode { parent, id, name, entry: FsEntry::File(hosts), meta, xattrs };
        let ghost uv = updated@;
        self.entries.insert(ino, updated);
        proof {
            lemma_inodes_view_remove(old_e, ino);
            lemma_inodes_view_insert(e_after_remove, ino, updated);
            assert(old_m.remove(ino).insert(ino, uv) =~= old_m.insert(ino, uv));
            if old(self).wf() {
                self.lemma_same_shape(old_m, self.depth@, ino);
            }
        }
        Ok(())
    }
}

impl ITree {
    /// Takes an inode out of the map, to change it and put it back.
    fn take_out(&mut self, ino: Ino) -> (r: Inode)
        requires
            old(self)@.contains_key(ino),
        ensures
            r@ == old(self)@[ino],
            final(self)@ == old(self)@.remove(ino),
            final(self).depth@ == old(self).depth@,
            final(self).next_ino == old(self).next_ino,
    {
        let ghost old_e = self.entries@;
        assert(old_e.contains_key(ino));
        let r = self.entries.remove(&ino).unwrap();
        proof {
            lemma_inodes_view_remove(old_e, ino);
        }
        r
    }

    /// Puts an inode in the map under `ino`.
    fn put_back(&mut self, ino: Ino, inode: Inode)
        ensures
            final(self)@ == old(self)@.insert(ino, inode@),
            final(self).depth@ == old(self).depth@,
            final(self).next_ino == old(self).next_ino,
    {
        let ghost old_e = self.entries@;
        self.entries.insert(ino, inode);
        proof {
            lemma_inodes_view_insert(old_e, ino, inode);
        }
    }

    /// Removes hosts from a file.
    ///
    /// `InodeIsADirectory` when `ino` is a directory or a link.
    pub fn remove_inode_hosts(&mut self, ino: Ino, remove_hosts: &[HostId]) -> (r: WhResult<()>)
        ensures
            final(self).next_ino_spec() == old(self).next_ino_spec(),
            !old(self)@.contains_key(ino) ==> r == Err::<(), WhError>(WhError::InodeNotFound)
                && final(self)@ == old(self)@,
            old(self)@.contains_key(ino) && !(old(self)@[ino].entry is File) ==> r == Err::<(), WhError>(
                WhError::InodeIsADirectory,
            ) && final(self)@ == old(self)@,
            old(self)@.contains_key(ino) && old(self)@[ino].entry is File ==> r is Ok && final(self)@
                == old(self)@.insert(
                ino,
                with_entry(
                    old(self)@[ino],
                    EntryView::File(hosts_without(entry_hosts(old(self)@[ino].entry), remove_hosts@)),
                ),
            ),
            old(self).wf() ==> final(self).wf(),
    {
        match self.get_inode(ino)?.entry {
            FsEntry::File(_) => {},
            _ => {
                return Err(WhError::InodeIsADirectory);
            },
        }
        let ghost old_m = self@;
        let Inode { parent, id, name, entry, meta, xattrs } = self.take_out(ino);
        let old_hosts = match entry {
            FsEntry::File(h) => h,
            _ => Vec::new(),
        };
        let mut hosts: Vec<HostId> = Vec::new();
        let mut i: usize = 0;
        proof {
            reveal(Seq::filter);
            assert(old_hosts@.take(0) =~= Seq::<HostId>::empty());
        }
        while i < old_hosts.len()
            invariant
                i <= old_hosts.len(),
                hosts@ == hosts_without(old_hosts@.take(i as int), remove_hosts@),
            decreases old_hosts.len() - i,
        {
            proof {
                lemma_hosts_without_step(old_hosts@, remove_hosts@, i as int);
            }
            let h = old_hosts[i];
            let mut found = false;
            let mut j: usize = 0;
            while j < remove_hosts.len()
                invariant
                    j <= remove_hosts.len(),
                    found == (exists|k: int| 0 <= k < j && remove_hosts@[k] == h),
                decreases remove_hosts.len() - j,
            {
                if remove_hosts[j] == h {
                    found = true;
                }
                j = j + 1;
            }
            if !found {
                hosts.push(h);
            }
            i = i + 1;
        }
        assert(old_hosts@.take(old_hosts.len() as int) =~= old_hosts@);
        self.put_back(ino, Inode { parent, id, name, entry: FsEntry::File(hosts), meta, xattrs });
        proof {
            assert(old_m.remove(ino).insert(ino, self@[ino]) =~= old_m.insert(ino, self@[ino]));
            if old(self).wf() {
                self.lemma_same_shape(old_m, self.depth@, ino);
            }
        }
        Ok(())
    }

    /// Replaces the metadata of an inode.
    pub fn set_inode_meta(&mut self, ino: Ino, meta: Metadata) -> (r: WhResult<()>)
        ensures
            final(self).next_ino_spec() == old(self).next_ino_spec(),
            !old(self)@.contains_key(ino) ==> r == Err::<(), WhError>(WhError::InodeNotFound)
                && final(self)@ == old(self)@,
            old(self)@.contains_key(ino) ==> r is Ok && final(self)@ == old(self)@.insert(
                ino,
                InodeView { meta, ..old(self)@[ino] },
            ),
            old(self).wf() ==> final(self).wf(),
    {
        self.get_inode(ino)?;
        let ghost old_m = self@;
        let mut inode = self.take_out(ino);
        inode.meta = meta;
        self.put_back(ino, inode);
        proof {
            assert(old_m.remove(ino).insert(ino, self@[ino]) =~= old_m.insert(ino, self@[ino]));
            if old(self).wf() {
                self.lemma_same_shape(old_m, self.depth@, ino);
            }
        }
        Ok(())
    }

    /// Replaces the size of an inode.
    pub fn set_inode_size(&mut self, ino: Ino, size: u64) -> (r: WhResult<()>)
        ensures
            final(self).next_ino_spec() == old(self).next_ino_spec(),
            !old(self)@.contains_key(ino) ==> r == Err::<(), WhError>(WhError::InodeNotFound)
                && final(self)@ == old(self)@,
            old(self)@.contains_key(ino) ==> r is Ok && final(self)@ == old(self)@.insert(
                ino,
                InodeView { meta: Metadata { size, ..old(self)@[ino].meta }, ..old(self)@[ino] },
            ),
            old(self).wf() ==> final(self).wf(),
    {
        self.get_inode(ino)?;
        let ghost old_m = self@;
        let mut inode = self.take_out(ino);
        inode.meta.size = size;
        self.put_back(ino, inode);
        proof {
            assert(old_m.remove(ino).insert(ino, self@[ino]) =~= old_m.insert(ino, self@[ino]));
            if old(self).wf() {
                self.lemma_same_shape(old_m, self.depth@, ino);
            }
        }
        Ok(())
    }

    /// Stores `data` under the extended attribute `key` of an inode.
    pub fn set_inode_xattr(&mut self, ino: Ino, key: &str, data: Vec<u8>) -> (r: WhResult<()>)
        ensures
            final(self).next_ino_spec() == old(self).next_ino_spec(),
            !old(self)@.contains_key(ino) ==> r == Err::<(), WhError>(WhError::InodeNotFound)
                && final(self)@ == old(self)@,
            old(self)@.contains_key(ino) ==> r is Ok && final(self)@ == old(self)@.insert(
                ino,
                InodeView { xattrs: old(self)@[ino].xattrs.insert(key@, data@), ..old(self)@[ino] },
            ),
            old(self).wf() ==> final(self).wf(),
    {
        self.get_inode(ino)?;
        let ghost old_m = self@;
        let mut inode = self.take_out(ino);
        inode.xattrs.insert(key, data);
        self.put_back(ino, inode);
        proof {
            assert(old_m.remove(ino).insert(ino, self@[ino]) =~= old_m.insert(ino, self@[ino]));
            if old(self).wf() {
                self.lemma_same_shape(old_m, self.depth@, ino);
            }
        }
        Ok(())
    }

    /// Removes the extended attribute `key` of an inode, if it is there.
    pub fn remove_inode_xattr(&mut self, ino: Ino, key: &str) -> (r: WhResult<()>)
        ensures
            final(self).next_ino_spec() == old(self).next_ino_spec(),
            !old(self)@.contains_key(ino) ==> r == Err::<(), WhError>(WhError::InodeNotFound)
                && final(self)@ == old(self)@,
            old(self)@.contains_key(ino) ==> r is Ok && final(self)@ == old(self)@.insert(
                ino,
                InodeView { xattrs: old(self)@[ino].xattrs.remove(key@), ..old(self)@[ino] },
            ),
            old(self).wf() ==> final(self).wf(),
    {
        self.get_inode(ino)?;
        let ghost old_m = self@;
        let mut inode = self.take_out(ino);
        inode.xattrs.remove(key);
        self.put_back(ino, inode);
        proof {
            assert(old_m.remove(ino).insert(ino, self@[ino]) =~= old_m.insert(ino, self@[ino]));
            if old(self).wf() {
                self.lemma_same_shape(old_m, self.depth@, ino);
            }
        }
        Ok(())
    }
}

/// The inode `n` steps up from `x`, following parents.
pub open spec fn ancestor_at(m: TreeView, x: Ino, n: nat) -> Ino
    decreases n,
{
    if n == 0 {
        x
    } else {
        ancestor_at(m, m[x].parent, (n - 1) as nat)
    }
}

/// The ino held by the child of `parent` named `name`, if there is one.
pub open spec fn mv_item(m: TreeView, parent: Ino, name: Seq<char>) -> Option<Ino> {
    if m.contains_key(parent) && m[parent].entry is Directory {
        match find_named(m, entry_children(m[parent].entry), name) {
            Some(c) => Some(m[c].id),
            None => None,
        }
    } else {
        None
    }
}

/// The tree once `item` is taken out of `parent` and renamed `new_name` under `new_parent`,
/// before it is added to the children of `new_parent`.
pub open spec fn mv_detached(m: TreeView, parent: Ino, new_parent: Ino, item: Ino, new_name: Seq<char>) -> TreeView {
    let m1 = m.insert(parent, without_child(m[parent], item));
    m1.insert(item, InodeView { name: new_name, parent: new_parent, ..m1[item] })
}

/// The tree, and the outcome, of moving the child `name` of `parent` under
/// `new_parent` as `new_name`: see [ITree::mv_inode].
pub open spec fn mv_result(m: TreeView, parent: Ino, new_parent: Ino, name: Seq<char>, new_name: Seq<char>) -> (
    TreeView,
    WhResult<()>,
) {
    if !m.contains_key(parent) {
        (m, Err(WhError::InodeNotFound))
    } else if !(m[parent].entry is Directory) {
        (m, Err(WhError::InodeIsNotADirectory))
    } else {
        match mv_item(m, parent, name) {
            None => (m, Err(WhError::InodeNotFound)),
            Some(item) => {
                let m1 = m.insert(parent, without_child(m[parent], item));
                let m2 = mv_detached(m, parent, new_parent, item, new_name);
                if !m1.contains_key(item) {
                    (m1, Err(WhError::InodeNotFound))
                } else if !m2.contains_key(new_parent) {
                    (m2, Err(WhError::InodeNotFound))
                } else if !(m2[new_parent].entry is Directory) {
                    (m2, Err(WhError::InodeIsNotADirectory))
                } else {
                    (m2.insert(new_parent, with_child(m2[new_parent], item)), Ok(()))
                }
            },
        }
    }
}

/// The tree once the peer `host` is taken out of the hosts of every file.
pub open spec fn forget_host(m: TreeView, host: HostId) -> TreeView {
    Map::new(
        |k: Ino| m.contains_key(k),
        |k: Ino|
            if m[k].entry is File {
                with_entry(m[k], EntryView::File(hosts_without(entry_hosts(m[k].entry), seq![host])))
            } else {
                m[k]
            },
    )
}

/// `iv` is an inode of the tree that `host` alone holds.
pub open spec fn held_only_in(m: TreeView, iv: InodeView, host: HostId) -> bool {
    exists|k: Ino| #![trigger m[k]] m.contains_key(k) && m[k] == iv && iv.entry == EntryView::File(seq![host])
}

/// Removing an inode just added gives the tree back: once `inode`, which
/// lists no child, is added under a directory that does not list its ino, where
/// its ino is free, as [ITree::add_inode] does, removing it succeeds and gives
/// it back, as [ITree::remove_inode] does, and leaves the tree as it was.
pub proof fn lemma_add_then_remove(m: TreeView, inode: InodeView)
    requires
        !m.contains_key(inode.id),
        m.contains_key(inode.parent),
        m[inode.parent].entry is Directory,
        !entry_children(m[inode.parent].entry).contains(inode.id),
        entry_children(inode.entry).len() == 0,
    ensures
        ({
            let added = m.insert(inode.parent, with_child(m[inode.parent], inode.id)).insert(inode.id, inode);
            &&& added.contains_key(inode.id)
            &&& added[inode.id] == inode
            &&& entry_children(added[inode.id].entry).len() == 0
            &&& added.contains_key(added[inode.id].parent)
            &&& added[added[inode.id].parent].entry is Directory
            &&& added.insert(inode.parent, without_child(added[inode.parent], inode.id)).remove(inode.id) == m
        }),
{
    let p = inode.parent;
    let id = inode.id;
    let ch = entry_children(m[p].entry);
    assert(drop_ino(ch.push(id), id) == drop_ino(ch, id)) by {
        reveal(Seq::filter);
        assert(ch.push(id).drop_last() =~= ch);
    }
    lemma_drop_ino(ch, id);
    let added = m.insert(p, with_child(m[p], id)).insert(id, inode);
    assert(added[p] == with_child(m[p], id));
    assert(without_child(added[p], id) == m[p]);
    assert(added.insert(p, without_child(added[p], id)).remove(id) =~= m);
}

/// Once a peer is forgotten, no file lists it among its hosts, and the inodes
/// stay the same but for their hosts.
pub proof fn lemma_forgotten_host(m: TreeView, host: HostId, k: Ino)
    requires
        m.contains_key(k),
    ensures
        forget_host(m, host).dom() == m.dom(),
        !entry_hosts(forget_host(m, host)[k].entry).contains(host),
        forget_host(m, host)[k].entry is File <==> m[k].entry is File,
        forget_host(m, host)[k] == with_entry(m[k], forget_host(m, host)[k].entry),
{
    let f = forget_host(m, host);
    assert(f.dom() =~= m.dom());
    if m[k].entry is File {
        let s = entry_hosts(m[k].entry);
        let pred = |h: HostId| !seq![host].contains(h);
        broadcast use vstd::seq_lib::group_filter_ensures;
        assert(hosts_without(s, seq![host]) == s.filter(pred));
        assert(seq![host].contains(host)) by {
            assert(seq![host][0] == host);
        }
        if hosts_without(s, seq![host]).contains(host) {
            let i = choose|i: int| 0 <= i < hosts_without(s, seq![host]).len() && hosts_without(s, seq![host])[i] == host;
            assert(pred(s.filter(pred)[i]));
        }
    } else {
        assert(f[k] == m[k]);
    }
}

/// Forgetting a peer twice is forgetting it once.
pub proof fn lemma_forget_host_twice(m: TreeView, host: HostId)
    ensures
        forget_host(forget_host(m, host), host) == forget_host(m, host),
{
    let f = forget_host(m, host);
    let g = forget_host(f, host);
    assert forall|k: Ino| #[trigger] g.contains_key(k) implies g[k] == f[k] by {
        if f[k].entry is File {
            let s = entry_hosts(f[k].entry);
            lemma_forgotten_host(m, host, k);
            assert(hosts_without(s, seq![host]) =~= s) by {
                lemma_filter_keeps_all(s, host);
            }
            assert(g[k] =~~= f[k]);
        }
    }
    assert(g =~= f);
}

proof fn lemma_filter_keeps_all(s: Seq<HostId>, host: HostId)
    requires
        !s.contains(host),
    ensures
        hosts_without(s, seq![host]) == s,
    decreases s.len(),
{
    reveal(Seq::filter);
    if s.len() > 0 {
        assert(!s.drop_last().contains(host)) by {
            if s.drop_last().contains(host) {
                let i = choose|i: int| 0 <= i < s.drop_last().len() && s.drop_last()[i] == host;
                assert(s[i] == host);
            }
        }
        lemma_filter_keeps_all(s.drop_last(), host);
        assert(s.last() != host) by {
            assert(s[s.len() - 1] == s.last());
        }
        assert(!seq![host].contains(s.last())) by {
            if seq![host].contains(s.last()) {
                let i = choose|i: int| 0 <= i < 1 && seq![host][i] == s.last();
            }
        }
        assert(s.drop_last().push(s.last()) =~= s);
    }
}

impl ITree {
    /// The inos of the tree, each once.
    pub fn inos(&self) -> (r: Vec<Ino>)
        ensures
            r@.to_set() == self@.dom(),
            r@.no_duplicates(),
    {
        let mut v: Vec<Ino> = Vec::new();
        for k in it: self.entries.keys()
            invariant
                it.seq().unref().to_set() == self.entries@.dom(),
                it.seq().unref().no_duplicates(),
                v@ == it.seq().take(it.index() as int).unref(),
                it.index() == it.seq().len() ==> v@ == it.seq().unref(),
        {
            let ghost before = v@;
            v.push(*k);
            assert(it.seq().take(it.index() + 1).unref() =~= before.push(*k));
            assert(it.index() + 1 == it.seq().len() ==> it.seq().take(it.index() + 1) =~= it.seq());
        }
        proof {
            assert(self@.dom() =~= self.entries@.dom());
        }
        v
    }

    /// The files that `host` alone holds.
    pub fn files_hosted_only_by(&self, host: HostId) -> (r: Vec<Inode>)
        ensures
            forall|i: int| 0 <= i < r@.len() ==> held_only_in(self@, #[trigger] r@[i]@, host),
            forall|k: Ino|
                #[trigger] self@.contains_key(k) && self@[k].entry == EntryView::File(seq![host]) ==> exists|
                    i: int,
                | 0 <= i < r@.len() && r@[i]@ == self@[k],
    {
        let inos = self.inos();
        let mut r: Vec<Inode> = Vec::new();
        let mut i: usize = 0;
        while i < inos.len()
            invariant
                i <= inos.len(),
                inos@.to_set() == self@.dom(),
                forall|j: int| 0 <= j < r@.len() ==> held_only_in(self@, #[trigger] r@[j]@, host),
                forall|j: int|
                    0 <= j < i && #[trigger] self@[inos@[j]].entry == EntryView::File(seq![host]) ==> exists|
                        l: int,
                    | 0 <= l < r@.len() && r@[l]@ == self@[inos@[j]],
            decreases inos.len() - i,
        {
            let ino = inos[i];
            assert(inos@.to_set().contains(ino));
            let inode = self.entries.get(&ino).unwrap();
            assert(self@[ino] == inode@);
            let ghost old_r = r@;
            match &inode.entry {
                FsEntry::File(hosts) => {
                    if hosts.len() == 1 && hosts[0] == host {
                        assert(hosts@ =~= seq![host]);
                        r.push(inode.clone());
                        assert(r@[r@.len() - 1]@ == self@[ino]);
                        assert(held_only_in(self@, self@[ino], host));
                    } else {
                        assert(hosts@ != seq![host]);
                    }
                },
                _ => {},
            }
            proof {
                assert forall|j: int| 0 <= j < i + 1 && #[trigger] self@[inos@[j]].entry == EntryView::File(seq![host]) implies exists|
                    l: int,
                | 0 <= l < r@.len() && r@[l]@ == self@[inos@[j]] by {
                    if j < i {
                        let l = choose|l: int| 0 <= l < old_r.len() && old_r[l]@ == self@[inos@[j]];
                        assert(r@[l] == old_r[l]);
                    } else {
                        assert(r@[r@.len() - 1]@ == self@[inos@[j]]);
                    }
                }
            }
            i = i + 1;
        }
        proof {
            assert forall|k: Ino|
                #[trigger] self@.contains_key(k) && self@[k].entry == EntryView::File(seq![host]) implies exists|
                    i: int,
                | 0 <= i < r@.len() && r@[i]@ == self@[k] by {
                assert(inos@.to_set().contains(k));
                let j = choose|j: int| 0 <= j < inos@.len() && inos@[j] == k;
                assert(self@[inos@[j]].entry == EntryView::File(seq![host]));
            }
        }
        r
    }

    /// Takes the peer `host` out of the hosts of every file.
    pub fn remove_host_from_all(&mut self, host: HostId)
        ensures
            final(self)@ == forget_host(old(self)@, host),
            final(self).next_ino_spec() == old(self).next_ino_spec(),
            old(self).wf() ==> final(self).wf(),
    {
        let ghost m = self@;
        let inos = self.inos();
        let gone = vec![host];
        assert(gone@ =~= seq![host]);
        let mut i: usize = 0;
        while i < inos.len()
            invariant
                i <= inos.len(),
                inos@.to_set() == m.dom(),
                inos@.no_duplicates(),
                gone@ == seq![host],
                self@.dom() == m.dom(),
                self.next_ino_spec() == old(self).next_ino_spec(),
                old(self)@ == m,
                old(self).wf() ==> self.wf(),
                forall|j: int| 0 <= j < i ==> #[trigger] self@[inos@[j]] == forget_host(m, host)[inos@[j]],
                forall|k: Ino| m.contains_key(k) && !inos@.take(i as int).contains(k) ==> #[trigger] self@[k] == m[k],
            decreases inos.len() - i,
        {
            let ino = inos[i];
            assert(inos@.to_set().contains(ino));
            assert(m.contains_key(ino));
            assert(!inos@.take(i as int).contains(ino)) by {
                if inos@.take(i as int).contains(ino) {
                    let j = choose|j: int| 0 <= j < i && inos@.take(i as int)[j] == ino;
                    assert(inos@[j] == inos@[i as int]);
                }
            }
            let ghost before = self@;
            let _ = self.remove_inode_hosts(ino, gone.as_slice());
            proof {
                assert forall|j: int| 0 <= j < i + 1 implies #[trigger] self@[inos@[j]] == forget_host(m, host)[inos@[j]] by {
                    if j < i {
                        assert(inos@[j] != ino);
                    }
                }
                assert forall|k: Ino| m.contains_key(k) && !inos@.take(i + 1).contains(k) implies #[trigger] self@[k] == m[k] by {
                    assert(inos@.take(i + 1)[i as int] == ino);
                    if inos@.take(i as int).contains(k) {
                        let j = choose|j: int| 0 <= j < i && inos@.take(i as int)[j] == k;
                        assert(inos@.take(i + 1)[j] == k);
                    }
                }
                assert(self@.dom() =~= m.dom());
            }
            i = i + 1;
        }
        proof {
            assert forall|k: Ino| m.contains_key(k) implies #[trigger] self@[k] == forget_host(m, host)[k] by {
                assert(inos@.to_set().contains(k));
                let j = choose|j: int| 0 <= j < inos@.len() && inos@[j] == k;
                assert(self@[inos@[j]] == forget_host(m, host)[inos@[j]]);
            }
            assert(self@ =~= forget_host(m, host));
        }
    }
}

impl ITree {
    /// `a` is `x` or one of the inodes above it.
    pub closed spec fn within(&self, x: Ino, a: Ino) -> bool {
        &&& self@.contains_key(x)
        &&& self.depth@[x] >= self.depth@[a]
        &&& ancestor_at(self@, x, (self.depth@[x] - self.depth@[a]) as nat) == a
    }

    proof fn lemma_within_step(&self, cur: Ino, a: Ino)
        requires
            self.wf(),
            self@.contains_key(cur),
            cur != a,
            cur != ROOT,
        ensures
            self.within(cur, a) == self.within(self@[cur].parent, a),
    {
        let p = self@[cur].parent;
        assert(self@.contains_key(p));
        assert(self.depth@[cur] == self.depth@[p] + 1);
        if self.depth@[cur] > self.depth@[a] {
            let k = (self.depth@[cur] - self.depth@[a]) as nat;
            assert(ancestor_at(self@, cur, k) == ancestor_at(self@, p, (k - 1) as nat));
        }
    }

    /// Every inode of a well formed tree lies within itself and within the root.
    pub proof fn lemma_within_basics(&self, x: Ino)
        requires
            self.wf(),
            self@.contains_key(x),
        ensures
            self.within(x, x),
            self.within(x, ROOT),
        decreases self.depth_of(x),
    {
        if x != ROOT {
            let p = self@[x].parent;
            assert(self@.contains_key(p));
            self.lemma_within_basics(p);
            self.lemma_within_step(x, ROOT);
        }
    }

    /// Whether `a` is `x` or one of the inodes above it.
    pub fn is_within(&self, x: Ino, a: Ino) -> (r: bool)
        requires
            self.wf(),
        ensures
            r == self.within(x, a),
    {
        if !self.entries.contains_key(&x) {
            return false;
        }
        let mut cur = x;
        while cur != a && cur != ROOT
            invariant
                self.wf(),
                self@.contains_key(cur),
                self.within(x, a) == self.within(cur, a),
            decreases self.depth_of(cur),
        {
            proof {
                self.lemma_within_step(cur, a);
                assert(self@.contains_key(self@[cur].parent));
                assert(self.depth_of(self@[cur].parent) < self.depth_of(cur));
            }
            cur = self.entries.get(&cur).unwrap().parent;
        }
        cur == a
    }

    /// Moves the child named `name` of `parent` under `new_parent`, as `new_name`.
    ///
    /// `InodeNotFound` or `InodeIsNotADirectory` as the lookup of `name` in
    /// `parent`, then as the insertion in `new_parent` fails; in the second case
    /// the item has already left `parent` and been renamed.
    pub fn mv_inode(&mut self, parent: Ino, new_parent: Ino, name: &str, new_name: InodeName) -> (r:
        WhResult<()>)
        ensures
            final(self).next_ino_spec() == old(self).next_ino_spec(),
            !old(self)@.contains_key(parent) ==> r == Err::<(), WhError>(WhError::InodeNotFound)
                && final(self)@ == old(self)@,
            old(self)@.contains_key(parent) && !(old(self)@[parent].entry is Directory) ==> r == Err::<
                (),
                WhError,
            >(WhError::InodeIsNotADirectory) && final(self)@ == old(self)@,
            old(self)@.contains_key(parent) && old(self)@[parent].entry is Directory && mv_item(
                old(self)@,
                parent,
                name@,
            ) is None ==> r == Err::<(), WhError>(WhError::InodeNotFound) && final(self)@ == old(self)@,
            mv_item(old(self)@, parent, name@) matches Some(item) ==> {
                let m1 = old(self)@.insert(parent, without_child(old(self)@[parent], item));
                let m2 = mv_detached(old(self)@, parent, new_parent, item, new_name@);
                &&& !m1.contains_key(item) ==> r == Err::<(), WhError>(WhError::InodeNotFound)
                    && final(self)@ == m1
                &&& m1.contains_key(item) && !m2.contains_key(new_parent) ==> r == Err::<(), WhError>(WhError::InodeNotFound)
                    && final(self)@ == m2
                &&& m1.contains_key(item) && m2.contains_key(new_parent) && !(m2[new_parent].entry is Directory) ==> r == Err::<
                    (),
                    WhError,
                >(WhError::InodeIsNotADirectory) && final(self)@ == m2
                &&& m1.contains_key(item) && m2.contains_key(new_parent) && m2[new_parent].entry is Directory ==> r is Ok
                    && final(self)@ == m2.insert(new_parent, with_child(m2[new_parent], item))
                &&& old(self).wf() && r is Ok && !old(self).within(new_parent, item) ==> final(self).wf()
            },
    {
        let ghost old_m = self@;
        let ghost old_d = self.depth@;
        let parent_inode = match self.entries.get(&parent) {
            Some(p) => p,
            None => {
                return Err(WhError::InodeNotFound);
            },
        };
        proof {
            assert(self@[parent] == parent_inode@);
            lemma_find_named_found(old_m, entry_children(old_m[parent].entry), name@);
        }
        let item_id = self.get_inode_child_by_name(parent_inode, name)?.id;
        let ghost item = item_id;
        proof {
            assert(mv_item(old_m, parent, name@) == Some(item));
        }
        self.drop_child(parent, item_id)?;
        let ghost m1 = self@;
        if !self.entries.contains_key(&item_id) {
            return Err(WhError::InodeNotFound);
        }
        let mut moved = self.take_out(item_id);
        moved.name = new_name;
        moved.parent = new_parent;
        self.put_back(item_id, moved);
        proof {
            assert(m1.remove(item).insert(item, self@[item]) =~= mv_detached(old_m, parent, new_parent, item, new_name@));
        }
        let ghost m2 = self@;
        let r = self.push_child(new_parent, item_id);
        proof {
            self.depth = Ghost(old(self).mv_depth(item, new_parent));
            if old(self).wf() && r is Ok && !old(self).within(new_parent, item) {
                lemma_find_named_found(old_m, entry_children(old_m[parent].entry), name@);
                old(self).lemma_mv_keeps_wf(*self, parent, new_parent, item, new_name@);
            }
        }
        r
    }

    /// The depths once the subtree of `item` hangs under `np`.
    closed spec fn mv_depth(&self, item: Ino, np: Ino) -> Map<Ino, nat> {
        Map::new(
            |y: Ino| self@.contains_key(y),
            |y: Ino|
                if self.within(y, item) {
                    (self.depth@[y] - self.depth@[item] + self.depth@[np] + 1) as nat
                } else {
                    self.depth@[y]
                },
        )
    }

    proof fn lemma_mv_keeps_wf(&self, post: ITree, parent: Ino, np: Ino, item: Ino, new_name: Seq<char>)
        requires
            self.wf(),
            self@.contains_key(parent),
            self@[parent].entry is Directory,
            entry_children(self@[parent].entry).contains(item),
            !self.within(np, item),
            mv_detached(self@, parent, np, item, new_name).contains_key(np),
            mv_detached(self@, parent, np, item, new_name)[np].entry is Directory,
            post@ == mv_detached(self@, parent, np, item, new_name).insert(
                np,
                with_child(mv_detached(self@, parent, np, item, new_name)[np], item),
            ),
            post.depth@ == self.mv_depth(item, np),
        ensures
            post.wf(),
    {
        let m = self@;
        let d = self.depth@;
        let d2 = self.mv_depth(item, np);
        let m2 = mv_detached(m, parent, np, item, new_name);
        let m3 = post@;
        assert(m.contains_key(item));
        assert(m[item].parent == parent);
        assert(item != ROOT);
        assert(d[item] == d[parent] + 1);
        assert(item != parent);
        assert(m.contains_key(np));
        self.lemma_within_basics(item);
        assert(np != item);
        assert(!self.within(ROOT, item));
        let ch_p = entry_children(m[parent].entry);
        lemma_drop_ino(ch_p, item);
        // the parent of each inode after the move
        assert forall|y: Ino| #[trigger] m3.contains_key(y) implies m.contains_key(y) && m3[y].parent == (if y == item { np } else { m[y].parent }) && m3[y].id == m[y].id by {
        }
        // the children of each inode after the move
        assert forall|y: Ino| #[trigger] m3.contains_key(y) implies entry_children(m3[y].entry) == (
            if y == np {
                (if y == parent { drop_ino(ch_p, item) } else { entry_children(m[y].entry) }).push(item)
            } else if y == parent {
                drop_ino(ch_p, item)
            } else {
                entry_children(m[y].entry)
            }) && (m3[y].entry is Directory <==> m[y].entry is Directory) by {
        }
        // depths
        assert forall|y: Ino| #[trigger] m3.contains_key(y) && y != ROOT implies d2[y] == d2[m3[y].parent] + 1 by {
            let p = m[y].parent;
            assert(m.contains_key(p));
            if y == item {
            } else {
                self.lemma_within_step(y, item);
            }
        }
        assert(d2[ROOT] == 0);
        assert forall|y: Ino| #[trigger] m3.contains_key(y) implies d2.contains_key(y) by {}
        // parents name their children
        assert forall|y: Ino| #[trigger] m3.contains_key(y) && y != ROOT implies {
            &&& m3.contains_key(m3[y].parent)
            &&& m3[m3[y].parent].entry is Directory
            &&& entry_children(m3[m3[y].parent].entry).contains(y)
        } by {
            if y == item {
                assert(entry_children(m3[np].entry).last() == item);
            } else {
                let p = m[y].parent;
                assert(m.contains_key(p));
                assert(entry_children(m[p].entry).contains(y));
                if p == parent {
                    assert(drop_ino(ch_p, item).contains(y));
                }
                if p == np {
                    let c = if p == parent { drop_ino(ch_p, item) } else { entry_children(m[p].entry) };
                    assert(c.contains(y));
                    let i = choose|i: int| 0 <= i < c.len() && c[i] == y;
                    assert(c.push(item)[i] == y);
                }
            }
        }
        // no child twice
        assert forall|y: Ino| #[trigger] m3.contains_key(y) implies entry_children(m3[y].entry).no_duplicates() by {
            assert(entry_children(m[y].entry).no_duplicates());
            if y == np {
                let c = if y == parent { drop_ino(ch_p, item) } else { entry_children(m[y].entry) };
                assert(c.no_duplicates());
                assert(!c.contains(item)) by {
                    if y != parent && c.contains(item) {
                        assert(m[item].parent == y);
                    }
                }
                assert forall|a: int, b: int| 0 <= a < b < c.push(item).len() implies c.push(item)[a] != c.push(item)[b] by {
                    if b == c.len() {
                        assert(c[a] != item);
                    }
                }
            }
        }
        // children name their parent
        assert forall|x: Ino, c: Ino| #[trigger] m3.contains_key(x) && #[trigger] entry_children(m3[x].entry).contains(c) implies {
            &&& m3.contains_key(c)
            &&& c != ROOT
            &&& m3[c].parent == x
        } by {
            if x == np && c == item {
            } else {
                let base = if x == parent { drop_ino(ch_p, item) } else { entry_children(m[x].entry) };
                if x == np {
                    let i = choose|i: int| 0 <= i < base.push(item).len() && base.push(item)[i] == c;
                    assert(base[i] == c);
                }
                assert(base.contains(c));
                assert(entry_children(m[x].entry).contains(c));
                assert(m[c].parent == x);
                assert(c != item);
            }
        }
    }
}

/// What `clean_local` leaves of a tree: no local-only inode, and none listed
/// among the root's children.
pub open spec fn cleaned(m: TreeView) -> TreeView {
    let m1 = m.remove(LOCAL_CONFIG_INO);
    if m1.contains_key(ROOT) && m1[ROOT].entry is Directory {
        m1.insert(ROOT, without_child(m1[ROOT], LOCAL_CONFIG_INO))
    } else {
        m1
    }
}

/// Among the children of each directory, names are not empty and no two are the same.
pub open spec fn names_unique(m: TreeView) -> bool {
    &&& forall|k: Ino| #[trigger] m.contains_key(k) && k != ROOT ==> m[k].name.len() > 0
    &&& forall|p: Ino, a: Ino, b: Ino|
        #[trigger] m.contains_key(p) && entry_children(m[p].entry).contains(a) && entry_children(
            m[p].entry,
        ).contains(b) && a != b ==> #[trigger] m[a].name != #[trigger] m[b].name
}

/// Following `a` then `b` from `from` is following `a + b`.
pub proof fn lemma_resolve_append(m: TreeView, from: Ino, a: Seq<Seq<char>>, b: Seq<Seq<char>>)
    ensures
        resolve(m, from, a + b) == match resolve(m, from, a) {
            Ok(x) => resolve(m, x, b),
            Err(e) => Err(e),
        },
    decreases a.len(),
{
    if a.len() > 0 {
        assert((a + b).drop_first() =~= a.drop_first() + b);
        assert((a + b)[0] == a[0]);
        match lookup(m, from, a[0]) {
            Ok(c) => lemma_resolve_append(m, c, a.drop_first(), b),
            Err(_) => {},
        }
    } else {
        assert(a + b =~= b);
    }
}

proof fn lemma_find_named_unique(m: TreeView, children: Seq<Ino>, k: Ino, name: Seq<char>)
    requires
        children.contains(k),
        m.contains_key(k),
        m[k].name == name,
        forall|c: Ino| children.contains(c) && c != k && m.contains_key(c) ==> m[c].name != name,
    ensures
        find_named(m, children, name) == Some(k),
    decreases children.len(),
{
    if children[0] != k {
        let t = children.drop_first();
        let i = choose|i: int| 0 <= i < children.len() && children[i] == k;
        assert(t[i - 1] == k);
        assert forall|c: Ino| t.contains(c) && c != k && m.contains_key(c) implies m[c].name != name by {
            let j = choose|j: int| 0 <= j < t.len() && t[j] == c;
            assert(children[j + 1] == c);
            assert(children.contains(c));
        }
        assert(children.contains(children[0]));
        lemma_find_named_unique(m, t, k, name);
    }
}

impl Clone for ITree {
    /// A copy of the tree, inode by inode.
    fn clone(&self) -> (r: ITree)
        ensures
            r@ == self@,
            r.next_ino_spec() == self.next_ino_spec(),
            r.wf() == self.wf(),
    {
        let inos = self.inos();
        let mut entries: HashMap<Ino, Inode> = HashMap::new();
        let mut i: usize = 0;
        proof {
            assert(self@.dom() =~= self.entries@.dom());
            assert(inos@.take(0).to_set() =~= Set::<Ino>::empty());
        }
        while i < inos.len()
            invariant
                i <= inos@.len(),
                inos@.to_set() == self.entries@.dom(),
                entries@.dom() == inos@.take(i as int).to_set(),
                forall|k: Ino| #[trigger] entries@.contains_key(k) ==> entries@[k]@ == self.entries@[k]@,
            decreases inos@.len() - i,
        {
            let k = inos[i];
            assert(inos@.to_set().contains(k));
            let inode = match self.entries.get(&k) {
                Some(inode) => inode,
                None => {
                    assert(false);
                    return ITree::new();
                },
            };
            entries.insert(k, inode.clone());
            proof {
                assert(inos@.take(i + 1) =~= inos@.take(i as int).push(k));
                inos@.take(i as int).lemma_push_to_set_commute(k);
                assert(entries@.dom() =~= inos@.take(i + 1).to_set());
            }
            i = i + 1;
        }
        proof {
            assert(inos@.take(inos@.len() as int) =~= inos@);
        }
        let r = ITree { entries, next_ino: self.next_ino, depth: Ghost(self.depth@) };
        assert(r@ =~= self@);
        r
    }
}

impl ITree {
    /// Removes the local-only inode from the tree and from the root's
    /// children, to make a copy of the tree fit to share with other peers.
    pub fn clean_local(self) -> (r: ITree)
        ensures
            r@ == cleaned(self@),
            r.next_ino_spec() == self.next_ino_spec(),
            self.wf() && (self@.contains_key(LOCAL_CONFIG_INO) ==> self@[LOCAL_CONFIG_INO].parent == ROOT
                && entry_children(self@[LOCAL_CONFIG_INO].entry).len() == 0) ==> r.wf(),
    {
        let mut tree = self;
        let ghost old_m = tree@;
        let ghost old_e = tree.entries@;
        tree.entries.remove(&LOCAL_CONFIG_INO);
        proof {
            lemma_inodes_view_remove(old_e, LOCAL_CONFIG_INO);
        }
        let ghost m1 = tree@;
        if tree.entries.contains_key(&ROOT) {
            let root = tree.take_out(ROOT);
            let Inode { parent, id, name, entry, meta, xattrs } = root;
            let new_entry = match entry {
                FsEntry::Directory(children) => FsEntry::Directory(children_without(&children, LOCAL_CONFIG_INO)),
                other => other,
            };
            tree.put_back(ROOT, Inode { parent, id, name, entry: new_entry, meta, xattrs });
            proof {
                if m1[ROOT].entry is Directory {
                    assert(m1.remove(ROOT).insert(ROOT, tree@[ROOT]) =~= m1.insert(ROOT, without_child(m1[ROOT], LOCAL_CONFIG_INO)));
                } else {
                    assert(m1.remove(ROOT).insert(ROOT, tree@[ROOT]) =~= m1);
                }
            }
        }
        proof {
            if self.wf() && (old_m.contains_key(LOCAL_CONFIG_INO) ==> old_m[LOCAL_CONFIG_INO].parent == ROOT
                && entry_children(old_m[LOCAL_CONFIG_INO].entry).len() == 0) {
                if old_m.contains_key(LOCAL_CONFIG_INO) {
                    assert(tree@ =~= old_m.insert(ROOT, without_child(old_m[ROOT], LOCAL_CONFIG_INO)).remove(LOCAL_CONFIG_INO));
                    tree.lemma_remove_keeps_wf(old_m, self.depth@, LOCAL_CONFIG_INO);
                } else {
                    lemma_drop_ino(entry_children(old_m[ROOT].entry), LOCAL_CONFIG_INO);
                    assert(old_m.remove(LOCAL_CONFIG_INO) =~= old_m);
                    assert(tree@ =~= old_m.insert(ROOT, old_m[ROOT]));
                    assert(tree@ =~= old_m);
                }
            }
        }
        tree
    }

    /// The path of an inode leads back to it, in a tree whose directories never
    /// hold two children of the same name.
    pub proof fn lemma_path_leads_back(&self, k: Ino)
        requires
            self.wf(),
            names_unique(self@),
            self@.contains_key(k),
        ensures
            self.path_of(k) is Some,
            resolve(self@, ROOT, self.path_of(k).unwrap()) == Ok::<Ino, WhError>(k),
        decreases self.depth_of(k),
    {
        self.lemma_path_of(k);
        if k != ROOT {
            let m = self@;
            let p = m[k].parent;
            assert(m.contains_key(p));
            self.lemma_path_leads_back(p);
            let pp = self.path_of(p).unwrap();
            let n = m[k].name;
            assert(n.len() > 0);
            assert(crate::pods::whpath::name_as_path(n) == seq![n]);
            lemma_resolve_append(m, ROOT, pp, seq![n]);
            assert forall|c: Ino| entry_children(m[p].entry).contains(c) && c != k && m.contains_key(c) implies m[c].name != n by {
                assert(entry_children(m[p].entry).contains(k));
            }
            lemma_find_named_unique(m, entry_children(m[p].entry), k, n);
            assert(seq![n].drop_first() =~= Seq::<Seq<char>>::empty());
            assert(m[p].entry is Directory);
            assert(lookup(m, p, n) == Ok::<Ino, WhError>(k));
            assert(resolve(m, k, Seq::<Seq<char>>::empty()) == Ok::<Ino, WhError>(k));
            assert(resolve(m, p, seq![n]) == Ok::<Ino, WhError>(k));
            assert(self.path_of(k).unwrap() == pp + seq![n]);
        } else {
            assert(resolve(self@, ROOT, Seq::<Seq<char>>::empty()) == Ok::<Ino, WhError>(ROOT));
        }
    }
}

/// The ino reserved for a protected name in a given directory: the global
/// and local configurations at the root.
pub open spec fn special_ino(name: Seq<char>, parent: u64) -> Option<u64> {
    if parent == 1 && name == GLOBAL_CONFIG_FNAME@ {
        Some(GLOBAL_CONFIG_INO)
    } else if parent == 1 && name == LOCAL_CONFIG_FNAME@ {
        Some(LOCAL_CONFIG_INO)
    } else {
        None
    }
}

} // verus!
