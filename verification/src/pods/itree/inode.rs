use vstd::prelude::*;

use crate::pods::filesystem::fs_interface::SimpleFileType;
use crate::pods::itree::fsentry::{entry_kind, EntryView, FsEntry};
use crate::pods::whpath::{str_eq, InodeName};
use crate::text::views;

verus! {

broadcast use crate::text::group_views;

/// Ino is short for an Inode's id number, the conventional name on unix systems.
pub type Ino = u64;

/// The root's ino is always 1. Other inos are assigned dynamically.
pub const ROOT: Ino = 1;

/// Size of a block, in bytes.
pub const BLOCK_SIZE: u64 = 512;

/// Permissions given to entries on systems without unix modes.
pub const WINDOWS_DEFAULT_PERMS_MODE: u16 = 0o666;

/// A point in time, as its distance to the unix epoch.
#[derive(Debug, Clone, Copy, PartialEq, Eq, Structural)]
pub struct WhTime {
    /// The point is the epoch or later.
    pub since_epoch: bool,
    /// Whole seconds between the point and the epoch.
    pub secs: u64,
    /// Nanoseconds beyond the whole seconds.
    pub nanos: u32,
}

impl WhTime {
    /// The unix epoch.
    pub fn epoch() -> (r: WhTime)
        ensures
            r.since_epoch && r.secs == 0 && r.nanos == 0,
    {
        WhTime { since_epoch: true, secs: 0, nanos: 0 }
    }
}

/// Reads the system clock (`std::time::SystemTime::now`) and gives the distance
/// of the time read to the unix epoch.
///
/// The time read depends on the clock: only that the nanoseconds stay below a
/// second, as `Duration::subsec_nanos` documents, is stated of it.
#[verifier::external_body]
pub fn now() -> (r: WhTime)
    ensures
        r.nanos < 1_000_000_000,
{
    match std::time::SystemTime::now().duration_since(std::time::UNIX_EPOCH) {
        Ok(d) => WhTime { since_epoch: true, secs: d.as_secs(), nanos: d.subsec_nanos() },
        Err(e) => WhTime {
            since_epoch: false,
            secs: e.duration().as_secs(),
            nanos: e.duration().subsec_nanos(),
        },
    }
}

/// Attributes of an inode, as a fuse file system reports them.
#[derive(Debug, Clone, Copy, PartialEq, Eq, Structural)]
pub struct Metadata {
    /// Inode number
    pub ino: u64,
    /// Size in bytes
    pub size: u64,
    /// Size in blocks
    pub blocks: u64,
    /// Time of last access
    pub atime: WhTime,
    /// Time of last modification
    pub mtime: WhTime,
    /// Time of last change
    pub ctime: WhTime,
    /// Time of creation (macOS only)
    pub crtime: WhTime,
    /// Kind of file (directory, file, symlink)
    pub kind: SimpleFileType,
    /// Permissions
    pub perm: u16,
    /// Number of hard links
    pub nlink: u32,
    /// User id
    pub uid: u32,
    /// Group id
    pub gid: u32,
    /// Rdev
    pub rdev: u32,
    /// Block size
    pub blksize: u32,
    /// Flags (macOS only, see chflags(2))
    pub flags: u32,
}

// SECTION extended attributes

/// The value that a list of unique keys stands for.
pub open spec fn pairs_view(s: Seq<(Seq<char>, Seq<u8>)>) -> Map<Seq<char>, Seq<u8>>
    decreases s.len(),
{
    if s.len() == 0 {
        Map::empty()
    } else {
        pairs_view(s.drop_last()).insert(s.last().0, s.last().1)
    }
}

/// The texts and bytes of a list of attributes.
pub open spec fn pair_views(v: Seq<(String, Vec<u8>)>) -> Seq<(Seq<char>, Seq<u8>)> {
    v.map_values(|p: (String, Vec<u8>)| (p.0@, p.1@))
}

proof fn lemma_pair_views_push(v: Seq<(String, Vec<u8>)>, x: (String, Vec<u8>))
    ensures
        pair_views(v.push(x)) == pair_views(v).push((x.0@, x.1@)),
{
    assert(pair_views(v.push(x)) =~= pair_views(v).push((x.0@, x.1@)));
}

pub open spec fn pairs_keys(s: Seq<(Seq<char>, Seq<u8>)>) -> Seq<Seq<char>> {
    s.map_values(|p: (Seq<char>, Seq<u8>)| p.0)
}

/// Extended attributes of an inode: a map from keys to bytes.
#[derive(Debug)]
pub struct XAttrs {
    pairs: Vec<(String, Vec<u8>)>,
}

impl XAttrs {
    pub closed spec fn pairs_seq(&self) -> Seq<(Seq<char>, Seq<u8>)> {
        pair_views(self.pairs@)
    }

    #[verifier::type_invariant]
    closed spec fn keys_unique(&self) -> bool {
        pairs_keys(self.pairs_seq()).no_duplicates()
    }
}

impl View for XAttrs {
    type V = Map<Seq<char>, Seq<u8>>;

    closed spec fn view(&self) -> Map<Seq<char>, Seq<u8>> {
        pairs_view(self.pairs_seq())
    }
}

proof fn lemma_pairs_view_contains(s: Seq<(Seq<char>, Seq<u8>)>, k: Seq<char>)
    requires
        pairs_keys(s).no_duplicates(),
    ensures
        pairs_view(s).contains_key(k) <==> pairs_keys(s).contains(k),
        forall|i: int| 0 <= i < s.len() && s[i].0 == k ==> pairs_view(s)[k] == #[trigger] s[i].1,
    decreases s.len(),
{
    broadcast use vstd::seq_lib::group_seq_properties;
    if s.len() > 0 {
        let t = s.drop_last();
        assert(pairs_keys(t) =~= pairs_keys(s).drop_last());
        assert(pairs_keys(s) =~= pairs_keys(t).push(s.last().0));
        lemma_pairs_view_contains(t, k);
        assert(pairs_keys(s).last() == s.last().0);
        if pairs_keys(t).contains(k) {
            let j = choose|j: int| 0 <= j < pairs_keys(t).len() && pairs_keys(t)[j] == k;
            assert(pairs_keys(s)[j] == k);
        }
        assert forall|i: int| 0 <= i < s.len() && s[i].0 == k implies pairs_view(s)[k] == #[trigger] s[i].1 by {
            if i < s.len() - 1 {
                assert(pairs_keys(s)[i] == pairs_keys(s)[s.len() - 1] ==> i == s.len() - 1);
                assert(t[i] == s[i]);
            }
        }
    }
}

impl XAttrs {
    /// No attribute.
    pub fn new() -> (r: XAttrs)
        ensures
            r@ == Map::<Seq<char>, Seq<u8>>::empty(),
    {
        let r = XAttrs { pairs: Vec::new() };
        assert(r.pairs_seq() =~= Seq::<(Seq<char>, Seq<u8>)>::empty());
        assert(pairs_keys(r.pairs_seq()) =~= Seq::<Seq<char>>::empty());
        r
    }

    fn position(&self, key: &str) -> (r: Option<usize>)
        ensures
            match r {
                Some(i) => i < self.pairs_seq().len() && self.pairs_seq()[i as int].0 == key@,
                None => !pairs_keys(self.pairs_seq()).contains(key@),
            },
    {
        let mut i: usize = 0;
        while i < self.pairs.len()
            invariant
                i <= self.pairs.len(),
                forall|j: int| 0 <= j < i ==> self.pairs_seq()[j].0 != key@,
            decreases self.pairs.len() - i,
        {
            if str_eq(self.pairs[i].0.as_str(), key) {
                return Some(i);
            }
            i = i + 1;
        }
        proof {
            if pairs_keys(self.pairs_seq()).contains(key@) {
                let j = choose|j: int| 0 <= j < pairs_keys(self.pairs_seq()).len() && pairs_keys(self.pairs_seq())[j] == key@;
                assert(self.pairs_seq()[j].0 == key@);
            }
        }
        None
    }

    /// The bytes stored under `key`.
    pub fn get(&self, key: &str) -> (r: Option<&Vec<u8>>)
        ensures
            self@.contains_key(key@) ==> r is Some && r->Some_0@ == self@[key@],
            !self@.contains_key(key@) ==> r is None,
    {
        proof {
            use_type_invariant(self);
            lemma_pairs_view_contains(self.pairs_seq(), key@);
        }
        match self.position(key) {
            Some(i) => {
                proof {
                    assert(self.pairs_seq()[i as int].1 == self.pairs@[i as int].1@);
                    assert(pairs_keys(self.pairs_seq())[i as int] == key@);
                }
                Some(&self.pairs[i].1)
            },
            None => None,
        }
    }

    pub fn contains_key(&self, key: &str) -> (r: bool)
        ensures
            r == self@.contains_key(key@),
    {
        proof {
            use_type_invariant(self);
            lemma_pairs_view_contains(self.pairs_seq(), key@);
        }
        match self.position(key) {
            Some(i) => {
                assert(pairs_keys(self.pairs_seq())[i as int] == key@);
                true
            },
            None => false,
        }
    }
}


proof fn lemma_pairs_update(s: Seq<(Seq<char>, Seq<u8>)>, i: int, v: Seq<u8>)
    requires
        pairs_keys(s).no_duplicates(),
        0 <= i < s.len(),
    ensures
        pairs_keys(s.update(i, (s[i].0, v))) == pairs_keys(s),
        pairs_view(s.update(i, (s[i].0, v))) == pairs_view(s).insert(s[i].0, v),
{
    let k = s[i].0;
    let t = s.update(i, (k, v));
    assert(pairs_keys(t) =~= pairs_keys(s));
    assert forall|x: Seq<char>| pairs_view(t).contains_key(x) <==> pairs_view(s).insert(k, v).contains_key(x) by {
        lemma_pairs_view_contains(s, x);
        lemma_pairs_view_contains(t, x);
        assert(pairs_keys(s)[i] == k);
    }
    assert forall|x: Seq<char>| pairs_view(t).contains_key(x) implies pairs_view(t)[x] == pairs_view(s).insert(k, v)[x] by {
        lemma_pairs_view_contains(s, x);
        lemma_pairs_view_contains(t, x);
        let j = choose|j: int| 0 <= j < pairs_keys(t).len() && pairs_keys(t)[j] == x;
        assert(t[j].0 == x);
        assert(pairs_view(t)[x] == t[j].1);
        if x != k {
            assert(t[j] == s[j]);
            assert(pairs_view(s)[x] == s[j].1);
        } else {
            assert(pairs_keys(s)[j] == pairs_keys(s)[i]);
            assert(t[i].1 == v);
        }
    }
    assert(pairs_view(t) =~= pairs_view(s).insert(k, v));
}

proof fn lemma_pairs_remove(s: Seq<(Seq<char>, Seq<u8>)>, i: int)
    requires
        pairs_keys(s).no_duplicates(),
        0 <= i < s.len(),
    ensures
        pairs_keys(s.remove(i)).no_duplicates(),
        pairs_view(s.remove(i)) == pairs_view(s).remove(s[i].0),
{
    let k = s[i].0;
    let t = s.remove(i);
    let ks = pairs_keys(s);
    assert(pairs_keys(t) =~= ks.remove(i));
    assert forall|a: int, b: int| 0 <= a < b < pairs_keys(t).len() implies pairs_keys(t)[a] != pairs_keys(t)[b] by {
        let a2 = if a < i { a } else { a + 1 };
        let b2 = if b < i { b } else { b + 1 };
        assert(pairs_keys(t)[a] == ks[a2]);
        assert(pairs_keys(t)[b] == ks[b2]);
    }
    assert forall|x: Seq<char>| pairs_view(t).contains_key(x) <==> pairs_view(s).remove(k).contains_key(x) by {
        lemma_pairs_view_contains(s, x);
        lemma_pairs_view_contains(t, x);
        if pairs_keys(t).contains(x) {
            let j = choose|j: int| 0 <= j < pairs_keys(t).len() && pairs_keys(t)[j] == x;
            let j2 = if j < i { j } else { j + 1 };
            assert(ks[j2] == x);
            assert(j2 != i);
            assert(ks[j2] != ks[i]);
            assert(x != k);
        }
        if pairs_keys(s).contains(x) && x != k {
            let j = choose|j: int| 0 <= j < ks.len() && ks[j] == x;
            assert(j != i);
            if j < i {
                assert(pairs_keys(t)[j] == x);
            } else {
                assert(pairs_keys(t)[j - 1] == x);
            }
        }
    }
    assert forall|x: Seq<char>| pairs_view(t).contains_key(x) implies pairs_view(t)[x] == pairs_view(s)[x] by {
        lemma_pairs_view_contains(s, x);
        lemma_pairs_view_contains(t, x);
        let j = choose|j: int| 0 <= j < pairs_keys(t).len() && pairs_keys(t)[j] == x;
        let j2 = if j < i { j } else { j + 1 };
        assert(t[j] == s[j2]);
        assert(pairs_view(t)[x] == t[j].1);
        assert(pairs_view(s)[x] == s[j2].1);
    }
    assert(pairs_view(t) =~= pairs_view(s).remove(k));
}

impl XAttrs {
    /// Stores `data` under `key`, replacing what was there.
    pub fn insert(&mut self, key: &str, data: Vec<u8>)
        ensures
            final(self)@ == old(self)@.insert(key@, data@),
    {
        proof {
            use_type_invariant(&*self);
        }
        let ghost old_seq = self.pairs_seq();
        match self.position(key) {
            Some(i) => {
                let ghost dv = data@;
                let mut pairs = Vec::new();
                std::mem::swap(&mut pairs, &mut self.pairs);
                pairs.set(i, (key.to_owned(), data));
                proof {
                    lemma_pairs_update(old_seq, i as int, dv);
                    assert(pair_views(pairs@) =~= old_seq.update(i as int, (old_seq[i as int].0, dv)));
                }
                self.pairs = pairs;
                proof {
                    lemma_pairs_update(old_seq, i as int, dv);
                    assert(self.pairs_seq() =~= old_seq.update(i as int, (old_seq[i as int].0, dv)));
                }
            },
            None => {
                let ghost dv = data@;
                let mut pairs = Vec::new();
                std::mem::swap(&mut pairs, &mut self.pairs);
                pairs.push((key.to_owned(), data));
                proof {
                    assert(pair_views(pairs@) =~= old_seq.push((key@, dv)));
                    assert(old_seq.push((key@, dv)).drop_last() =~= old_seq);
                    assert(pairs_keys(old_seq.push((key@, dv))) =~= pairs_keys(old_seq).push(key@));
                    broadcast use vstd::seq_lib::group_seq_properties;
                }
                self.pairs = pairs;
                proof {
                    assert(self.pairs_seq() =~= old_seq.push((key@, dv)));
                    assert(self.pairs_seq().drop_last() =~= old_seq);
                    assert(pairs_keys(self.pairs_seq()) =~= pairs_keys(old_seq).push(key@));
                    broadcast use vstd::seq_lib::group_seq_properties;
                }
            },
        }
    }

    /// Removes what is stored under `key`, if anything.
    pub fn remove(&mut self, key: &str)
        ensures
            final(self)@ == old(self)@.remove(key@),
    {
        proof {
            use_type_invariant(&*self);
            lemma_pairs_view_contains(self.pairs_seq(), key@);
        }
        let ghost old_seq = self.pairs_seq();
        match self.position(key) {
            Some(i) => {
                let mut pairs = Vec::new();
                std::mem::swap(&mut pairs, &mut self.pairs);
                pairs.remove(i);
                proof {
                    lemma_pairs_remove(old_seq, i as int);
                    assert(pair_views(pairs@) =~= old_seq.remove(i as int));
                }
                self.pairs = pairs;
                proof {
                    assert(self.pairs_seq() =~= old_seq.remove(i as int));
                }
            },
            None => {
                assert(old(self)@.remove(key@) =~= old(self)@);
            },
        }
    }

    /// The keys stored, each once.
    pub fn keys(&self) -> (r: Vec<String>)
        ensures
            views(r@).no_duplicates(),
            forall|k: Seq<char>| views(r@).contains(k) <==> self@.contains_key(k),
    {
        proof {
            use_type_invariant(self);
        }
        let mut r: Vec<String> = Vec::new();
        let mut i: usize = 0;
        while i < self.pairs.len()
            invariant
                i <= self.pairs.len(),
                pairs_keys(self.pairs_seq()).no_duplicates(),
                views(r@) == pairs_keys(self.pairs_seq()).take(i as int),
            decreases self.pairs.len() - i,
        {
            r.push(self.pairs[i].0.clone());
            assert(views(r@) =~= pairs_keys(self.pairs_seq()).take(i + 1));
            i = i + 1;
        }
        assert(pairs_keys(self.pairs_seq()).take(self.pairs.len() as int) =~= pairs_keys(self.pairs_seq()));
        proof {
            assert forall|k: Seq<char>| views(r@).contains(k) <==> self@.contains_key(k) by {
                lemma_pairs_view_contains(self.pairs_seq(), k);
            }
        }
        r
    }
}

impl Clone for XAttrs {
    fn clone(&self) -> (r: XAttrs)
        ensures
            r@ == self@,
    {
        proof {
            use_type_invariant(self);
        }
        let mut pairs: Vec<(String, Vec<u8>)> = Vec::new();
        let mut i: usize = 0;
        while i < self.pairs.len()
            invariant
                i <= self.pairs.len(),
                pair_views(pairs@) == self.pairs_seq().take(i as int),
            decreases self.pairs.len() - i,
        {
            let k = self.pairs[i].0.clone();
            let v = self.pairs[i].1.clone();
            let ghost before = pairs@;
            pairs.push((k, v));
            assert(pairs@ == before.push((k, v)));
            proof {
                lemma_pair_views_push(before, (k, v));
            }
            assert(self.pairs_seq()[i as int] == (self.pairs@[i as int].0@, self.pairs@[i as int].1@));
            assert(pair_views(pairs@) =~= self.pairs_seq().take(i + 1));
            i = i + 1;
        }
        assert(self.pairs_seq().take(self.pairs.len() as int) =~= self.pairs_seq());
        let r = XAttrs { pairs };
        assert(r.pairs_seq() == self.pairs_seq());
        r
    }
}


// SECTION inode

/// An entry of the inode tree.
#[derive(Debug)]
pub struct Inode {
    pub parent: Ino,
    pub id: Ino,
    pub name: InodeName,
    pub entry: FsEntry,
    pub meta: Metadata,
    pub xattrs: XAttrs,
}

/// The abstract value of an [Inode].
pub struct InodeView {
    pub parent: Ino,
    pub id: Ino,
    pub name: Seq<char>,
    pub entry: EntryView,
    pub meta: Metadata,
    pub xattrs: Map<Seq<char>, Seq<u8>>,
}

impl View for Inode {
    type V = InodeView;

    open spec fn view(&self) -> InodeView {
        InodeView {
            parent: self.parent,
            id: self.id,
            name: self.name@,
            entry: self.entry@,
            meta: self.meta,
            xattrs: self.xattrs@,
        }
    }
}

impl Clone for Inode {
    fn clone(&self) -> (r: Inode)
        ensures
            r@ == self@,
    {
        Inode {
            parent: self.parent,
            id: self.id,
            name: self.name.clone(),
            entry: self.entry.clone(),
            meta: self.meta,
            xattrs: self.xattrs.clone(),
        }
    }
}

/// The metadata of a fresh inode, but for its times, which are read from the clock.
pub open spec fn fresh_meta(m: Metadata, id: Ino, entry: EntryView, perm: u16) -> bool {
    &&& m.ino == id
    &&& m.size == 0
    &&& m.blocks == 0
    &&& m.kind == entry_kind(entry)
    &&& m.perm == perm
    &&& m.nlink == if entry is Directory { 2u32 } else { 1u32 }
    &&& m.uid == 0
    &&& m.gid == 0
    &&& m.rdev == 0
    &&& m.blksize == BLOCK_SIZE
    &&& m.flags == 0
}

impl Inode {
    /// A fresh inode: empty, created now, with no extended attribute.
    pub fn new(name: InodeName, parent_ino: Ino, id: Ino, entry: FsEntry, perm: u16) -> (r: Inode)
        ensures
            r.parent == parent_ino,
            r.id == id,
            r.name@ == name@,
            r.entry@ == entry@,
            fresh_meta(r.meta, id, entry@, perm),
            r.xattrs@ == Map::<Seq<char>, Seq<u8>>::empty(),
    {
        let time = now();
        let is_dir = match &entry {
            FsEntry::Directory(_) => true,
            _ => false,
        };
        let meta = Metadata {
            ino: id,
            size: 0,
            blocks: 0,
            atime: time,
            mtime: time,
            ctime: time,
            crtime: time,
            kind: entry.get_filetype(),
            perm,
            nlink: if is_dir { 2 } else { 1 },
            uid: 0,
            gid: 0,
            rdev: 0,
            blksize: BLOCK_SIZE as u32,
            flags: 0,
        };
        Inode { parent: parent_ino, id, name, entry, meta, xattrs: XAttrs::new() }
    }
}

} // verus!
