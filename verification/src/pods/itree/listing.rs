use vstd::prelude::*;

use crate::error::{WhError, WhResult};
use crate::pods::itree::fsentry::{EntryView, FsEntry};
use crate::pods::itree::inode::{Ino, ROOT};
use crate::pods::itree::{ancestor_at, resolve, tree_shape, ITree};
use crate::pods::whpath::WhPath;

verus! {

/// One line of the listing of a tree: how many levels below the listed inode
/// it lies, its ino, its path and its entry.
pub type TreeLine = (u8, Ino, WhPath, FsEntry);

/// The inode that a listing starts from: the one at `path`, or the root when
/// no path is given.
pub open spec fn listed_target(m: crate::pods::itree::TreeView, path: Option<&WhPath>) -> WhResult<Ino> {
    match path {
        Some(p) => match resolve(m, ROOT, p@) {
            Ok(i) => Ok(i),
            Err(_) => Err(WhError::InodeNotFound),
        },
        None => Ok(ROOT),
    }
}

/// The abstract value of a line of a listing.
pub type LineView = (int, Ino, Seq<Seq<char>>, EntryView);

pub open spec fn line_view(l: TreeLine) -> LineView {
    (l.0 as int, l.1, l.2@, l.3@)
}

pub open spec fn lines_view(v: Seq<TreeLine>) -> Seq<LineView> {
    v.map_values(|l: TreeLine| line_view(l))
}

proof fn lemma_ancestor_at_add(m: crate::pods::itree::TreeView, x: Ino, a: nat, b: nat)
    ensures
        ancestor_at(m, x, a + b) == ancestor_at(m, ancestor_at(m, x, a), b),
    decreases a,
{
    if a > 0 {
        lemma_ancestor_at_add(m, m[x].parent, (a - 1) as nat, b);
        assert((a - 1) as nat + b == (a + b - 1) as nat);
    }
}

proof fn depth_bound(d: Map<Ino, nat>, s: Set<Ino>) -> (h: nat)
    requires
        s.finite(),
    ensures
        forall|k: Ino| s.contains(k) ==> #[trigger] d[k] <= h,
    decreases s.len(),
{
    if s.is_empty() {
        0
    } else {
        let x = s.choose();
        let h = depth_bound(d, s.remove(x));
        if d[x] > h {
            d[x]
        } else {
            h
        }
    }
}

impl ITree {
    /// No inode of the tree lies deeper than `h`.
    closed spec fn depth_bounded(&self, h: nat) -> bool {
        forall|k: Ino| self@.contains_key(k) ==> #[trigger] self.depth@[k] <= h
    }

    /// A depth that no inode of the tree passes.
    closed spec fn height(&self) -> nat {
        choose|h: nat| #[trigger] self.depth_bounded(h)
    }

    proof fn lemma_height(&self)
        ensures
            forall|k: Ino| self@.contains_key(k) ==> #[trigger] self.depth@[k] <= self.height(),
    {
        vstd::std_specs::hash::axiom_hashmap_view_finite_dom(self.entries);
        assert(self@.dom() =~= self.entries@.dom());
        let h = depth_bound(self.depth@, self@.dom());
        assert(self.depth_bounded(h));
    }

    /// The lines listing what lies below `ino`, `ind` levels in, explored at
    /// most `fuel` levels down.
    closed spec fn lines_fuel(&self, ino: Ino, ind: int, fuel: nat) -> Seq<LineView>
        decreases fuel, 0nat,
    {
        if fuel == 0 || !self@.contains_key(ino) {
            Seq::empty()
        } else {
            match self@[ino].entry {
                EntryView::Directory(children) => self.children_lines_fuel(children, ind + 1, (fuel - 1) as nat),
                e => seq![(ind, ino, self.path_of(ino).unwrap(), e)],
            }
        }
    }

    closed spec fn children_lines_fuel(&self, children: Seq<Ino>, ind: int, fuel: nat) -> Seq<LineView>
        decreases fuel, children.len() + 1,
    {
        if children.len() == 0 {
            Seq::empty()
        } else {
            self.children_lines_fuel(children.drop_last(), ind, fuel) + self.lines_fuel(children.last(), ind, fuel)
        }
    }

    /// The listing of what lies below `ino`, `ind` levels in; see
    /// [Self::lemma_tree_lines].
    pub closed spec fn tree_lines(&self, ino: Ino, ind: int) -> Seq<LineView> {
        self.lines_fuel(ino, ind, (self.height() + 1 - self.depth@[ino]) as nat)
    }

    /// The listings of the inodes `children`, in order, `ind` levels in.
    pub open spec fn children_lines(&self, children: Seq<Ino>, ind: int) -> Seq<LineView>
        decreases children.len(),
    {
        if children.len() == 0 {
            Seq::empty()
        } else {
            self.children_lines(children.drop_last(), ind) + self.tree_lines(children.last(), ind)
        }
    }

    proof fn lemma_children_fuel(&self, p: Ino, children: Seq<Ino>, ind: int)
        requires
            self.wf(),
            self@.contains_key(p),
            forall|i: int| 0 <= i < children.len() ==> #[trigger] self@.contains_key(children[i]) && self@[children[i]].parent == p && children[i] != ROOT,
        ensures
            self.children_lines_fuel(children, ind, (self.height() - self.depth@[p]) as nat) == self.children_lines(children, ind),
        decreases children.len(),
    {
        self.lemma_height();
        if children.len() > 0 {
            let c = children.last();
            assert(self@.contains_key(children[children.len() - 1]));
            assert(self.depth@[c] == self.depth@[p] + 1);
            assert(self.depth@[c] <= self.height());
            assert((self.height() + 1 - self.depth@[c]) as nat == (self.height() - self.depth@[p]) as nat);
            self.lemma_children_fuel(p, children.drop_last(), ind);
        }
    }

    /// How the listing unfolds in a well formed tree: nothing for an ino that
    /// is not in the tree; the inode itself, with its path and entry, for
    /// anything but a directory; for a directory, the listings of its
    /// children in order, one level further in. Directories have no line of
    /// their own.
    pub proof fn lemma_tree_lines(&self, ino: Ino, ind: int)
        requires
            self.wf(),
        ensures
            !self@.contains_key(ino) ==> self.tree_lines(ino, ind) == Seq::<LineView>::empty(),
            self@.contains_key(ino) ==> self.tree_lines(ino, ind) == match self@[ino].entry {
                EntryView::Directory(children) => self.children_lines(children, ind + 1),
                e => seq![(ind, ino, self.path_of(ino).unwrap(), e)],
            },
    {
        self.lemma_height();
        if self@.contains_key(ino) {
            assert(self.depth@[ino] <= self.height());
            if let EntryView::Directory(children) = self@[ino].entry {
                assert forall|i: int| 0 <= i < children.len() implies #[trigger] self@.contains_key(children[i])
                    && self@[children[i]].parent == ino && children[i] != ROOT by {
                    assert(crate::pods::itree::fsentry::entry_children(self@[ino].entry).contains(children[i]));
                }
                self.lemma_children_fuel(ino, children, ind + 1);
            }
        }
    }

    proof fn lemma_within_child(&self, x: Ino, c: Ino, p: Ino)
        requires
            self.wf(),
            self@.contains_key(c),
            c != ROOT,
            self@[c].parent == p,
            self.within(x, c),
        ensures
            self.within(x, p),
            self.depth@[c] == self.depth@[p] + 1,
    {
        let a = (self.depth@[x] - self.depth@[c]) as nat;
        lemma_ancestor_at_add(self@, x, a, 1);
        assert(ancestor_at(self@, c, 1) == ancestor_at(self@, p, 0));
        assert((self.depth@[x] - self.depth@[p]) as nat == a + 1);
    }

    fn recurse_tree(&self, ino: Ino, indentation: u8) -> (r: WhResult<Vec<TreeLine>>)
        requires
            self.wf(),
            forall|k: Ino| #[trigger] self.within(k, ino) ==> self.depth@[k] - self.depth@[ino] + indentation <= 255,
        ensures
            !self@.contains_key(ino) ==> r == Err::<Vec<TreeLine>, WhError>(WhError::InodeNotFound),
            self@.contains_key(ino) ==> (r matches Ok(v) && lines_view(v@) == self.tree_lines(ino, indentation as int)),
        decreases self.height() + 1 - self.depth@[ino],
    {
        let inode = self.get_inode(ino)?;
        proof {
            self.lemma_path_of(ino);
            self.lemma_height();
            self.lemma_tree_lines(ino, indentation as int);
        }
        let path = self.get_path_from_inode_id(ino)?;
        match &inode.entry {
            FsEntry::Directory(children) => {
                let ghost ch = children@;
                let mut out: Vec<TreeLine> = Vec::new();
                let mut j: usize = 0;
                while j < children.len()
                    invariant
                        self.wf(),
                        self@.contains_key(ino),
                        self@[ino].entry == EntryView::Directory(ch),
                        children@ == ch,
                        j <= ch.len(),
                        forall|k: Ino| #[trigger] self.within(k, ino) ==> self.depth@[k] - self.depth@[ino] + indentation <= 255,
                        lines_view(out@) == self.children_lines(ch.take(j as int), indentation + 1),
                    decreases ch.len() - j,
                {
                    let c = children[j];
                    proof {
                        assert(crate::pods::itree::fsentry::entry_children(self@[ino].entry).contains(ch[j as int]));
                        assert(tree_shape(self@));
                        assert(self@.contains_key(c) && self@[c].parent == ino && c != ROOT);
                        self.lemma_within_basics(c);
                        self.lemma_within_child(c, c, ino);
                        self.lemma_height();
                        assert(self.depth@[c] <= self.height());
                        assert forall|k: Ino| #[trigger] self.within(k, c) implies self.depth@[k] - self.depth@[c] + (
                        indentation + 1) <= 255 by {
                            self.lemma_within_child(k, c, ino);
                        }
                    }
                    let mut sub = match self.recurse_tree(c, indentation + 1) {
                        Ok(sub) => sub,
                        Err(e) => {
                            return Err(e);
                        },
                    };
                    let ghost before = out@;
                    out.append(&mut sub);
                    proof {
                        assert(ch.take(j + 1).drop_last() =~= ch.take(j as int));
                        assert(ch.take(j + 1).last() == c);
                        assert(lines_view(out@) =~= lines_view(before) + self.tree_lines(c, indentation + 1));
                    }
                    j = j + 1;
                }
                proof {
                    assert(ch.take(ch.len() as int) =~= ch);
                }
                Ok(out)
            },
            _ => {
                let line = (indentation, ino, path, inode.entry.clone());
                let v = vec![line];
                proof {
                    assert(lines_view(v@) =~= seq![line_view(line)]);
                }
                Ok(v)
            },
        }
    }

    /// The inode at `path`, or the root when no path is given.
    fn listed_ino(&self, path: Option<&WhPath>) -> (r: WhResult<Ino>)
        requires
            self.wf(),
        ensures
            r == listed_target(self@, path),
            r matches Ok(i) ==> self@.contains_key(i),
    {
        assert(self@.contains_key(ROOT) && forall|k: Ino| #[trigger] self@.contains_key(k) ==> self@[k].id == k) by {
            self.lemma_wf_shape();
        }
        match path {
            Some(path) => match self.get_inode_from_path(path) {
                Ok(inode) => Ok(inode.id),
                Err(_) => Err(WhError::InodeNotFound),
            },
            None => Ok(ROOT),
        }
    }

    /// The listing of what lies below the inode at `path` (the root when no
    /// path is given): see [Self::lemma_tree_lines]. `InodeNotFound` when no
    /// inode is at the path.
    ///
    /// Nothing may lie more than 255 levels below that inode.
    pub fn get_file_tree_and_hosts(&self, path: Option<&WhPath>) -> (r: WhResult<Vec<TreeLine>>)
        requires
            self.wf(),
            listed_target(self@, path) matches Ok(i) ==> forall|k: Ino|
                #[trigger] self.within(k, i) ==> self.depth_of(k) <= self.depth_of(i) + 255,
        ensures
            match listed_target(self@, path) {
                Ok(i) => (r matches Ok(v) && lines_view(v@) == self.tree_lines(i, 0)),
                Err(e) => r == Err::<Vec<TreeLine>, WhError>(e),
            },
    {
        let ino = self.listed_ino(path)?;
        self.recurse_tree(ino, 0)
    }
}

} // verus!
