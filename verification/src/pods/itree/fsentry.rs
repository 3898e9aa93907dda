use vstd::prelude::*;
use vstd::string::StringSliceAdditionalSpecFns;

use crate::error::{WhError, WhResult};
use crate::pods::filesystem::fs_interface::SimpleFileType;
use crate::pods::itree::inode::Ino;
use crate::pods::whpath::{
    is_dot, is_dotdot, join_components, keep_components, kept_components, lemma_split_pieces_nonempty, parse_whpath,
    split_on_slash, split_pieces, str_eq, WhPath, WhPathError,
};
use crate::text::views;

verus! {

/// A peer of the network, by the number that the pod gave it.
pub type HostId = u64;

/// The peers that hold a copy of a file.
pub type Hosts = Vec<HostId>;

/// Where a symbolic link points.
#[derive(Debug)]
pub enum SymlinkPath {
    /// Path relative to the symlink file itself
    SymlinkPathRelative(String),
    /// Path relative to the drive's root: emulates absolute symlinks within the drive
    SymlinkPathAbsolute(WhPath),
    /// absolute path pointing outside the drive, as the bytes the system gave
    SymlinkPathExternal(Vec<u8>),
}

/// The abstract value of a [SymlinkPath].
pub enum SymlinkView {
    Relative(Seq<char>),
    Absolute(Seq<Seq<char>>),
    External(Seq<u8>),
}

impl View for SymlinkPath {
    type V = SymlinkView;

    open spec fn view(&self) -> SymlinkView {
        match self {
            SymlinkPath::SymlinkPathRelative(p) => SymlinkView::Relative(p@),
            SymlinkPath::SymlinkPathAbsolute(p) => SymlinkView::Absolute(p@),
            SymlinkPath::SymlinkPathExternal(p) => SymlinkView::External(p@),
        }
    }
}

/// A path of this system: text, or the bytes that the system gave.
#[derive(Debug)]
pub enum SystemPath {
    Text(String),
    Bytes(Vec<u8>),
}

/// The path `rel` put after `base` as this system joins paths: a path that
/// starts with `/` stands alone; else a `/` separates the two, unless `base` is
/// empty or already ends with one.
pub open spec fn joined(base: Seq<char>, rel: Seq<char>) -> Seq<char> {
    if rel.len() > 0 && rel[0] == '/' {
        rel
    } else if base.len() == 0 || base.last() == '/' {
        base + rel
    } else {
        base + seq!['/'] + rel
    }
}

/// See [joined].
pub fn join_text(base: &str, rel: &str) -> (r: String)
    ensures
        r@ == joined(base@, rel@),
{
    if rel.unicode_len() > 0 && rel.get_char(0) == '/' {
        return rel.to_owned();
    }
    let mut r = base.to_owned();
    let n = base.unicode_len();
    if n > 0 && base.get_char(n - 1) != '/' {
        r.append("/");
        proof {
            reveal_strlit("/");
        }
    }
    r.append(rel);
    r
}

impl SymlinkPath {
    /// Where the link points, as a path of this system, for a drive mounted at
    /// `mount`: a relative target as it is (it stays relative to the link), a
    /// target within the drive under `mount`, and an outside target as its
    /// bytes. The link is not followed.
    pub fn realize(&self, mount: &str) -> (r: SystemPath)
        ensures
            match self@ {
                SymlinkView::Relative(p) => r matches SystemPath::Text(t) && t@ == p,
                SymlinkView::Absolute(p) => r matches SystemPath::Text(t) && t@ == joined(mount@, join_components(p)),
                SymlinkView::External(b) => r matches SystemPath::Bytes(v) && v@ == b,
            },
    {
        match self {
            SymlinkPath::SymlinkPathRelative(p) => SystemPath::Text(p.clone()),
            SymlinkPath::SymlinkPathAbsolute(p) => {
                let rel = p.as_string();
                SystemPath::Text(join_text(mount, rel.as_str()))
            },
            SymlinkPath::SymlinkPathExternal(b) => SystemPath::Bytes(b.clone()),
        }
    }

    /// The canonical path of this system that the link at `self_path` in a
    /// drive mounted at `mount` designates: a relative target is taken from
    /// the folder of the link; otherwise as [Self::realize] gives it.
    pub fn resolve(&self, mount: &str, self_path: &WhPath) -> (r: SystemPath)
        ensures
            match self@ {
                SymlinkView::Relative(p) => r matches SystemPath::Text(t) && t@ == joined(
                    joined(mount@, if self_path@.len() == 0 { Seq::empty() } else { join_components(self_path@.drop_last()) }),
                    p,
                ),
                SymlinkView::Absolute(p) => r matches SystemPath::Text(t) && t@ == joined(mount@, join_components(p)),
                SymlinkView::External(b) => r matches SystemPath::Bytes(v) && v@ == b,
            },
    {
        match self {
            SymlinkPath::SymlinkPathRelative(p) => {
                let folder = match self_path.parent() {
                    Some(parent) => parent.as_string(),
                    None => String::new(),
                };
                let base = join_text(mount, folder.as_str());
                SystemPath::Text(join_text(base.as_str(), p.as_str()))
            },
            _ => self.realize(mount),
        }
    }
}

impl Clone for SymlinkPath {
    fn clone(&self) -> (r: SymlinkPath)
        ensures
            r@ == self@,
    {
        match self {
            SymlinkPath::SymlinkPathRelative(p) => SymlinkPath::SymlinkPathRelative(p.clone()),
            SymlinkPath::SymlinkPathAbsolute(p) => SymlinkPath::SymlinkPathAbsolute(p.clone()),
            SymlinkPath::SymlinkPathExternal(p) => SymlinkPath::SymlinkPathExternal(p.clone()),
        }
    }
}

/// A symbolic link: its target and, when known, the kind of what it points to.
#[derive(Debug)]
pub struct EntrySymlink {
    pub target: SymlinkPath,
    pub hint: Option<SimpleFileType>,
}

/// The abstract value of an [EntrySymlink].
pub struct EntrySymlinkView {
    pub target: SymlinkView,
    pub hint: Option<SimpleFileType>,
}

impl View for EntrySymlink {
    type V = EntrySymlinkView;

    open spec fn view(&self) -> EntrySymlinkView {
        EntrySymlinkView { target: self.target@, hint: self.hint }
    }
}

impl Clone for EntrySymlink {
    fn clone(&self) -> (r: EntrySymlink)
        ensures
            r@ == self@,
    {
        EntrySymlink { target: self.target.clone(), hint: self.hint }
    }
}

/// What an inode is: a file with the peers that hold it, a directory with its
/// children, or a symbolic link.
#[derive(Debug)]
pub enum FsEntry {
    File(Hosts),
    Directory(Vec<Ino>),
    Symlink(EntrySymlink),
}

/// The abstract value of an [FsEntry].
pub enum EntryView {
    File(Seq<HostId>),
    Directory(Seq<Ino>),
    Symlink(EntrySymlinkView),
}

impl View for FsEntry {
    type V = EntryView;

    open spec fn view(&self) -> EntryView {
        match self {
            FsEntry::File(h) => EntryView::File(h@),
            FsEntry::Directory(c) => EntryView::Directory(c@),
            FsEntry::Symlink(s) => EntryView::Symlink(s@),
        }
    }
}

/// The children of a directory entry; none for the other entries.
pub open spec fn entry_children(e: EntryView) -> Seq<Ino> {
    match e {
        EntryView::Directory(c) => c,
        _ => Seq::empty(),
    }
}

/// The kind of file an entry is.
pub open spec fn entry_kind(e: EntryView) -> SimpleFileType {
    match e {
        EntryView::File(_) => SimpleFileType::File,
        EntryView::Directory(_) => SimpleFileType::Directory,
        EntryView::Symlink(_) => SimpleFileType::Symlink,
    }
}

impl Clone for FsEntry {
    fn clone(&self) -> (r: FsEntry)
        ensures
            r@ == self@,
    {
        match self {
            FsEntry::File(h) => FsEntry::File(h.clone()),
            FsEntry::Directory(c) => FsEntry::Directory(c.clone()),
            FsEntry::Symlink(s) => FsEntry::Symlink(s.clone()),
        }
    }
}

impl FsEntry {
    /// A file that no peer holds yet.
    pub fn new_file() -> (r: FsEntry)
        ensures
            r@ == EntryView::File(Seq::empty()),
    {
        FsEntry::File(Vec::new())
    }

    /// An empty directory.
    pub fn new_directory() -> (r: FsEntry)
        ensures
            r@ == EntryView::Directory(Seq::empty()),
    {
        FsEntry::Directory(Vec::new())
    }

    pub fn get_filetype(&self) -> (r: SimpleFileType)
        ensures
            r == entry_kind(self@),
    {
        match self {
            FsEntry::File(_) => SimpleFileType::File,
            FsEntry::Directory(_) => SimpleFileType::Directory,
            FsEntry::Symlink(_) => SimpleFileType::Symlink,
        }
    }

    /// The children of a directory; `InodeIsNotADirectory` for the other entries.
    pub fn get_children(&self) -> (r: WhResult<&Vec<Ino>>)
        ensures
            self@ is Directory ==> r is Ok && r->Ok_0@ == entry_children(self@),
            !(self@ is Directory) ==> r == Err::<&Vec<Ino>, WhError>(WhError::InodeIsNotADirectory),
    {
        match self {
            FsEntry::Directory(children) => Ok(children),
            _ => Err(WhError::InodeIsNotADirectory),
        }
    }
}

} // verus!

verus! {

broadcast use crate::text::group_views;

// SECTION symbolic link targets

/// `s` starts at the root.
pub open spec fn has_root(s: Seq<char>) -> bool {
    s.len() > 0 && s[0] == '/'
}

/// The components that the system reads in a path text: `/` first for an
/// absolute path, `.` first for a relative path that starts with that piece,
/// then each non-empty piece other than `.`.
pub open spec fn path_iter(s: Seq<char>) -> Seq<Seq<char>> {
    let pieces = split_pieces(s);
    if has_root(s) {
        seq![seq!['/']] + kept_components(pieces)
    } else if is_dot(pieces[0]) {
        seq![seq!['.']] + kept_components(pieces)
    } else {
        kept_components(pieces)
    }
}

/// The components once `.` is dropped and each `..` takes away the component
/// before it, if there is one (else it is kept).
pub open spec fn normalize_spec(c: Seq<Seq<char>>) -> Seq<Seq<char>>
    decreases c.len(),
{
    if c.len() == 0 {
        Seq::empty()
    } else {
        let r = normalize_spec(c.drop_last());
        let x = c.last();
        if is_dot(x) {
            r
        } else if is_dotdot(x) {
            if r.len() > 0 {
                r.drop_last()
            } else {
                r.push(x)
            }
        } else {
            r.push(x)
        }
    }
}

/// The text of a path made of the components `c`, as the system builds it.
pub open spec fn rebuilt(c: Seq<Seq<char>>) -> Seq<char> {
    if c.len() > 0 && c[0] == seq!['/'] {
        seq!['/'] + join_components(c.drop_first())
    } else {
        join_components(c)
    }
}

/// Where an absolute target `target` leads inside the drive mounted at
/// `mountpoint`: `None` when it does not start at the root or does not lie
/// under the mountpoint, else what reading the rest as a drive path gives.
pub open spec fn inside_target(target: Seq<char>, mountpoint: Seq<char>) -> Option<
    Result<Seq<Seq<char>>, WhPathError>,
> {
    let n = normalize_spec(path_iter(target));
    let mc = path_iter(mountpoint);
    if !has_root(target) || !(mc.len() <= n.len() && n.take(mc.len() as int) == mc) {
        None
    } else {
        Some(parse_whpath(rebuilt(n.skip(mc.len() as int))))
    }
}

/// The components that the system reads in `s`; see [path_iter].
pub(crate) fn path_components(s: &str) -> (r: Vec<String>)
    ensures
        views(r@) == path_iter(s@),
{
    let pieces = split_on_slash(s);
    proof {
        lemma_split_pieces_nonempty(s@);
        reveal_strlit("/");
        reveal_strlit(".");
        assert(views(pieces@)[0] == pieces@[0]@);
    }
    let kept = keep_components(&pieces);
    let mut r: Vec<String> = Vec::new();
    if s.unicode_len() > 0 && s.get_char(0) == '/' {
        r.push("/".to_owned());
        assert("/"@ =~= seq!['/']);
    } else if str_eq(pieces[0].as_str(), ".") {
        r.push(".".to_owned());
        assert("."@ =~= seq!['.']);
    } else {
        assert(!is_dot(views(pieces@)[0])) by {
            if is_dot(views(pieces@)[0]) {
                assert(pieces@[0]@ =~= "."@);
            }
        }
    }
    let ghost head = views(r@);
    let mut i: usize = 0;
    while i < kept.len()
        invariant
            i <= kept.len(),
            views(r@) == head + views(kept@).take(i as int),
        decreases kept.len() - i,
    {
        let ghost before = r@;
        r.push(kept[i].clone());
        assert(views(r@) =~= head + views(kept@).take(i + 1));
        i = i + 1;
    }
    assert(views(kept@).take(kept.len() as int) =~= views(kept@));
    r
}

/// Drops `.` and lets each `..` take away the component before it; see
/// [normalize_spec].
fn normalize(c: &Vec<String>) -> (r: Vec<String>)
    ensures
        views(r@) == normalize_spec(views(c@)),
{
    let ghost cv = views(c@);
    let mut r: Vec<String> = Vec::new();
    let mut i: usize = 0;
    proof {
        reveal_strlit(".");
        reveal_strlit("..");
        assert(cv.take(0) =~= Seq::<Seq<char>>::empty());
        assert(views(r@) =~= Seq::<Seq<char>>::empty());
    }
    while i < c.len()
        invariant
            i <= c.len(),
            cv == views(c@),
            views(r@) == normalize_spec(cv.take(i as int)),
        decreases c.len() - i,
    {
        proof {
            reveal_strlit(".");
            reveal_strlit("..");
            assert(cv.take(i + 1).drop_last() =~= cv.take(i as int));
            assert(cv.take(i + 1).last() == c@[i as int]@);
        }
        let x = &c[i];
        let ghost before = r@;
        if str_eq(x.as_str(), ".") {
            assert(is_dot(x@)) by {
                assert(x@ =~= "."@);
            }
        } else if str_eq(x.as_str(), "..") {
            assert(is_dotdot(x@)) by {
                assert(x@ =~= ".."@);
            }
            assert(!is_dot(x@));
            if r.len() > 0 {
                r.pop();
                assert(views(r@) =~= views(before).drop_last());
            } else {
                r.push(x.clone());
                assert(views(r@) =~= views(before).push(x@));
            }
        } else {
            assert(!is_dot(x@)) by {
                if is_dot(x@) {
                    assert(x@ =~= "."@);
                }
            }
            assert(!is_dotdot(x@)) by {
                if is_dotdot(x@) {
                    assert(x@ =~= ".."@);
                }
            }
            r.push(x.clone());
            assert(views(r@) =~= views(before).push(x@));
        }
        i = i + 1;
    }
    assert(cv.take(c.len() as int) =~= cv);
    r
}

/// The text of the components of `c` from position `from`, as the system
/// builds it; see [rebuilt].
pub(crate) fn rebuild(c: &Vec<String>, from: usize) -> (r: String)
    requires
        from <= c.len(),
    ensures
        r@ == rebuilt(views(c@).skip(from as int)),
{
    let ghost rest = views(c@).skip(from as int);
    let mut out = String::new();
    let mut start = from;
    proof {
        reveal_strlit("/");
    }
    if from < c.len() && str_eq(c[from].as_str(), "/") {
        out.append("/");
        start = from + 1;
        assert(c@[from as int]@ =~= seq!['/']);
        assert(rest[0] == seq!['/']);
        assert(views(c@).skip(start as int) =~= rest.drop_first());
    } else {
        assert(!(rest.len() > 0 && rest[0] == seq!['/'])) by {
            if rest.len() > 0 && rest[0] == seq!['/'] {
                assert(c@[from as int]@ == rest[0]);
                assert(c@[from as int]@ =~= "/"@);
            }
        }
    }
    let ghost prefix = out@;
    let ghost tail = views(c@).skip(start as int);
    assert(prefix + join_components(tail) == rebuilt(rest));
    let mut i: usize = start;
    assert(tail.take(0) =~= Seq::<Seq<char>>::empty());
    while i < c.len()
        invariant
            start <= i <= c.len(),
            tail == views(c@).skip(start as int),
            out@ == prefix + join_components(tail.take(i - start)),
        decreases c.len() - i,
    {
        proof {
            reveal_strlit("/");
            assert(tail.take(i + 1 - start).drop_last() =~= tail.take(i - start));
            assert(tail.take(i + 1 - start).last() == c@[i as int]@);
        }
        if i > start {
            out.append("/");
        } else {
            assert(tail.take(i - start) =~= Seq::<Seq<char>>::empty());
        }
        out.append(c[i].as_str());
        assert(out@ =~= prefix + join_components(tail.take(i + 1 - start)));
        i = i + 1;
    }
    assert(tail.take(c.len() - start) =~= tail);
    out
}

/// The bytes of a text.
fn bytes_of(s: &str) -> (r: Vec<u8>)
    ensures
        r@ == s.spec_bytes(),
{
    let b = s.as_bytes();
    let mut r: Vec<u8> = Vec::new();
    let mut i: usize = 0;
    while i < b.len()
        invariant
            i <= b@.len(),
            r@ == b@.take(i as int),
        decreases b.len() - i,
    {
        r.push(b[i]);
        assert(r@ =~= b@.take(i + 1));
        i = i + 1;
    }
    assert(b@.take(b@.len() as int) =~= b@);
    r
}

impl EntrySymlink {
    /// The link that the system makes by default: to `.`, a directory.
    pub fn default() -> (r: EntrySymlink)
        ensures
            r@ == (EntrySymlinkView { target: SymlinkView::Relative("."@), hint: Some(SimpleFileType::Directory) }),
    {
        EntrySymlink {
            target: SymlinkPath::SymlinkPathRelative(".".to_owned()),
            hint: Some(SimpleFileType::Directory),
        }
    }

    /// A link to the absolute `target`, taken as a link inside the drive
    /// mounted at `mountpoint`; see [inside_target].
    ///
    /// `Err(None)` when the target does not start at the root or lies outside
    /// the drive; `Err(Some(e))` when the rest is not a drive path.
    pub fn from_absolute(target: &str, mountpoint: &str) -> (r: Result<EntrySymlink, Option<WhPathError>>)
        ensures
            match inside_target(target@, mountpoint@) {
                None => r == Err::<EntrySymlink, Option<WhPathError>>(None),
                Some(Ok(c)) => r matches Ok(l) && l@ == (EntrySymlinkView {
                    target: SymlinkView::Absolute(c),
                    hint: None,
                }),
                Some(Err(e)) => r == Err::<EntrySymlink, Option<WhPathError>>(Some(e)),
            },
    {
        if !(target.unicode_len() > 0 && target.get_char(0) == '/') {
            return Err(None);
        }
        let components = normalize(&path_components(target));
        let mount = path_components(mountpoint);
        let ghost n = views(components@);
        let ghost mc = views(mount@);
        if mount.len() > components.len() {
            return Err(None);
        }
        let mut i: usize = 0;
        while i < mount.len()
            invariant
                i <= mount.len(),
                mount.len() <= components.len(),
                n == views(components@),
                mc == views(mount@),
                forall|j: int| 0 <= j < i ==> n[j] == mc[j],
                n == normalize_spec(path_iter(target@)),
                mc == path_iter(mountpoint@),
                has_root(target@),
            decreases mount.len() - i,
        {
            if !str_eq(mount[i].as_str(), components[i].as_str()) {
                proof {
                    assert(n.take(mc.len() as int)[i as int] != mc[i as int]);
                }
                return Err(None);
            }
            i = i + 1;
        }
        assert(n.take(mc.len() as int) =~= mc);
        let text = rebuild(&components, mount.len());
        match WhPath::try_from_str(text.as_str()) {
            Ok(p) => Ok(EntrySymlink { target: SymlinkPath::SymlinkPathAbsolute(p), hint: None }),
            Err(e) => Err(Some(e)),
        }
    }

    /// The link to `target` made in the drive mounted at `mountpoint`: inside
    /// the drive for an absolute target under the mountpoint, relative for a
    /// relative target. An absolute target that does not read as a drive path
    /// becomes an external link (`Ok`); one outside the drive is refused as an
    /// external link (`Err`).
    pub fn parse(target: &str, mountpoint: &str) -> (r: Result<EntrySymlink, EntrySymlink>)
        ensures
            !has_root(target@) ==> (r matches Ok(l) && l@ == (EntrySymlinkView {
                target: SymlinkView::Relative(target@),
                hint: None,
            })),
            has_root(target@) ==> match inside_target(target@, mountpoint@) {
                Some(Ok(c)) => r matches Ok(l) && l@ == (EntrySymlinkView {
                    target: SymlinkView::Absolute(c),
                    hint: None,
                }),
                Some(Err(_)) => r matches Ok(l) && l@ == (EntrySymlinkView {
                    target: SymlinkView::External(target.spec_bytes()),
                    hint: None,
                }),
                None => r matches Err(l) && l@ == (EntrySymlinkView {
                    target: SymlinkView::External(target.spec_bytes()),
                    hint: None,
                }),
            },
    {
        if target.unicode_len() > 0 && target.get_char(0) == '/' {
            match EntrySymlink::from_absolute(target, mountpoint) {
                Ok(l) => Ok(l),
                Err(Some(_)) => Ok(EntrySymlink {
                    target: SymlinkPath::SymlinkPathExternal(bytes_of(target)),
                    hint: None,
                }),
                Err(None) => Err(EntrySymlink {
                    target: SymlinkPath::SymlinkPathExternal(bytes_of(target)),
                    hint: None,
                }),
            }
        } else {
            Ok(EntrySymlink { target: SymlinkPath::SymlinkPathRelative(target.to_owned()), hint: None })
        }
    }
}

// !SECTION

} // verus!
