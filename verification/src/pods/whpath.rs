use vstd::prelude::*;

use crate::error::{io_error_of_kind, new_io_error, IoKind};
use crate::text::views;

verus! {

broadcast use crate::text::group_views;

/// A byte sequence could not be read as valid UTF-8.
#[derive(Debug, Clone, Copy, PartialEq, Eq)]
pub struct ConversionError {}

/// A name holds a path separator.
#[derive(Debug, Clone, Copy, PartialEq, Eq)]
pub struct InodeNameError {}

/// Why a text is refused as a [WhPath].
#[derive(Debug, Clone, Copy, PartialEq, Eq)]
pub enum WhPathError {
    NotRelative,
    ConversionError { source: ConversionError },
    NotNormalized,
    InvalidOperation,
}

impl ConversionError {
    /// The kind of io error this error stands for.
    pub fn io_kind(&self) -> (k: IoKind)
        ensures
            k == IoKind::InvalidData,
    {
        IoKind::InvalidData
    }

    /// Turns the error into an io error of kind `InvalidData`, with the kind's
    /// own description.
    pub fn into_io(self) -> std::io::Error {
        let kind = self.io_kind();
        io_error_of_kind(kind)
    }
}

impl InodeNameError {
    /// The message this error displays.
    pub fn message(&self) -> (s: String)
        ensures
            s@ == "Name contains forbidden character(s)"@,
    {
        "Name contains forbidden character(s)".to_owned()
    }

    /// The kind of io error this error stands for.
    pub fn io_kind(&self) -> (k: IoKind)
        ensures
            k == IoKind::InvalidFilename,
    {
        IoKind::InvalidFilename
    }

    /// Turns the error into an io error of kind `InvalidFilename` carrying its message.
    pub fn to_io(self) -> std::io::Error {
        let kind = self.io_kind();
        new_io_error(kind, self.message())
    }
}

/// The io error kind that stands for each path error.
pub open spec fn whpath_error_kind(e: WhPathError) -> IoKind {
    match e {
        WhPathError::NotRelative => IoKind::Other,
        WhPathError::ConversionError { .. } => IoKind::InvalidData,
        WhPathError::NotNormalized => IoKind::InvalidFilename,
        WhPathError::InvalidOperation => IoKind::Other,
    }
}

impl WhPathError {
    /// The message this error displays.
    pub fn message(&self) -> (s: String)
        ensures
            self is NotRelative ==> s@ == "Path is not relative"@,
            self is ConversionError ==> s@ == "Could not be converted to valid UTF-8"@,
            self is NotNormalized ==> s@ == "Path is not normal"@,
            self is InvalidOperation ==> s@ == "Operation would compromise WhPath integrity"@,
    {
        match self {
            WhPathError::NotRelative => "Path is not relative".to_owned(),
            WhPathError::ConversionError { .. } => "Could not be converted to valid UTF-8".to_owned(),
            WhPathError::NotNormalized => "Path is not normal".to_owned(),
            WhPathError::InvalidOperation => "Operation would compromise WhPath integrity".to_owned(),
        }
    }

    /// The kind of io error this error stands for.
    pub fn io_kind(&self) -> (k: IoKind)
        ensures
            k == whpath_error_kind(*self),
    {
        match self {
            WhPathError::NotRelative => IoKind::Other,
            WhPathError::ConversionError { .. } => IoKind::InvalidData,
            WhPathError::NotNormalized => IoKind::InvalidFilename,
            WhPathError::InvalidOperation => IoKind::Other,
        }
    }

    /// Turns the error into an io error of the kind [Self::io_kind], carrying its message.
    pub fn to_io(&self) -> std::io::Error {
        let kind = self.io_kind();
        new_io_error(kind, self.message())
    }
}

// SECTION text model


/// The pieces of `s` between its `/` separators, empty pieces included.
pub open spec fn split_pieces(s: Seq<char>) -> Seq<Seq<char>>
    decreases s.len(),
{
    if s.len() == 0 {
        seq![Seq::empty()]
    } else {
        let p = split_pieces(s.drop_last());
        if s.last() == '/' {
            p.push(Seq::empty())
        } else {
            p.update(p.len() - 1, p.last().push(s.last()))
        }
    }
}

pub proof fn lemma_split_pieces_nonempty(s: Seq<char>)
    ensures
        split_pieces(s).len() >= 1,
    decreases s.len(),
{
    if s.len() > 0 {
        lemma_split_pieces_nonempty(s.drop_last());
    }
}

pub open spec fn is_dot(p: Seq<char>) -> bool {
    p.len() == 1 && p[0] == '.'
}

pub open spec fn is_dotdot(p: Seq<char>) -> bool {
    p.len() == 2 && p[0] == '.' && p[1] == '.'
}

pub open spec fn keeps_component(x: Seq<char>) -> bool {
    x.len() > 0 && !is_dot(x)
}

proof fn lemma_is_dot_literal(x: Seq<char>)
    ensures
        is_dot(x) <==> x == "."@,
{
    reveal_strlit(".");
    if is_dot(x) {
        assert(x =~= "."@);
    }
}

proof fn lemma_is_dotdot_literal(x: Seq<char>)
    ensures
        is_dotdot(x) <==> x == ".."@,
{
    reveal_strlit("..");
    if is_dotdot(x) {
        assert(x =~= ".."@);
    }
}

proof fn lemma_kept_step(v: Seq<Seq<char>>, i: int)
    requires
        0 <= i < v.len(),
    ensures
        kept_components(v.take(i + 1)) == if keeps_component(v[i]) {
            kept_components(v.take(i)).push(v[i])
        } else {
            kept_components(v.take(i))
        },
{
    reveal(Seq::filter);
    assert(v.take(i + 1).drop_last() =~= v.take(i));
}

proof fn lemma_kept_empty(v: Seq<Seq<char>>)
    ensures
        kept_components(v.take(0)) == Seq::<Seq<char>>::empty(),
{
    reveal(Seq::filter);
    assert(v.take(0) =~= Seq::<Seq<char>>::empty());
}

/// The components that a valid path text keeps: its non-empty pieces other than `.`.
pub open spec fn kept_components(p: Seq<Seq<char>>) -> Seq<Seq<char>> {
    p.filter(|x: Seq<char>| keeps_component(x))
}

/// How a text is read as a relative, normalized path.
///
/// A text starting with `/` is not relative; a text with a `..` piece, or whose
/// first piece is `.`, is not normalized. Otherwise its components are its
/// non-empty pieces other than `.`.
pub open spec fn parse_whpath(s: Seq<char>) -> Result<Seq<Seq<char>>, WhPathError> {
    let pieces = split_pieces(s);
    if s.len() > 0 && s[0] == '/' {
        Err(WhPathError::NotRelative)
    } else if is_dot(pieces[0]) || exists|i: int| 0 <= i < pieces.len() && is_dotdot(#[trigger] pieces[i]) {
        Err(WhPathError::NotNormalized)
    } else {
        Ok(kept_components(pieces))
    }
}

/// A name is valid when it holds no path separator.
pub open spec fn name_is_valid(s: Seq<char>) -> bool {
    !s.contains('/') && !s.contains('\\')
}

/// The text of a path: its components joined by `/`.
pub open spec fn join_components(c: Seq<Seq<char>>) -> Seq<char>
    decreases c.len(),
{
    if c.len() == 0 {
        Seq::empty()
    } else if c.len() == 1 {
        c[0]
    } else {
        join_components(c.drop_last()) + seq!['/'] + c.last()
    }
}

// !SECTION

/// Equality of two texts, character by character.
pub fn str_eq(a: &str, b: &str) -> (r: bool)
    ensures
        r == (a@ == b@),
{
    let n = a.unicode_len();
    let m = b.unicode_len();
    if n != m {
        return false;
    }
    let mut i: usize = 0;
    while i < n
        invariant
            n == a@.len(),
            m == b@.len(),
            n == m,
            i <= n,
            forall|j: int| 0 <= j < i ==> a@[j] == b@[j],
        decreases n - i,
    {
        if a.get_char(i) != b.get_char(i) {
            return false;
        }
        i = i + 1;
    }
    assert(a@ =~= b@);
    true
}

/// Splits a text on its `/` separators, keeping empty pieces.
pub(crate) fn split_on_slash(s: &str) -> (r: Vec<String>)
    ensures
        views(r@) == split_pieces(s@),
{
    let n = s.unicode_len();
    let mut pieces: Vec<String> = Vec::new();
    let mut start: usize = 0;
    let mut i: usize = 0;
    assert(s@.take(0) =~= Seq::<char>::empty());
    assert(views(pieces@).push(s@.subrange(0, 0)) =~= seq![Seq::<char>::empty()]);
    while i < n
        invariant
            n == s@.len(),
            start <= i <= n,
            views(pieces@).push(s@.subrange(start as int, i as int))
                == split_pieces(s@.take(i as int)),
        decreases n - i,
    {
        let c = s.get_char(i);
        let ghost prev = views(pieces@);
        assert(s@.take(i + 1).drop_last() =~= s@.take(i as int));
        assert(s@.take(i + 1).last() == c);
        if c == '/' {
            let ghost old_start = start;
            let piece = s.substring_char(start, i).to_owned();
            pieces.push(piece);
            start = i + 1;
            assert(views(pieces@) =~= prev.push(s@.subrange(old_start as int, i as int)));
            assert(s@.subrange(start as int, (i + 1) as int) =~= Seq::<char>::empty());
            assert(views(pieces@).push(s@.subrange(start as int, (i + 1) as int))
                =~= split_pieces(s@.take((i + 1) as int)));
        } else {
            assert(s@.subrange(start as int, (i + 1) as int) =~= s@.subrange(start as int, i as int).push(c));
            assert(views(pieces@).push(s@.subrange(start as int, (i + 1) as int))
                =~= split_pieces(s@.take((i + 1) as int)));
        }
        i = i + 1;
    }
    let last = s.substring_char(start, n).to_owned();
    assert(s@.take(n as int) =~= s@);
    pieces.push(last);
    assert(views(pieces@) =~= split_pieces(s@));
    pieces
}


/// Keeps the components of a list of pieces.
pub(crate) fn keep_components(pieces: &Vec<String>) -> (r: Vec<String>)
    ensures
        views(r@) == kept_components(views(pieces@)),
{
    let ghost pv = views(pieces@);
    let mut out: Vec<String> = Vec::new();
    let mut i: usize = 0;
    proof {
        lemma_kept_empty(pv);
        assert(views(out@) =~= kept_components(pv.take(0)));
    }
    while i < pieces.len()
        invariant
            i <= pieces.len(),
            pv == views(pieces@),
            views(out@) == kept_components(pv.take(i as int)),
        decreases pieces.len() - i,
    {
        let p = &pieces[i];
        let keep = !p.as_str().is_empty() && !str_eq(p.as_str(), ".");
        proof {
            lemma_is_dot_literal(p@);
            lemma_kept_step(pv, i as int);
            assert(pv[i as int] == p@);
        }
        if keep {
            out.push(p.clone());
            assert(views(out@) =~= kept_components(pv.take(i + 1)));
        } else {
            assert(views(out@) =~= kept_components(pv.take(i + 1)));
        }
        i = i + 1;
    }
    assert(pv.take(pieces.len() as int) =~= pv);
    out
}

/// A relative, normalized path inside a Wormhole drive, held as its components.
#[derive(Debug)]
pub struct WhPath {
    components: Vec<String>,
}

impl View for WhPath {
    type V = Seq<Seq<char>>;

    closed spec fn view(&self) -> Seq<Seq<char>> {
        views(self.components@)
    }
}

impl WhPath {
    /// Reads a text as a path; see [parse_whpath] for what is accepted.
    pub fn try_from_str(p: &str) -> (r: Result<WhPath, WhPathError>)
        ensures
            match parse_whpath(p@) {
                Ok(c) => r is Ok && r->Ok_0@ == c,
                Err(e) => r == Err::<WhPath, WhPathError>(e),
            },
    {
        let pieces = split_on_slash(p);
        let ghost pv = views(pieces@);
        proof {
            lemma_split_pieces_nonempty(p@);
            reveal_strlit("..");
            reveal_strlit(".");
        }
        if p.unicode_len() > 0 && p.get_char(0) == '/' {
            return Err(WhPathError::NotRelative);
        }
        proof {
            lemma_is_dot_literal(pv[0]);
        }
        if str_eq(pieces[0].as_str(), ".") {
            return Err(WhPathError::NotNormalized);
        }
        let mut i: usize = 0;
        while i < pieces.len()
            invariant
                i <= pieces.len(),
                pv == views(pieces@),
                pv == split_pieces(p@),
                !(p@.len() > 0 && p@[0] == '/'),
                forall|j: int| 0 <= j < i ==> !is_dotdot(#[trigger] pv[j]),
            decreases pieces.len() - i,
        {
            proof {
                lemma_is_dotdot_literal(pv[i as int]);
            }
            if str_eq(pieces[i].as_str(), "..") {
                assert(is_dotdot(pv[i as int]));
                return Err(WhPathError::NotNormalized);
            }
            i = i + 1;
        }
        let components = keep_components(&pieces);
        Ok(WhPath { components })
    }

    /// The path of the drive's root: no component.
    pub fn root() -> (r: WhPath)
        ensures
            r@ == Seq::<Seq<char>>::empty(),
    {
        let r = WhPath { components: Vec::new() };
        assert(r@ =~= Seq::<Seq<char>>::empty());
        r
    }

    /// The path made of one name, unchecked; an empty name makes the root path.
    pub fn from_name(name: &InodeName) -> (r: WhPath)
        ensures
            r@ == name_as_path(name@),
    {
        let mut components = Vec::new();
        if !name.0.as_str().is_empty() {
            components.push(name.0.clone());
        }
        let r = WhPath { components };
        assert(r@ =~= name_as_path(name@));
        r
    }

    /// The components of the path.
    pub fn iter(&self) -> (r: &[String])
        ensures
            views(r@) == self@,
    {
        self.components.as_slice()
    }

    /// Appends the components of `path`.
    pub fn push(&mut self, path: WhPath)
        ensures
            final(self)@ == old(self)@ + path@,
    {
        let ghost old_view = self@;
        let mut i: usize = 0;
        while i < path.components.len()
            invariant
                i <= path.components.len(),
                self@ == old_view + path@.take(i as int),
            decreases path.components.len() - i,
        {
            self.components.push(path.components[i].clone());
            assert(self@ =~= old_view + path@.take(i + 1));
            i = i + 1;
        }
        assert(path@.take(path.components.len() as int) =~= path@);
    }

    /// The path followed by the components of `path`.
    pub fn join(&self, path: &WhPath) -> (r: WhPath)
        ensures
            r@ == self@ + path@,
    {
        let mut r = self.clone();
        r.push(path.clone());
        r
    }

    /// The path without its last component; `None` for the root path.
    pub fn parent(&self) -> (r: Option<WhPath>)
        ensures
            self@.len() == 0 ==> r is None,
            self@.len() > 0 ==> r is Some && r->Some_0@ == self@.drop_last(),
    {
        let n = self.components.len();
        if n == 0 {
            return None;
        }
        let mut components = Vec::new();
        let mut i: usize = 0;
        while i < n - 1
            invariant
                n == self.components.len(),
                n > 0,
                i <= n - 1,
                views(components@) == self@.take(i as int),
            decreases n - 1 - i,
        {
            let ghost before = components@;
            components.push(self.components[i].clone());
            assert(components@ == before.push(self.components@[i as int]));
            assert(self@[i as int] == self.components@[i as int]@);
            assert(views(components@) =~= self@.take(i + 1));
            i = i + 1;
        }
        let r = WhPath { components };
        assert(r@ =~= self@.drop_last());
        Some(r)
    }

    /// The last component; `None` for the root path.
    pub fn file_name(&self) -> (r: Option<String>)
        ensures
            self@.len() == 0 ==> r is None,
            self@.len() > 0 ==> r is Some && r->Some_0@ == self@.last(),
    {
        let n = self.components.len();
        if n == 0 {
            None
        } else {
            Some(self.components[n - 1].clone())
        }
    }

    /// The path of `full_path` within the directory `make_relative_to`: the
    /// components of the first that follow those of the second, read as a
    /// drive path.
    ///
    /// `InvalidOperation` when `full_path` does not lie within
    /// `make_relative_to`; else as [WhPath::try_from_str] reads the rest.
    pub fn make_relative(full_path: &str, make_relative_to: &str) -> (r: Result<WhPath, WhPathError>)
        ensures
            ({
                let f = crate::pods::itree::fsentry::path_iter(full_path@);
                let b = crate::pods::itree::fsentry::path_iter(make_relative_to@);
                if !b.is_prefix_of(f) {
                    r == Err::<WhPath, WhPathError>(WhPathError::InvalidOperation)
                } else {
                    match parse_whpath(crate::pods::itree::fsentry::rebuilt(f.skip(b.len() as int))) {
                        Ok(c) => r matches Ok(p) && p@ == c,
                        Err(e) => r == Err::<WhPath, WhPathError>(e),
                    }
                }
            }),
    {
        let full = crate::pods::itree::fsentry::path_components(full_path);
        let base = crate::pods::itree::fsentry::path_components(make_relative_to);
        let ghost fv = views(full@);
        let ghost bv = views(base@);
        if base.len() > full.len() {
            return Err(WhPathError::InvalidOperation);
        }
        let mut i: usize = 0;
        while i < base.len()
            invariant
                i <= base.len(),
                base.len() <= full.len(),
                fv == views(full@),
                bv == views(base@),
                fv == crate::pods::itree::fsentry::path_iter(full_path@),
                bv == crate::pods::itree::fsentry::path_iter(make_relative_to@),
                forall|j: int| 0 <= j < i ==> bv[j] == fv[j],
            decreases base.len() - i,
        {
            if !str_eq(base[i].as_str(), full[i].as_str()) {
                assert(fv.subrange(0, bv.len() as int)[i as int] != bv[i as int]);
                return Err(WhPathError::InvalidOperation);
            }
            i = i + 1;
        }
        assert(bv =~= fv.subrange(0, bv.len() as int));
        let text = crate::pods::itree::fsentry::rebuild(&full, base.len());
        WhPath::try_from_str(text.as_str())
    }

    /// The path made of the last component alone.
    pub fn last_component(&self) -> (r: WhPath)
        requires
            self@.len() > 0,
        ensures
            r@ == seq![self@.last()],
    {
        let n = self.components.len();
        let mut components = Vec::new();
        components.push(self.components[n - 1].clone());
        let r = WhPath { components };
        assert(r@ =~= seq![self@.last()]);
        r
    }

    /// The text of the path: its components joined by `/`.
    pub fn as_string(&self) -> (r: String)
        ensures
            r@ == join_components(self@),
    {
        let mut out = String::new();
        let mut i: usize = 0;
        while i < self.components.len()
            invariant
                i <= self.components.len(),
                out@ == join_components(self@.take(i as int)),
            decreases self.components.len() - i,
        {
            assert(self@.take(i + 1).drop_last() =~= self@.take(i as int));
            if i > 0 {
                out.append("/");
                proof { reveal_strlit("/"); }
            } else {
                assert(self@.take(0) =~= Seq::<Seq<char>>::empty());
            }
            out.append(self.components[i].as_str());
            assert(out@ =~= join_components(self@.take(i + 1)));
            i = i + 1;
        }
        assert(self@.take(self.components.len() as int) =~= self@);
        out
    }

    /// Whether the two paths have the same components.
    pub fn same_as(&self, other: &WhPath) -> (r: bool)
        ensures
            r == (self@ == other@),
    {
        assert(self@.len() == self.components@.len());
        assert(other@.len() == other.components@.len());
        if self.components.len() != other.components.len() {
            return false;
        }
        let mut i: usize = 0;
        while i < self.components.len()
            invariant
                i <= self.components.len(),
                self.components.len() == other.components.len(),
                forall|j: int| 0 <= j < i ==> self@[j] == other@[j],
            decreases self.components.len() - i,
        {
            let same = self.components[i] == other.components[i];
            assert(self@[i as int] == self.components@[i as int]@);
            assert(other@[i as int] == other.components@[i as int]@);
            if !same {
                return false;
            }
            i = i + 1;
        }
        assert(self@ =~= other@);
        true
    }
}

impl Clone for WhPath {
    fn clone(&self) -> (r: WhPath)
        ensures
            r@ == self@,
    {
        let mut components = Vec::new();
        let mut i: usize = 0;
        while i < self.components.len()
            invariant
                i <= self.components.len(),
                views(components@) == self@.take(i as int),
            decreases self.components.len() - i,
        {
            components.push(self.components[i].clone());
            assert(views(components@) =~= self@.take(i + 1));
            i = i + 1;
        }
        assert(self@.take(self.components.len() as int) =~= self@);
        WhPath { components }
    }
}

/// Checks that a text can be a [WhPath]: relative, with no `..` component and
/// not starting with a `.` component.
pub fn is_valid_for_whpath(p: &str) -> (r: Result<(), WhPathError>)
    ensures
        match parse_whpath(p@) {
            Ok(_) => r is Ok,
            Err(e) => r == Err::<(), WhPathError>(e),
        },
{
    match WhPath::try_from_str(p) {
        Ok(_) => Ok(()),
        Err(e) => Err(e),
    }
}

/// The path of a single name: no component for the empty name.
pub open spec fn name_as_path(name: Seq<char>) -> Seq<Seq<char>> {
    if name.len() == 0 {
        Seq::empty()
    } else {
        seq![name]
    }
}

// SECTION Name

/// The name of an entry in its parent directory.
#[derive(Debug)]
pub struct InodeName(String);

impl View for InodeName {
    type V = Seq<char>;

    closed spec fn view(&self) -> Seq<char> {
        self.0@
    }
}

impl InodeName {
    /// Refuses a name holding `/` or `\\`.
    pub fn check(name: &str) -> (r: Result<(), InodeNameError>)
        ensures
            r is Ok <==> name_is_valid(name@),
    {
        let n = name.unicode_len();
        let mut i: usize = 0;
        while i < n
            invariant
                n == name@.len(),
                i <= n,
                forall|j: int| 0 <= j < i ==> name@[j] != '/' && name@[j] != '\\',
            decreases n - i,
        {
            let c = name.get_char(i);
            if c == '/' || c == '\\' {
                assert(name@.contains(c));
                return Err(InodeNameError {});
            }
            i = i + 1;
        }
        Ok(())
    }

    /// Makes a name of a text, refusing it as [Self::check] does.
    pub fn try_from_string(value: String) -> (r: Result<InodeName, InodeNameError>)
        ensures
            name_is_valid(value@) ==> r is Ok && r->Ok_0@ == value@,
            !name_is_valid(value@) ==> r is Err,
    {
        match InodeName::check(value.as_str()) {
            Ok(()) => Ok(InodeName(value)),
            Err(e) => Err(e),
        }
    }

    /// Makes a name of a text, refusing it as [Self::check] does.
    pub fn try_from_str(value: &str) -> (r: Result<InodeName, InodeNameError>)
        ensures
            name_is_valid(value@) ==> r is Ok && r->Ok_0@ == value@,
            !name_is_valid(value@) ==> r is Err,
    {
        InodeName::try_from_string(value.to_owned())
    }

    /// The name of the root directory: the empty name.
    pub fn root() -> (r: InodeName)
        ensures
            r@ == Seq::<char>::empty(),
    {
        InodeName(String::new())
    }

    /// The last component of a path, unchecked.
    pub fn from_whpath(path: &WhPath) -> (r: InodeName)
        requires
            path@.len() > 0,
        ensures
            r@ == path@.last(),
    {
        match path.file_name() {
            Some(n) => InodeName(n),
            None => InodeName(String::new()),
        }
    }

    pub fn as_str(&self) -> (r: &str)
        ensures
            r@ == self@,
    {
        self.0.as_str()
    }

    pub fn into_string(self) -> (r: String)
        ensures
            r@ == self@,
    {
        self.0
    }

    /// Whether the name is the text `other`.
    pub fn eq_str(&self, other: &str) -> (r: bool)
        ensures
            r == (self@ == other@),
    {
        str_eq(self.0.as_str(), other)
    }

    /// Whether the two names are the same text.
    pub fn same_as(&self, other: &InodeName) -> (r: bool)
        ensures
            r == (self@ == other@),
    {
        self.0 == other.0
    }
}

impl Clone for InodeName {
    fn clone(&self) -> (r: InodeName)
        ensures
            r@ == self@,
    {
        InodeName(self.0.clone())
    }
}

/// Whether `a` is `b` or lies above it.
pub fn path_prefix(a: &WhPath, b: &WhPath) -> (r: bool)
    ensures
        r == a@.is_prefix_of(b@),
{
    let ac = a.iter();
    let bc = b.iter();
    proof {
        assert(views(ac@).len() == ac@.len());
        assert(views(bc@).len() == bc@.len());
    }
    if ac.len() > bc.len() {
        return false;
    }
    let mut i: usize = 0;
    while i < ac.len()
        invariant
            i <= ac@.len() <= bc@.len(),
            views(ac@) == a@,
            views(bc@) == b@,
            forall|j: int| 0 <= j < i ==> a@[j] == b@[j],
        decreases ac@.len() - i,
    {
        assert(views(ac@)[i as int] == ac@[i as int]@);
        assert(views(bc@)[i as int] == bc@[i as int]@);
        if !str_eq(ac[i].as_str(), bc[i].as_str()) {
            assert(b@.subrange(0, a@.len() as int)[i as int] == b@[i as int]);
            return false;
        }
        i = i + 1;
    }
    assert(a@ =~= b@.subrange(0, a@.len() as int));
    true
}

} // verus!
