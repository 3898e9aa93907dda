use vstd::prelude::*;

use std::io::Read;
use std::sync::Arc;

use super::File;

verus! {

// SECTION librsync

#[verifier::external_type_specification]
#[verifier::external_body]
pub struct ExRsyncError(librsync::Error);

/// The signature that librsync computes of a base file, with its default
/// settings (BLAKE2 sums over blocks of 2048 bytes).
pub uninterp spec fn rsync_signature(base: Seq<u8>) -> Seq<u8>;

/// The delta that librsync computes of a new file against a signature.
pub uninterp spec fn rsync_delta(new: Seq<u8>, sig: Seq<u8>) -> Seq<u8>;

/// The file that librsync rebuilds of a base file and a delta.
pub uninterp spec fn rsync_patch(base: Seq<u8>, delta: Seq<u8>) -> Seq<u8>;

/// Calls `librsync::whole::signature` on the bytes of `base`.
///
/// Claims that a successful call returns [rsync_signature] of the bytes.
/// When the call fails (librsync reports an allocation or internal error) the
/// error is handed back and nothing more is said of it.
#[verifier::external_body]
fn rsync_sign(base: &[u8]) -> (r: Result<Vec<u8>, librsync::Error>)
    ensures
        r matches Ok(data) ==> data@ == rsync_signature(base@),
{
    let mut data = Vec::new();
    match librsync::whole::signature(&mut std::io::Cursor::new(base), &mut data) {
        Ok(_) => Ok(data),
        Err(e) => Err(e),
    }
}

/// Builds a `librsync::Delta` of `new` against the signature `sig` and reads it whole.
///
/// Claims that a successful call returns [rsync_delta] of the two byte
/// sequences. A signature that librsync cannot read makes the call fail.
#[verifier::external_body]
fn rsync_diff(new: &[u8], sig: &[u8]) -> (r: Result<Vec<u8>, librsync::Error>)
    ensures
        r matches Ok(data) ==> data@ == rsync_delta(new@, sig@),
{
    let mut data = Vec::new();
    let mut delta = match librsync::Delta::new(std::io::Cursor::new(new), &mut std::io::Cursor::new(sig)) {
        Ok(delta) => delta,
        Err(e) => return Err(e),
    };
    match delta.read_to_end(&mut data) {
        Ok(_) => Ok(data),
        Err(e) => Err(librsync::Error::from(e)),
    }
}

/// Builds a `librsync::Patch` of the base file `base` with the delta `delta` and
/// reads it whole.
///
/// Claims that a successful call returns [rsync_patch] of the two byte
/// sequences, and, as the crate's documentation promises, that patching a base
/// with the delta of a new file against the base's signature succeeds and gives
/// back the new file. A delta that librsync cannot read makes the call fail.
#[verifier::external_body]
fn rsync_apply(base: &[u8], delta: &[u8]) -> (r: Result<Vec<u8>, librsync::Error>)
    ensures
        r matches Ok(data) ==> data@ == rsync_patch(base@, delta@),
        forall|new: Seq<u8>|
            delta@ == #[trigger] rsync_delta(new, rsync_signature(base@)) ==> r is Ok && r->Ok_0@ == new,
{
    let mut data = Vec::new();
    let mut patch = match librsync::Patch::new(std::io::Cursor::new(base), std::io::Cursor::new(delta)) {
        Ok(patch) => patch,
        Err(e) => return Err(e),
    };
    match patch.read_to_end(&mut data) {
        Ok(_) => Ok(data),
        Err(e) => Err(librsync::Error::from(e)),
    }
}

// !SECTION

// SECTION traits

/// Signing is a function of the file: two signatures that librsync made of
/// the same file hold the same bytes.
pub proof fn lemma_signatures_agree(a: RSyncSig, b: RSyncSig, file: Seq<u8>)
    requires
        a.data@ == rsync_signature(file),
        b.data@ == rsync_signature(file),
    ensures
        a.data@ == b.data@,
{
}

/// A difference that rebuilds a file from another.
pub trait Dlt: Sized {
    type Error;

    /// Applies the difference to `file`.
    fn patch(&self, file: &File) -> Result<File, Self::Error>;

    /// The number of bytes the difference holds.
    fn size(&self) -> usize;
}

/// A summary of a file, against which the difference of another file is taken.
pub trait Sig: Sized {
    type Error;
    type Delta: Dlt;

    /// The summary of `file`.
    fn new(file: &File) -> Result<Self, Self::Error>;

    /// The difference that turns the summarised file into `with`.
    fn diff(&self, with: &File) -> Result<Self::Delta, Self::Error>;

    /// The number of bytes the summary holds.
    fn size(&self) -> usize;
}

// !SECTION

// SECTION without compression

/// The summary of the uncompressed method: it holds nothing.
#[derive(Debug, Clone, Copy, PartialEq, Eq)]
pub struct UnSig {}

/// The difference of the uncompressed method: the whole new file.
#[derive(Debug)]
pub struct UnDelta {
    pub data: Vec<u8>,
}

impl UnSig {
    /// The summary of any file: always made.
    pub fn try_from(file: &File) -> (r: Result<UnSig, ()>)
        ensures
            r == Ok::<UnSig, ()>(UnSig {  }),
    {
        Ok(UnSig {  })
    }
}

impl Sig for UnSig {
    type Error = ();
    type Delta = UnDelta;

    fn new(file: &File) -> (r: Result<UnSig, ()>)
        ensures
            r == Ok::<UnSig, ()>(UnSig {  }),
    {
        UnSig::try_from(file)
    }

    fn diff(&self, with: &File) -> (r: Result<UnDelta, ()>)
        ensures
            r matches Ok(d) && d.data@ == with@,
    {
        UnDelta::diff(self, with)
    }

    fn size(&self) -> (r: usize)
        ensures
            r == 0,
    {
        0
    }
}

impl Dlt for UnDelta {
    type Error = ();

    fn patch(&self, file: &File) -> (r: Result<File, ()>)
        ensures
            r matches Ok(f) && f@ == self.data@,
    {
        Ok(File(Arc::new(self.data.clone())))
    }

    fn size(&self) -> (r: usize)
        ensures
            r == self.data@.len(),
    {
        self.data.len()
    }
}

impl UnDelta {
    /// The difference that turns any file into `with`: `with` itself.
    pub fn diff(sig: &UnSig, with: &File) -> (r: Result<UnDelta, ()>)
        ensures
            r matches Ok(d) && d.data@ == with@,
    {
        let data: Vec<u8> = (*with.0).clone();
        Ok(UnDelta { data })
    }
}

// !SECTION

// SECTION with librsync

/// A librsync signature.
#[derive(Debug, PartialEq, Eq)]
pub struct RSyncSig {
    pub data: Vec<u8>,
}

/// A librsync delta.
#[derive(Debug)]
pub struct RSyncDelta {
    pub data: Vec<u8>,
}

impl RSyncSig {
    /// The librsync signature of `file`.
    pub fn try_from(file: &File) -> (r: Result<RSyncSig, librsync::Error>)
        ensures
            r matches Ok(s) ==> s.data@ == rsync_signature(file@),
    {
        match rsync_sign((*file.0).as_slice()) {
            Ok(data) => Ok(RSyncSig { data }),
            Err(e) => Err(e),
        }
    }
}

impl Sig for RSyncSig {
    type Error = librsync::Error;
    type Delta = RSyncDelta;

    fn new(file: &File) -> (r: Result<RSyncSig, librsync::Error>)
        ensures
            r matches Ok(s) ==> s.data@ == rsync_signature(file@),
    {
        RSyncSig::try_from(file)
    }

    fn diff(&self, with: &File) -> (r: Result<RSyncDelta, librsync::Error>)
        ensures
            r matches Ok(d) ==> d.data@ == rsync_delta(with@, self.data@),
    {
        RSyncDelta::diff(self, with)
    }

    fn size(&self) -> (r: usize)
        ensures
            r == self.data@.len(),
    {
        self.data.len()
    }
}

impl Dlt for RSyncDelta {
    type Error = librsync::Error;

    fn patch(&self, file: &File) -> (r: Result<File, librsync::Error>)
        ensures
            r matches Ok(f) ==> f@ == rsync_patch(file@, self.data@),
            forall|new: Seq<u8>|
                self.data@ == #[trigger] rsync_delta(new, rsync_signature(file@)) ==> (r matches Ok(
                    f,
                ) && f@ == new),
    {
        match rsync_apply((*file.0).as_slice(), self.data.as_slice()) {
            Ok(data) => Ok(File(Arc::new(data))),
            Err(e) => Err(e),
        }
    }

    fn size(&self) -> (r: usize)
        ensures
            r == self.data@.len(),
    {
        self.data.len()
    }
}

impl RSyncDelta {
    /// The librsync delta of `with` against the signature `sig`.
    pub fn diff(sig: &RSyncSig, with: &File) -> (r: Result<RSyncDelta, librsync::Error>)
        ensures
            r matches Ok(d) ==> d.data@ == rsync_delta(with@, sig.data@),
    {
        match rsync_diff((*with.0).as_slice(), sig.data.as_slice()) {
            Ok(data) => Ok(RSyncDelta { data }),
            Err(e) => Err(e),
        }
    }
}

// !SECTION

// SECTION copies

impl Clone for UnDelta {
    fn clone(&self) -> (r: UnDelta)
        ensures
            r.data@ == self.data@,
    {
        UnDelta { data: self.data.clone() }
    }
}

impl Clone for RSyncSig {
    fn clone(&self) -> (r: RSyncSig)
        ensures
            r.data@ == self.data@,
    {
        RSyncSig { data: self.data.clone() }
    }
}

impl Clone for RSyncDelta {
    fn clone(&self) -> (r: RSyncDelta)
        ensures
            r.data@ == self.data@,
    {
        RSyncDelta { data: self.data.clone() }
    }
}

impl Clone for Signature {
    fn clone(&self) -> (r: Signature)
        ensures
            r.same_bytes(*self),
    {
        match self {
            Signature::RSyncSig(s) => Signature::RSyncSig(s.clone()),
            Signature::UnSig(s) => Signature::UnSig(*s),
        }
    }
}

impl Clone for Delta {
    fn clone(&self) -> (r: Delta)
        ensures
            r.same_bytes(*self),
    {
        match self {
            Delta::RSyncDelta(d) => Delta::RSyncDelta(d.clone()),
            Delta::UnDelta(d) => Delta::UnDelta(d.clone()),
        }
    }
}

// !SECTION

// SECTION generic wrappers

/// Why a summary, a difference or a patch could not be made.
#[derive(Debug, Clone)]
pub enum DiffError {
    RSyncError { rsync: Arc<librsync::Error> },
    UnError,
}

impl DiffError {
    /// Wraps an error of librsync.
    pub fn from_rsync(rsync: librsync::Error) -> (r: DiffError)
        ensures
            r matches DiffError::RSyncError { rsync: wrapped } && *wrapped == rsync,
    {
        DiffError::RSyncError { rsync: Arc::new(rsync) }
    }
}

/// The methods by which a difference can be taken.
#[derive(Debug, Clone, Copy, PartialEq, Eq)]
pub enum Implementors {
    RSync,
    UnDelta,
}

/// A summary made by one of the methods.
#[derive(Debug, PartialEq, Eq)]
pub enum Signature {
    RSyncSig(RSyncSig),
    UnSig(UnSig),
}

/// A difference made by one of the methods.
#[derive(Debug)]
pub enum Delta {
    RSyncDelta(RSyncDelta),
    UnDelta(UnDelta),
}

impl Signature {
    /// Whether this is the summary of the file `base` by its method.
    pub open spec fn signs(self, base: Seq<u8>) -> bool {
        match self {
            Signature::RSyncSig(s) => s.data@ == rsync_signature(base),
            Signature::UnSig(_) => true,
        }
    }

    /// The two summaries are of the same method and hold the same bytes.
    pub open spec fn same_bytes(self, other: Signature) -> bool {
        match (self, other) {
            (Signature::RSyncSig(a), Signature::RSyncSig(b)) => a.data@ == b.data@,
            (Signature::UnSig(_), Signature::UnSig(_)) => true,
            _ => false,
        }
    }

    /// The method this summary was made by.
    pub open spec fn method(self) -> Implementors {
        match self {
            Signature::RSyncSig(_) => Implementors::RSync,
            Signature::UnSig(_) => Implementors::UnDelta,
        }
    }

    /// The summary of `file` by the method `i`.
    pub fn new_using(file: &File, i: Implementors) -> (r: Result<Signature, DiffError>)
        ensures
            r matches Ok(s) ==> s.method() == i && s.signs(file@),
            r is Err ==> i == Implementors::RSync && r->Err_0 is RSyncError,
            i == Implementors::UnDelta ==> r is Ok,
    {
        match i {
            Implementors::RSync => match RSyncSig::try_from(file) {
                Ok(s) => Ok(Signature::RSyncSig(s)),
                Err(e) => Err(DiffError::from_rsync(e)),
            },
            Implementors::UnDelta => match UnSig::try_from(file) {
                Ok(s) => Ok(Signature::UnSig(s)),
                Err(_) => Err(DiffError::UnError),
            },
        }
    }

    /// The method this summary was made by.
    pub fn implementor(&self) -> (r: Implementors)
        ensures
            r == self.method(),
    {
        match self {
            Signature::RSyncSig(_) => Implementors::RSync,
            Signature::UnSig(_) => Implementors::UnDelta,
        }
    }

    /// Whether the two summaries are the same, method and bytes.
    pub fn same_as(&self, other: &Signature) -> (r: bool)
        ensures
            r == self.same_bytes(*other),
    {
        match (self, other) {
            (Signature::RSyncSig(a), Signature::RSyncSig(b)) => bytes_eq(&a.data, &b.data),
            (Signature::UnSig(_), Signature::UnSig(_)) => true,
            _ => false,
        }
    }
}

/// Equality of two byte sequences.
pub fn bytes_eq(a: &Vec<u8>, b: &Vec<u8>) -> (r: bool)
    ensures
        r == (a@ == b@),
{
    if a.len() != b.len() {
        return false;
    }
    let mut i: usize = 0;
    while i < a.len()
        invariant
            a.len() == b.len(),
            i <= a.len(),
            forall|j: int| 0 <= j < i ==> a@[j] == b@[j],
        decreases a.len() - i,
    {
        if a[i] != b[i] {
            return false;
        }
        i = i + 1;
    }
    assert(a@ =~= b@);
    true
}

impl Delta {
    /// The two differences are of the same method and hold the same bytes.
    pub open spec fn same_bytes(self, other: Delta) -> bool {
        match (self, other) {
            (Delta::RSyncDelta(a), Delta::RSyncDelta(b)) => a.data@ == b.data@,
            (Delta::UnDelta(a), Delta::UnDelta(b)) => a.data@ == b.data@,
            _ => false,
        }
    }

    /// Whether this difference, made against the summary `sig`, turns the
    /// summarised file into `new`.
    pub open spec fn made_of(self, sig: Signature, new: Seq<u8>) -> bool {
        match (sig, self) {
            (Signature::RSyncSig(s), Delta::RSyncDelta(d)) => d.data@ == rsync_delta(new, s.data@),
            (Signature::UnSig(_), Delta::UnDelta(d)) => d.data@ == new,
            _ => false,
        }
    }

    /// Whether this difference is the one that turns `base` into `new`, as
    /// made against the summary of `base`.
    pub open spec fn rebuilds(self, base: Seq<u8>, new: Seq<u8>) -> bool {
        match self {
            Delta::RSyncDelta(d) => d.data@ == rsync_delta(new, rsync_signature(base)),
            Delta::UnDelta(d) => d.data@ == new,
        }
    }

    /// What patching `base` with this difference gives, when it succeeds.
    pub open spec fn patched(self, base: Seq<u8>) -> Seq<u8> {
        match self {
            Delta::RSyncDelta(d) => rsync_patch(base, d.data@),
            Delta::UnDelta(d) => d.data@,
        }
    }
}

/// A difference taken against the summary of a file rebuilds the new file
/// from that file.
pub proof fn lemma_diff_rebuilds(sig: Signature, delta: Delta, base: Seq<u8>, new: Seq<u8>)
    requires
        sig.signs(base),
        delta.made_of(sig, new),
    ensures
        delta.rebuilds(base, new),
{
}

impl Sig for Signature {
    type Error = DiffError;
    type Delta = Delta;

    fn new(file: &File) -> (r: Result<Signature, DiffError>)
        ensures
            r matches Ok(s) ==> s.method() == Implementors::RSync && s.signs(file@),
            r is Err ==> r->Err_0 is RSyncError,
    {
        match RSyncSig::try_from(file) {
            Ok(s) => Ok(Signature::RSyncSig(s)),
            Err(e) => Err(DiffError::from_rsync(e)),
        }
    }

    fn diff(&self, with: &File) -> (r: Result<Delta, DiffError>)
        ensures
            r matches Ok(d) ==> d.made_of(*self, with@),
            r is Err ==> self is RSyncSig && r->Err_0 is RSyncError,
            self is UnSig ==> r is Ok,
    {
        match self {
            Signature::RSyncSig(sig) => match RSyncDelta::diff(sig, with) {
                Ok(d) => Ok(Delta::RSyncDelta(d)),
                Err(e) => Err(DiffError::from_rsync(e)),
            },
            Signature::UnSig(sig) => match UnDelta::diff(sig, with) {
                Ok(d) => Ok(Delta::UnDelta(d)),
                Err(_) => Err(DiffError::UnError),
            },
        }
    }

    fn size(&self) -> (r: usize)
        ensures
            r == match self {
                Signature::RSyncSig(s) => s.data@.len(),
                Signature::UnSig(_) => 0,
            },
    {
        match self {
            Signature::RSyncSig(sig) => sig.size(),
            Signature::UnSig(sig) => sig.size(),
        }
    }
}

impl Dlt for Delta {
    type Error = DiffError;

    fn patch(&self, file: &File) -> (r: Result<File, DiffError>)
        ensures
            r matches Ok(f) ==> f@ == self.patched(file@),
            forall|new: Seq<u8>| #[trigger] self.rebuilds(file@, new) ==> (r matches Ok(f) && f@ == new),
            r is Err ==> self is RSyncDelta && r->Err_0 is RSyncError,
            self is UnDelta ==> r is Ok,
    {
        match self {
            Delta::RSyncDelta(delta) => match delta.patch(file) {
                Ok(f) => Ok(f),
                Err(e) => Err(DiffError::from_rsync(e)),
            },
            Delta::UnDelta(delta) => match delta.patch(file) {
                Ok(f) => Ok(f),
                Err(_) => Err(DiffError::UnError),
            },
        }
    }

    fn size(&self) -> (r: usize)
        ensures
            r == match self {
                Delta::RSyncDelta(d) => d.data@.len(),
                Delta::UnDelta(d) => d.data@.len(),
            },
    {
        match self {
            Delta::RSyncDelta(d) => d.size(),
            Delta::UnDelta(d) => d.size(),
        }
    }
}

// !SECTION

} // verus!
