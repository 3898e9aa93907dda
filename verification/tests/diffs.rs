use std::sync::Arc;

use wormhole::pods::filesystem::diffs::{
    Delta, Dlt, Implementors, RSyncDelta, RSyncSig, Sig, Signature, UnDelta, UnSig,
};
use wormhole::pods::filesystem::File;

fn file(bytes: &[u8]) -> File {
    File(Arc::new(bytes.to_vec()))
}

#[test]
fn test_rsync_sig_empty() {
    let empty_sig_ref: [u8; 12] = [114, 115, 1, 55, 0, 0, 8, 0, 0, 0, 0, 32];

    let empty = File::empty();
    let sig = RSyncSig::new(&empty).unwrap();

    assert_eq!(&sig.data[..], &empty_sig_ref);
}

#[test]
fn rsync_delta_rebuilds_the_new_file() {
    let base: Vec<u8> = (0..5000u32).map(|i| (i * 7 % 251) as u8).collect();
    let mut new = base.clone();
    new.splice(1200..1300, [9u8; 40].iter().cloned());
    let sig = RSyncSig::new(&file(&base)).unwrap();
    assert_ne!(sig.data, base);
    let delta: RSyncDelta = sig.diff(&file(&new)).unwrap();
    assert!(delta.data.len() < new.len());
    let patched = delta.patch(&file(&base)).unwrap();
    assert_eq!(*patched.0, new);
}

#[test]
fn signature_of_the_same_file_is_the_same() {
    let a = Signature::new_using(&file(b"some contents"), Implementors::RSync).unwrap();
    let b = Signature::new_using(&file(b"some contents"), Implementors::RSync).unwrap();
    let c = Signature::new_using(&file(b"other contents"), Implementors::RSync).unwrap();
    assert!(a.same_as(&b));
    assert!(!a.same_as(&c));
    assert!(matches!(a.implementor(), Implementors::RSync));
}

#[test]
fn uncompressed_method_sends_the_whole_file() {
    let sig = Signature::new_using(&file(b"old"), Implementors::UnDelta).unwrap();
    assert!(matches!(sig, Signature::UnSig(_)));
    assert!(matches!(sig.implementor(), Implementors::UnDelta));
    assert_eq!(sig.size(), 0);
    let delta = sig.diff(&file(b"brand new")).unwrap();
    assert_eq!(delta.size(), 9);
    let patched = delta.patch(&file(b"old")).unwrap();
    assert_eq!(&patched.0[..], b"brand new");
    let un = UnDelta::diff(&UnSig {}, &file(b"abc")).unwrap();
    assert_eq!(un.data, b"abc".to_vec());
}

#[test]
fn generic_delta_patches_with_rsync() {
    let base = file(b"the quick brown fox jumps over the lazy dog");
    let new = file(b"the quick red fox jumps over the lazy dogs");
    let sig = Signature::new(&base).unwrap();
    assert!(matches!(sig, Signature::RSyncSig(_)));
    let delta = sig.diff(&new).unwrap();
    assert!(matches!(delta, Delta::RSyncDelta(_)));
    let patched = delta.patch(&base).unwrap();
    assert_eq!(patched.0, new.0);
}

#[test]
fn garbage_delta_is_an_error() {
    let delta = Delta::RSyncDelta(RSyncDelta { data: vec![1, 2, 3, 4, 5] });
    assert!(delta.patch(&file(b"base")).is_err());
}

#[test]
fn empty_file_is_empty() {
    assert!(File::empty().0.is_empty());
}

/// Bytes that look random, the same on every run.
fn noise(len: usize, seed: u64) -> Vec<u8> {
    let mut state = seed;
    (0..len)
        .map(|_| {
            state = state.wrapping_mul(6364136223846793005).wrapping_add(1442695040888963407);
            (state >> 33) as u8
        })
        .collect()
}

#[test]
fn test_rsync_diff() {
    let file = File(Arc::new(noise(7830, 1)));

    let sig = RSyncSig::new(&file).unwrap();

    let change = noise(1057, 2);
    let changed_file = {
        let mut data = (*file.0).clone();
        data.splice(2630..2701, change.iter().cloned());
        File(Arc::new(data))
    };

    let diff: RSyncDelta = sig.diff(&changed_file).unwrap();

    let sig_dest = RSyncSig::new(&file).unwrap(); // the remote holds the same contents
    assert_eq!(sig.data, sig_dest.data);

    let patched_file = diff.patch(&file).unwrap();
    assert_eq!(patched_file.0, changed_file.0);

    assert!(diff.data.len() < changed_file.0.len());
}
