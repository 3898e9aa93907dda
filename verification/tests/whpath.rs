use wormhole::error::IoKind;
use wormhole::pods::itree::fsentry::{EntrySymlink, SymlinkPath};
use wormhole::pods::whpath::{is_valid_for_whpath, ConversionError, InodeName, InodeNameError, WhPath, WhPathError};

#[test]
fn paths_are_read_as_relative_normal_components() {
    let p = WhPath::try_from_str("a//b/./c/").unwrap();
    assert_eq!(p.as_string(), "a/b/c");
    assert_eq!(p.iter().len(), 3);
    assert_eq!(WhPath::try_from_str("").unwrap().as_string(), "");
    assert!(matches!(WhPath::try_from_str("/a"), Err(WhPathError::NotRelative)));
    assert!(matches!(WhPath::try_from_str("a/../b"), Err(WhPathError::NotNormalized)));
    assert!(matches!(WhPath::try_from_str("./a"), Err(WhPathError::NotNormalized)));
}

#[test]
fn validity_check_matches_the_reading() {
    assert!(is_valid_for_whpath("a/b").is_ok());
    assert!(matches!(is_valid_for_whpath("/a/b"), Err(WhPathError::NotRelative)));
    assert!(matches!(is_valid_for_whpath("a/.."), Err(WhPathError::NotNormalized)));
}

#[test]
fn path_operations() {
    let mut p = WhPath::try_from_str("a/b").unwrap();
    let q = WhPath::try_from_str("c").unwrap();
    assert_eq!(p.join(&q).as_string(), "a/b/c");
    assert_eq!(p.parent().unwrap().as_string(), "a");
    assert!(WhPath::root().parent().is_none());
    assert_eq!(p.file_name().unwrap(), "b");
    p.push(q);
    assert_eq!(p.as_string(), "a/b/c");
    assert!(p.same_as(&WhPath::try_from_str("a/b/c").unwrap()));
    assert!(!p.same_as(&WhPath::try_from_str("a/b").unwrap()));
    let n = InodeName::try_from_str("x").unwrap();
    assert_eq!(WhPath::from_name(&n).as_string(), "x");
    assert_eq!(WhPath::from_name(&InodeName::root()).as_string(), "");
}

#[test]
fn relative_paths_within_a_directory() {
    assert_eq!(WhPath::make_relative("/mnt/pod/a/b", "/mnt/pod").unwrap().as_string(), "a/b");
    assert_eq!(WhPath::make_relative("/mnt/pod", "/mnt/pod").unwrap().as_string(), "");
    assert!(matches!(WhPath::make_relative("/mnt/other/a", "/mnt/pod"), Err(WhPathError::InvalidOperation)));
    assert!(matches!(WhPath::make_relative("/mnt", "/mnt/pod"), Err(WhPathError::InvalidOperation)));
}

#[test]
fn names_refuse_separators() {
    assert!(InodeName::check("file.txt").is_ok());
    assert!(InodeName::check("a/b").is_err());
    assert!(InodeName::check("a\\b").is_err());
    assert!(InodeName::try_from_str("a/b").is_err());
    let n = InodeName::try_from_string("name".to_string()).unwrap();
    assert_eq!(n.as_str(), "name");
    assert!(n.eq_str("name"));
    assert_eq!(n.clone().into_string(), "name");
}

#[test]
fn errors_and_their_io_kinds() {
    assert!(matches!(InodeNameError {}.io_kind(), IoKind::InvalidFilename));
    assert_eq!(InodeNameError {}.message(), "Name contains forbidden character(s)");
    assert_eq!(InodeNameError {}.to_io().kind(), std::io::ErrorKind::InvalidFilename);
    assert_eq!(ConversionError {}.into_io().kind(), std::io::ErrorKind::InvalidData);
    assert!(matches!(WhPathError::NotNormalized.io_kind(), IoKind::InvalidFilename));
    assert_eq!(WhPathError::NotRelative.message(), "Path is not relative");
    assert_eq!(WhPathError::NotNormalized.to_io().kind(), std::io::ErrorKind::InvalidFilename);
    assert_eq!(WhPathError::InvalidOperation.to_io().kind(), std::io::ErrorKind::Other);
}

#[test]
fn symlinks_inside_and_outside_the_drive() {
    let rel = EntrySymlink::parse("../file", "/mountpoint").unwrap();
    assert!(matches!(&rel.target, SymlinkPath::SymlinkPathRelative(p) if p == "../file"));
    let inside = EntrySymlink::parse("/mountpoint/folder/./x/../file", "/mountpoint").unwrap();
    assert!(matches!(&inside.target, SymlinkPath::SymlinkPathAbsolute(p) if p.as_string() == "folder/file"));
    let outside = EntrySymlink::parse("/tmp/file", "/mountpoint").unwrap_err();
    assert!(matches!(&outside.target, SymlinkPath::SymlinkPathExternal(b) if b == b"/tmp/file"));
    assert!(matches!(EntrySymlink::from_absolute("tmp/file", "/mountpoint"), Err(None)));
    assert!(matches!(EntrySymlink::from_absolute("/mount", "/mountpoint"), Err(None)));
    let default = EntrySymlink::default();
    assert!(matches!(&default.target, SymlinkPath::SymlinkPathRelative(p) if p == "."));
}

#[test]
fn test_parse_symlink() {
    let mountpoint = "/mountpoint";
    let relative = "../file";
    let absolute = "/mountpoint/folder/file";
    let external = "/tmp/file";

    let symlink_relative = EntrySymlink::parse(relative, mountpoint).expect("parsing relative symlink");
    assert!(matches!(&symlink_relative.target, SymlinkPath::SymlinkPathRelative(p) if p == "../file"));
    assert!(symlink_relative.hint.is_none());

    let symlink_absolute = EntrySymlink::parse(absolute, mountpoint).expect("parsing absolute symlink");
    let expected = WhPath::try_from_str("folder/file").expect("valid WhPath");
    assert!(matches!(&symlink_absolute.target, SymlinkPath::SymlinkPathAbsolute(p) if p.same_as(&expected)));
    assert!(symlink_absolute.hint.is_none());

    let symlink_external =
        EntrySymlink::parse(external, mountpoint).expect_err("parsing external symlink yields Err(Self)");
    assert!(matches!(&symlink_external.target, SymlinkPath::SymlinkPathExternal(b) if b == b"/tmp/file"));
    assert!(symlink_external.hint.is_none());
}
