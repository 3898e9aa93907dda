use wormhole::error::IoKind;
use wormhole::pods::disk_managers::DiskManager;
use wormhole::pods::disk_managers::dummy_disk_manager::{DummyDiskManager, VirtualFile};
use wormhole::pods::filesystem::fs_interface::SimpleFileType;
use wormhole::pods::whpath::WhPath;

fn p(s: &str) -> WhPath {
    WhPath::try_from_str(s).unwrap()
}

fn read_all(d: &DummyDiskManager, path: &str, len: usize) -> Vec<u8> {
    let mut buf = vec![0u8; len];
    let n = d.read_file(&p(path), 0, &mut buf).unwrap();
    buf.truncate(n);
    buf
}

#[test]
fn a_read_gives_back_what_was_written() {
    let mut d = DummyDiskManager::new("/mnt").unwrap();
    d.new_file(&p("f"), 0o644).unwrap();
    assert_eq!(d.write_file(&p("f"), b"hello", 0).unwrap(), 5);
    assert_eq!(d.total_size(), 5);
    assert_eq!(d.write_file(&p("f"), b"p!", 3).unwrap(), 2);
    assert_eq!(read_all(&d, "f", 10), b"help!".to_vec());
    assert_eq!(d.write_file(&p("f"), b"ful", 4).unwrap(), 3);
    assert_eq!(read_all(&d, "f", 10), b"helpful".to_vec());
    assert_eq!(d.total_size(), 7);
    let mut buf = [9u8; 4];
    assert_eq!(d.read_file(&p("f"), 5, &mut buf).unwrap(), 2);
    assert_eq!(buf, [b'u', b'l', 9, 9]);
}

#[test]
fn resizing_files() {
    let mut d = DummyDiskManager::new("/mnt").unwrap();
    d.new_file(&p("f"), 0o644).unwrap();
    d.write_file(&p("f"), b"abcdef", 0).unwrap();
    d.set_file_size(&p("f"), 3).unwrap();
    assert_eq!(read_all(&d, "f", 10), b"abc".to_vec());
    assert_eq!(d.total_size(), 3);
    d.set_file_size(&p("f"), 5).unwrap();
    assert_eq!(read_all(&d, "f", 10), vec![b'a', b'b', b'c', 0, 0]);
    assert_eq!(d.total_size(), 5);
    assert!(matches!(d.set_file_size(&p("nope"), 1), Err(IoKind::NotFound)));
}

#[test]
fn files_and_folders() {
    let mut d = DummyDiskManager::new("/mnt").unwrap();
    d.new_dir(&p("a"), 0o755).unwrap();
    d.new_file(&p("a/f"), 0o644).unwrap();
    assert!(d.file_exists(&p("a/f")));
    assert!(matches!(d.new_file(&p("b/f"), 0o644), Err(IoKind::NotFound)));
    assert!(matches!(d.new_file(&p("a/f/g"), 0o644), Err(IoKind::InvalidData)));
    assert!(matches!(d.new_file(&p("a"), 0o644), Err(IoKind::AlreadyExists)));
    assert!(matches!(d.read_file(&p("zz"), 0, &mut [0u8; 1]), Err(IoKind::NotFound)));
    assert!(matches!(d.write_file(&p("zz"), b"x", 0), Err(IoKind::NotFound)));
    d.new_dir(&p("b"), 0o755).unwrap();
    d.new_file(&p("b/g"), 0o644).unwrap();
    d.write_file(&p("b/g"), b"xyz", 0).unwrap();
    d.remove_file(&p("b/g")).unwrap();
    assert!(!d.file_exists(&p("b/g")));
    assert_eq!(d.total_size(), 0);
    assert!(matches!(d.remove_file(&p("b/g")), Err(IoKind::NotFound)));
    d.remove_dir(&p("b")).unwrap();
    assert!(!d.file_exists(&p("b")));
    assert!(d.set_permisions(&p("a"), 0o700).is_ok());
    assert!(matches!(VirtualFile::File(vec![]).kind(), SimpleFileType::File));
    assert_eq!(d.size_info(10).unwrap().total_size, 0);
}

#[test]
fn moving_a_folder_moves_what_it_lists() {
    let mut d = DummyDiskManager::new("/mnt").unwrap();
    d.new_dir(&p("a"), 0o755).unwrap();
    d.new_file(&p("a/f"), 0o644).unwrap();
    d.write_file(&p("a/f"), b"data", 0).unwrap();
    d.new_dir(&p("b"), 0o755).unwrap();
    d.mv_file(&p("a"), &p("b/c")).unwrap();
    assert!(!d.file_exists(&p("a")));
    assert!(!d.file_exists(&p("a/f")));
    assert!(d.file_exists(&p("b/c")));
    assert_eq!(read_all(&d, "b/c/f", 10), b"data".to_vec());
    assert_eq!(d.total_size(), 4);
    assert!(matches!(d.mv_file(&p("x/y"), &p("z")), Err(IoKind::NotFound)));
}

#[test]
fn the_disk_operations_refuse_what_the_memory_disk_cannot_take() {
    let mut d = DummyDiskManager::new("/mnt").unwrap();
    let root = WhPath::root();
    assert!(matches!(DiskManager::new_file(&mut d, &root, 0o644), Err(IoKind::InvalidInput)));
    assert!(matches!(DiskManager::remove_dir(&mut d, &root), Err(IoKind::InvalidInput)));
    DiskManager::new_file(&mut d, &p("f"), 0o644).unwrap();
    assert_eq!(DiskManager::write_file(&mut d, &p("f"), b"abc", 0).unwrap(), 3);
    assert!(matches!(DiskManager::write_file(&mut d, &p("f"), b"x", 4), Err(IoKind::InvalidInput)));
    let mut buf = [0u8; 2];
    assert!(matches!(DiskManager::read_file(&d, &p("f"), 4, &mut buf), Err(IoKind::InvalidInput)));
    assert_eq!(DiskManager::read_file(&d, &p("f"), 1, &mut buf).unwrap(), 2);
    assert_eq!(buf, [b'b', b'c']);
    DiskManager::new_dir(&mut d, &p("a"), 0o755).unwrap();
    assert!(matches!(DiskManager::mv_file(&mut d, &root, &p("a/b")), Err(IoKind::InvalidInput)));
    DiskManager::mv_file(&mut d, &p("a"), &p("a/b")).unwrap();
    assert!(!DiskManager::file_exists(&d, &p("a")));
    assert!(DiskManager::file_exists(&d, &p("a/b")));
    DiskManager::remove_symlink(&mut d, &p("f")).unwrap();
    assert!(!DiskManager::file_exists(&d, &p("f")));
    assert_eq!(d.total_size(), 0);
}

#[test]
fn moving_a_folder_moves_every_level_below_it() {
    let mut d = DummyDiskManager::new("/mnt").unwrap();
    d.new_dir(&p("a"), 0o755).unwrap();
    d.new_dir(&p("a/x"), 0o755).unwrap();
    d.new_dir(&p("a/x/y"), 0o755).unwrap();
    d.new_file(&p("a/x/y/f"), 0o644).unwrap();
    d.write_file(&p("a/x/y/f"), b"deep", 0).unwrap();
    d.new_file(&p("a/g"), 0o644).unwrap();
    d.write_file(&p("a/g"), b"top", 0).unwrap();
    d.new_dir(&p("z"), 0o755).unwrap();
    d.mv_recurse(&p("a"), &p("z/a"));
    for gone in ["a", "a/x", "a/x/y", "a/x/y/f", "a/g"] {
        assert!(!d.file_exists(&p(gone)));
    }
    for there in ["z/a", "z/a/x", "z/a/x/y", "z/a/x/y/f", "z/a/g"] {
        assert!(d.file_exists(&p(there)));
    }
    assert_eq!(read_all(&d, "z/a/x/y/f", 10), b"deep".to_vec());
    assert_eq!(read_all(&d, "z/a/g", 10), b"top".to_vec());
    assert_eq!(d.total_size(), 7);
}
