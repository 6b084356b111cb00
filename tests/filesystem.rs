use hexium::filesystem::{
    FileEntry, FileSystem, FsError, MAX_DIRS, MAX_FILES, MAX_FILE_SIZE, MAX_FILENAME_LEN,
    MAX_PATH_LEN,
};

fn pwd(fs: &FileSystem) -> Vec<u8> {
    let mut buf = [0u8; MAX_PATH_LEN];
    let n = fs.get_current_path(&mut buf);
    buf[..n].to_vec()
}

fn listing(fs: &FileSystem) -> Vec<FileEntry> {
    let mut it = fs.list_files();
    let mut out = Vec::new();
    while let Some(e) = it.next() {
        out.push(e);
    }
    out
}

#[test]
fn file_round_trip() {
    let mut fs = FileSystem::new();
    assert_eq!(fs.create_file(b"a.txt", b"hello"), Ok(()));
    assert_eq!(fs.read_file(b"a.txt"), Some(&b"hello"[..]));
    assert_eq!(fs.write_file(b"a.txt", b"bye"), Ok(()));
    assert_eq!(fs.read_file(b"a.txt"), Some(&b"bye"[..]));
    assert_eq!(fs.delete_file(b"a.txt"), Ok(()));
    assert_eq!(fs.read_file(b"a.txt"), None);
}

#[test]
fn directory_scoping() {
    let mut fs = FileSystem::new();
    assert_eq!(fs.create_directory(b"d1"), Ok(()));
    assert_eq!(fs.create_directory(b"d2"), Ok(()));
    assert_eq!(fs.change_directory(b"d1"), Ok(()));
    assert_eq!(fs.create_file(b"f", b"one"), Ok(()));
    assert_eq!(fs.change_directory(b".."), Ok(()));
    assert_eq!(fs.change_directory(b"d2"), Ok(()));
    assert_eq!(fs.create_file(b"f", b"two"), Ok(()));
    assert_eq!(fs.change_directory(b"/"), Ok(()));
    assert_eq!(fs.read_file(b"f"), None);
    assert_eq!(fs.change_directory(b"d1"), Ok(()));
    assert_eq!(fs.read_file(b"f"), Some(&b"one"[..]));
}

#[test]
fn non_empty_directory_guard() {
    let mut fs = FileSystem::new();
    assert_eq!(fs.create_directory(b"d"), Ok(()));
    assert_eq!(fs.change_directory(b"d"), Ok(()));
    assert_eq!(fs.create_file(b"x", b""), Ok(()));
    assert_eq!(fs.change_directory(b".."), Ok(()));
    assert_eq!(fs.remove_directory(b"d"), Err(FsError::NotEmpty));
    assert_eq!(fs.change_directory(b"d"), Ok(()));
    assert_eq!(fs.delete_file(b"x"), Ok(()));
    assert_eq!(fs.change_directory(b".."), Ok(()));
    assert_eq!(fs.remove_directory(b"d"), Ok(()));
    assert_eq!(fs.change_directory(b"d"), Err(FsError::NotFound));
}

#[test]
fn subdirectory_blocks_removal() {
    let mut fs = FileSystem::new();
    assert_eq!(fs.create_directory(b"d"), Ok(()));
    assert_eq!(fs.change_directory(b"d"), Ok(()));
    assert_eq!(fs.create_directory(b"e"), Ok(()));
    assert_eq!(fs.change_directory(b".."), Ok(()));
    assert_eq!(fs.remove_directory(b"d"), Err(FsError::NotEmpty));
}

#[test]
fn path_reconstruction() {
    let mut fs = FileSystem::new();
    assert_eq!(pwd(&fs), b"/".to_vec());
    assert_eq!(fs.create_directory(b"a"), Ok(()));
    assert_eq!(fs.change_directory(b"a"), Ok(()));
    assert_eq!(fs.create_directory(b"b"), Ok(()));
    assert_eq!(fs.change_directory(b"b"), Ok(()));
    assert_eq!(pwd(&fs), b"/a/b".to_vec());
    assert_eq!(fs.change_directory(b".."), Ok(()));
    assert_eq!(pwd(&fs), b"/a".to_vec());
}

#[test]
fn path_truncated_to_buffer() {
    let mut fs = FileSystem::new();
    let long = [b'n'; MAX_FILENAME_LEN];
    for _ in 0..5 {
        assert_eq!(fs.create_directory(&long), Ok(()));
        assert_eq!(fs.change_directory(&long), Ok(()));
    }
    let p = pwd(&fs);
    assert_eq!(p.len(), MAX_PATH_LEN);
    assert_eq!(p[0], b'/');
    assert_eq!(p[33], b'/');
}

#[test]
fn path_keeps_every_level() {
    let mut fs = FileSystem::new();
    for _ in 0..9 {
        assert_eq!(fs.create_directory(b"a"), Ok(()));
        assert_eq!(fs.change_directory(b"a"), Ok(()));
    }
    assert_eq!(pwd(&fs), b"/a".repeat(9));
    for _ in 9..(MAX_DIRS - 1) {
        assert_eq!(fs.create_directory(b"a"), Ok(()));
        assert_eq!(fs.change_directory(b"a"), Ok(()));
    }
    assert_eq!(pwd(&fs), b"/a".repeat(MAX_DIRS - 1));
    assert_eq!(fs.create_directory(b"a"), Err(FsError::StoreFull));
}

#[test]
fn long_path_cut_keeps_outer_levels() {
    let mut fs = FileSystem::new();
    for k in 0..10u8 {
        let name = [b'a' + k; MAX_FILENAME_LEN];
        assert_eq!(fs.create_directory(&name), Ok(()));
        assert_eq!(fs.change_directory(&name), Ok(()));
    }
    let p = pwd(&fs);
    assert_eq!(p.len(), MAX_PATH_LEN);
    let mut expected = Vec::new();
    for k in 0..10u8 {
        expected.push(b'/');
        expected.extend_from_slice(&[b'a' + k; MAX_FILENAME_LEN]);
    }
    assert_eq!(p, expected[..MAX_PATH_LEN].to_vec());
}

#[test]
fn cd_parent_at_root_is_noop() {
    let mut fs = FileSystem::new();
    assert_eq!(fs.change_directory(b".."), Ok(()));
    assert_eq!(pwd(&fs), b"/".to_vec());
    assert_eq!(fs.change_directory(b"nowhere"), Err(FsError::NotFound));
}

#[test]
fn create_errors() {
    let mut fs = FileSystem::new();
    let long_name = [b'a'; MAX_FILENAME_LEN + 1];
    assert_eq!(fs.create_file(&long_name, b""), Err(FsError::NameTooLong));
    let big = vec![0u8; MAX_FILE_SIZE + 1];
    assert_eq!(fs.create_file(b"big", &big), Err(FsError::ContentTooLarge));
    assert_eq!(fs.create_file(b"a", b"1"), Ok(()));
    assert_eq!(fs.create_file(b"a", b"2"), Err(FsError::AlreadyExists));
    assert_eq!(fs.read_file(b"a"), Some(&b"1"[..]));
}

#[test]
fn store_full() {
    let mut fs = FileSystem::new();
    for i in 0..MAX_FILES {
        let name = format!("f{}", i);
        assert_eq!(fs.create_file(name.as_bytes(), b""), Ok(()));
    }
    assert_eq!(fs.create_file(b"extra", b""), Err(FsError::StoreFull));
    assert_eq!(fs.write_file(b"extra", b""), Err(FsError::StoreFull));
    assert_eq!(fs.delete_file(b"f3"), Ok(()));
    assert_eq!(fs.create_file(b"extra", b"x"), Ok(()));
}

#[test]
fn directory_table_full() {
    let mut fs = FileSystem::new();
    for i in 1..MAX_DIRS {
        let name = format!("d{}", i);
        assert_eq!(fs.create_directory(name.as_bytes()), Ok(()));
    }
    assert_eq!(fs.create_directory(b"more"), Err(FsError::StoreFull));
    assert_eq!(fs.create_directory(b"d1"), Err(FsError::AlreadyExists));
    let long_name = [b'a'; MAX_FILENAME_LEN + 1];
    assert_eq!(fs.create_directory(&long_name), Err(FsError::NameTooLong));
}

#[test]
fn append_and_limits() {
    let mut fs = FileSystem::new();
    assert_eq!(fs.append_file(b"log", b"x"), Err(FsError::NotFound));
    assert_eq!(fs.write_file(b"log", b"ab"), Ok(()));
    assert_eq!(fs.append_file(b"log", b"cd"), Ok(()));
    assert_eq!(fs.read_file(b"log"), Some(&b"abcd"[..]));
    let fill = vec![b'z'; MAX_FILE_SIZE - 4];
    assert_eq!(fs.append_file(b"log", &fill), Ok(()));
    assert_eq!(fs.read_file(b"log").map(|d| d.len()), Some(MAX_FILE_SIZE));
    assert_eq!(fs.append_file(b"log", b"!"), Err(FsError::WouldExceedLimit));
    let big = vec![0u8; MAX_FILE_SIZE + 1];
    assert_eq!(fs.write_file(b"log", &big), Err(FsError::ContentTooLarge));
    assert_eq!(fs.delete_file(b"nothing"), Err(FsError::NotFound));
}

#[test]
fn listing_directories_then_files() {
    let mut fs = FileSystem::new();
    assert!(listing(&fs).is_empty());
    assert_eq!(fs.create_file(b"z", b"123"), Ok(()));
    assert_eq!(fs.create_directory(b"sub"), Ok(()));
    let entries = listing(&fs);
    assert_eq!(entries.len(), 2);
    assert!(matches!(&entries[0], FileEntry::Directory(n) if n.as_slice() == b"sub"));
    assert!(matches!(&entries[1], FileEntry::File(n, 3) if n.as_slice() == b"z"));
    assert!(fs.file_exists(b"z"));
    assert!(!fs.file_exists(b"sub"));
}

#[test]
fn init_seeds_welcome_file() {
    let mut fs = FileSystem::new();
    fs.init();
    let text = fs.read_file(b"readme.hx").unwrap();
    assert!(text.starts_with(b"Welcome to HexiumOS!"));
}
