use nxfs::NxError;
use nxfs::romfs::RomFs;
use nxfs::util::DataReader;

const INVALID: u32 = 0xFFFF_FFFF;

fn pad4(n: usize) -> usize {
    (n + 3) & !3
}

/// Builds a RomFS image with single-bucket hash tables. `dirs[0]` must be
/// the root `(0, "")`; every other entry names its parent by index.
fn build_romfs(dirs: &[(usize, &str)], files: &[(usize, &str, &[u8])]) -> Vec<u8> {
    let mut dir_off = vec![0u32; dirs.len()];
    let mut pos: usize = 0;
    for (i, (_p, name)) in dirs.iter().enumerate() {
        dir_off[i] = pos as u32;
        pos += 24 + pad4(name.len());
    }
    let dir_table_size = pos;

    let mut file_off = vec![0u32; files.len()];
    let mut fpos: usize = 0;
    for (i, (_p, name, _c)) in files.iter().enumerate() {
        file_off[i] = fpos as u32;
        fpos += 32 + pad4(name.len());
    }
    let file_table_size = fpos;

    let dht: usize = 0x50;
    let dt: usize = dht + 4;
    let fht: usize = dt + dir_table_size;
    let ft: usize = fht + 4;
    let fdata: usize = ft + file_table_size;

    let mut image: Vec<u8> = Vec::new();
    let push64 = |v: &mut Vec<u8>, x: usize| v.extend_from_slice(&(x as u64).to_le_bytes());
    push64(&mut image, 0x50);
    push64(&mut image, dht);
    push64(&mut image, 4);
    push64(&mut image, dt);
    push64(&mut image, dir_table_size);
    push64(&mut image, fht);
    push64(&mut image, 4);
    push64(&mut image, ft);
    push64(&mut image, file_table_size);
    push64(&mut image, fdata);

    // Single dir hash bucket: chain all non-root dirs in order.
    let dir_head = if dirs.len() > 1 { dir_off[1] } else { INVALID };
    image.extend_from_slice(&dir_head.to_le_bytes());

    for (i, (parent, name)) in dirs.iter().enumerate() {
        let sibling = dirs
            .iter()
            .enumerate()
            .skip(i + 1)
            .find(|(_, (p, _))| i >= 1 && *p == *parent)
            .map(|(j, _)| dir_off[j])
            .unwrap_or(INVALID);
        let first_child_dir = dirs
            .iter()
            .enumerate()
            .skip(1)
            .find(|(_, (p, _))| *p == i)
            .map(|(j, _)| dir_off[j])
            .unwrap_or(INVALID);
        let first_child_file = files
            .iter()
            .enumerate()
            .find(|(_, (p, _, _))| *p == i)
            .map(|(j, _)| file_off[j])
            .unwrap_or(INVALID);
        let next_hash = if i >= 1 && i + 1 < dirs.len() { dir_off[i + 1] } else { INVALID };
        image.extend_from_slice(&(if i == 0 { 0u32 } else { dir_off[*parent] }).to_le_bytes());
        image.extend_from_slice(&sibling.to_le_bytes());
        image.extend_from_slice(&first_child_dir.to_le_bytes());
        image.extend_from_slice(&first_child_file.to_le_bytes());
        image.extend_from_slice(&next_hash.to_le_bytes());
        image.extend_from_slice(&(name.len() as u32).to_le_bytes());
        image.extend_from_slice(name.as_bytes());
        image.resize(image.len() + (pad4(name.len()) - name.len()), 0);
    }

    // Single file hash bucket: chain all files in order.
    let file_head = if !files.is_empty() { file_off[0] } else { INVALID };
    image.extend_from_slice(&file_head.to_le_bytes());

    let mut data: Vec<u8> = Vec::new();
    for (i, (parent, name, content)) in files.iter().enumerate() {
        let sibling = files
            .iter()
            .enumerate()
            .skip(i + 1)
            .find(|(_, (p, _, _))| *p == *parent)
            .map(|(j, _)| file_off[j])
            .unwrap_or(INVALID);
        let next_hash = if i + 1 < files.len() { file_off[i + 1] } else { INVALID };
        image.extend_from_slice(&dir_off[*parent].to_le_bytes());
        image.extend_from_slice(&sibling.to_le_bytes());
        image.extend_from_slice(&(data.len() as u64).to_le_bytes());
        image.extend_from_slice(&(content.len() as u64).to_le_bytes());
        image.extend_from_slice(&next_hash.to_le_bytes());
        image.extend_from_slice(&(name.len() as u32).to_le_bytes());
        image.extend_from_slice(name.as_bytes());
        image.resize(image.len() + (pad4(name.len()) - name.len()), 0);
        data.extend_from_slice(content);
    }
    image.extend_from_slice(&data);
    image
}

fn two_dir_fixture() -> RomFs<DataReader> {
    let image = build_romfs(
        &[(0, ""), (0, "qwe"), (0, "qwe2")],
        &[(0, "a.txt", b"root a"), (1, "b.txt", b"bee contents"), (2, "a.txt", b"ay two")],
    );
    RomFs::new(DataReader::new(image)).unwrap()
}

#[test]
fn romfs_exists_file_finds_exact_paths() {
    let mut fs = two_dir_fixture();
    assert_eq!(fs.exists_file("a.txt").unwrap(), true);
    assert_eq!(fs.exists_file("qwe/b.txt").unwrap(), true);
    assert_eq!(fs.exists_file("qwe2/a.txt").unwrap(), true);
    assert_eq!(fs.exists_file("qwe/a.txt").unwrap(), false);
    assert_eq!(fs.exists_file("b.txt").unwrap(), false);
    assert_eq!(fs.exists_file("qwe2/b.txt").unwrap(), false);
}

#[test]
fn romfs_exists_dir() {
    let mut fs = two_dir_fixture();
    assert_eq!(fs.exists_dir("").unwrap(), true);
    assert_eq!(fs.exists_dir("qwe").unwrap(), true);
    assert_eq!(fs.exists_dir("qwe2").unwrap(), true);
    assert_eq!(fs.exists_dir("nope").unwrap(), false);
    assert_eq!(fs.exists_dir("a.txt").unwrap(), false);
}

#[test]
fn romfs_file_sizes_and_contents() {
    let mut fs = two_dir_fixture();
    assert_eq!(fs.get_file_size("qwe/b.txt").unwrap(), 12);
    assert_eq!(fs.get_file_size("missing").unwrap_err(), NxError::NotFound);
    let mut buf = vec![0u8; 12];
    assert_eq!(fs.read_file("qwe/b.txt", 0, &mut buf).unwrap(), 12);
    assert_eq!(buf, b"bee contents");
    let mut buf2 = vec![0u8; 6];
    assert_eq!(fs.read_file("qwe2/a.txt", 0, &mut buf2).unwrap(), 6);
    assert_eq!(buf2, b"ay two");
    let mut buf3 = vec![0u8; 4];
    assert_eq!(fs.read_file("qwe/b.txt", 4, &mut buf3).unwrap(), 4);
    assert_eq!(buf3, b"cont");
}

#[test]
fn romfs_read_past_end_is_eof() {
    let mut fs = two_dir_fixture();
    let mut buf = vec![0xAAu8; 10];
    assert_eq!(fs.read_file("qwe2/a.txt", 2, &mut buf).unwrap_err(), NxError::UnexpectedEof);
    assert_eq!(buf, vec![0xAAu8; 10]);
    assert_eq!(fs.read_file("missing", 0, &mut buf).unwrap_err(), NxError::NotFound);
}

#[test]
fn romfs_exists_agrees_with_size() {
    // A path names a file exactly when its size can be asked for.
    let mut fs = two_dir_fixture();
    for path in ["a.txt", "qwe/b.txt", "qwe2/a.txt", "qwe/a.txt", "b.txt", "zzz", "qwe"] {
        let exists = fs.exists_file(path).unwrap();
        let size_ok = fs.get_file_size(path).is_ok();
        assert_eq!(exists, size_ok);
    }
}

#[test]
fn romfs_iterator_walks_children() {
    let mut fs = two_dir_fixture();
    let mut it = fs.open_dir_iterator("").unwrap();
    assert_eq!(it.get_dir_count(), 2);
    assert_eq!(it.get_file_count(), 1);
    assert_eq!(it.next_dir().unwrap(), "qwe");
    assert_eq!(it.next_dir().unwrap(), "qwe2");
    assert_eq!(it.next_dir().unwrap_err(), NxError::UnexpectedEof);
    assert_eq!(it.next_file().unwrap(), ("a.txt".to_string(), 6));
    assert_eq!(it.next_file().unwrap_err(), NxError::UnexpectedEof);

    let mut it2 = fs.open_dir_iterator("qwe").unwrap();
    assert_eq!(it2.get_dir_count(), 0);
    assert_eq!(it2.get_file_count(), 1);
    assert_eq!(it2.next_file().unwrap(), ("b.txt".to_string(), 12));
}

#[test]
fn romfs_iterator_cursors_are_independent() {
    let mut fs = two_dir_fixture();
    let mut it = fs.open_dir_iterator("").unwrap();
    assert_eq!(it.next_dir().unwrap(), "qwe");
    assert_eq!(it.next_file().unwrap().0, "a.txt");
    it.rewind_files();
    // Rewinding the file cursor must not move the directory cursor.
    assert_eq!(it.next_dir().unwrap(), "qwe2");
    assert_eq!(it.next_file().unwrap().0, "a.txt");
    it.rewind_dirs();
    assert_eq!(it.next_dir().unwrap(), "qwe");
    assert_eq!(it.next_file().unwrap_err(), NxError::UnexpectedEof);
}

fn walk_and_check(fs: &mut RomFs<DataReader>, dir_path: String) {
    let mut it = fs.open_dir_iterator(&dir_path).unwrap();
    let mut file_entries: Vec<(String, u64)> = Vec::new();
    for _ in 0..it.get_file_count() {
        file_entries.push(it.next_file().unwrap());
    }
    let mut subdirs: Vec<String> = Vec::new();
    for _ in 0..it.get_dir_count() {
        subdirs.push(it.next_dir().unwrap());
    }
    for (name, size) in file_entries {
        let path = if dir_path.is_empty() { name } else { format!("{}/{}", dir_path, name) };
        assert_eq!(fs.exists_file(&path).unwrap(), true);
        assert_eq!(fs.get_file_size(&path).unwrap(), size);
    }
    for name in subdirs {
        let path = if dir_path.is_empty() { name } else { format!("{}/{}", dir_path, name) };
        walk_and_check(fs, path);
    }
}

#[test]
fn romfs_lookup_agrees_with_tree_walk() {
    // Every file the recursive iteration enumerates is found by the
    // hash lookup under its constructed path, with the same size.
    let mut fs = two_dir_fixture();
    walk_and_check(&mut fs, String::new());
}

#[test]
fn romfs_read_by_offset_matches_path_read() {
    let mut fs = two_dir_fixture();
    let off = fs.get_file_offset("qwe/b.txt").unwrap();
    let mut buf = vec![0u8; 12];
    assert_eq!(fs.read_file_by_offset(off, 0, &mut buf).unwrap(), 12);
    assert_eq!(buf, b"bee contents");
    let mut tail = vec![0u8; 8];
    assert_eq!(fs.read_file_by_offset(off, 4, &mut tail).unwrap(), 8);
    assert_eq!(tail, b"contents");
    assert_eq!(fs.get_file_offset("nope").unwrap_err(), NxError::NotFound);
}

#[test]
fn romfs_single_empty_file() {
    let image = build_romfs(&[(0, "")], &[(0, "AtLeastOneFile", b"")]);
    let mut fs = RomFs::new(DataReader::new(image)).unwrap();
    assert_eq!(fs.exists_file("AtLeastOneFile").unwrap(), true);
    assert_eq!(fs.get_file_size("AtLeastOneFile").unwrap(), 0);
    let mut empty: Vec<u8> = Vec::new();
    assert_eq!(fs.read_file("AtLeastOneFile", 0, &mut empty).unwrap(), 0);
}

#[test]
fn romfs_truncated_header_is_eof() {
    let image = build_romfs(&[(0, "")], &[]);
    let r = RomFs::new(DataReader::new(image[..0x30].to_vec()));
    assert_eq!(r.err().unwrap(), NxError::UnexpectedEof);
}

#[test]
fn romfs_nested_directories() {
    let image = build_romfs(
        &[(0, ""), (0, "outer"), (1, "inner")],
        &[(2, "deep.bin", b"\x01\x02\x03")],
    );
    let mut fs = RomFs::new(DataReader::new(image)).unwrap();
    assert_eq!(fs.exists_dir("outer").unwrap(), true);
    assert_eq!(fs.exists_dir("outer/inner").unwrap(), true);
    assert_eq!(fs.exists_file("outer/inner/deep.bin").unwrap(), true);
    assert_eq!(fs.get_file_size("outer/inner/deep.bin").unwrap(), 3);
    let mut buf = vec![0u8; 3];
    fs.read_file("outer/inner/deep.bin", 0, &mut buf).unwrap();
    assert_eq!(buf, vec![1, 2, 3]);
    walk_and_check(&mut fs, String::new());
}
