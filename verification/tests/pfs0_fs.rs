use nxfs::NxError;
use nxfs::pfs0::PFS0;
use nxfs::util::DataReader;

fn build_pfs0(files: &[(&str, &[u8])]) -> Vec<u8> {
    let mut string_table: Vec<u8> = Vec::new();
    let mut entries: Vec<(u64, u64, u32)> = Vec::new();
    let mut data: Vec<u8> = Vec::new();
    for (name, content) in files {
        let name_off = string_table.len() as u32;
        string_table.extend_from_slice(name.as_bytes());
        string_table.push(0);
        entries.push((data.len() as u64, content.len() as u64, name_off));
        data.extend_from_slice(content);
    }
    let mut image: Vec<u8> = Vec::new();
    image.extend_from_slice(b"PFS0");
    image.extend_from_slice(&(files.len() as u32).to_le_bytes());
    image.extend_from_slice(&(string_table.len() as u32).to_le_bytes());
    image.extend_from_slice(&[0u8; 4]);
    for (off, size, name_off) in &entries {
        image.extend_from_slice(&off.to_le_bytes());
        image.extend_from_slice(&size.to_le_bytes());
        image.extend_from_slice(&name_off.to_le_bytes());
        image.extend_from_slice(&[0u8; 4]);
    }
    image.extend_from_slice(&string_table);
    image.extend_from_slice(&data);
    image
}

fn open_fixture(files: &[(&str, &[u8])]) -> PFS0<DataReader> {
    PFS0::new(DataReader::new(build_pfs0(files))).unwrap()
}

#[test]
fn pfs0_lists_files_in_table_order() {
    let fs = open_fixture(&[("main", b"AAAA"), ("main.npdm", b"BB"), ("", b"")]);
    let names = fs.list_files().unwrap();
    assert_eq!(names, vec!["main".to_string(), "main.npdm".to_string(), String::new()]);
    assert_eq!(fs.file_count(), 3);
}

#[test]
fn pfs0_reports_file_sizes() {
    let mut fs = open_fixture(&[("a", b"xyz"), ("b", b"")]);
    assert_eq!(fs.get_file_size(0).unwrap(), 3);
    assert_eq!(fs.get_file_size(1).unwrap(), 0);
    assert_eq!(fs.get_file_size(2).unwrap_err(), NxError::InvalidIndex);
}

#[test]
fn pfs0_reads_whole_file() {
    // Reading the full size from offset 0 fills the buffer completely.
    let content = b"The quick brown fox jumps over the lazy dog";
    let mut fs = open_fixture(&[("fox.txt", content)]);
    let size = fs.get_file_size(0).unwrap() as usize;
    assert_eq!(size, content.len());
    let mut buf = vec![0u8; size];
    let got = fs.read_file(0, 0, &mut buf).unwrap();
    assert_eq!(got, size);
    assert_eq!(buf, content);
}

#[test]
fn pfs0_split_reads_concatenate() {
    // For any split a + b of the file, two reads equal one.
    let content: Vec<u8> = (0u8..=200).collect();
    let mut fs = open_fixture(&[("blob", &content)]);
    let size = content.len();
    let mut whole = vec![0u8; size];
    fs.read_file(0, 0, &mut whole).unwrap();
    for a in [0usize, 1, 57, 100, 199, 201] {
        let b = size - a;
        let mut first = vec![0u8; a];
        let mut second = vec![0u8; b];
        assert_eq!(fs.read_file(0, 0, &mut first).unwrap(), a);
        assert_eq!(fs.read_file(0, a, &mut second).unwrap(), b);
        let mut joined = first.clone();
        joined.extend_from_slice(&second);
        assert_eq!(joined, whole);
    }
}

#[test]
fn pfs0_read_past_end_is_eof_and_leaves_buffer() {
    let mut fs = open_fixture(&[("small", b"abc")]);
    let mut buf = vec![0xEEu8; 8];
    let r = fs.read_file(0, 1, &mut buf);
    assert_eq!(r.unwrap_err(), NxError::UnexpectedEof);
    assert_eq!(buf, vec![0xEEu8; 8]);
    let mut empty: Vec<u8> = Vec::new();
    assert_eq!(fs.read_file(0, 4, &mut empty).unwrap_err(), NxError::UnexpectedEof);
    assert_eq!(fs.read_file(0, 3, &mut empty).unwrap(), 0);
}

#[test]
fn pfs0_read_at_offset() {
    let mut fs = open_fixture(&[("x", b"0123456789")]);
    let mut buf = vec![0u8; 4];
    assert_eq!(fs.read_file(0, 3, &mut buf).unwrap(), 4);
    assert_eq!(buf, b"3456");
}

#[test]
fn pfs0_second_file_data_is_offset() {
    let mut fs = open_fixture(&[("a", b"first"), ("b", b"second!")]);
    let mut buf = vec![0u8; 7];
    assert_eq!(fs.read_file(1, 0, &mut buf).unwrap(), 7);
    assert_eq!(buf, b"second!");
}

#[test]
fn pfs0_rejects_bad_magic() {
    let mut image = build_pfs0(&[("a", b"x")]);
    image[0] = b'Q';
    let r = PFS0::new(DataReader::new(image));
    assert_eq!(r.err().unwrap(), NxError::InvalidMagic);
}

#[test]
fn pfs0_rejects_truncated_image() {
    let image = build_pfs0(&[("a", b"x")]);
    let r = PFS0::new(DataReader::new(image[..0x1C].to_vec()));
    assert_eq!(r.err().unwrap(), NxError::UnexpectedEof);
    let r2 = PFS0::new(DataReader::new(image[..8].to_vec()));
    assert_eq!(r2.err().unwrap(), NxError::UnexpectedEof);
}

#[test]
fn pfs0_invalid_index_is_rejected() {
    let mut fs = open_fixture(&[("only", b"data")]);
    let mut buf = vec![0u8; 1];
    assert_eq!(fs.read_file(1, 0, &mut buf).unwrap_err(), NxError::InvalidIndex);
    assert_eq!(buf, vec![0u8]);
}
