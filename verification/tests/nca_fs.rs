use aes::NewBlockCipher;
use block_modes::BlockMode;
use ctr::cipher::{NewCipher, StreamCipher};
use nxfs::NxError;
use nxfs::key::Keyset;
use nxfs::nca::{
    ContentType, DistributionType, Header, KeyArea, KeyAreaEncryptionKeyIndex, NCA, RSASignature,
    SdkAddonVersion,
};
use nxfs::util::DataReader;

const HEADER_KEY: [u8; 32] = [
    0x41, 0x52, 0x63, 0x74, 0x85, 0x96, 0xA7, 0xB8, 0xC9, 0xDA, 0xEB, 0xFC, 0x0D, 0x1E, 0x2F,
    0x30, 0x01, 0x12, 0x23, 0x34, 0x45, 0x56, 0x67, 0x78, 0x89, 0x9A, 0xAB, 0xBC, 0xCD, 0xDE,
    0xEF, 0xF0,
];
const KAK: [u8; 16] = [
    0x99, 0x88, 0x77, 0x66, 0x55, 0x44, 0x33, 0x22, 0x11, 0x00, 0xAA, 0xBB, 0xCC, 0xDD, 0xEE,
    0xFF,
];
const CTR_KEY: [u8; 16] = [
    0x0F, 0x1E, 0x2D, 0x3C, 0x4B, 0x5A, 0x69, 0x78, 0x87, 0x96, 0xA5, 0xB4, 0xC3, 0xD2, 0xE1,
    0xF0,
];
const SECTION_CTR: u64 = 0x0011_2233_4455_6677;

fn xts_encrypt(key: &[u8], first_sector: u128, data: &mut [u8]) {
    let c1 = aes::Aes128::new_from_slice(&key[..16]).unwrap();
    let c2 = aes::Aes128::new_from_slice(&key[16..]).unwrap();
    let xts = xts_mode::Xts128::new(c1, c2);
    xts.encrypt_area(data, 0x200, first_sector, |s| s.to_be_bytes());
}

fn ecb_encrypt(key: &[u8], data: &[u8]) -> Vec<u8> {
    let ecb = block_modes::Ecb::<aes::Aes128, block_modes::block_padding::NoPadding>::new_from_slices(
        key,
        &[],
    )
    .unwrap();
    ecb.encrypt_vec(data)
}

fn ctr_encrypt(key: &[u8], ctr_high: u64, start_block: u64, data: &mut [u8]) {
    let mut iv = [0u8; 16];
    iv[..8].copy_from_slice(&ctr_high.to_be_bytes());
    iv[8..].copy_from_slice(&start_block.to_be_bytes());
    let mut cipher = ctr::Ctr128BE::<aes::Aes128>::new_from_slices(key, &iv).unwrap();
    cipher.apply_keystream(data);
}

fn build_pfs0(files: &[(&str, &[u8])]) -> Vec<u8> {
    let mut string_table: Vec<u8> = Vec::new();
    let mut entries: Vec<(u64, u64, u32)> = Vec::new();
    let mut data: Vec<u8> = Vec::new();
    for (name, content) in files {
        let name_off = string_table.len() as u32;
        string_table.extend_from_slice(name.as_bytes());
        string_table.push(0);
        entries.push((data.len() as u64, content.len() as u64, name_off));
        data.extend_from_slice(content);
    }
    let mut image: Vec<u8> = Vec::new();
    image.extend_from_slice(b"PFS0");
    image.extend_from_slice(&(files.len() as u32).to_le_bytes());
    image.extend_from_slice(&(string_table.len() as u32).to_le_bytes());
    image.extend_from_slice(&[0u8; 4]);
    for (off, size, name_off) in &entries {
        image.extend_from_slice(&off.to_le_bytes());
        image.extend_from_slice(&size.to_le_bytes());
        image.extend_from_slice(&name_off.to_le_bytes());
        image.extend_from_slice(&[0u8; 4]);
    }
    image.extend_from_slice(&string_table);
    image.extend_from_slice(&data);
    image
}

/// A container with one section. `fs_type`/`hash_type`/`enc_type` are the
/// raw bytes of filesystem header 0; `inner_offset` is where the inner
/// image lies within the section; `section_plain` is the section's
/// plaintext.
fn build_nca(
    key_generation_old: u8,
    key_generation: u8,
    fs_type: u8,
    hash_type: u8,
    enc_type: u8,
    inner_offset: u64,
    section_plain: &[u8],
) -> Vec<u8> {
    let mut hd = vec![0u8; 0x400];
    hd[0x200..0x204].copy_from_slice(b"NCA3");
    hd[0x204] = 0;
    hd[0x205] = 0;
    hd[0x206] = key_generation_old;
    hd[0x207] = 0;
    hd[0x220] = key_generation;
    // Section 0 present: starts right after the headers, at media unit 6.
    hd[0x240..0x244].copy_from_slice(&6u32.to_le_bytes());
    hd[0x244..0x248].copy_from_slice(&8u32.to_le_bytes());
    let mut key_area_plain = vec![0u8; 0x40];
    key_area_plain[0x20..0x30].copy_from_slice(&CTR_KEY);
    hd[0x300..0x340].copy_from_slice(&ecb_encrypt(&KAK, &key_area_plain));

    let mut fhd = vec![0u8; 0x800];
    fhd[2] = fs_type;
    fhd[3] = hash_type;
    fhd[4] = enc_type;
    if fs_type == 1 {
        // HierarchicalSha256: the PFS0 image offset within the section.
        fhd[8 + 0x38..8 + 0x40].copy_from_slice(&inner_offset.to_le_bytes());
        fhd[8 + 0x40..8 + 0x48].copy_from_slice(&(section_plain.len() as u64).to_le_bytes());
    } else {
        // HierarchicalIntegrity: the last level locates the RomFS image.
        let q = 8 + 0x10 + 5 * 0x18;
        fhd[q..q + 8].copy_from_slice(&inner_offset.to_le_bytes());
        fhd[q + 8..q + 16].copy_from_slice(&(section_plain.len() as u64).to_le_bytes());
    }
    fhd[0x148..0x150].copy_from_slice(&SECTION_CTR.to_le_bytes());

    xts_encrypt(&HEADER_KEY, 0, &mut hd);
    xts_encrypt(&HEADER_KEY, 2, &mut fhd);

    let mut section = section_plain.to_vec();
    // The section begins at byte 0xC00, block index 0xC0.
    ctr_encrypt(&CTR_KEY, SECTION_CTR, 0xC0, &mut section);

    let mut raw = hd;
    raw.extend_from_slice(&fhd);
    raw.extend_from_slice(&section);
    raw
}

fn keyset_with(app_entries: &[(u8, [u8; 16])]) -> Keyset {
    let mut text = format!("header_key = {}\n", hex::encode(HEADER_KEY));
    for (idx, key) in app_entries {
        text.push_str(&format!("key_area_key_application_{:02x} = {}\n", idx, hex::encode(key)));
    }
    Keyset::parse(text.as_bytes()).unwrap()
}

#[test]
fn nca_opens_and_reads_pfs0_section() {
    let inner = build_pfs0(&[("version.txt", b"5.1.0"), ("blob.bin", b"\xDE\xAD\xBE\xEF")]);
    let raw = build_nca(0, 0, 1, 2, 3, 0, &inner);
    let keyset = keyset_with(&[(0, KAK)]);
    let mut nca = NCA::new(DataReader::new(raw), keyset).unwrap();
    assert_eq!(nca.get_filesystem_count(), 1);
    assert_eq!(nca.header.program_id, 0);
    let mut pfs0 = nca.open_pfs0_filesystem(0).unwrap();
    let names = pfs0.list_files().unwrap();
    assert_eq!(names, vec!["version.txt".to_string(), "blob.bin".to_string()]);
    let size = pfs0.get_file_size(0).unwrap() as usize;
    let mut buf = vec![0u8; size];
    assert_eq!(pfs0.read_file(0, 0, &mut buf).unwrap(), size);
    assert_eq!(buf, b"5.1.0");
    let mut buf2 = vec![0u8; 4];
    assert_eq!(pfs0.read_file(1, 0, &mut buf2).unwrap(), 4);
    assert_eq!(buf2, vec![0xDE, 0xAD, 0xBE, 0xEF]);
}

#[test]
fn nca_opens_romfs_section_with_empty_file() {
    // RomFS with one zero-byte file at the root.
    let mut inner: Vec<u8> = Vec::new();
    let name = b"AtLeastOneFile";
    let push64 = |v: &mut Vec<u8>, x: u64| v.extend_from_slice(&x.to_le_bytes());
    let push32 = |v: &mut Vec<u8>, x: u32| v.extend_from_slice(&x.to_le_bytes());
    push64(&mut inner, 0x50);
    push64(&mut inner, 0x50); // dir hash table
    push64(&mut inner, 4);
    push64(&mut inner, 0x54); // dir table: root only
    push64(&mut inner, 24);
    push64(&mut inner, 0x6C); // file hash table
    push64(&mut inner, 4);
    push64(&mut inner, 0x70); // file table
    push64(&mut inner, (32 + name.len() + 2) as u64);
    push64(&mut inner, 0xA0); // file data
    push32(&mut inner, 0xFFFF_FFFF); // no dirs hashed
    // root record
    push32(&mut inner, 0);
    push32(&mut inner, 0xFFFF_FFFF);
    push32(&mut inner, 0xFFFF_FFFF);
    push32(&mut inner, 0); // first child file at offset 0
    push32(&mut inner, 0xFFFF_FFFF);
    push32(&mut inner, 0);
    push32(&mut inner, 0); // file hash bucket -> file at offset 0
    // file record
    push32(&mut inner, 0); // parent: root
    push32(&mut inner, 0xFFFF_FFFF);
    push64(&mut inner, 0);
    push64(&mut inner, 0); // empty
    push32(&mut inner, 0xFFFF_FFFF);
    push32(&mut inner, name.len() as u32);
    inner.extend_from_slice(name);
    inner.extend_from_slice(&[0u8; 2]);

    let raw = build_nca(0, 0, 0, 3, 3, 0, &inner);
    let keyset = keyset_with(&[(0, KAK)]);
    let mut nca = NCA::new(DataReader::new(raw), keyset).unwrap();
    assert_eq!(nca.get_filesystem_count(), 1);
    let mut romfs = nca.open_romfs_filesystem(0).unwrap();
    assert_eq!(romfs.exists_file("AtLeastOneFile").unwrap(), true);
    assert_eq!(romfs.get_file_size("AtLeastOneFile").unwrap(), 0);
    assert_eq!(nca.open_pfs0_filesystem(0).err().unwrap(), NxError::WrongType);
}

#[test]
fn nca_section_index_past_retained_is_invalid() {
    // Only section 0 is present; the other entries have start offset 0
    // and were not retained.
    let inner = build_pfs0(&[("f", b"x")]);
    let raw = build_nca(0, 0, 1, 2, 3, 0, &inner);
    let keyset = keyset_with(&[(0, KAK)]);
    let mut nca = NCA::new(DataReader::new(raw), keyset).unwrap();
    assert_eq!(nca.get_filesystem_count(), 1);
    assert_eq!(nca.open_pfs0_filesystem(1).err().unwrap(), NxError::InvalidIndex);
    assert_eq!(nca.open_romfs_filesystem(3).err().unwrap(), NxError::InvalidIndex);
}

#[test]
fn nca_wrong_type_is_rejected() {
    let inner = build_pfs0(&[("f", b"x")]);
    let raw = build_nca(0, 0, 1, 2, 3, 0, &inner);
    let keyset = keyset_with(&[(0, KAK)]);
    let mut nca = NCA::new(DataReader::new(raw), keyset).unwrap();
    assert_eq!(nca.open_romfs_filesystem(0).err().unwrap(), NxError::WrongType);
}

#[test]
fn nca_unsupported_encryption_is_rejected() {
    let inner = build_pfs0(&[("f", b"x")]);
    let raw = build_nca(0, 0, 1, 2, 1, 0, &inner);
    let keyset = keyset_with(&[(0, KAK)]);
    let mut nca = NCA::new(DataReader::new(raw), keyset).unwrap();
    assert_eq!(nca.open_pfs0_filesystem(0).err().unwrap(), NxError::Unsupported);
}

#[test]
fn nca_key_generation_selects_master_key_index() {
    // key_generation_old = 2, key_generation = 0: the effective index is
    // max(2, 0) - 1 = 1, so only a keyset holding index 1 opens it.
    let inner = build_pfs0(&[("f", b"x")]);
    let raw = build_nca(2, 0, 1, 2, 3, 0, &inner);

    let wrong = keyset_with(&[(0, KAK)]);
    let r = NCA::new(DataReader::new(raw.clone()), wrong);
    assert_eq!(r.err().unwrap(), NxError::KeyNotFound);

    let right = keyset_with(&[(1, KAK)]);
    let mut nca = NCA::new(DataReader::new(raw), right).unwrap();
    let mut pfs0 = nca.open_pfs0_filesystem(0).unwrap();
    assert_eq!(pfs0.list_files().unwrap(), vec!["f".to_string()]);
}

#[test]
fn nca_key_generation_quirk() {
    // Generations 0 and 1 both name master key index 0; anything higher
    // is shifted down by one.
    fn header_with_gens(old_gen: u8, new_gen: u8) -> Header {
        Header {
            header_rsa_sig_1: RSASignature { bytes: vec![0u8; 0x100] },
            header_rsa_sig_2: RSASignature { bytes: vec![0u8; 0x100] },
            magic: 0x3341434E,
            dist_type: DistributionType::System,
            cnt_type: ContentType::Program,
            key_generation_old: old_gen,
            key_area_encryption_key_index: KeyAreaEncryptionKeyIndex::Application,
            cnt_size: 0,
            program_id: 0,
            cnt_idx: 0,
            sdk_addon_ver: SdkAddonVersion { unk: 0, micro: 0, minor: 0, major: 0 },
            key_generation: new_gen,
            header_1_signature_key_generation: 0,
            rights_id: vec![0u8; 0x10],
            fs_entries: Vec::new(),
            fs_header_hashes: Vec::new(),
            encrypted_key_area: KeyArea {
                aes_xts_key: vec![0u8; 0x20],
                aes_ctr_key: vec![0u8; 0x10],
                unk_key: vec![0u8; 0x10],
            },
        }
    }
    assert_eq!(header_with_gens(2, 0).get_key_generation(), 1);
    assert_eq!(header_with_gens(0, 0).get_key_generation(), 0);
    assert_eq!(header_with_gens(1, 0).get_key_generation(), 0);
    assert_eq!(header_with_gens(0, 1).get_key_generation(), 0);
    assert_eq!(header_with_gens(3, 7).get_key_generation(), 6);
}

#[test]
fn nca_bad_magic_is_rejected() {
    let inner = build_pfs0(&[("f", b"x")]);
    let mut raw = build_nca(0, 0, 1, 2, 3, 0, &inner);
    // Corrupt the encrypted header: the decrypted magic will not match.
    raw[0x200] ^= 0xFF;
    let keyset = keyset_with(&[(0, KAK)]);
    let r = NCA::new(DataReader::new(raw), keyset);
    assert_eq!(r.err().unwrap(), NxError::InvalidMagic);
}

#[test]
fn nca_truncated_is_rejected() {
    let inner = build_pfs0(&[("f", b"x")]);
    let raw = build_nca(0, 0, 1, 2, 3, 0, &inner);
    let keyset = keyset_with(&[(0, KAK)]);
    let r = NCA::new(DataReader::new(raw[..0x300].to_vec()), keyset);
    assert_eq!(r.err().unwrap(), NxError::UnexpectedEof);
    let keyset2 = keyset_with(&[(0, KAK)]);
    let r2 = NCA::new(DataReader::new(raw[..0x800].to_vec()), keyset2);
    assert_eq!(r2.err().unwrap(), NxError::UnexpectedEof);
}

#[test]
fn nca_section_at_inner_offset() {
    // The PFS0 image need not sit at the section's start.
    let inner = build_pfs0(&[("shifted", b"data here")]);
    let mut section = vec![0u8; 0x30];
    section.extend_from_slice(&inner);
    let raw = build_nca(0, 0, 1, 2, 3, 0x30, &section);
    let keyset = keyset_with(&[(0, KAK)]);
    let mut nca = NCA::new(DataReader::new(raw), keyset).unwrap();
    let mut pfs0 = nca.open_pfs0_filesystem(0).unwrap();
    assert_eq!(pfs0.list_files().unwrap(), vec!["shifted".to_string()]);
    let mut buf = vec![0u8; 9];
    assert_eq!(pfs0.read_file(0, 0, &mut buf).unwrap(), 9);
    assert_eq!(buf, b"data here");
}
