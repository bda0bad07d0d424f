use aes::NewBlockCipher;
use ctr::cipher::{NewCipher, StreamCipher};
use nxfs::NxError;
use nxfs::crypto::{xts_decrypt_sectors, xts_encrypt_sectors, xts_sectors_round_trip};
use nxfs::util::{
    Aes128CtrReader, DataReader, ReadSeek, SeekFrom, align_down, align_up, get_nintendo_tweak,
};

type Aes128Ctr = ctr::Ctr128BE<aes::Aes128>;

fn ctr_transform_reference(key: &[u8], ctr_high: u64, start_block: u64, data: &mut [u8]) {
    let mut iv = [0u8; 16];
    iv[..8].copy_from_slice(&ctr_high.to_be_bytes());
    iv[8..].copy_from_slice(&start_block.to_be_bytes());
    let mut cipher = Aes128Ctr::new_from_slices(key, &iv).unwrap();
    cipher.apply_keystream(data);
}

#[test]
fn data_reader_reads_and_seeks() {
    let data: Vec<u8> = (0u8..32).collect();
    let mut rd = DataReader::new(data.clone());
    assert_eq!(rd.stream_len().unwrap(), 32);
    assert_eq!(rd.read_exact(4).unwrap(), vec![0, 1, 2, 3]);
    assert_eq!(rd.stream_position().unwrap(), 4);
    assert_eq!(rd.seek(SeekFrom::Start(30)).unwrap(), 30);
    assert_eq!(rd.read_exact(4).unwrap_err(), NxError::UnexpectedEof);
    assert_eq!(rd.read(4).unwrap(), vec![30, 31]);
    assert_eq!(rd.seek(SeekFrom::End(-2)).unwrap(), 30);
    assert_eq!(rd.seek(SeekFrom::Current(-10)).unwrap(), 20);
    assert_eq!(rd.read_exact(1).unwrap(), vec![20]);
}

#[test]
fn data_reader_dup_is_independent() {
    let mut rd = DataReader::new(vec![9, 8, 7, 6]);
    rd.seek(SeekFrom::Start(2)).unwrap();
    let mut other = rd.dup();
    assert_eq!(other.read_exact(2).unwrap(), vec![7, 6]);
    assert_eq!(rd.stream_position().unwrap(), 2);
}

#[test]
fn align_helpers() {
    assert_eq!(align_down(0x37, 0x10), 0x30);
    assert_eq!(align_down(0x40, 0x10), 0x40);
    assert_eq!(align_up(0x31, 0x10), 0x40);
    assert_eq!(align_up(0x40, 0x10), 0x40);
    assert_eq!(align_up(0, 0x10), 0);
}

#[test]
fn nintendo_tweak_is_big_endian() {
    assert_eq!(get_nintendo_tweak(0), [0u8; 16]);
    assert_eq!(
        get_nintendo_tweak(1),
        [0, 0, 0, 0, 0, 0, 0, 0, 0, 0, 0, 0, 0, 0, 0, 1]
    );
    assert_eq!(
        get_nintendo_tweak(0x0102030405060708090A0B0C0D0E0F10),
        [1, 2, 3, 4, 5, 6, 7, 8, 9, 0xA, 0xB, 0xC, 0xD, 0xE, 0xF, 0x10]
    );
}

#[test]
fn ctr_reader_decrypts_known_answer() {
    let key: Vec<u8> = (0x20u8..0x30).collect();
    let ctr_high: u64 = 0x00C0FFEE_00000000;
    let plain: Vec<u8> = (0u8..96).collect();
    let mut cipher_text = plain.clone();
    ctr_transform_reference(&key, ctr_high, 0, &mut cipher_text);
    let base = DataReader::new(cipher_text);
    let mut rd = Aes128CtrReader::new(base, 0, ctr_high, key);
    assert_eq!(rd.read_exact(96).unwrap(), plain);
}

#[test]
fn ctr_reader_respects_base_offset_blocks() {
    // Section begins two whole blocks into the source: the reader must
    // decrypt with absolute block indices, not section-relative ones.
    let key: Vec<u8> = vec![0x77; 16];
    let ctr_high: u64 = 42;
    let section_plain: Vec<u8> = (100u8..164).collect();
    let mut section_cipher = section_plain.clone();
    ctr_transform_reference(&key, ctr_high, 2, &mut section_cipher);
    let mut raw = vec![0u8; 32];
    raw.extend_from_slice(&section_cipher);
    let base = DataReader::new(raw);
    let mut rd = Aes128CtrReader::new(base, 32, ctr_high, key);
    assert_eq!(rd.read_exact(64).unwrap(), section_plain);
    // An unaligned read in the middle decrypts the same bytes.
    rd.seek(SeekFrom::Start(5)).unwrap();
    assert_eq!(rd.read_exact(21).unwrap(), section_plain[5..26].to_vec());
}

#[test]
fn ctr_reader_is_position_independent() {
    let key: Vec<u8> = (0u8..16).collect();
    let ctr_high: u64 = 7;
    let mut cipher_text: Vec<u8> = (0u8..80).map(|b| b.wrapping_mul(37)).collect();
    ctr_transform_reference(&key, ctr_high, 0, &mut cipher_text);
    let base = DataReader::new(cipher_text);
    let mut rd = Aes128CtrReader::new(base, 0, ctr_high, key);
    rd.seek(SeekFrom::Start(11)).unwrap();
    let whole = rd.read_exact(48).unwrap();
    for split in [0usize, 1, 7, 16, 31, 48] {
        rd.seek(SeekFrom::Start(11)).unwrap();
        let first = rd.read_exact(split).unwrap();
        let second = rd.read_exact(48 - split).unwrap();
        let mut joined = first.clone();
        joined.extend_from_slice(&second);
        assert_eq!(joined, whole);
    }
}

#[test]
fn ctr_reader_stream_len_and_eof() {
    let key: Vec<u8> = vec![1; 16];
    let base = DataReader::new(vec![0u8; 40]);
    let mut rd = Aes128CtrReader::new(base, 8, 0, key);
    assert_eq!(rd.stream_len().unwrap(), 32);
    rd.seek(SeekFrom::Start(30)).unwrap();
    assert_eq!(rd.read_exact(3).unwrap_err(), NxError::UnexpectedEof);
    assert_eq!(rd.read(3).unwrap().len(), 2);
}

#[test]
fn xts_header_round_trip() {
    // Re-encrypting a decrypted header region with the same key and
    // sector reproduces the original ciphertext.
    let key: Vec<u8> = (0u8..32).collect();
    let original: Vec<u8> = (0u8..=255).cycle().take(0x400).collect();
    let mut work = original.clone();
    xts_sectors_round_trip(&key, 0, &mut work);
    assert_eq!(work, original);
    let mut work2 = original.clone();
    xts_decrypt_sectors(&key, 2, &mut work2);
    assert_ne!(work2, original);
    xts_encrypt_sectors(&key, 2, &mut work2);
    assert_eq!(work2, original);
}

#[test]
fn xts_decrypt_matches_nintendo_tweak() {
    let key: Vec<u8> = (0x40u8..0x60).collect();
    let plain: Vec<u8> = (0u8..=255).cycle().take(0x400).collect();
    let c1 = aes::Aes128::new_from_slice(&key[..16]).unwrap();
    let c2 = aes::Aes128::new_from_slice(&key[16..]).unwrap();
    let xts = xts_mode::Xts128::new(c1, c2);
    let mut cipher_text = plain.clone();
    xts.encrypt_area(&mut cipher_text, 0x200, 3, |s| s.to_be_bytes());
    let mut recovered = cipher_text.clone();
    xts_decrypt_sectors(&key, 3, &mut recovered);
    assert_eq!(recovered, plain);
}
