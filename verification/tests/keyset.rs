use nxfs::NxError;
use nxfs::key::Keyset;

fn hex_of(bytes: &[u8]) -> String {
    hex::encode(bytes)
}

#[test]
fn header_key_only_parses() {
    let key: Vec<u8> = (0u8..32).collect();
    let text = format!("header_key = {}\n", hex_of(&key));
    let ks = Keyset::parse(text.as_bytes()).unwrap();
    assert_eq!(ks.header_key, key);
    assert_eq!(ks.key_area_keys_application.len(), 0);
    assert_eq!(ks.key_area_keys_ocean.len(), 0);
    assert_eq!(ks.key_area_keys_system.len(), 0);
}

#[test]
fn indexed_keys_are_sparse() {
    let k0: Vec<u8> = vec![0x11; 16];
    let k2: Vec<u8> = vec![0x22; 16];
    let ko: Vec<u8> = vec![0x33; 16];
    let ksys: Vec<u8> = vec![0x44; 16];
    let text = format!(
        "key_area_key_application_00 = {}\nkey_area_key_application_02 = {}\nkey_area_key_ocean_01 = {}\nkey_area_key_system_0a = {}\n",
        hex_of(&k0),
        hex_of(&k2),
        hex_of(&ko),
        hex_of(&ksys),
    );
    let ks = Keyset::parse(text.as_bytes()).unwrap();
    assert_eq!(ks.key_area_keys_application.len(), 3);
    assert_eq!(ks.key_area_keys_application[0], Some(k0));
    assert_eq!(ks.key_area_keys_application[1], None);
    assert_eq!(ks.key_area_keys_application[2], Some(k2));
    assert_eq!(ks.key_area_keys_ocean.len(), 2);
    assert_eq!(ks.key_area_keys_ocean[0], None);
    assert_eq!(ks.key_area_keys_ocean[1], Some(ko));
    assert_eq!(ks.key_area_keys_system.len(), 11);
    assert_eq!(ks.key_area_keys_system[10], Some(ksys));
}

#[test]
fn lines_without_equals_are_skipped() {
    let key: Vec<u8> = vec![0xAB; 32];
    let text = format!("; a comment line\n\nheader_key = {}\njust words\n", hex_of(&key));
    let ks = Keyset::parse(text.as_bytes()).unwrap();
    assert_eq!(ks.header_key, key);
}

#[test]
fn unknown_names_are_ignored() {
    let text = "some_other_key = aabbccdd\n";
    let ks = Keyset::parse(text.as_bytes()).unwrap();
    assert_eq!(ks.header_key, vec![0u8; 32]);
    assert_eq!(ks.key_area_keys_application.len(), 0);
}

#[test]
fn bad_hex_is_fatal() {
    let r = Keyset::parse(b"some_other_key = xyz1\n");
    assert_eq!(r.unwrap_err(), NxError::ParseError);
}

#[test]
fn odd_length_hex_is_fatal() {
    let r = Keyset::parse(b"header_key = abc\n");
    assert_eq!(r.unwrap_err(), NxError::ParseError);
}

#[test]
fn wrong_length_header_key_is_fatal() {
    let r = Keyset::parse(b"header_key = aabbccdd\n");
    assert_eq!(r.unwrap_err(), NxError::ParseError);
}

#[test]
fn wrong_length_area_key_is_fatal() {
    let r = Keyset::parse(b"key_area_key_application_00 = aabb\n");
    assert_eq!(r.unwrap_err(), NxError::ParseError);
}

#[test]
fn whitespace_and_crlf_are_tolerated() {
    let key: Vec<u8> = vec![0x5A; 32];
    let text = format!("  header_key\t =  {} \r\n", hex_of(&key));
    let ks = Keyset::parse(text.as_bytes()).unwrap();
    assert_eq!(ks.header_key, key);
}

#[test]
fn upper_case_hex_is_accepted() {
    let text = "key_area_key_ocean_00 = AABBCCDDEEFF00112233445566778899\n";
    let ks = Keyset::parse(text.as_bytes()).unwrap();
    assert_eq!(
        ks.key_area_keys_ocean[0],
        Some(vec![
            0xAA, 0xBB, 0xCC, 0xDD, 0xEE, 0xFF, 0x00, 0x11, 0x22, 0x33, 0x44, 0x55, 0x66, 0x77,
            0x88, 0x99,
        ])
    );
}

#[test]
fn empty_input_yields_defaults() {
    let ks = Keyset::parse(b"").unwrap();
    assert_eq!(ks.header_key, vec![0u8; 32]);
    assert_eq!(ks.key_area_keys_application.len(), 0);
}

#[test]
fn later_entry_overwrites_earlier() {
    let k1: Vec<u8> = vec![0x01; 16];
    let k2: Vec<u8> = vec![0x02; 16];
    let text = format!(
        "key_area_key_system_00 = {}\nkey_area_key_system_00 = {}\n",
        hex_of(&k1),
        hex_of(&k2),
    );
    let ks = Keyset::parse(text.as_bytes()).unwrap();
    assert_eq!(ks.key_area_keys_system[0], Some(k2));
}
