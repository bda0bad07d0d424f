//! Trusted bindings to the AES primitives this crate layers its formats
//! over: AES-128-CTR for section data, AES-XTS with the big-endian sector
//! tweak for the container headers, AES-128-ECB for the key area, and hex
//! decoding for the key database.
//!
//! What a cipher returns cannot reasonably be written out as a spec
//! function, so each primitive's result is given a name (an uninterpreted
//! spec function of the call's arguments); the wrappers state the facts the
//! rest of the crate builds on: lengths, the per-byte XOR shape of CTR
//! mode, and that the XTS pair are mutual inverses.

use vstd::prelude::*;
use aes::NewBlockCipher;
use block_modes::BlockMode;
use ctr::cipher::{NewCipher, StreamCipher, StreamCipherSeek};
use crate::NxError;
use crate::util::get_nintendo_tweak;

verus! {

/// Keystream block `block_index` of AES-128-CTR under `key`, for a stream
/// whose 128-bit initial counter holds `ctr_high` in its upper half: the
/// AES encryption of the counter value `ctr_high * 2^64 + block_index`.
pub uninterp spec fn aes128_ctr_keystream(key: Seq<u8>, ctr_high: u64, block_index: u64) -> Seq<u8>;

/// What AES-128-XTS with sector size 0x200 and the big-endian sector tweak
/// decrypts `data` to, under the 32-byte `key`, starting at `first_sector`.
pub uninterp spec fn xts_nintendo_decrypt(key: Seq<u8>, first_sector: u64, data: Seq<u8>) -> Seq<u8>;

/// What AES-128-XTS with sector size 0x200 and the big-endian sector tweak
/// encrypts `data` to, under the 32-byte `key`, starting at `first_sector`.
pub uninterp spec fn xts_nintendo_encrypt(key: Seq<u8>, first_sector: u64, data: Seq<u8>) -> Seq<u8>;

/// What AES-128-ECB decrypts `data` to under `key`.
pub uninterp spec fn aes128_ecb_decrypt(key: Seq<u8>, data: Seq<u8>) -> Seq<u8>;

/// Relies on `ctr::Ctr128BE<aes::Aes128>`: `apply_keystream` XORs `data` in
/// place with the AES-CTR keystream whose initial 128-bit big-endian
/// counter is `ctr_high` in the upper 64 bits and `start_block` in the
/// lower 64 bits, stepping the counter once per 16-byte block; `seek` first
/// skips `intra` bytes of that keystream. The bound on `start_block` keeps
/// the low half from carrying into `ctr_high`.
#[verifier::external_body]
pub(crate) fn aes128_ctr_transform(
    key: &Vec<u8>,
    ctr_high: u64,
    start_block: u64,
    intra: usize,
    data: &mut Vec<u8>,
)
    requires
        key@.len() == 16,
        intra < 16,
        start_block + (intra + old(data)@.len() + 15) / 16 <= u64::MAX,
    ensures
        final(data)@.len() == old(data)@.len(),
        forall|i: int|
            0 <= i < old(data)@.len() ==> final(data)@[i] == (old(data)@[i] ^ aes128_ctr_keystream(
                key@,
                ctr_high,
                (start_block + (intra + i) / 16) as u64,
            )[(intra + i) % 16]),
{
    let iv = get_nintendo_tweak(((ctr_high as u128) << 64) | (start_block as u128));
    let mut cipher = ctr::Ctr128BE::<aes::Aes128>::new_from_slices(key, &iv).unwrap();
    cipher.seek(intra as u64);
    cipher.apply_keystream(data.as_mut_slice());
}

/// Relies on `xts_mode::Xts128::<aes::Aes128>::decrypt_area` with sector
/// size 0x200 and this crate's big-endian tweak: decrypts whole sectors in
/// place; `encrypt_area` under the same key and sector index is its
/// inverse, which the second clause records.
#[verifier::external_body]
pub(crate) fn xts128_decrypt_area(key: &Vec<u8>, first_sector: u64, data: &mut Vec<u8>)
    requires
        key@.len() == 32,
        old(data)@.len() % 512 == 0,
    ensures
        final(data)@ == xts_nintendo_decrypt(key@, first_sector, old(data)@),
        final(data)@.len() == old(data)@.len(),
        xts_nintendo_encrypt(key@, first_sector, final(data)@) == old(data)@,
{
    let cipher_1 = aes::Aes128::new_from_slice(&key[..0x10]).unwrap();
    let cipher_2 = aes::Aes128::new_from_slice(&key[0x10..]).unwrap();
    let xts = xts_mode::Xts128::new(cipher_1, cipher_2);
    xts.decrypt_area(data.as_mut_slice(), 0x200, first_sector as u128, get_nintendo_tweak);
}

/// Relies on `xts_mode::Xts128::<aes::Aes128>::encrypt_area` with sector
/// size 0x200 and this crate's big-endian tweak: encrypts whole sectors in
/// place; `decrypt_area` under the same key and sector index is its
/// inverse, which the second clause records.
#[verifier::external_body]
pub(crate) fn xts128_encrypt_area(key: &Vec<u8>, first_sector: u64, data: &mut Vec<u8>)
    requires
        key@.len() == 32,
        old(data)@.len() % 512 == 0,
    ensures
        final(data)@ == xts_nintendo_encrypt(key@, first_sector, old(data)@),
        final(data)@.len() == old(data)@.len(),
        xts_nintendo_decrypt(key@, first_sector, final(data)@) == old(data)@,
{
    let cipher_1 = aes::Aes128::new_from_slice(&key[..0x10]).unwrap();
    let cipher_2 = aes::Aes128::new_from_slice(&key[0x10..]).unwrap();
    let xts = xts_mode::Xts128::new(cipher_1, cipher_2);
    xts.encrypt_area(data.as_mut_slice(), 0x200, first_sector as u128, get_nintendo_tweak);
}

/// Relies on `block_modes::Ecb::<aes::Aes128, NoPadding>::decrypt`:
/// decrypts each 16-byte block of `data` in place, independently; the IV
/// handed to the constructor is ignored by ECB.
#[verifier::external_body]
pub(crate) fn aes128_ecb_decrypt_area(key: &Vec<u8>, data: &mut Vec<u8>)
    requires
        key@.len() == 16,
        old(data)@.len() % 16 == 0,
    ensures
        final(data)@ == aes128_ecb_decrypt(key@, old(data)@),
        final(data)@.len() == old(data)@.len(),
{
    let iv = get_nintendo_tweak(0);
    let ecb = block_modes::Ecb::<aes::Aes128, block_modes::block_padding::NoPadding>::new_from_slices(
        key,
        &iv,
    ).unwrap();
    ecb.decrypt(data.as_mut_slice()).unwrap();
}

/// Decrypts a whole-sector region in place, as the container's header
/// regions are decrypted: AES-XTS under the 32-byte `key`, sector size
/// 0x200, big-endian sector tweak starting at `first_sector`.
pub fn xts_decrypt_sectors(key: &Vec<u8>, first_sector: u64, data: &mut Vec<u8>)
    requires
        key@.len() == 32,
        old(data)@.len() % 512 == 0,
    ensures
        final(data)@ == xts_nintendo_decrypt(key@, first_sector, old(data)@),
        final(data)@.len() == old(data)@.len(),
        xts_nintendo_encrypt(key@, first_sector, final(data)@) == old(data)@,
{
    xts128_decrypt_area(key, first_sector, data)
}

/// Encrypts a whole-sector region in place: the inverse of
/// `xts_decrypt_sectors` under the same key and starting sector.
pub fn xts_encrypt_sectors(key: &Vec<u8>, first_sector: u64, data: &mut Vec<u8>)
    requires
        key@.len() == 32,
        old(data)@.len() % 512 == 0,
    ensures
        final(data)@ == xts_nintendo_encrypt(key@, first_sector, old(data)@),
        final(data)@.len() == old(data)@.len(),
        xts_nintendo_decrypt(key@, first_sector, final(data)@) == old(data)@,
{
    xts128_encrypt_area(key, first_sector, data)
}

/// The XTS header transform round-trips: decrypting a region and then
/// re-encrypting it with the same key and starting sector reproduces the
/// original ciphertext, byte for byte.
pub fn xts_sectors_round_trip(key: &Vec<u8>, first_sector: u64, data: &mut Vec<u8>)
    requires
        key@.len() == 32,
        old(data)@.len() % 512 == 0,
    ensures
        final(data)@ == old(data)@,
{
    xts_decrypt_sectors(key, first_sector, data);
    xts_encrypt_sectors(key, first_sector, data);
}

/// Whether `b` is the ASCII code of a hex digit.
pub open spec fn is_hex_digit(b: u8) -> bool {
    (48 <= b <= 57) || (97 <= b <= 102) || (65 <= b <= 70)
}

/// The value of the hex digit with ASCII code `b`.
pub open spec fn hex_digit_value(b: u8) -> int {
    if 48 <= b <= 57 {
        b - 48
    } else if 97 <= b <= 102 {
        b - 87
    } else {
        b - 55
    }
}

/// The bytes a hex string of even length decodes to: two digits per byte,
/// high digit first.
pub open spec fn spec_hex_decode(s: Seq<u8>) -> Seq<u8> {
    Seq::new(
        (s.len() / 2) as nat,
        |i: int| (hex_digit_value(s[2 * i]) * 16 + hex_digit_value(s[2 * i + 1])) as u8,
    )
}

/// Relies on `hex::decode`: succeeds exactly on even-length, all-hex-digit
/// input (upper or lower case), and pairs digits high-first into bytes.
#[verifier::external_body]
pub(crate) fn hex_decode(s: &Vec<u8>) -> (r: Result<Vec<u8>, NxError>)
    ensures
        r is Ok <==> (s@.len() % 2 == 0 && (forall|i: int|
            0 <= i < s@.len() ==> is_hex_digit(s@[i]))),
        r matches Ok(v) ==> v@ == spec_hex_decode(s@),
{
    hex::decode(s.as_slice()).map_err(|_| NxError::ParseError)
}

/// Relies on `String::from_utf8`: succeeds exactly on valid UTF-8 and
/// yields the string those bytes encode, in the sense of vstd's UTF-8
/// model.
#[verifier::external_body]
pub(crate) fn bytes_to_string(v: Vec<u8>) -> (r: Option<String>)
    ensures
        r is Some <==> vstd::utf8::valid_utf8(v@),
        r matches Some(s) ==> s@ == vstd::utf8::decode_utf8(v@),
{
    String::from_utf8(v).ok()
}

} // verus!
