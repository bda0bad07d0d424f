//! The NCA container: an XTS-encrypted header naming up to four inner
//! filesystem sections, a key area encrypted under a master key chosen by
//! key generation and family, and per-section AES-CTR decryption.

use vstd::prelude::*;
use vstd::bytes::{u16_from_le_bytes, u32_from_le_bytes, u64_from_le_bytes};
use vstd::slice::{slice_subrange, slice_to_vec};
use crate::NxError;
use crate::crypto::{
    aes128_ecb_decrypt, aes128_ecb_decrypt_area, xts_nintendo_decrypt, xts_decrypt_sectors,
};
use crate::key::{Keyset, KeysetView};
use crate::pfs0::{PFS0, spec_le16, spec_le32, spec_le64, spec_pfs0_parse_ok};
use crate::romfs::RomFs;
use crate::util::{Aes128CtrReader, ReadSeek, SeekFrom, clone_bytes, ctr_plain_view};

verus! {

/// At most this many filesystem sections fit in one container.
pub const MAX_FILESYSTEM_COUNT: usize = 4;

/// The XTS sector size of the header region.
pub const SECTOR_SIZE: usize = 0x200;

/// The granularity of section offsets in the container.
pub const MEDIA_UNIT_SIZE: usize = 0x200;

/// The magic `"NCA3"` little-endian; the only accepted container version.
pub const NCA3_MAGIC: u32 = 0x3341434E;

/// How the content is distributed.
#[derive(Clone, Copy, Debug, PartialEq, Eq, Structural)]
pub enum DistributionType {
    System,
    Gamecard,
}

/// What kind of content the container holds.
#[derive(Clone, Copy, Debug, PartialEq, Eq, Structural)]
pub enum ContentType {
    Program,
    Meta,
    Control,
    Manual,
    Data,
    PublicData,
}

/// Which key-area key family decrypts this container's key area.
#[derive(Clone, Copy, Debug, PartialEq, Eq, Structural)]
pub enum KeyAreaEncryptionKeyIndex {
    Application,
    Ocean,
    System,
}

/// What format a filesystem section holds.
#[derive(Clone, Copy, Debug, PartialEq, Eq, Structural)]
pub enum FileSystemType {
    RomFs,
    PartitionFs,
}

/// Which hash structure guards a section.
#[derive(Clone, Copy, Debug, PartialEq, Eq, Structural)]
pub enum HashType {
    Auto,
    HierarchicalSha256,
    HierarchicalIntegrity,
}

/// How a section's data is encrypted.
#[derive(Clone, Copy, Debug, PartialEq, Eq, Structural)]
pub enum EncryptionType {
    Auto,
    NoEncryption,
    AesCtrOld,
    AesCtr,
    AesCtrEx,
}

/// An RSA-2048 signature: 0x100 raw bytes.
#[derive(Clone, Debug, PartialEq, Eq)]
pub struct RSASignature {
    pub bytes: Vec<u8>,
}

/// The SDK version the content was built with.
#[derive(Clone, Copy, Debug, PartialEq, Eq, Structural)]
pub struct SdkAddonVersion {
    pub unk: u8,
    pub micro: u8,
    pub minor: u8,
    pub major: u8,
}

/// Where a filesystem section lies, in media units of 0x200 bytes.
#[derive(Clone, Copy, Debug, PartialEq, Eq, Structural)]
pub struct FileSystemEntry {
    pub start_offset: u32,
    pub end_offset: u32,
}

/// A SHA-256 digest: 0x20 raw bytes.
#[derive(Clone, Debug, PartialEq, Eq)]
pub struct Sha256Hash {
    pub hash: Vec<u8>,
}

/// The 0x40-byte key area: an XTS key pair, the CTR key, and one more.
#[derive(Clone, Debug, PartialEq, Eq)]
pub struct KeyArea {
    pub aes_xts_key: Vec<u8>,
    pub aes_ctr_key: Vec<u8>,
    pub unk_key: Vec<u8>,
}

/// Whether `ka` holds exactly the three keys of the 0x40-byte region `b`.
pub open spec fn spec_key_area_matches(ka: KeyArea, b: Seq<u8>) -> bool {
    &&& ka.aes_xts_key@ == b.subrange(0, 0x20)
    &&& ka.aes_ctr_key@ == b.subrange(0x20, 0x30)
    &&& ka.unk_key@ == b.subrange(0x30, 0x40)
}

impl KeyArea {
    /// Splits the first 0x40 bytes of `slice` into the three keys.
    pub fn from_slice(slice: &[u8]) -> (r: KeyArea)
        requires
            slice@.len() >= 0x40,
        ensures
            spec_key_area_matches(r, slice@.subrange(0, 0x40)),
    {
        let r = KeyArea {
            aes_xts_key: slice_to_vec(slice_subrange(slice, 0, 0x20)),
            aes_ctr_key: slice_to_vec(slice_subrange(slice, 0x20, 0x30)),
            unk_key: slice_to_vec(slice_subrange(slice, 0x30, 0x40)),
        };
        proof {
            assert(r.aes_xts_key@ =~= slice@.subrange(0, 0x40).subrange(0, 0x20));
            assert(r.aes_ctr_key@ =~= slice@.subrange(0, 0x40).subrange(0x20, 0x30));
            assert(r.unk_key@ =~= slice@.subrange(0, 0x40).subrange(0x30, 0x40));
        }
        r
    }
}

/// The decrypted 0x400-byte container header.
#[derive(Clone, Debug, PartialEq, Eq)]
pub struct Header {
    pub header_rsa_sig_1: RSASignature,
    pub header_rsa_sig_2: RSASignature,
    pub magic: u32,
    pub dist_type: DistributionType,
    pub cnt_type: ContentType,
    pub key_generation_old: u8,
    pub key_area_encryption_key_index: KeyAreaEncryptionKeyIndex,
    pub cnt_size: u64,
    pub program_id: u64,
    pub cnt_idx: u32,
    pub sdk_addon_ver: SdkAddonVersion,
    pub key_generation: u8,
    pub header_1_signature_key_generation: u8,
    pub rights_id: Vec<u8>,
    pub fs_entries: Vec<FileSystemEntry>,
    pub fs_header_hashes: Vec<Sha256Hash>,
    pub encrypted_key_area: KeyArea,
}

impl Header {
    /// The effective key generation: the larger of the two header fields,
    /// minus one when positive — generations 0 and 1 both name master key
    /// index 0, a firmware quirk preserved exactly.
    pub fn get_key_generation(&self) -> (r: u8)
        ensures
            r as int == spec_effective_key_generation(
                self.key_generation_old,
                self.key_generation,
            ),
    {
        let base_key_gen = if self.key_generation_old < self.key_generation {
            self.key_generation
        } else {
            self.key_generation_old
        };
        if base_key_gen > 0 {
            base_key_gen - 1
        } else {
            base_key_gen
        }
    }
}

/// The effective key generation selected by the two header fields.
pub open spec fn spec_effective_key_generation(old_gen: u8, new_gen: u8) -> int {
    let base = if old_gen < new_gen {
        new_gen as int
    } else {
        old_gen as int
    };
    if base > 0 {
        base - 1
    } else {
        base
    }
}

/// The hash structure of a section, discriminated at parse time by the
/// section's filesystem type.
#[derive(Clone, Debug, PartialEq, Eq)]
pub enum HashInfo {
    Sha256(HierarchicalSha256),
    Integrity(HierarchicalIntegrity),
}

/// The hash info of a PFS0 section; `pfs0_offset` locates the PFS0 image
/// within the section.
#[derive(Clone, Debug, PartialEq, Eq)]
pub struct HierarchicalSha256 {
    pub hash_table_hash: Sha256Hash,
    pub block_size: u32,
    pub unk_2: u32,
    pub hash_table_offset: u64,
    pub hash_table_size: u64,
    pub pfs0_offset: u64,
    pub pfs0_size: u64,
}

/// One level descriptor of the IVFC tree.
#[derive(Clone, Copy, Debug, PartialEq, Eq, Structural)]
pub struct HierarchicalIntegrityLevelInfo {
    pub offset: u64,
    pub size: u64,
    pub block_size_log2: u32,
}

/// The hash info of a RomFS section: six IVFC levels, the last of which
/// locates the RomFS image within the section.
#[derive(Clone, Debug, PartialEq, Eq)]
pub struct HierarchicalIntegrity {
    pub magic: u32,
    pub magic_num: u32,
    pub maybe_master_hash_size: u32,
    pub unk_7: u32,
    pub levels: Vec<HierarchicalIntegrityLevelInfo>,
    pub hash: Sha256Hash,
}

/// One bucket relocation descriptor of the patch info.
#[derive(Clone, Copy, Debug, PartialEq, Eq, Structural)]
pub struct BucketRelocationInfo {
    pub offset: u64,
    pub size: u64,
    pub magic: u32,
    pub unk_1: u32,
    pub unk_2: i32,
    pub unk_3: u32,
}

/// The patch info: two relocation descriptors.
#[derive(Clone, Copy, Debug, PartialEq, Eq, Structural)]
pub struct PatchInfo {
    pub info: BucketRelocationInfo,
    pub info_2: BucketRelocationInfo,
}

/// The sparse info, kept as raw bytes.
#[derive(Clone, Debug, PartialEq, Eq)]
pub struct SparseInfo {
    pub data_1: Vec<u8>,
    pub data_2: Vec<u8>,
}

/// One decrypted 0x200-byte filesystem header.
#[derive(Clone, Debug, PartialEq, Eq)]
pub struct FileSystemHeader {
    pub version: u16,
    pub fs_type: FileSystemType,
    pub hash_type: HashType,
    pub encryption_type: EncryptionType,
    pub hash_info: HashInfo,
    pub patch_info: PatchInfo,
    pub ctr: u64,
    pub sparse_info: SparseInfo,
}

/// The distribution type a header byte names.
pub open spec fn spec_dist_type(b: u8) -> Option<DistributionType> {
    if b == 0 {
        Some(DistributionType::System)
    } else if b == 1 {
        Some(DistributionType::Gamecard)
    } else {
        None
    }
}

/// The content type a header byte names.
pub open spec fn spec_content_type(b: u8) -> Option<ContentType> {
    if b == 0 {
        Some(ContentType::Program)
    } else if b == 1 {
        Some(ContentType::Meta)
    } else if b == 2 {
        Some(ContentType::Control)
    } else if b == 3 {
        Some(ContentType::Manual)
    } else if b == 4 {
        Some(ContentType::Data)
    } else if b == 5 {
        Some(ContentType::PublicData)
    } else {
        None
    }
}

/// The key family a header byte names.
pub open spec fn spec_kaek_index(b: u8) -> Option<KeyAreaEncryptionKeyIndex> {
    if b == 0 {
        Some(KeyAreaEncryptionKeyIndex::Application)
    } else if b == 1 {
        Some(KeyAreaEncryptionKeyIndex::Ocean)
    } else if b == 2 {
        Some(KeyAreaEncryptionKeyIndex::System)
    } else {
        None
    }
}

/// The filesystem type a header byte names.
pub open spec fn spec_fs_type(b: u8) -> Option<FileSystemType> {
    if b == 0 {
        Some(FileSystemType::RomFs)
    } else if b == 1 {
        Some(FileSystemType::PartitionFs)
    } else {
        None
    }
}

/// The hash type a header byte names.
pub open spec fn spec_hash_type(b: u8) -> Option<HashType> {
    if b == 0 {
        Some(HashType::Auto)
    } else if b == 2 {
        Some(HashType::HierarchicalSha256)
    } else if b == 3 {
        Some(HashType::HierarchicalIntegrity)
    } else {
        None
    }
}

/// The encryption type a header byte names.
pub open spec fn spec_enc_type(b: u8) -> Option<EncryptionType> {
    if b == 0 {
        Some(EncryptionType::Auto)
    } else if b == 1 {
        Some(EncryptionType::NoEncryption)
    } else if b == 2 {
        Some(EncryptionType::AesCtrOld)
    } else if b == 3 {
        Some(EncryptionType::AesCtr)
    } else if b == 4 {
        Some(EncryptionType::AesCtrEx)
    } else {
        None
    }
}

/// Filesystem entry `i` of the decrypted container header.
pub open spec fn spec_fs_entry(hd: Seq<u8>, i: int) -> FileSystemEntry {
    FileSystemEntry {
        start_offset: spec_le32(hd, 0x240 + 0x10 * i),
        end_offset: spec_le32(hd, 0x240 + 0x10 * i + 4),
    }
}

/// Whether section `i` is present: its entry's start offset is nonzero.
pub open spec fn spec_section_present(hd: Seq<u8>, i: int) -> bool {
    spec_fs_entry(hd, i).start_offset > 0
}

/// The indices of the present sections, in order.
pub open spec fn spec_present_indices(hd: Seq<u8>) -> Seq<int> {
    (if spec_section_present(hd, 0) {
        seq![0int]
    } else {
        Seq::empty()
    }) + (if spec_section_present(hd, 1) {
        seq![1int]
    } else {
        Seq::empty()
    }) + (if spec_section_present(hd, 2) {
        seq![2int]
    } else {
        Seq::empty()
    }) + (if spec_section_present(hd, 3) {
        seq![3int]
    } else {
        Seq::empty()
    })
}

/// Whether the one-byte fields of the decrypted container header name
/// known enum values.
pub open spec fn spec_nca_header_fields_ok(hd: Seq<u8>) -> bool {
    &&& spec_dist_type(hd[0x204]) is Some
    &&& spec_content_type(hd[0x205]) is Some
    &&& spec_kaek_index(hd[0x207]) is Some
}

/// Whether `h` holds exactly what the decrypted container header `hd`
/// carries, field by field.
pub open spec fn spec_header_matches(h: Header, hd: Seq<u8>) -> bool {
    &&& h.header_rsa_sig_1.bytes@ == hd.subrange(0, 0x100)
    &&& h.header_rsa_sig_2.bytes@ == hd.subrange(0x100, 0x200)
    &&& h.magic == spec_le32(hd, 0x200)
    &&& spec_dist_type(hd[0x204]) == Some(h.dist_type)
    &&& spec_content_type(hd[0x205]) == Some(h.cnt_type)
    &&& h.key_generation_old == hd[0x206]
    &&& spec_kaek_index(hd[0x207]) == Some(h.key_area_encryption_key_index)
    &&& h.cnt_size == spec_le64(hd, 0x208)
    &&& h.program_id == spec_le64(hd, 0x210)
    &&& h.cnt_idx == spec_le32(hd, 0x218)
    &&& h.sdk_addon_ver == (SdkAddonVersion {
        unk: hd[0x21C],
        micro: hd[0x21D],
        minor: hd[0x21E],
        major: hd[0x21F],
    })
    &&& h.key_generation == hd[0x220]
    &&& h.header_1_signature_key_generation == hd[0x221]
    &&& h.rights_id@ == hd.subrange(0x230, 0x240)
    &&& h.fs_entries@.len() == 4
    &&& (forall|i: int| 0 <= i < 4 ==> h.fs_entries@[i] == spec_fs_entry(hd, i))
    &&& h.fs_header_hashes@.len() == 4
    &&& (forall|i: int|
        0 <= i < 4 ==> (#[trigger] h.fs_header_hashes@[i]).hash@ == hd.subrange(
            0x280 + 0x20 * i,
            0x280 + 0x20 * i + 0x20,
        ))
    &&& spec_key_area_matches(h.encrypted_key_area, hd.subrange(0x300, 0x340))
}

/// Whether the one-byte fields of filesystem header `i` name known enum
/// values.
pub open spec fn spec_fs_header_fields_ok(fhd: Seq<u8>, i: int) -> bool {
    let b = 0x200 * i;
    &&& spec_fs_type(fhd[b + 2]) is Some
    &&& spec_hash_type(fhd[b + 3]) is Some
    &&& spec_enc_type(fhd[b + 4]) is Some
}

/// Whether `l` is the IVFC level descriptor at `q`.
pub open spec fn spec_level_matches(l: HierarchicalIntegrityLevelInfo, fhd: Seq<u8>, q: int) -> bool {
    &&& l.offset == spec_le64(fhd, q)
    &&& l.size == spec_le64(fhd, q + 8)
    &&& l.block_size_log2 == spec_le32(fhd, q + 0x10)
}

/// Whether `s` is the hierarchical-SHA-256 info at `p`.
pub open spec fn spec_sha256_matches(s: HierarchicalSha256, fhd: Seq<u8>, p: int) -> bool {
    &&& s.hash_table_hash.hash@ == fhd.subrange(p, p + 0x20)
    &&& s.block_size == spec_le32(fhd, p + 0x20)
    &&& s.unk_2 == spec_le32(fhd, p + 0x24)
    &&& s.hash_table_offset == spec_le64(fhd, p + 0x28)
    &&& s.hash_table_size == spec_le64(fhd, p + 0x30)
    &&& s.pfs0_offset == spec_le64(fhd, p + 0x38)
    &&& s.pfs0_size == spec_le64(fhd, p + 0x40)
}

/// Whether `v` is the hierarchical-integrity info at `p`.
pub open spec fn spec_integrity_matches(v: HierarchicalIntegrity, fhd: Seq<u8>, p: int) -> bool {
    &&& v.magic == spec_le32(fhd, p)
    &&& v.magic_num == spec_le32(fhd, p + 4)
    &&& v.maybe_master_hash_size == spec_le32(fhd, p + 8)
    &&& v.unk_7 == spec_le32(fhd, p + 0xC)
    &&& v.levels@.len() == 6
    &&& (forall|j: int|
        0 <= j < 6 ==> spec_level_matches(#[trigger] v.levels@[j], fhd, p + 0x10 + 0x18 * j))
    &&& v.hash.hash@ == fhd.subrange(p + 0xC0, p + 0xE0)
}

/// Whether `b` is the bucket relocation descriptor at `q`.
pub open spec fn spec_bucket_matches(b: BucketRelocationInfo, fhd: Seq<u8>, q: int) -> bool {
    &&& b.offset == spec_le64(fhd, q)
    &&& b.size == spec_le64(fhd, q + 8)
    &&& b.magic == spec_le32(fhd, q + 0x10)
    &&& b.unk_1 == spec_le32(fhd, q + 0x14)
    &&& b.unk_2 == spec_le32(fhd, q + 0x18) as i32
    &&& b.unk_3 == spec_le32(fhd, q + 0x1C)
}

/// Whether `fh` holds exactly what the decrypted filesystem header `i`
/// carries; the hash info variant follows the filesystem type.
pub open spec fn spec_fs_header_matches(fh: FileSystemHeader, fhd: Seq<u8>, i: int) -> bool {
    let b = 0x200 * i;
    &&& fh.version == spec_le16(fhd, b)
    &&& spec_fs_type(fhd[b + 2]) == Some(fh.fs_type)
    &&& spec_hash_type(fhd[b + 3]) == Some(fh.hash_type)
    &&& spec_enc_type(fhd[b + 4]) == Some(fh.encryption_type)
    &&& (match fh.fs_type {
        FileSystemType::PartitionFs => fh.hash_info matches HashInfo::Sha256(s)
            && spec_sha256_matches(s, fhd, b + 8),
        FileSystemType::RomFs => fh.hash_info matches HashInfo::Integrity(v)
            && spec_integrity_matches(v, fhd, b + 8),
    })
    &&& spec_bucket_matches(fh.patch_info.info, fhd, b + 0x108)
    &&& spec_bucket_matches(fh.patch_info.info_2, fhd, b + 0x128)
    &&& fh.ctr == spec_le64(fhd, b + 0x148)
    &&& fh.sparse_info.data_1@ == fhd.subrange(b + 0x150, b + 0x170)
    &&& fh.sparse_info.data_2@ == fhd.subrange(b + 0x170, b + 0x180)
}

/// Whether every present section's filesystem header names known enum
/// values.
pub open spec fn spec_retained_ok(hd: Seq<u8>, fhd: Seq<u8>) -> bool {
    forall|i: int| 0 <= i < 4 && spec_section_present(hd, i) ==> spec_fs_header_fields_ok(fhd, i)
}

/// The master key the keyset holds for this family and generation.
pub open spec fn spec_kaek_lookup(ks: KeysetView, kaek: KeyAreaEncryptionKeyIndex, gen: int) -> Option<
    Seq<u8>,
> {
    let m = match kaek {
        KeyAreaEncryptionKeyIndex::Application => ks.application,
        KeyAreaEncryptionKeyIndex::Ocean => ks.ocean,
        KeyAreaEncryptionKeyIndex::System => ks.system,
    };
    if m.contains_key(gen) {
        Some(m[gen])
    } else {
        None
    }
}

/// The decrypted first 0x400 bytes of the container: the NCA header,
/// which on disk is XTS-encrypted starting at sector 0.
pub open spec fn spec_hd(d: Seq<u8>, header_key: Seq<u8>) -> Seq<u8> {
    xts_nintendo_decrypt(header_key, 0, d.subrange(0, 0x400))
}

/// The decrypted four 0x200-byte filesystem headers, which on disk are
/// XTS-encrypted starting at sector 2.
pub open spec fn spec_fhd(d: Seq<u8>, header_key: Seq<u8>) -> Seq<u8> {
    xts_nintendo_decrypt(header_key, 2, d.subrange(0x400, 0xC00))
}

/// The distribution type named by `b`, as `spec_dist_type` says.
fn parse_dist_type(b: u8) -> (r: Option<DistributionType>)
    ensures
        r == spec_dist_type(b),
{
    if b == 0 {
        Some(DistributionType::System)
    } else if b == 1 {
        Some(DistributionType::Gamecard)
    } else {
        None
    }
}

/// The content type named by `b`, as `spec_content_type` says.
fn parse_content_type(b: u8) -> (r: Option<ContentType>)
    ensures
        r == spec_content_type(b),
{
    if b == 0 {
        Some(ContentType::Program)
    } else if b == 1 {
        Some(ContentType::Meta)
    } else if b == 2 {
        Some(ContentType::Control)
    } else if b == 3 {
        Some(ContentType::Manual)
    } else if b == 4 {
        Some(ContentType::Data)
    } else if b == 5 {
        Some(ContentType::PublicData)
    } else {
        None
    }
}

/// The key family named by `b`, as `spec_kaek_index` says.
fn parse_kaek_index(b: u8) -> (r: Option<KeyAreaEncryptionKeyIndex>)
    ensures
        r == spec_kaek_index(b),
{
    if b == 0 {
        Some(KeyAreaEncryptionKeyIndex::Application)
    } else if b == 1 {
        Some(KeyAreaEncryptionKeyIndex::Ocean)
    } else if b == 2 {
        Some(KeyAreaEncryptionKeyIndex::System)
    } else {
        None
    }
}

/// The filesystem type named by `b`, as `spec_fs_type` says.
fn parse_fs_type(b: u8) -> (r: Option<FileSystemType>)
    ensures
        r == spec_fs_type(b),
{
    if b == 0 {
        Some(FileSystemType::RomFs)
    } else if b == 1 {
        Some(FileSystemType::PartitionFs)
    } else {
        None
    }
}

/// The hash type named by `b`, as `spec_hash_type` says.
fn parse_hash_type(b: u8) -> (r: Option<HashType>)
    ensures
        r == spec_hash_type(b),
{
    if b == 0 {
        Some(HashType::Auto)
    } else if b == 2 {
        Some(HashType::HierarchicalSha256)
    } else if b == 3 {
        Some(HashType::HierarchicalIntegrity)
    } else {
        None
    }
}

/// The encryption type named by `b`, as `spec_enc_type` says.
fn parse_enc_type(b: u8) -> (r: Option<EncryptionType>)
    ensures
        r == spec_enc_type(b),
{
    if b == 0 {
        Some(EncryptionType::Auto)
    } else if b == 1 {
        Some(EncryptionType::NoEncryption)
    } else if b == 2 {
        Some(EncryptionType::AesCtrOld)
    } else if b == 3 {
        Some(EncryptionType::AesCtr)
    } else if b == 4 {
        Some(EncryptionType::AesCtrEx)
    } else {
        None
    }
}

/// Filesystem entry `i` of the decrypted container header.
fn parse_fs_entry(hd: &Vec<u8>, i: usize) -> (r: FileSystemEntry)
    requires
        hd@.len() == 0x400,
        i < 4,
    ensures
        r == spec_fs_entry(hd@, i as int),
{
    let base: usize = 0x240 + 0x10 * i;
    FileSystemEntry {
        start_offset: u32_from_le_bytes(slice_subrange(hd.as_slice(), base, base + 4)),
        end_offset: u32_from_le_bytes(slice_subrange(hd.as_slice(), base + 4, base + 8)),
    }
}

/// Parses the decrypted container header field by field. `InvalidMagic`
/// unless the magic reads `"NCA3"`; `ParseError` on an unknown enum byte.
fn parse_nca_header(hd: &Vec<u8>) -> (r: Result<Header, NxError>)
    requires
        hd@.len() == 0x400,
    ensures
        if spec_le32(hd@, 0x200) != NCA3_MAGIC {
            r matches Err(e) && e == NxError::InvalidMagic
        } else if !spec_nca_header_fields_ok(hd@) {
            r matches Err(e) && e == NxError::ParseError
        } else {
            r matches Ok(h) && spec_header_matches(h, hd@)
        },
{
    let magic = u32_from_le_bytes(slice_subrange(hd.as_slice(), 0x200, 0x204));
    if magic != NCA3_MAGIC {
        return Err(NxError::InvalidMagic);
    }
    let dist_type = match parse_dist_type(hd[0x204]) {
        Some(v) => v,
        None => {
            return Err(NxError::ParseError);
        },
    };
    let cnt_type = match parse_content_type(hd[0x205]) {
        Some(v) => v,
        None => {
            return Err(NxError::ParseError);
        },
    };
    let kaek_index = match parse_kaek_index(hd[0x207]) {
        Some(v) => v,
        None => {
            return Err(NxError::ParseError);
        },
    };
    let mut fs_entries: Vec<FileSystemEntry> = Vec::new();
    fs_entries.push(parse_fs_entry(hd, 0));
    fs_entries.push(parse_fs_entry(hd, 1));
    fs_entries.push(parse_fs_entry(hd, 2));
    fs_entries.push(parse_fs_entry(hd, 3));
    let mut fs_header_hashes: Vec<Sha256Hash> = Vec::new();
    fs_header_hashes.push(
        Sha256Hash { hash: slice_to_vec(slice_subrange(hd.as_slice(), 0x280, 0x2A0)) },
    );
    fs_header_hashes.push(
        Sha256Hash { hash: slice_to_vec(slice_subrange(hd.as_slice(), 0x2A0, 0x2C0)) },
    );
    fs_header_hashes.push(
        Sha256Hash { hash: slice_to_vec(slice_subrange(hd.as_slice(), 0x2C0, 0x2E0)) },
    );
    fs_header_hashes.push(
        Sha256Hash { hash: slice_to_vec(slice_subrange(hd.as_slice(), 0x2E0, 0x300)) },
    );
    let h = Header {
        header_rsa_sig_1: RSASignature {
            bytes: slice_to_vec(slice_subrange(hd.as_slice(), 0, 0x100)),
        },
        header_rsa_sig_2: RSASignature {
            bytes: slice_to_vec(slice_subrange(hd.as_slice(), 0x100, 0x200)),
        },
        magic,
        dist_type,
        cnt_type,
        key_generation_old: hd[0x206],
        key_area_encryption_key_index: kaek_index,
        cnt_size: u64_from_le_bytes(slice_subrange(hd.as_slice(), 0x208, 0x210)),
        program_id: u64_from_le_bytes(slice_subrange(hd.as_slice(), 0x210, 0x218)),
        cnt_idx: u32_from_le_bytes(slice_subrange(hd.as_slice(), 0x218, 0x21C)),
        sdk_addon_ver: SdkAddonVersion {
            unk: hd[0x21C],
            micro: hd[0x21D],
            minor: hd[0x21E],
            major: hd[0x21F],
        },
        key_generation: hd[0x220],
        header_1_signature_key_generation: hd[0x221],
        rights_id: slice_to_vec(slice_subrange(hd.as_slice(), 0x230, 0x240)),
        fs_entries,
        fs_header_hashes,
        encrypted_key_area: KeyArea::from_slice(slice_subrange(hd.as_slice(), 0x300, 0x340)),
    };
    proof {
        assert(hd@.subrange(0x300, 0x340).subrange(0, 0x40) =~= hd@.subrange(0x300, 0x340));
        assert forall|i: int| 0 <= i < 4 implies h.fs_entries@[i] == spec_fs_entry(hd@, i) by {
        }
        assert forall|i: int|
            0 <= i < 4 implies (#[trigger] h.fs_header_hashes@[i]).hash@ == hd@.subrange(
            0x280 + 0x20 * i,
            0x280 + 0x20 * i + 0x20,
        ) by {
            if i == 0 {
            } else if i == 1 {
            } else if i == 2 {
            } else {
                assert(h.fs_header_hashes@[3].hash@ == hd@.subrange(0x2E0, 0x300));
            }
        }
    }
    Ok(h)
}

/// The IVFC level descriptor at `q`.
fn parse_level(fhd: &Vec<u8>, q: usize) -> (r: HierarchicalIntegrityLevelInfo)
    requires
        fhd@.len() == 0x800,
        q + 0x18 <= 0x800,
    ensures
        spec_level_matches(r, fhd@, q as int),
{
    HierarchicalIntegrityLevelInfo {
        offset: u64_from_le_bytes(slice_subrange(fhd.as_slice(), q, q + 8)),
        size: u64_from_le_bytes(slice_subrange(fhd.as_slice(), q + 8, q + 16)),
        block_size_log2: u32_from_le_bytes(slice_subrange(fhd.as_slice(), q + 0x10, q + 0x14)),
    }
}

/// The bucket relocation descriptor at `q`.
fn parse_bucket(fhd: &Vec<u8>, q: usize) -> (r: BucketRelocationInfo)
    requires
        fhd@.len() == 0x800,
        q + 0x20 <= 0x800,
    ensures
        spec_bucket_matches(r, fhd@, q as int),
{
    BucketRelocationInfo {
        offset: u64_from_le_bytes(slice_subrange(fhd.as_slice(), q, q + 8)),
        size: u64_from_le_bytes(slice_subrange(fhd.as_slice(), q + 8, q + 16)),
        magic: u32_from_le_bytes(slice_subrange(fhd.as_slice(), q + 0x10, q + 0x14)),
        unk_1: u32_from_le_bytes(slice_subrange(fhd.as_slice(), q + 0x14, q + 0x18)),
        unk_2: (
        #[verifier::truncate]
        (u32_from_le_bytes(slice_subrange(fhd.as_slice(), q + 0x18, q + 0x1C)) as i32)),
        unk_3: u32_from_le_bytes(slice_subrange(fhd.as_slice(), q + 0x1C, q + 0x20)),
    }
}

/// Parses decrypted filesystem header `i` field by field; the hash info
/// variant follows the filesystem type. `ParseError` on an unknown enum
/// byte.
fn parse_fs_header(fhd: &Vec<u8>, i: usize) -> (r: Result<FileSystemHeader, NxError>)
    requires
        fhd@.len() == 0x800,
        i < 4,
    ensures
        if !spec_fs_header_fields_ok(fhd@, i as int) {
            r matches Err(e) && e == NxError::ParseError
        } else {
            r matches Ok(fh) && spec_fs_header_matches(fh, fhd@, i as int)
        },
{
    let b: usize = 0x200 * i;
    let fs_type = match parse_fs_type(fhd[b + 2]) {
        Some(v) => v,
        None => {
            return Err(NxError::ParseError);
        },
    };
    let hash_type = match parse_hash_type(fhd[b + 3]) {
        Some(v) => v,
        None => {
            return Err(NxError::ParseError);
        },
    };
    let encryption_type = match parse_enc_type(fhd[b + 4]) {
        Some(v) => v,
        None => {
            return Err(NxError::ParseError);
        },
    };
    let p: usize = b + 8;
    let hash_info = match fs_type {
        FileSystemType::PartitionFs => HashInfo::Sha256(
            HierarchicalSha256 {
                hash_table_hash: Sha256Hash {
                    hash: slice_to_vec(slice_subrange(fhd.as_slice(), p, p + 0x20)),
                },
                block_size: u32_from_le_bytes(slice_subrange(fhd.as_slice(), p + 0x20, p + 0x24)),
                unk_2: u32_from_le_bytes(slice_subrange(fhd.as_slice(), p + 0x24, p + 0x28)),
                hash_table_offset: u64_from_le_bytes(
                    slice_subrange(fhd.as_slice(), p + 0x28, p + 0x30),
                ),
                hash_table_size: u64_from_le_bytes(
                    slice_subrange(fhd.as_slice(), p + 0x30, p + 0x38),
                ),
                pfs0_offset: u64_from_le_bytes(slice_subrange(fhd.as_slice(), p + 0x38, p + 0x40)),
                pfs0_size: u64_from_le_bytes(slice_subrange(fhd.as_slice(), p + 0x40, p + 0x48)),
            },
        ),
        FileSystemType::RomFs => {
            let mut levels: Vec<HierarchicalIntegrityLevelInfo> = Vec::new();
            levels.push(parse_level(fhd, p + 0x10));
            levels.push(parse_level(fhd, p + 0x28));
            levels.push(parse_level(fhd, p + 0x40));
            levels.push(parse_level(fhd, p + 0x58));
            levels.push(parse_level(fhd, p + 0x70));
            levels.push(parse_level(fhd, p + 0x88));
            proof {
                assert forall|j: int|
                    0 <= j < 6 implies spec_level_matches(
                    #[trigger] levels@[j],
                    fhd@,
                    p + 0x10 + 0x18 * j,
                ) by {
                    if j == 0 {
                    } else if j == 1 {
                    } else if j == 2 {
                    } else if j == 3 {
                    } else if j == 4 {
                    } else {
                        assert(levels@[5] == spec_level_value_at(fhd@, p + 0x88));
                    }
                }
            }
            HashInfo::Integrity(
                HierarchicalIntegrity {
                    magic: u32_from_le_bytes(slice_subrange(fhd.as_slice(), p, p + 4)),
                    magic_num: u32_from_le_bytes(slice_subrange(fhd.as_slice(), p + 4, p + 8)),
                    maybe_master_hash_size: u32_from_le_bytes(
                        slice_subrange(fhd.as_slice(), p + 8, p + 0xC),
                    ),
                    unk_7: u32_from_le_bytes(slice_subrange(fhd.as_slice(), p + 0xC, p + 0x10)),
                    levels,
                    hash: Sha256Hash {
                        hash: slice_to_vec(slice_subrange(fhd.as_slice(), p + 0xC0, p + 0xE0)),
                    },
                },
            )
        },
    };
    Ok(
        FileSystemHeader {
            version: u16_from_le_bytes(slice_subrange(fhd.as_slice(), b, b + 2)),
            fs_type,
            hash_type,
            encryption_type,
            hash_info,
            patch_info: PatchInfo {
                info: parse_bucket(fhd, b + 0x108),
                info_2: parse_bucket(fhd, b + 0x128),
            },
            ctr: u64_from_le_bytes(slice_subrange(fhd.as_slice(), b + 0x148, b + 0x150)),
            sparse_info: SparseInfo {
                data_1: slice_to_vec(slice_subrange(fhd.as_slice(), b + 0x150, b + 0x170)),
                data_2: slice_to_vec(slice_subrange(fhd.as_slice(), b + 0x170, b + 0x180)),
            },
        },
    )
}

/// The level-descriptor value at `q` (a helper for pinning pushed
/// elements).
pub open spec fn spec_level_value_at(fhd: Seq<u8>, q: int) -> HierarchicalIntegrityLevelInfo {
    HierarchicalIntegrityLevelInfo {
        offset: spec_le64(fhd, q),
        size: spec_le64(fhd, q + 8),
        block_size_log2: spec_le32(fhd, q + 0x10),
    }
}

/// The master key for this family and generation, copied out of the
/// keyset; absent when the keyset lacks it.
fn lookup_key_area_key(ks: &Keyset, kaek: KeyAreaEncryptionKeyIndex, gen: u8) -> (r: Option<
    Vec<u8>,
>)
    requires
        ks.wf(),
    ensures
        match spec_kaek_lookup(ks@, kaek, gen as int) {
            Some(k) => r matches Some(v) && v@ == k && v@.len() == 16,
            None => r is None,
        },
{
    let table = match kaek {
        KeyAreaEncryptionKeyIndex::Application => &ks.key_area_keys_application,
        KeyAreaEncryptionKeyIndex::Ocean => &ks.key_area_keys_ocean,
        KeyAreaEncryptionKeyIndex::System => &ks.key_area_keys_system,
    };
    if (gen as usize) < table.len() {
        match &table[gen as usize] {
            Some(k) => Some(clone_bytes(k)),
            None => None,
        }
    } else {
        None
    }
}

/// An opened container: the parsed header, the decrypted key area, and
/// the present sections' headers paired with their entries.
pub struct NCA<R: ReadSeek> {
    reader: R,
    keyset: Keyset,
    dec_key_area: KeyArea,
    pub header: Header,
    pub fs_headers: Vec<FileSystemHeader>,
    fs_entries_present: Vec<FileSystemEntry>,
}

impl<R: ReadSeek> NCA<R> {
    /// The container's raw (encrypted) bytes.
    pub closed spec fn raw(&self) -> Seq<u8> {
        self.reader.data()
    }

    /// The key database this container was opened with.
    pub closed spec fn spec_keyset(&self) -> KeysetView {
        self.keyset@
    }

    /// The decrypted container header bytes.
    pub open spec fn hd(&self) -> Seq<u8> {
        spec_hd(self.raw(), self.spec_keyset().header_key)
    }

    /// The decrypted filesystem header bytes.
    pub open spec fn fhd(&self) -> Seq<u8> {
        spec_fhd(self.raw(), self.spec_keyset().header_key)
    }

    /// The parsed header.
    pub closed spec fn spec_header(&self) -> Header {
        self.header
    }

    /// How many sections were retained.
    pub closed spec fn spec_count(&self) -> int {
        self.fs_headers@.len() as int
    }

    /// Retained filesystem header `j`.
    pub closed spec fn spec_fs_header(&self, j: int) -> FileSystemHeader {
        self.fs_headers@[j]
    }

    /// The entry of retained section `j`.
    pub closed spec fn spec_entry_present(&self, j: int) -> FileSystemEntry {
        self.fs_entries_present@[j]
    }

    /// The decrypted per-section AES-CTR key.
    pub closed spec fn spec_ctr_key(&self) -> Seq<u8> {
        self.dec_key_area.aes_ctr_key@
    }

    /// An opened container faithfully mirrors its decrypted headers: the
    /// magic and enum bytes are valid, the parsed header matches, the key
    /// area was decrypted under the key the keyset names, and the retained
    /// headers are exactly the present sections' headers, in order.
    pub closed spec fn wf(&self) -> bool {
        let d = self.raw();
        let hd = self.hd();
        let fhd = self.fhd();
        let pres = spec_present_indices(hd);
        &&& self.reader.wf()
        &&& self.keyset.wf()
        &&& d.len() >= 0xC00
        &&& spec_le32(hd, 0x200) == NCA3_MAGIC
        &&& spec_nca_header_fields_ok(hd)
        &&& spec_header_matches(self.header, hd)
        &&& spec_kaek_lookup(
            self.keyset@,
            self.header.key_area_encryption_key_index,
            spec_effective_key_generation(hd[0x206], hd[0x220]),
        ) is Some
        &&& spec_key_area_matches(
            self.dec_key_area,
            aes128_ecb_decrypt(
                spec_kaek_lookup(
                    self.keyset@,
                    self.header.key_area_encryption_key_index,
                    spec_effective_key_generation(hd[0x206], hd[0x220]),
                ).unwrap(),
                hd.subrange(0x300, 0x340),
            ),
        )
        &&& self.dec_key_area.aes_xts_key@.len() == 0x20
        &&& self.dec_key_area.aes_ctr_key@.len() == 0x10
        &&& self.dec_key_area.unk_key@.len() == 0x10
        &&& self.fs_headers@.len() == pres.len()
        &&& self.fs_entries_present@.len() == pres.len()
        &&& (forall|j: int|
            0 <= j < pres.len() ==> spec_fs_header_matches(
                #[trigger] self.fs_headers@[j],
                fhd,
                pres[j],
            ) && self.fs_entries_present@[j] == spec_fs_entry(hd, pres[j]))
    }

    /// Opens a container: decrypts and parses the header, selects the
    /// master key by family and effective generation, decrypts the key
    /// area, and retains the headers of the present sections.
    pub fn new(reader: R, keyset: Keyset) -> (r: Result<NCA<R>, NxError>)
        requires
            reader.wf(),
            keyset.wf(),
        ensures
            ({
                let d = reader.data();
                let hd = spec_hd(d, keyset@.header_key);
                let fhd = spec_fhd(d, keyset@.header_key);
                match r {
                    Ok(n) => {
                        &&& n.wf()
                        &&& n.raw() == d
                        &&& n.spec_keyset() == keyset@
                        &&& d.len() >= 0xC00
                        &&& spec_le32(hd, 0x200) == NCA3_MAGIC
                    },
                    Err(e) => {
                        if d.len() < 0x400 {
                            e == NxError::UnexpectedEof
                        } else if spec_le32(hd, 0x200) != NCA3_MAGIC {
                            e == NxError::InvalidMagic
                        } else if !spec_nca_header_fields_ok(hd) {
                            e == NxError::ParseError
                        } else if d.len() < 0xC00 {
                            e == NxError::UnexpectedEof
                        } else if spec_kaek_lookup(
                            keyset@,
                            spec_kaek_index(hd[0x207]).unwrap(),
                            spec_effective_key_generation(hd[0x206], hd[0x220]),
                        ) is None {
                            e == NxError::KeyNotFound
                        } else {
                            e == NxError::ParseError && !spec_retained_ok(hd, fhd)
                        }
                    },
                }
            }),
    {
        let ghost d = reader.data();
        let mut rd = reader;
        if rd.seek(SeekFrom::Start(0)).is_err() {
            return Err(NxError::Io);
        }
        let mut hd = match rd.read_exact(0x400) {
            Ok(v) => v,
            Err(_) => {
                return Err(NxError::UnexpectedEof);
            },
        };
        proof {
            assert(hd@ =~= d.subrange(0, 0x400));
        }
        xts_decrypt_sectors(&keyset.header_key, 0, &mut hd);
        let header = match parse_nca_header(&hd) {
            Ok(h) => h,
            Err(e) => {
                return Err(e);
            },
        };
        let mut fhd = match rd.read_exact(0x800) {
            Ok(v) => v,
            Err(_) => {
                return Err(NxError::UnexpectedEof);
            },
        };
        proof {
            assert(fhd@ =~= d.subrange(0x400, 0xC00));
        }
        xts_decrypt_sectors(&keyset.header_key, 2, &mut fhd);
        let key_gen = header.get_key_generation();
        let kak = match lookup_key_area_key(
            &keyset,
            header.key_area_encryption_key_index,
            key_gen,
        ) {
            Some(k) => k,
            None => {
                return Err(NxError::KeyNotFound);
            },
        };
        let mut ka_raw = slice_to_vec(slice_subrange(hd.as_slice(), 0x300, 0x340));
        aes128_ecb_decrypt_area(&kak, &mut ka_raw);
        let dec_key_area = KeyArea::from_slice(ka_raw.as_slice());
        proof {
            assert(ka_raw@.subrange(0, 0x40) =~= ka_raw@);
        }
        let mut fs_headers: Vec<FileSystemHeader> = Vec::new();
        let mut fs_entries_present: Vec<FileSystemEntry> = Vec::new();
        let e0 = header.fs_entries[0];
        if e0.start_offset > 0 {
            match parse_fs_header(&fhd, 0) {
                Ok(fh) => {
                    fs_headers.push(fh);
                    fs_entries_present.push(e0);
                },
                Err(_) => {
                    return Err(NxError::ParseError);
                },
            }
        }
        let e1 = header.fs_entries[1];
        if e1.start_offset > 0 {
            match parse_fs_header(&fhd, 1) {
                Ok(fh) => {
                    fs_headers.push(fh);
                    fs_entries_present.push(e1);
                },
                Err(_) => {
                    return Err(NxError::ParseError);
                },
            }
        }
        let e2 = header.fs_entries[2];
        if e2.start_offset > 0 {
            match parse_fs_header(&fhd, 2) {
                Ok(fh) => {
                    fs_headers.push(fh);
                    fs_entries_present.push(e2);
                },
                Err(_) => {
                    return Err(NxError::ParseError);
                },
            }
        }
        let e3 = header.fs_entries[3];
        if e3.start_offset > 0 {
            match parse_fs_header(&fhd, 3) {
                Ok(fh) => {
                    fs_headers.push(fh);
                    fs_entries_present.push(e3);
                },
                Err(_) => {
                    return Err(NxError::ParseError);
                },
            }
        }
        Ok(NCA { reader: rd, keyset, dec_key_area, header, fs_headers, fs_entries_present })
    }

    /// How many sections this container retained.
    pub fn get_filesystem_count(&self) -> (r: usize)
        requires
            self.wf(),
        ensures
            r == self.spec_count(),
    {
        self.fs_headers.len()
    }

    /// Opens retained section `idx` as a PFS0: builds the decrypting
    /// reader for the section's PFS0 image and parses it. `InvalidIndex`
    /// past the retained sections, `WrongType` on a RomFS section,
    /// `Unsupported` unless the section is plain AES-CTR.
    pub fn open_pfs0_filesystem(&mut self, idx: usize) -> (r: Result<
        PFS0<Aes128CtrReader<R>>,
        NxError,
    >)
        requires
            old(self).wf(),
        ensures
            *final(self) == *old(self),
            ({
                let d = old(self).raw();
                if idx >= old(self).spec_count() {
                    r matches Err(e) && e == NxError::InvalidIndex
                } else {
                    let fh = old(self).spec_fs_header(idx as int);
                    let entry = old(self).spec_entry_present(idx as int);
                    if fh.fs_type != FileSystemType::PartitionFs {
                        r matches Err(e) && e == NxError::WrongType
                    } else if fh.encryption_type != EncryptionType::AesCtr {
                        r matches Err(e) && e == NxError::Unsupported
                    } else {
                        let base = entry.start_offset * 0x200 + fh.hash_info->Sha256_0.pfs0_offset;
                        if base > u64::MAX {
                            r matches Err(e) && e == NxError::ParseError
                        } else {
                            let view = ctr_plain_view(
                                d,
                                old(self).spec_ctr_key(),
                                fh.ctr,
                                base as int,
                            );
                            match r {
                                Ok(p) => p.wf() && p.raw() == view && spec_pfs0_parse_ok(view),
                                Err(e) => !spec_pfs0_parse_ok(view) && (e == NxError::InvalidMagic
                                    || e == NxError::UnexpectedEof),
                            }
                        }
                    }
                }
            }),
    {
        if idx >= self.fs_headers.len() {
            return Err(NxError::InvalidIndex);
        }
        let fh = &self.fs_headers[idx];
        let entry = self.fs_entries_present[idx];
        match fh.fs_type {
            FileSystemType::PartitionFs => {
            },
            FileSystemType::RomFs => {
                return Err(NxError::WrongType);
            },
        }
        match fh.encryption_type {
            EncryptionType::AesCtr => {
            },
            _ => {
                return Err(NxError::Unsupported);
            },
        }
        let pfs0_off: u64 = match &fh.hash_info {
            HashInfo::Sha256(s) => s.pfs0_offset,
            HashInfo::Integrity(_) => {
                return Err(NxError::WrongType);
            },
        };
        let fs_start: u64 = (entry.start_offset as u64) * 0x200;
        let base: u64 = match fs_start.checked_add(pfs0_off) {
            Some(b) => b,
            None => {
                return Err(NxError::ParseError);
            },
        };
        let ctr_reader = Aes128CtrReader::new(
            self.reader.dup(),
            base,
            fh.ctr,
            clone_bytes(&self.dec_key_area.aes_ctr_key),
        );
        PFS0::new(ctr_reader)
    }

    /// Opens retained section `idx` as a RomFS: the image lies at the
    /// last IVFC level's offset within the section. `InvalidIndex` past
    /// the retained sections, `WrongType` on a PFS0 section, `Unsupported`
    /// unless the section is plain AES-CTR.
    pub fn open_romfs_filesystem(&mut self, idx: usize) -> (r: Result<
        RomFs<Aes128CtrReader<R>>,
        NxError,
    >)
        requires
            old(self).wf(),
        ensures
            *final(self) == *old(self),
            ({
                let d = old(self).raw();
                if idx >= old(self).spec_count() {
                    r matches Err(e) && e == NxError::InvalidIndex
                } else {
                    let fh = old(self).spec_fs_header(idx as int);
                    let entry = old(self).spec_entry_present(idx as int);
                    if fh.fs_type != FileSystemType::RomFs {
                        r matches Err(e) && e == NxError::WrongType
                    } else if fh.encryption_type != EncryptionType::AesCtr {
                        r matches Err(e) && e == NxError::Unsupported
                    } else {
                        let base = entry.start_offset * 0x200
                            + fh.hash_info->Integrity_0.levels@[5].offset;
                        if base > u64::MAX {
                            r matches Err(e) && e == NxError::ParseError
                        } else {
                            let view = ctr_plain_view(
                                d,
                                old(self).spec_ctr_key(),
                                fh.ctr,
                                base as int,
                            );
                            match r {
                                Ok(fs) => fs.wf() && fs.raw() == view && view.len() >= 0x50,
                                Err(e) => view.len() < 0x50 && e == NxError::UnexpectedEof,
                            }
                        }
                    }
                }
            }),
    {
        if idx >= self.fs_headers.len() {
            return Err(NxError::InvalidIndex);
        }
        let fh = &self.fs_headers[idx];
        let entry = self.fs_entries_present[idx];
        match fh.fs_type {
            FileSystemType::RomFs => {
            },
            FileSystemType::PartitionFs => {
                return Err(NxError::WrongType);
            },
        }
        match fh.encryption_type {
            EncryptionType::AesCtr => {
            },
            _ => {
                return Err(NxError::Unsupported);
            },
        }
        let romfs_off: u64 = match &fh.hash_info {
            HashInfo::Integrity(v) => {
                proof {
                    let pres = spec_present_indices(old(self).hd());
                    assert(spec_fs_header_matches(
                        old(self).fs_headers@[idx as int],
                        old(self).fhd(),
                        pres[idx as int],
                    ));
                }
                v.levels[5].offset
            },
            HashInfo::Sha256(_) => {
                return Err(NxError::WrongType);
            },
        };
        let fs_start: u64 = (entry.start_offset as u64) * 0x200;
        let base: u64 = match fs_start.checked_add(romfs_off) {
            Some(b) => b,
            None => {
                return Err(NxError::ParseError);
            },
        };
        let ctr_reader = Aes128CtrReader::new(
            self.reader.dup(),
            base,
            fh.ctr,
            clone_bytes(&self.dec_key_area.aes_ctr_key),
        );
        RomFs::new(ctr_reader)
    }
}

} // verus!
