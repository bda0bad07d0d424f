//! RomFS, the hierarchical read-only filesystem: a directory tree stored
//! as sibling lists, with per-name hash buckets chaining records for fast
//! lookup. All structure is read lazily through the section reader; only
//! the 0x50-byte header is kept in memory.

use vstd::prelude::*;
use vstd::bytes::{spec_u32_from_le_bytes, spec_u64_from_le_bytes, u32_from_le_bytes, u64_from_le_bytes};
use vstd::slice::{slice_subrange, slice_to_vec};
use crate::NxError;
use crate::key::{bytes_eq, spec_split};
use crate::pfs0::{spec_le32, spec_le64};
use crate::util::{ReadSeek, SeekFrom, read_amount, read_clipped};

verus! {

/// The chain terminator in hash buckets and sibling lists.
pub const INVALID_INFO_OFFSET: u32 = 0xFFFF_FFFF;

/// The root directory's offset in the directory table.
pub const ROOT_DIR_OFFSET: u32 = 0;

/// The 0x50-byte RomFS header: five (offset, size) table descriptors and
/// where file data begins.
#[derive(Clone, Copy, Debug, PartialEq, Eq, Structural)]
pub struct Header {
    pub header_size: u64,
    pub dir_hash_table_offset: u64,
    pub dir_hash_table_size: u64,
    pub dir_table_offset: u64,
    pub dir_table_size: u64,
    pub file_hash_table_offset: u64,
    pub file_hash_table_size: u64,
    pub file_table_offset: u64,
    pub file_table_size: u64,
    pub file_data_offset: u64,
}

/// A directory record: tree links, hash-chain link, and its name's length.
#[derive(Clone, Copy, Debug, PartialEq, Eq, Structural)]
pub struct DirectoryInfo {
    pub parent_dir_offset: u32,
    pub sibling_dir_offset: u32,
    pub first_child_dir_offset: u32,
    pub first_child_file_offset: u32,
    pub next_dir_hash: u32,
    pub name_len: u32,
}

/// A file record: parent and sibling links, where its data lies and how
/// long it is, hash-chain link, and its name's length.
#[derive(Clone, Copy, Debug, PartialEq, Eq, Structural)]
pub struct FileInfo {
    pub parent_dir_offset: u32,
    pub sibling_file_offset: u32,
    pub data_offset: u64,
    pub data_size: u64,
    pub next_file_hash: u32,
    pub name_len: u32,
}

/// The header the image `d` carries.
pub open spec fn spec_romfs_header(d: Seq<u8>) -> Header {
    Header {
        header_size: spec_le64(d, 0),
        dir_hash_table_offset: spec_le64(d, 8),
        dir_hash_table_size: spec_le64(d, 16),
        dir_table_offset: spec_le64(d, 24),
        dir_table_size: spec_le64(d, 32),
        file_hash_table_offset: spec_le64(d, 40),
        file_hash_table_size: spec_le64(d, 48),
        file_table_offset: spec_le64(d, 56),
        file_table_size: spec_le64(d, 64),
        file_data_offset: spec_le64(d, 72),
    }
}

/// Whether the fixed part of a directory record at `table + off` lies
/// within the image.
pub open spec fn spec_dir_rec_ok(d: Seq<u8>, table: int, off: int) -> bool {
    table + off + 24 <= d.len()
}

/// The directory record at `table + off`.
pub open spec fn spec_dir_info_at(d: Seq<u8>, table: int, off: int) -> DirectoryInfo {
    let p = table + off;
    DirectoryInfo {
        parent_dir_offset: spec_le32(d, p),
        sibling_dir_offset: spec_le32(d, p + 4),
        first_child_dir_offset: spec_le32(d, p + 8),
        first_child_file_offset: spec_le32(d, p + 12),
        next_dir_hash: spec_le32(d, p + 16),
        name_len: spec_le32(d, p + 20),
    }
}

/// Whether the directory record at `table + off` and its name lie within
/// the image.
pub open spec fn spec_dir_ok(d: Seq<u8>, table: int, off: int) -> bool {
    spec_dir_rec_ok(d, table, off) && table + off + 24 + spec_dir_info_at(
        d,
        table,
        off,
    ).name_len <= d.len()
}

/// The name bytes of the directory record at `table + off`.
pub open spec fn spec_dir_name(d: Seq<u8>, table: int, off: int) -> Seq<u8> {
    let p = table + off;
    d.subrange(p + 24, p + 24 + spec_dir_info_at(d, table, off).name_len)
}

/// Whether the fixed part of a file record at `table + off` lies within
/// the image.
pub open spec fn spec_file_rec_ok(d: Seq<u8>, table: int, off: int) -> bool {
    table + off + 32 <= d.len()
}

/// The file record at `table + off`.
pub open spec fn spec_file_info_at(d: Seq<u8>, table: int, off: int) -> FileInfo {
    let p = table + off;
    FileInfo {
        parent_dir_offset: spec_le32(d, p),
        sibling_file_offset: spec_le32(d, p + 4),
        data_offset: spec_le64(d, p + 8),
        data_size: spec_le64(d, p + 16),
        next_file_hash: spec_le32(d, p + 24),
        name_len: spec_le32(d, p + 28),
    }
}

/// Whether the file record at `table + off` and its name lie within the
/// image.
pub open spec fn spec_file_ok(d: Seq<u8>, table: int, off: int) -> bool {
    spec_file_rec_ok(d, table, off) && table + off + 32 + spec_file_info_at(
        d,
        table,
        off,
    ).name_len <= d.len()
}

/// The name bytes of the file record at `table + off`.
pub open spec fn spec_file_name(d: Seq<u8>, table: int, off: int) -> Seq<u8> {
    let p = table + off;
    d.subrange(p + 32, p + 32 + spec_file_info_at(d, table, off).name_len)
}

/// One step of the RomFS name hash: rotate right by 5, XOR the next byte.
pub open spec fn spec_hash_step(h: u32, c: u8) -> u32 {
    ((h >> 5) | (h << 27)) ^ (c as u32)
}

/// The RomFS name hash before bucket reduction: seeded from the parent
/// directory's offset, folded over the name's bytes.
pub open spec fn spec_hash_raw(parent: u32, name: Seq<u8>) -> u32
    decreases name.len(),
{
    if name.len() == 0 {
        parent ^ 123456789
    } else {
        spec_hash_step(spec_hash_raw(parent, name.drop_last()), name.last())
    }
}

/// What a lookup yields: a hit, a clean miss, or a structural failure.
pub enum SpecLookup<T> {
    Found(T),
    Absent,
    Failed(NxError),
}

/// How many chain links a walk will follow before giving the image up as
/// cyclic: more than one per byte of the image cannot be honest.
pub open spec fn spec_chain_fuel(d: Seq<u8>) -> nat {
    d.len()
}

/// The walk of a file hash chain from record offset `cur`, looking for
/// `name` under the directory at `parent`: follows `next_file_hash` links
/// until a record matches, the terminator is reached, a record runs off
/// the image, or the fuel runs out.
pub open spec fn spec_file_chain(
    d: Seq<u8>,
    h: Header,
    cur: u32,
    parent: u32,
    name: Seq<u8>,
    fuel: nat,
) -> SpecLookup<FileInfo>
    decreases fuel,
{
    if cur == INVALID_INFO_OFFSET {
        SpecLookup::Absent
    } else if fuel == 0 {
        SpecLookup::Failed(NxError::ParseError)
    } else if !spec_file_ok(d, h.file_table_offset as int, cur as int) {
        SpecLookup::Failed(NxError::UnexpectedEof)
    } else {
        let fi = spec_file_info_at(d, h.file_table_offset as int, cur as int);
        if fi.parent_dir_offset == parent && spec_file_name(
            d,
            h.file_table_offset as int,
            cur as int,
        ) == name {
            SpecLookup::Found(fi)
        } else {
            spec_file_chain(d, h, fi.next_file_hash, parent, name, (fuel - 1) as nat)
        }
    }
}

/// The walk of a directory hash chain from record offset `cur`, looking
/// for `name` under the directory at `parent`; a hit yields the matching
/// record's offset.
pub open spec fn spec_dir_chain(
    d: Seq<u8>,
    h: Header,
    cur: u32,
    parent: u32,
    name: Seq<u8>,
    fuel: nat,
) -> SpecLookup<u32>
    decreases fuel,
{
    if cur == INVALID_INFO_OFFSET {
        SpecLookup::Absent
    } else if fuel == 0 {
        SpecLookup::Failed(NxError::ParseError)
    } else if !spec_dir_ok(d, h.dir_table_offset as int, cur as int) {
        SpecLookup::Failed(NxError::UnexpectedEof)
    } else {
        let di = spec_dir_info_at(d, h.dir_table_offset as int, cur as int);
        if di.parent_dir_offset == parent && spec_dir_name(
            d,
            h.dir_table_offset as int,
            cur as int,
        ) == name {
            SpecLookup::Found(cur)
        } else {
            spec_dir_chain(d, h, di.next_dir_hash, parent, name, (fuel - 1) as nat)
        }
    }
}

/// The bucket a name hashes to and the chain head stored there, then the
/// chain walk: what looking `name` up under `parent` in the file hash
/// table yields. An empty or truncated hash table is a structural failure.
pub open spec fn spec_find_file_info(d: Seq<u8>, h: Header, parent: u32, name: Seq<u8>) -> SpecLookup<
    FileInfo,
> {
    let count = h.file_hash_table_size / 4;
    if count == 0 {
        SpecLookup::Failed(NxError::ParseError)
    } else {
        let slot = (spec_hash_raw(parent, name) as int) % (count as int);
        let head_pos = h.file_hash_table_offset + slot * 4;
        if head_pos + 4 <= d.len() {
            spec_file_chain(d, h, spec_le32(d, head_pos as int), parent, name, spec_chain_fuel(d))
        } else {
            SpecLookup::Failed(NxError::UnexpectedEof)
        }
    }
}

/// What looking `name` up under `parent` in the directory hash table
/// yields.
pub open spec fn spec_find_dir_offset(d: Seq<u8>, h: Header, parent: u32, name: Seq<u8>) -> SpecLookup<
    u32,
> {
    let count = h.dir_hash_table_size / 4;
    if count == 0 {
        SpecLookup::Failed(NxError::ParseError)
    } else {
        let slot = (spec_hash_raw(parent, name) as int) % (count as int);
        let head_pos = h.dir_hash_table_offset + slot * 4;
        if head_pos + 4 <= d.len() {
            spec_dir_chain(d, h, spec_le32(d, head_pos as int), parent, name, spec_chain_fuel(d))
        } else {
            SpecLookup::Failed(NxError::UnexpectedEof)
        }
    }
}

/// The directory the path segments `segs` lead to, walked segment by
/// segment from the root.
pub open spec fn spec_resolve_dir(d: Seq<u8>, h: Header, segs: Seq<Seq<u8>>) -> SpecLookup<u32>
    decreases segs.len(),
{
    if segs.len() == 0 {
        SpecLookup::Found(ROOT_DIR_OFFSET)
    } else {
        match spec_resolve_dir(d, h, segs.drop_last()) {
            SpecLookup::Found(p) => spec_find_dir_offset(d, h, p, segs.last()),
            SpecLookup::Absent => SpecLookup::Absent,
            SpecLookup::Failed(e) => SpecLookup::Failed(e),
        }
    }
}

/// What looking up the file at `path` (split on `/`; the last segment is
/// the file's name, the rest are directories) yields.
pub open spec fn spec_find_file(d: Seq<u8>, h: Header, path: Seq<u8>) -> SpecLookup<FileInfo> {
    let segs = spec_split(path, 47);
    match spec_resolve_dir(d, h, segs.drop_last()) {
        SpecLookup::Found(p) => spec_find_file_info(d, h, p, segs.last()),
        SpecLookup::Absent => SpecLookup::Absent,
        SpecLookup::Failed(e) => SpecLookup::Failed(e),
    }
}

/// What looking up the directory at `path` yields: the empty path is the
/// root, every segment of a non-empty path is walked; a hit reads the
/// record it leads to.
pub open spec fn spec_find_dir(d: Seq<u8>, h: Header, path: Seq<u8>) -> SpecLookup<DirectoryInfo> {
    let segs = if path.len() == 0 {
        Seq::<Seq<u8>>::empty()
    } else {
        spec_split(path, 47)
    };
    match spec_resolve_dir(d, h, segs) {
        SpecLookup::Found(off) => {
            if spec_dir_rec_ok(d, spec_romfs_header(d).dir_table_offset as int, off as int) {
                SpecLookup::Found(
                    spec_dir_info_at(d, spec_romfs_header(d).dir_table_offset as int, off as int),
                )
            } else {
                SpecLookup::Failed(NxError::UnexpectedEof)
            }
        },
        SpecLookup::Absent => SpecLookup::Absent,
        SpecLookup::Failed(e) => SpecLookup::Failed(e),
    }
}

/// What `exists_file` answers for `path`: a boolean for a hit or a clean
/// miss; a structural failure still surfaces as an error.
pub open spec fn spec_exists_file_result(d: Seq<u8>, h: Header, path: Seq<u8>) -> Result<
    bool,
    NxError,
> {
    match spec_find_file(d, h, path) {
        SpecLookup::Found(fi) => Ok(true),
        SpecLookup::Absent => Ok(false),
        SpecLookup::Failed(e) => Err(e),
    }
}

/// What `exists_dir` answers for `path`.
pub open spec fn spec_exists_dir_result(d: Seq<u8>, h: Header, path: Seq<u8>) -> Result<
    bool,
    NxError,
> {
    match spec_find_dir(d, h, path) {
        SpecLookup::Found(di) => Ok(true),
        SpecLookup::Absent => Ok(false),
        SpecLookup::Failed(e) => Err(e),
    }
}

/// What `get_file_size` answers for `path`.
pub open spec fn spec_file_size_result(d: Seq<u8>, h: Header, path: Seq<u8>) -> Result<
    u64,
    NxError,
> {
    match spec_find_file(d, h, path) {
        SpecLookup::Found(fi) => Ok(fi.data_size),
        SpecLookup::Absent => Err(NxError::NotFound),
        SpecLookup::Failed(e) => Err(e),
    }
}

/// What `get_file_offset` answers for `path`.
pub open spec fn spec_file_offset_result(d: Seq<u8>, h: Header, path: Seq<u8>) -> Result<
    u64,
    NxError,
> {
    match spec_find_file(d, h, path) {
        SpecLookup::Found(fi) => Ok(fi.data_offset),
        SpecLookup::Absent => Err(NxError::NotFound),
        SpecLookup::Failed(e) => Err(e),
    }
}

/// A path names a file exactly when its size can be asked for: asking
/// whether a file exists answers `true` precisely when asking its size
/// answers at all.
pub proof fn lemma_exists_file_iff_size(d: Seq<u8>, h: Header, path: Seq<u8>)
    ensures
        (spec_exists_file_result(d, h, path) == Ok::<bool, NxError>(true)) <==> (
        spec_file_size_result(d, h, path) is Ok),
{
}

/// A hit of the file hash chain is honest: the record it yields carries
/// the looked-up parent and name, and stands somewhere in the file table.
pub proof fn lemma_file_chain_sound(
    d: Seq<u8>,
    h: Header,
    cur: u32,
    parent: u32,
    name: Seq<u8>,
    fuel: nat,
)
    requires
        spec_file_chain(d, h, cur, parent, name, fuel) is Found,
    ensures
        ({
            let fi = spec_file_chain(d, h, cur, parent, name, fuel)->Found_0;
            &&& fi.parent_dir_offset == parent
            &&& exists|off: u32|
                fi == #[trigger] spec_file_info_at(d, h.file_table_offset as int, off as int)
                    && spec_file_name(d, h.file_table_offset as int, off as int) == name
        }),
    decreases fuel,
{
    let t = h.file_table_offset as int;
    let fi0 = spec_file_info_at(d, t, cur as int);
    if cur != INVALID_INFO_OFFSET && fuel != 0 && spec_file_ok(d, t, cur as int) && fi0
        .parent_dir_offset == parent && spec_file_name(d, t, cur as int) == name {
        assert(spec_file_info_at(d, h.file_table_offset as int, cur as int) == fi0);
    } else {
        lemma_file_chain_sound(d, h, fi0.next_file_hash, parent, name, (fuel - 1) as nat);
    }
}

/// What the full path lookup finds is honest in the same way.
pub proof fn lemma_find_file_sound(d: Seq<u8>, h: Header, path: Seq<u8>)
    requires
        spec_find_file(d, h, path) is Found,
    ensures
        ({
            let fi = spec_find_file(d, h, path)->Found_0;
            exists|off: u32|
                fi == #[trigger] spec_file_info_at(d, h.file_table_offset as int, off as int)
                    && spec_file_name(d, h.file_table_offset as int, off as int) == spec_split(
                    path,
                    47,
                ).last()
        }),
{
    let segs = spec_split(path, 47);
    if let SpecLookup::Found(p) = spec_resolve_dir(d, h, segs.drop_last()) {
        let count = h.file_hash_table_size / 4;
        let slot = (spec_hash_raw(p, segs.last()) as int) % (count as int);
        let head_pos = h.file_hash_table_offset + slot * 4;
        lemma_file_chain_sound(
            d,
            h,
            spec_le32(d, head_pos as int),
            p,
            segs.last(),
            spec_chain_fuel(d),
        );
    }
}

/// Whether the record at `off` matches a lookup for `name` under
/// `parent`.
pub open spec fn spec_file_rec_matches(
    d: Seq<u8>,
    h: Header,
    off: u32,
    parent: u32,
    name: Seq<u8>,
) -> bool {
    &&& spec_file_ok(d, h.file_table_offset as int, off as int)
    &&& spec_file_info_at(d, h.file_table_offset as int, off as int).parent_dir_offset == parent
    &&& spec_file_name(d, h.file_table_offset as int, off as int) == name
}

/// Whether the chain from `cur` reaches `off` as its first record
/// matching `(parent, name)`: every record before `off` is readable and
/// does not match, and the record at `off` does.
pub open spec fn spec_chain_first_match(
    d: Seq<u8>,
    h: Header,
    cur: u32,
    parent: u32,
    name: Seq<u8>,
    off: u32,
    fuel: nat,
) -> bool
    decreases fuel,
{
    if cur == INVALID_INFO_OFFSET || fuel == 0 {
        false
    } else if !spec_file_ok(d, h.file_table_offset as int, cur as int) {
        false
    } else if cur == off {
        spec_file_rec_matches(d, h, off, parent, name)
    } else {
        !(spec_file_info_at(d, h.file_table_offset as int, cur as int).parent_dir_offset == parent
            && spec_file_name(d, h.file_table_offset as int, cur as int) == name)
            && spec_chain_first_match(
            d,
            h,
            spec_file_info_at(d, h.file_table_offset as int, cur as int).next_file_hash,
            parent,
            name,
            off,
            (fuel - 1) as nat,
        )
    }
}

/// A record that stands first among its chain's matches is exactly what
/// the chain walk finds.
pub proof fn lemma_file_chain_finds_first(
    d: Seq<u8>,
    h: Header,
    cur: u32,
    parent: u32,
    name: Seq<u8>,
    off: u32,
    fuel: nat,
)
    requires
        spec_chain_first_match(d, h, cur, parent, name, off, fuel),
    ensures
        spec_file_chain(d, h, cur, parent, name, fuel) == SpecLookup::Found(
            spec_file_info_at(d, h.file_table_offset as int, off as int),
        ),
    decreases fuel,
{
    if cur != off {
        lemma_file_chain_finds_first(
            d,
            h,
            spec_file_info_at(d, h.file_table_offset as int, cur as int).next_file_hash,
            parent,
            name,
            off,
            (fuel - 1) as nat,
        );
    }
}

/// Hash lookup agrees with the table: when the record at `off` stands
/// first among the matches of the chain its name hashes to, looking
/// `name` up under `parent` yields exactly that record — in particular
/// the size the lookup reports is the size the record carries.
pub proof fn lemma_find_file_info_finds(d: Seq<u8>, h: Header, parent: u32, name: Seq<u8>, off: u32)
    requires
        h.file_hash_table_size / 4 != 0,
        h.file_hash_table_offset + ((spec_hash_raw(parent, name) as int) % (
        h.file_hash_table_size / 4) as int) * 4 + 4 <= d.len(),
        spec_chain_first_match(
            d,
            h,
            spec_le32(
                d,
                h.file_hash_table_offset + ((spec_hash_raw(parent, name) as int) % (
                h.file_hash_table_size / 4) as int) * 4,
            ),
            parent,
            name,
            off,
            spec_chain_fuel(d),
        ),
    ensures
        spec_find_file_info(d, h, parent, name) == SpecLookup::Found(
            spec_file_info_at(d, h.file_table_offset as int, off as int),
        ),
{
    lemma_file_chain_finds_first(
        d,
        h,
        spec_le32(
            d,
            h.file_hash_table_offset + ((spec_hash_raw(parent, name) as int) % (
            h.file_hash_table_size / 4) as int) * 4,
        ),
        parent,
        name,
        off,
        spec_chain_fuel(d),
    );
}

/// Whether the directory record at `off` matches a lookup for `name`
/// under `parent`.
pub open spec fn spec_dir_rec_matches(
    d: Seq<u8>,
    h: Header,
    off: u32,
    parent: u32,
    name: Seq<u8>,
) -> bool {
    &&& spec_dir_ok(d, h.dir_table_offset as int, off as int)
    &&& spec_dir_info_at(d, h.dir_table_offset as int, off as int).parent_dir_offset == parent
    &&& spec_dir_name(d, h.dir_table_offset as int, off as int) == name
}

/// Whether the directory chain from `cur` reaches `off` as its first
/// record matching `(parent, name)`.
pub open spec fn spec_dir_chain_first_match(
    d: Seq<u8>,
    h: Header,
    cur: u32,
    parent: u32,
    name: Seq<u8>,
    off: u32,
    fuel: nat,
) -> bool
    decreases fuel,
{
    if cur == INVALID_INFO_OFFSET || fuel == 0 {
        false
    } else if !spec_dir_ok(d, h.dir_table_offset as int, cur as int) {
        false
    } else if cur == off {
        spec_dir_rec_matches(d, h, off, parent, name)
    } else {
        !(spec_dir_info_at(d, h.dir_table_offset as int, cur as int).parent_dir_offset == parent
            && spec_dir_name(d, h.dir_table_offset as int, cur as int) == name)
            && spec_dir_chain_first_match(
            d,
            h,
            spec_dir_info_at(d, h.dir_table_offset as int, cur as int).next_dir_hash,
            parent,
            name,
            off,
            (fuel - 1) as nat,
        )
    }
}

/// A directory record that stands first among its chain's matches is
/// exactly what the chain walk finds.
pub proof fn lemma_dir_chain_finds_first(
    d: Seq<u8>,
    h: Header,
    cur: u32,
    parent: u32,
    name: Seq<u8>,
    off: u32,
    fuel: nat,
)
    requires
        spec_dir_chain_first_match(d, h, cur, parent, name, off, fuel),
    ensures
        spec_dir_chain(d, h, cur, parent, name, fuel) == SpecLookup::Found(off),
    decreases fuel,
{
    if cur != off {
        lemma_dir_chain_finds_first(
            d,
            h,
            spec_dir_info_at(d, h.dir_table_offset as int, cur as int).next_dir_hash,
            parent,
            name,
            off,
            (fuel - 1) as nat,
        );
    }
}

/// Whether looking `name` up under `parent` in the directory hash table
/// leads, via its bucket's chain, to `off` as the first match.
pub open spec fn spec_dir_lookup_leads_to(
    d: Seq<u8>,
    h: Header,
    parent: u32,
    name: Seq<u8>,
    off: u32,
) -> bool {
    let count = h.dir_hash_table_size / 4;
    let slot = (spec_hash_raw(parent, name) as int) % (count as int);
    let head_pos = h.dir_hash_table_offset + slot * 4;
    &&& count != 0
    &&& head_pos + 4 <= d.len()
    &&& spec_dir_chain_first_match(
        d,
        h,
        spec_le32(d, head_pos as int),
        parent,
        name,
        off,
        spec_chain_fuel(d),
    )
}

/// The directory lookup finds exactly the record its bucket chain leads
/// to.
pub proof fn lemma_find_dir_offset_finds(d: Seq<u8>, h: Header, parent: u32, name: Seq<u8>, off: u32)
    requires
        spec_dir_lookup_leads_to(d, h, parent, name, off),
    ensures
        spec_find_dir_offset(d, h, parent, name) == SpecLookup::Found(off),
{
    let count = h.dir_hash_table_size / 4;
    let slot = (spec_hash_raw(parent, name) as int) % (count as int);
    let head_pos = h.dir_hash_table_offset + slot * 4;
    lemma_dir_chain_finds_first(
        d,
        h,
        spec_le32(d, head_pos as int),
        parent,
        name,
        off,
        spec_chain_fuel(d),
    );
}

/// Whether `offs` witnesses the walk of `segs` from the root: each
/// segment's bucket chain leads to its directory offset, parented on the
/// previous one.
pub open spec fn spec_segments_resolve(
    d: Seq<u8>,
    h: Header,
    segs: Seq<Seq<u8>>,
    offs: Seq<u32>,
) -> bool {
    &&& offs.len() == segs.len()
    &&& (forall|k: int|
        0 <= k < segs.len() ==> spec_dir_lookup_leads_to(
            d,
            h,
            if k == 0 {
                ROOT_DIR_OFFSET
            } else {
                offs[k - 1]
            },
            #[trigger] segs[k],
            offs[k],
        ))
}

/// A witnessed walk is exactly what the segment resolution finds: the
/// last witnessed directory offset, or the root for no segments.
pub proof fn lemma_resolve_dir_finds(d: Seq<u8>, h: Header, segs: Seq<Seq<u8>>, offs: Seq<u32>)
    requires
        spec_segments_resolve(d, h, segs, offs),
    ensures
        spec_resolve_dir(d, h, segs) == SpecLookup::<u32>::Found(
            if segs.len() == 0 {
                ROOT_DIR_OFFSET
            } else {
                offs[segs.len() - 1]
            },
        ),
    decreases segs.len(),
{
    if segs.len() > 0 {
        lemma_resolve_dir_finds(d, h, segs.drop_last(), offs.subrange(0, segs.len() - 1));
        let parent = if segs.len() == 1 {
            ROOT_DIR_OFFSET
        } else {
            offs[segs.len() - 2]
        };
        lemma_find_dir_offset_finds(d, h, parent, segs.last(), offs[segs.len() - 1]);
    }
}

/// Hash lookup agrees with the tree: when every directory segment of
/// `path` and the file's name each stand first among their bucket
/// chains' matches, looking the path up finds exactly the witnessed file
/// record — in particular, the size the lookup reports is the size that
/// record carries.
pub proof fn lemma_path_lookup_finds(
    d: Seq<u8>,
    h: Header,
    path: Seq<u8>,
    dir_offs: Seq<u32>,
    file_off: u32,
)
    requires
        spec_segments_resolve(d, h, spec_split(path, 47).drop_last(), dir_offs),
        ({
            let segs = spec_split(path, 47);
            let parent = if segs.len() == 1 {
                ROOT_DIR_OFFSET
            } else {
                dir_offs[segs.len() - 2]
            };
            let count = h.file_hash_table_size / 4;
            let slot = (spec_hash_raw(parent, segs.last()) as int) % (count as int);
            let head_pos = h.file_hash_table_offset + slot * 4;
            &&& count != 0
            &&& head_pos + 4 <= d.len()
            &&& spec_chain_first_match(
                d,
                h,
                spec_le32(d, head_pos as int),
                parent,
                segs.last(),
                file_off,
                spec_chain_fuel(d),
            )
        }),
    ensures
        spec_find_file(d, h, path) == SpecLookup::Found(
            spec_file_info_at(d, h.file_table_offset as int, file_off as int),
        ),
        spec_file_size_result(d, h, path) == Ok::<u64, NxError>(
            spec_file_info_at(d, h.file_table_offset as int, file_off as int).data_size,
        ),
{
    let segs = spec_split(path, 47);
    lemma_resolve_dir_finds(d, h, segs.drop_last(), dir_offs);
    let parent = if segs.len() == 1 {
        ROOT_DIR_OFFSET
    } else {
        dir_offs[segs.len() - 2]
    };
    crate::key::lemma_spec_find(path, 47);
    assert(segs.len() >= 1);
    lemma_find_file_info_finds(d, h, parent, segs.last(), file_off);
}

/// The list of sibling directory offsets from `cur` on: follows
/// `sibling_dir_offset` links to the terminator.
pub open spec fn spec_dir_siblings(d: Seq<u8>, table: int, cur: u32, fuel: nat) -> SpecLookup<
    Seq<u32>,
>
    decreases fuel,
{
    if cur == INVALID_INFO_OFFSET {
        SpecLookup::Found(Seq::empty())
    } else if fuel == 0 {
        SpecLookup::Failed(NxError::ParseError)
    } else if !spec_dir_rec_ok(d, table, cur as int) {
        SpecLookup::Failed(NxError::UnexpectedEof)
    } else {
        match spec_dir_siblings(
            d,
            table,
            spec_dir_info_at(d, table, cur as int).sibling_dir_offset,
            (fuel - 1) as nat,
        ) {
            SpecLookup::Found(rest) => SpecLookup::Found(seq![cur] + rest),
            SpecLookup::Absent => SpecLookup::Absent,
            SpecLookup::Failed(e) => SpecLookup::Failed(e),
        }
    }
}

/// The list of sibling file offsets from `cur` on.
pub open spec fn spec_file_siblings(d: Seq<u8>, table: int, cur: u32, fuel: nat) -> SpecLookup<
    Seq<u32>,
>
    decreases fuel,
{
    if cur == INVALID_INFO_OFFSET {
        SpecLookup::Found(Seq::empty())
    } else if fuel == 0 {
        SpecLookup::Failed(NxError::ParseError)
    } else if !spec_file_rec_ok(d, table, cur as int) {
        SpecLookup::Failed(NxError::UnexpectedEof)
    } else {
        match spec_file_siblings(
            d,
            table,
            spec_file_info_at(d, table, cur as int).sibling_file_offset,
            (fuel - 1) as nat,
        ) {
            SpecLookup::Found(rest) => SpecLookup::Found(seq![cur] + rest),
            SpecLookup::Absent => SpecLookup::Absent,
            SpecLookup::Failed(e) => SpecLookup::Failed(e),
        }
    }
}

/// Prepends already-collected offsets to what is still to be walked.
pub open spec fn spec_prepend(acc: Seq<u32>, r: SpecLookup<Seq<u32>>) -> SpecLookup<Seq<u32>> {
    match r {
        SpecLookup::Found(rest) => SpecLookup::Found(acc + rest),
        SpecLookup::Absent => SpecLookup::Absent,
        SpecLookup::Failed(e) => SpecLookup::Failed(e),
    }
}

/// A RomFS over a seekable (usually decrypting) reader. Only the header is
/// parsed ahead; every lookup walks the tables through the reader.
pub struct RomFs<R: ReadSeek> {
    reader: R,
    header: Header,
}

impl<R: ReadSeek> RomFs<R> {
    /// The section image this filesystem reads.
    pub closed spec fn raw(&self) -> Seq<u8> {
        self.reader.data()
    }

    /// The parsed header.
    pub closed spec fn spec_header(&self) -> Header {
        self.header
    }

    /// A parsed filesystem holds exactly the header its image carries.
    pub closed spec fn wf(&self) -> bool {
        &&& self.reader.wf()
        &&& self.raw().len() >= 0x50
        &&& self.header == spec_romfs_header(self.raw())
    }

    /// Reads and retains the 0x50-byte header; all other structure stays
    /// on the reader. `UnexpectedEof` when the image cannot hold a header.
    pub fn new(reader: R) -> (r: Result<RomFs<R>, NxError>)
        requires
            reader.wf(),
        ensures
            match r {
                Ok(fs) => fs.wf() && fs.raw() == reader.data() && reader.data().len() >= 0x50,
                Err(e) => reader.data().len() < 0x50 && e == NxError::UnexpectedEof,
            },
    {
        let ghost d = reader.data();
        let mut rd = reader;
        if rd.seek(SeekFrom::Start(0)).is_err() {
            return Err(NxError::Io);
        }
        let b = match rd.read_exact(0x50) {
            Ok(v) => v,
            Err(_) => {
                return Err(NxError::UnexpectedEof);
            },
        };
        proof {
            assert(b@.subrange(0, 8) =~= d.subrange(0, 8));
            assert(b@.subrange(8, 16) =~= d.subrange(8, 16));
            assert(b@.subrange(16, 24) =~= d.subrange(16, 24));
            assert(b@.subrange(24, 32) =~= d.subrange(24, 32));
            assert(b@.subrange(32, 40) =~= d.subrange(32, 40));
            assert(b@.subrange(40, 48) =~= d.subrange(40, 48));
            assert(b@.subrange(48, 56) =~= d.subrange(48, 56));
            assert(b@.subrange(56, 64) =~= d.subrange(56, 64));
            assert(b@.subrange(64, 72) =~= d.subrange(64, 72));
            assert(b@.subrange(72, 80) =~= d.subrange(72, 80));
        }
        let header = Header {
            header_size: u64_from_le_bytes(slice_subrange(b.as_slice(), 0, 8)),
            dir_hash_table_offset: u64_from_le_bytes(slice_subrange(b.as_slice(), 8, 16)),
            dir_hash_table_size: u64_from_le_bytes(slice_subrange(b.as_slice(), 16, 24)),
            dir_table_offset: u64_from_le_bytes(slice_subrange(b.as_slice(), 24, 32)),
            dir_table_size: u64_from_le_bytes(slice_subrange(b.as_slice(), 32, 40)),
            file_hash_table_offset: u64_from_le_bytes(slice_subrange(b.as_slice(), 40, 48)),
            file_hash_table_size: u64_from_le_bytes(slice_subrange(b.as_slice(), 48, 56)),
            file_table_offset: u64_from_le_bytes(slice_subrange(b.as_slice(), 56, 64)),
            file_table_size: u64_from_le_bytes(slice_subrange(b.as_slice(), 64, 72)),
            file_data_offset: u64_from_le_bytes(slice_subrange(b.as_slice(), 72, 80)),
        };
        Ok(RomFs { reader: rd, header })
    }
}

/// The RomFS name hash before bucket reduction.
#[verifier::loop_isolation(false)]
pub fn compute_hash_raw(parent: u32, name: &[u8]) -> (r: u32)
    ensures
        r == spec_hash_raw(parent, name@),
{
    let mut hash: u32 = parent ^ 123456789;
    let mut k: usize = 0;
    while k < name.len()
        invariant
            k <= name@.len(),
            hash == spec_hash_raw(parent, name@.subrange(0, k as int)),
        decreases name@.len() - k,
    {
        let c = *vstd::slice::slice_index_get(name, k);
        proof {
            let cur = name@.subrange(0, k + 1int);
            assert(cur.drop_last() =~= name@.subrange(0, k as int));
            assert(cur.last() == c);
        }
        hash = ((hash >> 5) | (hash << 27)) ^ (c as u32);
        k = k + 1;
    }
    proof {
        assert(name@.subrange(0, name@.len() as int) =~= name@);
    }
    hash
}

/// Reads the directory record at `table + off`, and its name when
/// `read_name` is set (an empty name otherwise). `UnexpectedEof` when the
/// record or its name runs off the image.
fn read_dir_record<R: ReadSeek>(rd: &mut R, table: u64, off: u32, read_name: bool) -> (r: Result<
    (DirectoryInfo, Vec<u8>),
    NxError,
>)
    requires
        old(rd).wf(),
    ensures
        final(rd).wf(),
        final(rd).data() == old(rd).data(),
        ({
            let d = old(rd).data();
            let rec_ok = spec_dir_rec_ok(d, table as int, off as int);
            let all_ok = if read_name {
                spec_dir_ok(d, table as int, off as int)
            } else {
                rec_ok
            };
            if all_ok {
                r matches Ok(p) && p.0 == spec_dir_info_at(d, table as int, off as int) && p.1@
                    == (if read_name {
                    spec_dir_name(d, table as int, off as int)
                } else {
                    Seq::<u8>::empty()
                })
            } else {
                r matches Err(e) && e == NxError::UnexpectedEof
            }
        }),
{
    proof {
        rd.lemma_wf_bounds();
    }
    let ghost d = rd.data();
    let pos: u64 = match table.checked_add(off as u64) {
        Some(p) => p,
        None => {
            return Err(NxError::UnexpectedEof);
        },
    };
    if rd.seek(SeekFrom::Start(pos)).is_err() {
        return Err(NxError::Io);
    }
    let b = match rd.read_exact(24) {
        Ok(v) => v,
        Err(_) => {
            return Err(NxError::UnexpectedEof);
        },
    };
    proof {
        assert(b@.subrange(0, 4) =~= d.subrange(pos + 0, pos + 4));
        assert(b@.subrange(4, 8) =~= d.subrange(pos + 4, pos + 8));
        assert(b@.subrange(8, 12) =~= d.subrange(pos + 8, pos + 12));
        assert(b@.subrange(12, 16) =~= d.subrange(pos + 12, pos + 16));
        assert(b@.subrange(16, 20) =~= d.subrange(pos + 16, pos + 20));
        assert(b@.subrange(20, 24) =~= d.subrange(pos + 20, pos + 24));
    }
    let info = DirectoryInfo {
        parent_dir_offset: u32_from_le_bytes(slice_subrange(b.as_slice(), 0, 4)),
        sibling_dir_offset: u32_from_le_bytes(slice_subrange(b.as_slice(), 4, 8)),
        first_child_dir_offset: u32_from_le_bytes(slice_subrange(b.as_slice(), 8, 12)),
        first_child_file_offset: u32_from_le_bytes(slice_subrange(b.as_slice(), 12, 16)),
        next_dir_hash: u32_from_le_bytes(slice_subrange(b.as_slice(), 16, 20)),
        name_len: u32_from_le_bytes(slice_subrange(b.as_slice(), 20, 24)),
    };
    if !read_name {
        return Ok((info, Vec::new()));
    }
    let name = match rd.read_exact(info.name_len as usize) {
        Ok(v) => v,
        Err(_) => {
            return Err(NxError::UnexpectedEof);
        },
    };
    proof {
        assert(name@ =~= spec_dir_name(d, table as int, off as int));
    }
    Ok((info, name))
}

/// Reads the file record at `table + off`, and its name when `read_name`
/// is set (an empty name otherwise). `UnexpectedEof` when the record or
/// its name runs off the image.
fn read_file_record<R: ReadSeek>(rd: &mut R, table: u64, off: u32, read_name: bool) -> (r: Result<
    (FileInfo, Vec<u8>),
    NxError,
>)
    requires
        old(rd).wf(),
    ensures
        final(rd).wf(),
        final(rd).data() == old(rd).data(),
        ({
            let d = old(rd).data();
            let rec_ok = spec_file_rec_ok(d, table as int, off as int);
            let all_ok = if read_name {
                spec_file_ok(d, table as int, off as int)
            } else {
                rec_ok
            };
            if all_ok {
                r matches Ok(p) && p.0 == spec_file_info_at(d, table as int, off as int) && p.1@
                    == (if read_name {
                    spec_file_name(d, table as int, off as int)
                } else {
                    Seq::<u8>::empty()
                })
            } else {
                r matches Err(e) && e == NxError::UnexpectedEof
            }
        }),
{
    proof {
        rd.lemma_wf_bounds();
    }
    let ghost d = rd.data();
    let pos: u64 = match table.checked_add(off as u64) {
        Some(p) => p,
        None => {
            return Err(NxError::UnexpectedEof);
        },
    };
    if rd.seek(SeekFrom::Start(pos)).is_err() {
        return Err(NxError::Io);
    }
    let b = match rd.read_exact(32) {
        Ok(v) => v,
        Err(_) => {
            return Err(NxError::UnexpectedEof);
        },
    };
    proof {
        assert(b@.subrange(0, 4) =~= d.subrange(pos as int, pos + 4));
        assert(b@.subrange(4, 8) =~= d.subrange(pos + 4, pos + 8));
        assert(b@.subrange(8, 16) =~= d.subrange(pos + 8, pos + 16));
        assert(b@.subrange(16, 24) =~= d.subrange(pos + 16, pos + 24));
        assert(b@.subrange(24, 28) =~= d.subrange(pos + 24, pos + 28));
        assert(b@.subrange(28, 32) =~= d.subrange(pos + 28, pos + 32));
    }
    let info = FileInfo {
        parent_dir_offset: u32_from_le_bytes(slice_subrange(b.as_slice(), 0, 4)),
        sibling_file_offset: u32_from_le_bytes(slice_subrange(b.as_slice(), 4, 8)),
        data_offset: u64_from_le_bytes(slice_subrange(b.as_slice(), 8, 16)),
        data_size: u64_from_le_bytes(slice_subrange(b.as_slice(), 16, 24)),
        next_file_hash: u32_from_le_bytes(slice_subrange(b.as_slice(), 24, 28)),
        name_len: u32_from_le_bytes(slice_subrange(b.as_slice(), 28, 32)),
    };
    if !read_name {
        return Ok((info, Vec::new()));
    }
    let name = match rd.read_exact(info.name_len as usize) {
        Ok(v) => v,
        Err(_) => {
            return Err(NxError::UnexpectedEof);
        },
    };
    proof {
        assert(name@ =~= spec_file_name(d, table as int, off as int));
    }
    Ok((info, name))
}

impl<R: ReadSeek> RomFs<R> {
    /// The path lookup every file query goes through.
    fn find_file_lookup(&mut self, path: &str) -> (r: Result<Option<FileInfo>, NxError>)
        requires
            old(self).wf(),
        ensures
            final(self).wf(),
            final(self).raw() == old(self).raw(),
            final(self).spec_header() == old(self).spec_header(),
            match spec_find_file(
                old(self).raw(),
                old(self).spec_header(),
                vstd::utf8::encode_utf8(path@),
            ) {
                SpecLookup::Found(fi) => r matches Ok(o) && o == Some(fi),
                SpecLookup::Absent => r matches Ok(o) && o is None,
                SpecLookup::Failed(e) => r matches Err(e2) && e2 == e,
            },
    {
        let ghost d = self.raw();
        let pb = path.as_bytes();
        let segs = split_bytes(pb, 47);
        let ghost sv = seq_views(segs@);
        proof {
            assert(sv.subrange(0, sv.len() - 1) =~= sv.drop_last());
        }
        let parent = match resolve_dirs(&mut self.reader, &self.header, &segs, segs.len() - 1) {
            Ok(Some(p)) => p,
            Ok(None) => {
                return Ok(None);
            },
            Err(e) => {
                return Err(e);
            },
        };
        find_file_info_in(&mut self.reader, &self.header, parent, segs[segs.len() - 1].as_slice())
    }

    /// The path lookup every directory query goes through.
    fn find_dir_lookup(&mut self, path: &str) -> (r: Result<Option<DirectoryInfo>, NxError>)
        requires
            old(self).wf(),
        ensures
            final(self).wf(),
            final(self).raw() == old(self).raw(),
            final(self).spec_header() == old(self).spec_header(),
            match spec_find_dir(
                old(self).raw(),
                old(self).spec_header(),
                vstd::utf8::encode_utf8(path@),
            ) {
                SpecLookup::Found(di) => r matches Ok(o) && o == Some(di),
                SpecLookup::Absent => r matches Ok(o) && o is None,
                SpecLookup::Failed(e) => r matches Err(e2) && e2 == e,
            },
    {
        let ghost d = self.raw();
        let pb = path.as_bytes();
        let off: u32 = if pb.len() == 0 {
            proof {
                assert(spec_resolve_dir(d, self.spec_header(), Seq::<Seq<u8>>::empty())
                    == SpecLookup::<u32>::Found(ROOT_DIR_OFFSET));
            }
            ROOT_DIR_OFFSET
        } else {
            let segs = split_bytes(pb, 47);
            match resolve_dirs(&mut self.reader, &self.header, &segs, segs.len()) {
                Ok(Some(p)) => {
                    proof {
                        assert(seq_views(segs@).subrange(0, seq_views(segs@).len() as int)
                            =~= seq_views(segs@));
                    }
                    p
                },
                Ok(None) => {
                    proof {
                        assert(seq_views(segs@).subrange(0, seq_views(segs@).len() as int)
                            =~= seq_views(segs@));
                    }
                    return Ok(None);
                },
                Err(e) => {
                    proof {
                        assert(seq_views(segs@).subrange(0, seq_views(segs@).len() as int)
                            =~= seq_views(segs@));
                    }
                    return Err(e);
                },
            }
        };
        match read_dir_record(&mut self.reader, self.header.dir_table_offset, off, false) {
            Ok(p) => Ok(Some(p.0)),
            Err(e) => Err(NxError::UnexpectedEof),
        }
    }

    /// Whether `path` names a file; a clean miss is `false`, a structural
    /// failure is still an error.
    pub fn exists_file(&mut self, path: &str) -> (r: Result<bool, NxError>)
        requires
            old(self).wf(),
        ensures
            final(self).wf(),
            final(self).raw() == old(self).raw(),
            final(self).spec_header() == old(self).spec_header(),
            r == spec_exists_file_result(
                old(self).raw(),
                old(self).spec_header(),
                vstd::utf8::encode_utf8(path@),
            ),
    {
        match self.find_file_lookup(path) {
            Ok(Some(fi)) => Ok(true),
            Ok(None) => Ok(false),
            Err(e) => Err(e),
        }
    }

    /// Whether `path` names a directory (the empty path is the root).
    pub fn exists_dir(&mut self, path: &str) -> (r: Result<bool, NxError>)
        requires
            old(self).wf(),
        ensures
            final(self).wf(),
            final(self).raw() == old(self).raw(),
            final(self).spec_header() == old(self).spec_header(),
            r == spec_exists_dir_result(
                old(self).raw(),
                old(self).spec_header(),
                vstd::utf8::encode_utf8(path@),
            ),
    {
        match self.find_dir_lookup(path) {
            Ok(Some(di)) => Ok(true),
            Ok(None) => Ok(false),
            Err(e) => Err(e),
        }
    }

    /// The size of the file at `path`, or `NotFound`.
    pub fn get_file_size(&mut self, path: &str) -> (r: Result<u64, NxError>)
        requires
            old(self).wf(),
        ensures
            final(self).wf(),
            final(self).raw() == old(self).raw(),
            final(self).spec_header() == old(self).spec_header(),
            r == spec_file_size_result(
                old(self).raw(),
                old(self).spec_header(),
                vstd::utf8::encode_utf8(path@),
            ),
    {
        match self.find_file_lookup(path) {
            Ok(Some(fi)) => Ok(fi.data_size),
            Ok(None) => Err(NxError::NotFound),
            Err(e) => Err(e),
        }
    }

    /// Where the file at `path`'s data begins, relative to the data
    /// region, or `NotFound`.
    pub fn get_file_offset(&mut self, path: &str) -> (r: Result<u64, NxError>)
        requires
            old(self).wf(),
        ensures
            final(self).wf(),
            final(self).raw() == old(self).raw(),
            final(self).spec_header() == old(self).spec_header(),
            r == spec_file_offset_result(
                old(self).raw(),
                old(self).spec_header(),
                vstd::utf8::encode_utf8(path@),
            ),
    {
        match self.find_file_lookup(path) {
            Ok(Some(fi)) => Ok(fi.data_offset),
            Ok(None) => Err(NxError::NotFound),
            Err(e) => Err(e),
        }
    }

    /// Reads up to `buf.len()` bytes at `offset` within the file whose
    /// data begins at `file_offset` (as `get_file_offset` reports it),
    /// into the front of `buf`; the request is clipped to the image.
    pub fn read_file_by_offset(&mut self, file_offset: u64, offset: u64, buf: &mut Vec<u8>) -> (r:
        Result<usize, NxError>)
        requires
            old(self).wf(),
        ensures
            final(self).wf(),
            final(self).raw() == old(self).raw(),
            final(self).spec_header() == old(self).spec_header(),
            ({
                let d = old(self).raw();
                let t = old(self).spec_header().file_data_offset + file_offset + offset;
                let m = read_amount(t, d.len() as int, old(buf)@.len() as int);
                &&& r matches Ok(got) && got == m
                &&& final(buf)@.len() == old(buf)@.len()
                &&& (forall|k: int| m <= k < old(buf)@.len() ==> final(buf)@[k] == old(buf)@[k])
                &&& (forall|k: int| 0 <= k < m ==> final(buf)@[k] == d[t + k])
            }),
    {
        proof {
            self.reader.lemma_wf_bounds();
        }
        let t: u64 = match self.header.file_data_offset.checked_add(file_offset) {
            Some(s) => match s.checked_add(offset) {
                Some(t) => t,
                None => {
                    return Ok(read_clipped(&mut self.reader, u64::MAX, buf));
                },
            },
            None => {
                return Ok(read_clipped(&mut self.reader, u64::MAX, buf));
            },
        };
        Ok(read_clipped(&mut self.reader, t, buf))
    }

    /// Reads `buf.len()` bytes of the file at `path` starting at `offset`
    /// within the file, into the front of `buf`. `NotFound` when the path
    /// names no file; `UnexpectedEof`, with `buf` untouched, when the
    /// request runs past the file's size.
    pub fn read_file(&mut self, path: &str, offset: u64, buf: &mut Vec<u8>) -> (r: Result<
        usize,
        NxError,
    >)
        requires
            old(self).wf(),
        ensures
            final(self).wf(),
            final(self).raw() == old(self).raw(),
            final(self).spec_header() == old(self).spec_header(),
            ({
                let d = old(self).raw();
                let h = old(self).spec_header();
                match spec_find_file(d, h, vstd::utf8::encode_utf8(path@)) {
                    SpecLookup::Found(fi) => {
                        let t = h.file_data_offset + fi.data_offset + offset;
                        let m = read_amount(t, d.len() as int, old(buf)@.len() as int);
                        if offset + old(buf)@.len() > fi.data_size {
                            r matches Err(e) && e == NxError::UnexpectedEof && final(buf)@ == old(buf)@
                        } else {
                            &&& r matches Ok(got) && got == m
                            &&& final(buf)@.len() == old(buf)@.len()
                            &&& (forall|k: int|
                                m <= k < old(buf)@.len() ==> final(buf)@[k] == old(buf)@[k])
                            &&& (forall|k: int| 0 <= k < m ==> final(buf)@[k] == d[t + k])
                        }
                    },
                    SpecLookup::Absent => r matches Err(e) && e == NxError::NotFound && final(buf)@ == old(buf)@,
                    SpecLookup::Failed(e) => r matches Err(e2) && e2 == e && final(buf)@ == old(buf)@,
                }
            }),
    {
        let fi = match self.find_file_lookup(path) {
            Ok(Some(fi)) => fi,
            Ok(None) => {
                return Err(NxError::NotFound);
            },
            Err(e) => {
                return Err(e);
            },
        };
        let n64: u64 = buf.len() as u64;
        if n64 > fi.data_size || offset > fi.data_size - n64 {
            return Err(NxError::UnexpectedEof);
        }
        self.read_file_by_offset(fi.data_offset, offset, buf)
    }

    /// Opens a cursor over the children of the directory at `path`: its
    /// child directories and child files, gathered by walking the two
    /// sibling chains.
    pub fn open_dir_iterator(&mut self, path: &str) -> (r: Result<
        RomFsDirectoryIterator<R>,
        NxError,
    >)
        requires
            old(self).wf(),
        ensures
            final(self).wf(),
            final(self).raw() == old(self).raw(),
            final(self).spec_header() == old(self).spec_header(),
            r matches Ok(it) ==> {
                &&& it.wf()
                &&& it.raw() == old(self).raw()
                &&& it.spec_dir_table() == old(self).spec_header().dir_table_offset
                &&& it.spec_file_table() == old(self).spec_header().file_table_offset
                &&& it.spec_dir_pos() == 0
                &&& it.spec_file_pos() == 0
            },
            ({
                let d = old(self).raw();
                let h = old(self).spec_header();
                match spec_find_dir(d, h, vstd::utf8::encode_utf8(path@)) {
                    SpecLookup::Found(di) => {
                        let dirs = spec_dir_siblings(
                            d,
                            h.dir_table_offset as int,
                            di.first_child_dir_offset,
                            spec_chain_fuel(d),
                        );
                        let files = spec_file_siblings(
                            d,
                            h.file_table_offset as int,
                            di.first_child_file_offset,
                            spec_chain_fuel(d),
                        );
                        match (dirs, files) {
                            (SpecLookup::Found(ds), SpecLookup::Found(fs)) => {
                                &&& r matches Ok(it)
                                &&& r matches Ok(it) ==> it.spec_dirs() == ds && it.spec_files()
                                    == fs
                            },
                            (SpecLookup::Failed(e), _) => r matches Err(e2) && e2 == e,
                            (SpecLookup::Found(ds), SpecLookup::Failed(e)) => r matches Err(e2)
                                && e2 == e,
                            _ => true,
                        }
                    },
                    SpecLookup::Absent => r matches Err(e) && e == NxError::NotFound,
                    SpecLookup::Failed(e) => r matches Err(e2) && e2 == e,
                }
            }),
    {
        let di = match self.find_dir_lookup(path) {
            Ok(Some(di)) => di,
            Ok(None) => {
                return Err(NxError::NotFound);
            },
            Err(e) => {
                return Err(e);
            },
        };
        let dir_offsets = match collect_dir_siblings(
            &mut self.reader,
            self.header.dir_table_offset,
            di.first_child_dir_offset,
        ) {
            Ok(v) => v,
            Err(e) => {
                return Err(e);
            },
        };
        let file_offsets = match collect_file_siblings(
            &mut self.reader,
            self.header.file_table_offset,
            di.first_child_file_offset,
        ) {
            Ok(v) => v,
            Err(e) => {
                return Err(e);
            },
        };
        Ok(
            RomFsDirectoryIterator::new(
                self.reader.dup(),
                self.header.dir_table_offset,
                self.header.file_table_offset,
                dir_offsets,
                file_offsets,
            ),
        )
    }
}

/// Collects a directory sibling chain into a vector, exactly as
/// `spec_dir_siblings` says.
#[verifier::loop_isolation(false)]
fn collect_dir_siblings<R: ReadSeek>(rd: &mut R, table: u64, head: u32) -> (r: Result<
    Vec<u32>,
    NxError,
>)
    requires
        old(rd).wf(),
    ensures
        final(rd).wf(),
        final(rd).data() == old(rd).data(),
        match spec_dir_siblings(old(rd).data(), table as int, head, spec_chain_fuel(old(rd).data())) {
            SpecLookup::Found(s) => r matches Ok(v) && v@ == s,
            SpecLookup::Absent => true,
            SpecLookup::Failed(e) => r matches Err(e2) && e2 == e,
        },
{
    let ghost d = rd.data();
    let mut fuel: u64 = match rd.stream_len() {
        Ok(l) => l,
        Err(_) => {
            return Err(NxError::Io);
        },
    };
    let mut cur: u32 = head;
    let mut acc: Vec<u32> = Vec::new();
    proof {
        assert(acc@ =~= Seq::<u32>::empty());
    }
    loop
        invariant
            rd.wf(),
            rd.data() == d,
            fuel <= d.len(),
            spec_dir_siblings(d, table as int, head, spec_chain_fuel(d)) == spec_prepend(
                acc@,
                spec_dir_siblings(d, table as int, cur, fuel as nat),
            ),
        decreases fuel,
    {
        if cur == INVALID_INFO_OFFSET {
            proof {
                assert(acc@ + Seq::<u32>::empty() =~= acc@);
            }
            return Ok(acc);
        }
        if fuel == 0 {
            return Err(NxError::ParseError);
        }
        let (di, _nm) = match read_dir_record(rd, table, cur, false) {
            Ok(p) => p,
            Err(e) => {
                return Err(e);
            },
        };
        let ghost pre = acc@;
        acc.push(cur);
        proof {
            let rest = spec_dir_siblings(d, table as int, di.sibling_dir_offset, (fuel - 1) as nat);
            if rest is Found {
                assert(pre + (seq![cur] + rest->Found_0) =~= (pre.push(cur)) + rest->Found_0);
            }
        }
        cur = di.sibling_dir_offset;
        fuel = fuel - 1;
    }
}

/// Collects a file sibling chain into a vector, exactly as
/// `spec_file_siblings` says.
#[verifier::loop_isolation(false)]
fn collect_file_siblings<R: ReadSeek>(rd: &mut R, table: u64, head: u32) -> (r: Result<
    Vec<u32>,
    NxError,
>)
    requires
        old(rd).wf(),
    ensures
        final(rd).wf(),
        final(rd).data() == old(rd).data(),
        match spec_file_siblings(
            old(rd).data(),
            table as int,
            head,
            spec_chain_fuel(old(rd).data()),
        ) {
            SpecLookup::Found(s) => r matches Ok(v) && v@ == s,
            SpecLookup::Absent => true,
            SpecLookup::Failed(e) => r matches Err(e2) && e2 == e,
        },
{
    let ghost d = rd.data();
    let mut fuel: u64 = match rd.stream_len() {
        Ok(l) => l,
        Err(_) => {
            return Err(NxError::Io);
        },
    };
    let mut cur: u32 = head;
    let mut acc: Vec<u32> = Vec::new();
    proof {
        assert(acc@ =~= Seq::<u32>::empty());
    }
    loop
        invariant
            rd.wf(),
            rd.data() == d,
            fuel <= d.len(),
            spec_file_siblings(d, table as int, head, spec_chain_fuel(d)) == spec_prepend(
                acc@,
                spec_file_siblings(d, table as int, cur, fuel as nat),
            ),
        decreases fuel,
    {
        if cur == INVALID_INFO_OFFSET {
            proof {
                assert(acc@ + Seq::<u32>::empty() =~= acc@);
            }
            return Ok(acc);
        }
        if fuel == 0 {
            return Err(NxError::ParseError);
        }
        let (fi, _nm) = match read_file_record(rd, table, cur, false) {
            Ok(p) => p,
            Err(e) => {
                return Err(e);
            },
        };
        let ghost pre = acc@;
        acc.push(cur);
        proof {
            let rest = spec_file_siblings(
                d,
                table as int,
                fi.sibling_file_offset,
                (fuel - 1) as nat,
            );
            if rest is Found {
                assert(pre + (seq![cur] + rest->Found_0) =~= (pre.push(cur)) + rest->Found_0);
            }
        }
        cur = fi.sibling_file_offset;
        fuel = fuel - 1;
    }
}

/// A cursor over one directory's children: the child directories and the
/// child files, each with its own position and rewind; moving or rewinding
/// one never disturbs the other.
pub struct RomFsDirectoryIterator<R: ReadSeek> {
    reader: R,
    dir_table_offset: u64,
    file_table_offset: u64,
    dir_offsets: Vec<u32>,
    file_offsets: Vec<u32>,
    cur_dir_idx: usize,
    cur_file_idx: usize,
}

impl<R: ReadSeek> RomFsDirectoryIterator<R> {
    /// The image the cursor reads names and sizes from.
    pub closed spec fn raw(&self) -> Seq<u8> {
        self.reader.data()
    }

    /// Where the directory table lies.
    pub closed spec fn spec_dir_table(&self) -> u64 {
        self.dir_table_offset
    }

    /// Where the file table lies.
    pub closed spec fn spec_file_table(&self) -> u64 {
        self.file_table_offset
    }

    /// The child directories' record offsets.
    pub closed spec fn spec_dirs(&self) -> Seq<u32> {
        self.dir_offsets@
    }

    /// The child files' record offsets.
    pub closed spec fn spec_files(&self) -> Seq<u32> {
        self.file_offsets@
    }

    /// The directory sub-cursor's position.
    pub closed spec fn spec_dir_pos(&self) -> int {
        self.cur_dir_idx as int
    }

    /// The file sub-cursor's position.
    pub closed spec fn spec_file_pos(&self) -> int {
        self.cur_file_idx as int
    }

    /// Both sub-cursors stay within their lists.
    pub closed spec fn wf(&self) -> bool {
        &&& self.reader.wf()
        &&& self.cur_dir_idx <= self.dir_offsets@.len()
        &&& self.cur_file_idx <= self.file_offsets@.len()
    }

    pub fn new(
        reader: R,
        dir_table_offset: u64,
        file_table_offset: u64,
        dir_offsets: Vec<u32>,
        file_offsets: Vec<u32>,
    ) -> (r: RomFsDirectoryIterator<R>)
        requires
            reader.wf(),
        ensures
            r.wf(),
            r.raw() == reader.data(),
            r.spec_dir_table() == dir_table_offset,
            r.spec_file_table() == file_table_offset,
            r.spec_dirs() == dir_offsets@,
            r.spec_files() == file_offsets@,
            r.spec_dir_pos() == 0,
            r.spec_file_pos() == 0,
    {
        RomFsDirectoryIterator {
            reader,
            dir_table_offset,
            file_table_offset,
            dir_offsets,
            file_offsets,
            cur_dir_idx: 0,
            cur_file_idx: 0,
        }
    }

    /// The next child directory's name; `UnexpectedEof` at the end of the
    /// list. The file sub-cursor is untouched.
    pub fn next_dir(&mut self) -> (r: Result<String, NxError>)
        requires
            old(self).wf(),
        ensures
            final(self).wf(),
            final(self).raw() == old(self).raw(),
            final(self).spec_dir_table() == old(self).spec_dir_table(),
            final(self).spec_file_table() == old(self).spec_file_table(),
            final(self).spec_dirs() == old(self).spec_dirs(),
            final(self).spec_files() == old(self).spec_files(),
            final(self).spec_file_pos() == old(self).spec_file_pos(),
            ({
                let d = old(self).raw();
                let table = old(self).spec_dir_table() as int;
                let p = old(self).spec_dir_pos();
                if p == old(self).spec_dirs().len() {
                    r matches Err(e) && e == NxError::UnexpectedEof && final(self).spec_dir_pos()
                        == p
                } else {
                    let off = old(self).spec_dirs()[p] as int;
                    if !spec_dir_ok(d, table, off) {
                        r matches Err(e) && e == NxError::UnexpectedEof && final(self).spec_dir_pos() == p
                    } else if !vstd::utf8::valid_utf8(spec_dir_name(d, table, off)) {
                        r matches Err(e) && e == NxError::ParseError && final(self).spec_dir_pos()
                            == p
                    } else {
                        r matches Ok(s) && s@ == vstd::utf8::decode_utf8(
                            spec_dir_name(d, table, off),
                        ) && final(self).spec_dir_pos() == p + 1
                    }
                }
            }),
    {
        if self.cur_dir_idx == self.dir_offsets.len() {
            return Err(NxError::UnexpectedEof);
        }
        let off = self.dir_offsets[self.cur_dir_idx];
        let (_di, nm) = match read_dir_record(&mut self.reader, self.dir_table_offset, off, true) {
            Ok(p) => p,
            Err(e) => {
                return Err(e);
            },
        };
        let name = match crate::crypto::bytes_to_string(nm) {
            Some(s) => s,
            None => {
                return Err(NxError::ParseError);
            },
        };
        self.cur_dir_idx = self.cur_dir_idx + 1;
        Ok(name)
    }

    /// How many child directories the cursor holds.
    pub fn get_dir_count(&self) -> (r: usize)
        ensures
            r == self.spec_dirs().len(),
    {
        self.dir_offsets.len()
    }

    /// Sends the directory sub-cursor back to the start; the file
    /// sub-cursor is untouched.
    pub fn rewind_dirs(&mut self)
        requires
            old(self).wf(),
        ensures
            final(self).wf(),
            final(self).raw() == old(self).raw(),
            final(self).spec_dir_table() == old(self).spec_dir_table(),
            final(self).spec_file_table() == old(self).spec_file_table(),
            final(self).spec_dirs() == old(self).spec_dirs(),
            final(self).spec_files() == old(self).spec_files(),
            final(self).spec_file_pos() == old(self).spec_file_pos(),
            final(self).spec_dir_pos() == 0,
    {
        self.cur_dir_idx = 0;
    }

    /// The next child file's name and size; `UnexpectedEof` at the end of
    /// the list. The directory sub-cursor is untouched.
    pub fn next_file(&mut self) -> (r: Result<(String, u64), NxError>)
        requires
            old(self).wf(),
        ensures
            final(self).wf(),
            final(self).raw() == old(self).raw(),
            final(self).spec_dir_table() == old(self).spec_dir_table(),
            final(self).spec_file_table() == old(self).spec_file_table(),
            final(self).spec_dirs() == old(self).spec_dirs(),
            final(self).spec_files() == old(self).spec_files(),
            final(self).spec_dir_pos() == old(self).spec_dir_pos(),
            ({
                let d = old(self).raw();
                let table = old(self).spec_file_table() as int;
                let p = old(self).spec_file_pos();
                if p == old(self).spec_files().len() {
                    r matches Err(e) && e == NxError::UnexpectedEof && final(self).spec_file_pos()
                        == p
                } else {
                    let off = old(self).spec_files()[p] as int;
                    if !spec_file_ok(d, table, off) {
                        r matches Err(e) && e == NxError::UnexpectedEof && final(self).spec_file_pos() == p
                    } else if !vstd::utf8::valid_utf8(spec_file_name(d, table, off)) {
                        r matches Err(e) && e == NxError::ParseError && final(self).spec_file_pos()
                            == p
                    } else {
                        r matches Ok(s) && s.0@ == vstd::utf8::decode_utf8(
                            spec_file_name(d, table, off),
                        ) && s.1 == spec_file_info_at(d, table, off).data_size && final(self).spec_file_pos() == p + 1
                    }
                }
            }),
    {
        if self.cur_file_idx == self.file_offsets.len() {
            return Err(NxError::UnexpectedEof);
        }
        let off = self.file_offsets[self.cur_file_idx];
        let (fi, nm) = match read_file_record(&mut self.reader, self.file_table_offset, off, true) {
            Ok(p) => p,
            Err(e) => {
                return Err(e);
            },
        };
        let name = match crate::crypto::bytes_to_string(nm) {
            Some(s) => s,
            None => {
                return Err(NxError::ParseError);
            },
        };
        self.cur_file_idx = self.cur_file_idx + 1;
        Ok((name, fi.data_size))
    }

    /// How many child files the cursor holds.
    pub fn get_file_count(&self) -> (r: usize)
        ensures
            r == self.spec_files().len(),
    {
        self.file_offsets.len()
    }

    /// Sends the file sub-cursor back to the start; the directory
    /// sub-cursor is untouched.
    pub fn rewind_files(&mut self)
        requires
            old(self).wf(),
        ensures
            final(self).wf(),
            final(self).raw() == old(self).raw(),
            final(self).spec_dir_table() == old(self).spec_dir_table(),
            final(self).spec_file_table() == old(self).spec_file_table(),
            final(self).spec_dirs() == old(self).spec_dirs(),
            final(self).spec_files() == old(self).spec_files(),
            final(self).spec_dir_pos() == old(self).spec_dir_pos(),
            final(self).spec_file_pos() == 0,
    {
        self.cur_file_idx = 0;
    }
}

/// The views of a sequence of byte vectors.
pub open spec fn seq_views(v: Seq<Vec<u8>>) -> Seq<Seq<u8>> {
    v.map_values(|x: Vec<u8>| x@)
}

/// Splits `s` on `sep` into owned parts, exactly as `spec_split` says.
#[verifier::loop_isolation(false)]
fn split_bytes(s: &[u8], sep: u8) -> (r: Vec<Vec<u8>>)
    ensures
        seq_views(r@) == spec_split(s@, sep),
        r@.len() >= 1,
{
    let mut out: Vec<Vec<u8>> = Vec::new();
    let mut pos: usize = 0;
    proof {
        assert(s@.subrange(0, s@.len() as int) =~= s@);
        assert(seq_views(out@) =~= Seq::<Seq<u8>>::empty());
    }
    loop
        invariant
            pos <= s@.len(),
            spec_split(s@, sep) == seq_views(out@) + spec_split(
                s@.subrange(pos as int, s@.len() as int),
                sep,
            ),
        decreases s@.len() - pos,
    {
        let ghost suffix = s@.subrange(pos as int, s@.len() as int);
        let ghost parts = spec_split(suffix, sep);
        let j = crate::key::find_from(s, pos, sep);
        let part = slice_to_vec(slice_subrange(s, pos, j));
        proof {
            assert(part@ =~= suffix.subrange(0, j - pos));
            if j < s@.len() {
                assert(suffix.subrange(j - pos + 1, suffix.len() as int) =~= s@.subrange(
                    j + 1,
                    s@.len() as int,
                ));
            } else {
                assert(part@ =~= suffix);
            }
        }
        let ghost pre = out@;
        out.push(part);
        proof {
            assert(seq_views(out@) =~= seq_views(pre).push(parts[0]));
            if j < s@.len() {
                assert(seq_views(out@) + spec_split(s@.subrange(j + 1, s@.len() as int), sep)
                    =~= seq_views(pre) + parts);
            } else {
                assert(seq_views(out@) =~= seq_views(pre) + parts);
            }
        }
        if j == s.len() {
            return out;
        }
        pos = j + 1;
    }
}

/// Walks a file hash chain exactly as `spec_file_chain` says.
#[verifier::loop_isolation(false)]
fn walk_file_chain<R: ReadSeek>(
    rd: &mut R,
    h: &Header,
    head: u32,
    parent: u32,
    name: &[u8],
) -> (r: Result<Option<FileInfo>, NxError>)
    requires
        old(rd).wf(),
    ensures
        final(rd).wf(),
        final(rd).data() == old(rd).data(),
        match spec_file_chain(
            old(rd).data(),
            *h,
            head,
            parent,
            name@,
            spec_chain_fuel(old(rd).data()),
        ) {
            SpecLookup::Found(fi) => r matches Ok(o) && o == Some(fi),
            SpecLookup::Absent => r matches Ok(o) && o is None,
            SpecLookup::Failed(e) => r matches Err(e2) && e2 == e,
        },
{
    let ghost d = rd.data();
    let mut fuel: u64 = match rd.stream_len() {
        Ok(l) => l,
        Err(_) => {
            return Err(NxError::Io);
        },
    };
    let mut cur: u32 = head;
    loop
        invariant
            rd.wf(),
            rd.data() == d,
            fuel <= d.len(),
            spec_file_chain(d, *h, head, parent, name@, spec_chain_fuel(d)) == spec_file_chain(
                d,
                *h,
                cur,
                parent,
                name@,
                fuel as nat,
            ),
        decreases fuel,
    {
        if cur == INVALID_INFO_OFFSET {
            return Ok(None);
        }
        if fuel == 0 {
            return Err(NxError::ParseError);
        }
        let (fi, nm) = match read_file_record(rd, h.file_table_offset, cur, true) {
            Ok(p) => p,
            Err(e) => {
                return Err(e);
            },
        };
        if fi.parent_dir_offset == parent && bytes_eq(nm.as_slice(), name) {
            return Ok(Some(fi));
        }
        cur = fi.next_file_hash;
        fuel = fuel - 1;
    }
}

/// Walks a directory hash chain exactly as `spec_dir_chain` says.
#[verifier::loop_isolation(false)]
fn walk_dir_chain<R: ReadSeek>(rd: &mut R, h: &Header, head: u32, parent: u32, name: &[u8]) -> (r:
    Result<Option<u32>, NxError>)
    requires
        old(rd).wf(),
    ensures
        final(rd).wf(),
        final(rd).data() == old(rd).data(),
        match spec_dir_chain(
            old(rd).data(),
            *h,
            head,
            parent,
            name@,
            spec_chain_fuel(old(rd).data()),
        ) {
            SpecLookup::Found(off) => r matches Ok(o) && o == Some(off),
            SpecLookup::Absent => r matches Ok(o) && o is None,
            SpecLookup::Failed(e) => r matches Err(e2) && e2 == e,
        },
{
    let ghost d = rd.data();
    let mut fuel: u64 = match rd.stream_len() {
        Ok(l) => l,
        Err(_) => {
            return Err(NxError::Io);
        },
    };
    let mut cur: u32 = head;
    loop
        invariant
            rd.wf(),
            rd.data() == d,
            fuel <= d.len(),
            spec_dir_chain(d, *h, head, parent, name@, spec_chain_fuel(d)) == spec_dir_chain(
                d,
                *h,
                cur,
                parent,
                name@,
                fuel as nat,
            ),
        decreases fuel,
    {
        if cur == INVALID_INFO_OFFSET {
            return Ok(None);
        }
        if fuel == 0 {
            return Err(NxError::ParseError);
        }
        let (di, nm) = match read_dir_record(rd, h.dir_table_offset, cur, true) {
            Ok(p) => p,
            Err(e) => {
                return Err(e);
            },
        };
        if di.parent_dir_offset == parent && bytes_eq(nm.as_slice(), name) {
            return Ok(Some(cur));
        }
        cur = di.next_dir_hash;
        fuel = fuel - 1;
    }
}

/// Reads the chain head of the bucket `name` hashes to, then walks it:
/// the file lookup of `spec_find_file_info`.
fn find_file_info_in<R: ReadSeek>(rd: &mut R, h: &Header, parent: u32, name: &[u8]) -> (r: Result<
    Option<FileInfo>,
    NxError,
>)
    requires
        old(rd).wf(),
    ensures
        final(rd).wf(),
        final(rd).data() == old(rd).data(),
        match spec_find_file_info(old(rd).data(), *h, parent, name@) {
            SpecLookup::Found(fi) => r matches Ok(o) && o == Some(fi),
            SpecLookup::Absent => r matches Ok(o) && o is None,
            SpecLookup::Failed(e) => r matches Err(e2) && e2 == e,
        },
{
    proof {
        rd.lemma_wf_bounds();
    }
    let ghost d = rd.data();
    let count: u64 = h.file_hash_table_size / 4;
    if count == 0 {
        return Err(NxError::ParseError);
    }
    proof {
        vstd::arithmetic::div_mod::lemma_fundamental_div_mod(h.file_hash_table_size as int, 4);
        vstd::arithmetic::div_mod::lemma_mod_bound(
            spec_hash_raw(parent, name@) as int,
            count as int,
        );
    }
    let hash = compute_hash_raw(parent, name);
    let slot: u64 = (hash as u64) % count;
    let head_pos: u64 = match h.file_hash_table_offset.checked_add(slot * 4) {
        Some(p) => p,
        None => {
            return Err(NxError::UnexpectedEof);
        },
    };
    if rd.seek(SeekFrom::Start(head_pos)).is_err() {
        return Err(NxError::Io);
    }
    let b = match rd.read_exact(4) {
        Ok(v) => v,
        Err(_) => {
            return Err(NxError::UnexpectedEof);
        },
    };
    proof {
        assert(b@.subrange(0, 4) =~= d.subrange(head_pos as int, head_pos + 4));
    }
    let head = u32_from_le_bytes(slice_subrange(b.as_slice(), 0, 4));
    walk_file_chain(rd, h, head, parent, name)
}

/// Reads the chain head of the bucket `name` hashes to, then walks it:
/// the directory lookup of `spec_find_dir_offset`.
fn find_dir_offset_in<R: ReadSeek>(rd: &mut R, h: &Header, parent: u32, name: &[u8]) -> (r: Result<
    Option<u32>,
    NxError,
>)
    requires
        old(rd).wf(),
    ensures
        final(rd).wf(),
        final(rd).data() == old(rd).data(),
        match spec_find_dir_offset(old(rd).data(), *h, parent, name@) {
            SpecLookup::Found(off) => r matches Ok(o) && o == Some(off),
            SpecLookup::Absent => r matches Ok(o) && o is None,
            SpecLookup::Failed(e) => r matches Err(e2) && e2 == e,
        },
{
    proof {
        rd.lemma_wf_bounds();
    }
    let ghost d = rd.data();
    let count: u64 = h.dir_hash_table_size / 4;
    if count == 0 {
        return Err(NxError::ParseError);
    }
    proof {
        vstd::arithmetic::div_mod::lemma_fundamental_div_mod(h.dir_hash_table_size as int, 4);
        vstd::arithmetic::div_mod::lemma_mod_bound(
            spec_hash_raw(parent, name@) as int,
            count as int,
        );
    }
    let hash = compute_hash_raw(parent, name);
    let slot: u64 = (hash as u64) % count;
    let head_pos: u64 = match h.dir_hash_table_offset.checked_add(slot * 4) {
        Some(p) => p,
        None => {
            return Err(NxError::UnexpectedEof);
        },
    };
    if rd.seek(SeekFrom::Start(head_pos)).is_err() {
        return Err(NxError::Io);
    }
    let b = match rd.read_exact(4) {
        Ok(v) => v,
        Err(_) => {
            return Err(NxError::UnexpectedEof);
        },
    };
    proof {
        assert(b@.subrange(0, 4) =~= d.subrange(head_pos as int, head_pos + 4));
    }
    let head = u32_from_le_bytes(slice_subrange(b.as_slice(), 0, 4));
    walk_dir_chain(rd, h, head, parent, name)
}

/// Once a prefix of the walk misses or fails, every longer prefix does
/// the same.
proof fn lemma_resolve_prefix(d: Seq<u8>, h: Header, segs: Seq<Seq<u8>>, j: int, m: int)
    requires
        0 <= j <= m <= segs.len(),
        !(spec_resolve_dir(d, h, segs.subrange(0, j)) is Found),
    ensures
        spec_resolve_dir(d, h, segs.subrange(0, m)) == spec_resolve_dir(d, h, segs.subrange(0, j)),
    decreases m - j,
{
    if m > j {
        lemma_resolve_prefix(d, h, segs, j, m - 1);
        assert(segs.subrange(0, m).drop_last() =~= segs.subrange(0, m - 1));
    } else {
        assert(segs.subrange(0, m) =~= segs.subrange(0, j));
    }
}

/// Walks the first `upto` segments as directories from the root, exactly
/// as `spec_resolve_dir` says.
#[verifier::loop_isolation(false)]
fn resolve_dirs<R: ReadSeek>(rd: &mut R, h: &Header, segs: &Vec<Vec<u8>>, upto: usize) -> (r:
    Result<Option<u32>, NxError>)
    requires
        old(rd).wf(),
        upto <= segs@.len(),
    ensures
        final(rd).wf(),
        final(rd).data() == old(rd).data(),
        match spec_resolve_dir(old(rd).data(), *h, seq_views(segs@).subrange(0, upto as int)) {
            SpecLookup::Found(off) => r matches Ok(o) && o == Some(off),
            SpecLookup::Absent => r matches Ok(o) && o is None,
            SpecLookup::Failed(e) => r matches Err(e2) && e2 == e,
        },
{
    let ghost d = rd.data();
    let ghost sv = seq_views(segs@);
    let mut cur: u32 = ROOT_DIR_OFFSET;
    let mut k: usize = 0;
    proof {
        assert(sv.subrange(0, 0) =~= Seq::<Seq<u8>>::empty());
    }
    while k < upto
        invariant
            rd.wf(),
            rd.data() == d,
            k <= upto <= segs@.len(),
            sv == seq_views(segs@),
            spec_resolve_dir(d, *h, sv.subrange(0, k as int)) == SpecLookup::<u32>::Found(cur),
        decreases upto - k,
    {
        proof {
            assert(sv.subrange(0, k + 1int).drop_last() =~= sv.subrange(0, k as int));
            assert(sv.subrange(0, k + 1int).last() == segs@[k as int]@);
        }
        let step = match find_dir_offset_in(rd, h, cur, segs[k].as_slice()) {
            Ok(o) => o,
            Err(e) => {
                proof {
                    lemma_resolve_prefix(d, *h, sv, k + 1, upto as int);
                }
                return Err(e);
            },
        };
        match step {
            Some(off) => {
                cur = off;
            },
            None => {
                proof {
                    lemma_resolve_prefix(d, *h, sv, k + 1, upto as int);
                }
                return Ok(None);
            },
        }
        k = k + 1;
    }
    Ok(Some(cur))
}

} // verus!
