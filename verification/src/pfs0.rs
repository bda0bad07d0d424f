//! PFS0, the flat partition filesystem: a counted table of file entries, a
//! shared NUL-terminated string heap, and file data laid out after both.

use vstd::prelude::*;
use vstd::bytes::{spec_u32_from_le_bytes, spec_u64_from_le_bytes, u32_from_le_bytes, u64_from_le_bytes};
use vstd::slice::{slice_subrange, slice_to_vec};
use crate::NxError;
use crate::crypto::bytes_to_string;
use crate::key::spec_find;
use crate::util::{ReadSeek, read_amount, read_clipped, SeekFrom};

verus! {

/// The magic `"PFS0"` little-endian.
pub const PFS0_MAGIC: u32 = 0x30534650;

/// A u16 read little-endian at `off`.
pub open spec fn spec_le16(d: Seq<u8>, off: int) -> u16 {
    vstd::bytes::spec_u16_from_le_bytes(d.subrange(off, off + 2))
}

/// A u32 read little-endian at `off`.
pub open spec fn spec_le32(d: Seq<u8>, off: int) -> u32 {
    spec_u32_from_le_bytes(d.subrange(off, off + 4))
}

/// A u64 read little-endian at `off`.
pub open spec fn spec_le64(d: Seq<u8>, off: int) -> u64 {
    spec_u64_from_le_bytes(d.subrange(off, off + 8))
}

/// The fixed 0x10-byte header at the start of a PFS0 image.
#[derive(Clone, Copy, Debug, PartialEq, Eq, Structural)]
pub struct Header {
    pub magic: u32,
    pub file_count: u32,
    pub string_table_size: u32,
}

/// One 0x18-byte file entry: where the file's bytes sit relative to the
/// data region, how long it is, and where its name sits in the string heap.
#[derive(Clone, Copy, Debug, PartialEq, Eq, Structural)]
pub struct FileEntry {
    pub offset: u64,
    pub size: u64,
    pub string_table_offset: u32,
}

/// The header a PFS0 image `d` carries.
pub open spec fn spec_pfs0_header(d: Seq<u8>) -> Header {
    Header {
        magic: spec_le32(d, 0),
        file_count: spec_le32(d, 4),
        string_table_size: spec_le32(d, 8),
    }
}

/// File entry `i` of a PFS0 image `d`.
pub open spec fn spec_pfs0_entry(d: Seq<u8>, i: int) -> FileEntry {
    let base = 0x10 + 0x18 * i;
    FileEntry {
        offset: spec_le64(d, base),
        size: spec_le64(d, base + 8),
        string_table_offset: spec_le32(d, base + 0x10),
    }
}

/// Where the string heap of image `d` starts.
pub open spec fn spec_pfs0_table_start(d: Seq<u8>) -> int {
    0x10 + 0x18 * spec_pfs0_header(d).file_count
}

/// Where file data of image `d` starts: past the header, the entry table
/// and the string heap.
pub open spec fn spec_pfs0_data_base(d: Seq<u8>) -> int {
    spec_pfs0_table_start(d) + spec_pfs0_header(d).string_table_size
}

/// Whether image `d` parses: long enough for the header, the right magic,
/// and long enough for the entry table and string heap it declares.
pub open spec fn spec_pfs0_parse_ok(d: Seq<u8>) -> bool {
    &&& d.len() >= 0x10
    &&& spec_pfs0_header(d).magic == PFS0_MAGIC
    &&& spec_pfs0_data_base(d) <= d.len()
}

/// The NUL-terminated byte string at `off` in the heap `t` (the rest of
/// `t` when no NUL follows).
pub open spec fn spec_cstr(t: Seq<u8>, off: int) -> Seq<u8> {
    let s = t.subrange(off, t.len() as int);
    s.subrange(0, spec_find(s, 0))
}

/// The bytes a read of `n` bytes at `offset` within the file with entry
/// `e` yields from image `d`: the requested window of the file's data,
/// clipped to the image's end.
pub open spec fn spec_read_result(d: Seq<u8>, e: FileEntry, offset: int, n: int) -> Seq<u8> {
    let t = spec_pfs0_data_base(d) + e.offset + offset;
    let m = read_amount(t, d.len() as int, n);
    let start = if t <= d.len() {
        t
    } else {
        d.len() as int
    };
    d.subrange(start, start + m)
}

/// Reading a whole file from offset 0 yields exactly `size` bytes, as long
/// as the file's data lies within the image.
pub proof fn lemma_read_full_file(d: Seq<u8>, e: FileEntry)
    requires
        spec_pfs0_data_base(d) + e.offset + e.size <= d.len(),
    ensures
        spec_read_result(d, e, 0, e.size as int).len() == e.size,
{
}

/// Split reads concatenate: for any split `a + b` of a range within the
/// file's size, reading `a` bytes at 0 and then `b` bytes at `a` yields
/// the same bytes as one read of `a + b` bytes at 0.
pub proof fn lemma_read_split(d: Seq<u8>, e: FileEntry, a: int, b: int)
    requires
        0 <= a,
        0 <= b,
        a + b <= e.size,
        spec_pfs0_data_base(d) + e.offset + e.size <= d.len(),
    ensures
        spec_read_result(d, e, 0, a) + spec_read_result(d, e, a, b) == spec_read_result(
            d,
            e,
            0,
            a + b,
        ),
{
    assert(spec_read_result(d, e, 0, a) + spec_read_result(d, e, a, b) =~= spec_read_result(
        d,
        e,
        0,
        a + b,
    ));
}

/// A PFS0 filesystem over a seekable (usually decrypting) reader: the
/// parsed header, the entry table and the string heap are held in memory;
/// file bytes are read on demand.
pub struct PFS0<R: ReadSeek> {
    reader: R,
    header: Header,
    file_entries: Vec<FileEntry>,
    string_table: Vec<u8>,
}

impl<R: ReadSeek> PFS0<R> {
    /// The section image this filesystem reads (already decrypted by the
    /// reader below it).
    pub closed spec fn raw(&self) -> Seq<u8> {
        self.reader.data()
    }

    /// The parsed header.
    pub closed spec fn spec_header(&self) -> Header {
        self.header
    }

    /// How many files the table holds.
    pub closed spec fn spec_count(&self) -> int {
        self.file_entries@.len() as int
    }

    /// File entry `i`.
    pub closed spec fn spec_entry(&self, i: int) -> FileEntry {
        self.file_entries@[i]
    }

    /// The string heap.
    pub closed spec fn spec_string_table(&self) -> Seq<u8> {
        self.string_table@
    }

    /// Whether entry `i`'s name is readable: its heap offset lies within
    /// the heap and the bytes up to the first NUL are valid UTF-8.
    pub open spec fn spec_name_ok(&self, i: int) -> bool {
        &&& self.spec_entry(i).string_table_offset <= self.spec_string_table().len()
        &&& vstd::utf8::valid_utf8(
            spec_cstr(self.spec_string_table(), self.spec_entry(i).string_table_offset as int),
        )
    }

    /// The name of entry `i`, as the character sequence its UTF-8 bytes
    /// decode to.
    pub open spec fn spec_name(&self, i: int) -> Seq<char> {
        vstd::utf8::decode_utf8(
            spec_cstr(self.spec_string_table(), self.spec_entry(i).string_table_offset as int),
        )
    }

    /// A parsed filesystem faithfully mirrors its image: the image parses,
    /// and header, entries and heap are exactly what it carries.
    pub closed spec fn wf(&self) -> bool {
        &&& self.reader.wf()
        &&& spec_pfs0_parse_ok(self.raw())
        &&& self.header == spec_pfs0_header(self.raw())
        &&& self.file_entries@.len() == self.header.file_count
        &&& (forall|i: int|
            0 <= i < self.file_entries@.len() ==> self.file_entries@[i] == spec_pfs0_entry(
                self.raw(),
                i,
            ))
        &&& self.string_table@ == self.raw().subrange(
            spec_pfs0_table_start(self.raw()),
            spec_pfs0_data_base(self.raw()),
        )
    }

    /// Parses the header, entry table and string heap of the image behind
    /// `reader`. Fails with `InvalidMagic` on a wrong magic and with
    /// `UnexpectedEof` on an image shorter than what its header declares.
    #[verifier::loop_isolation(false)]
    pub fn new(reader: R) -> (r: Result<PFS0<R>, NxError>)
        requires
            reader.wf(),
        ensures
            match r {
                Ok(p) => p.wf() && p.raw() == reader.data() && spec_pfs0_parse_ok(reader.data()),
                Err(e) => {
                    &&& !spec_pfs0_parse_ok(reader.data())
                    &&& if reader.data().len() < 0x10 {
                        e == NxError::UnexpectedEof
                    } else if spec_pfs0_header(reader.data()).magic != PFS0_MAGIC {
                        e == NxError::InvalidMagic
                    } else {
                        e == NxError::UnexpectedEof
                    }
                },
            },
    {
        let ghost d = reader.data();
        let mut rd = reader;
        if rd.seek(SeekFrom::Start(0)).is_err() {
            return Err(NxError::Io);
        }
        let hdr_bytes = match rd.read_exact(0x10) {
            Ok(v) => v,
            Err(_) => {
                return Err(NxError::UnexpectedEof);
            },
        };
        proof {
            assert(hdr_bytes@.subrange(0, 4) =~= d.subrange(0, 4));
            assert(hdr_bytes@.subrange(4, 8) =~= d.subrange(4, 8));
            assert(hdr_bytes@.subrange(8, 12) =~= d.subrange(8, 12));
        }
        let magic = u32_from_le_bytes(slice_subrange(hdr_bytes.as_slice(), 0, 4));
        let file_count = u32_from_le_bytes(slice_subrange(hdr_bytes.as_slice(), 4, 8));
        let string_table_size = u32_from_le_bytes(slice_subrange(hdr_bytes.as_slice(), 8, 12));
        if magic != PFS0_MAGIC {
            return Err(NxError::InvalidMagic);
        }
        let header = Header { magic, file_count, string_table_size };
        let mut file_entries: Vec<FileEntry> = Vec::new();
        let mut i: u32 = 0;
        while i < file_count
            invariant
                rd.wf(),
                rd.data() == d,
                i <= file_count,
                rd.pos() == 0x10 + 0x18 * i,
                file_entries@.len() == i,
                forall|k: int|
                    0 <= k < i ==> file_entries@[k] == spec_pfs0_entry(d, k),
            decreases file_count - i,
        {
            let entry_bytes = match rd.read_exact(0x18) {
                Ok(v) => v,
                Err(_) => {
                    return Err(NxError::UnexpectedEof);
                },
            };
            let ghost base = 0x10 + 0x18 * i as int;
            proof {
                assert(entry_bytes@.subrange(0, 8) =~= d.subrange(base, base + 8));
                assert(entry_bytes@.subrange(8, 16) =~= d.subrange(base + 8, base + 16));
                assert(entry_bytes@.subrange(16, 20) =~= d.subrange(base + 0x10, base + 0x10 + 4));
            }
            let offset = u64_from_le_bytes(slice_subrange(entry_bytes.as_slice(), 0, 8));
            let size = u64_from_le_bytes(slice_subrange(entry_bytes.as_slice(), 8, 16));
            let sto = u32_from_le_bytes(slice_subrange(entry_bytes.as_slice(), 16, 20));
            file_entries.push(FileEntry { offset, size, string_table_offset: sto });
            i = i + 1;
        }
        let table_bytes = match rd.read_exact(string_table_size as usize) {
            Ok(v) => v,
            Err(_) => {
                return Err(NxError::UnexpectedEof);
            },
        };
        proof {
            assert(table_bytes@ =~= d.subrange(
                spec_pfs0_table_start(d),
                spec_pfs0_data_base(d),
            ));
        }
        Ok(PFS0 { reader: rd, header, file_entries, string_table: table_bytes })
    }

    /// How many files this filesystem holds.
    pub fn file_count(&self) -> (r: usize)
        requires
            self.wf(),
        ensures
            r == self.spec_count(),
    {
        self.file_entries.len()
    }

    /// The size in bytes of file `idx`; `InvalidIndex` past the table.
    pub fn get_file_size(&mut self, idx: usize) -> (r: Result<u64, NxError>)
        requires
            old(self).wf(),
        ensures
            *final(self) == *old(self),
            if idx < old(self).spec_count() {
                r matches Ok(s) && s == old(self).spec_entry(idx as int).size
            } else {
                r matches Err(e) && e == NxError::InvalidIndex
            },
    {
        if idx >= self.file_entries.len() {
            return Err(NxError::InvalidIndex);
        }
        Ok(self.file_entries[idx].size)
    }

    /// The file names, one per entry in table order: the bytes at each
    /// entry's heap offset up to the first NUL, as UTF-8. `ParseError` when
    /// an offset lies past the heap or the bytes are not UTF-8.
    #[verifier::loop_isolation(false)]
    #[verifier::rlimit(50)]
    pub fn list_files(&self) -> (r: Result<Vec<String>, NxError>)
        requires
            self.wf(),
        ensures
            match r {
                Ok(names) => {
                    &&& names@.len() == self.spec_count()
                    &&& (forall|i: int|
                        0 <= i < self.spec_count() ==> self.spec_name_ok(i) && (
                        #[trigger] names@[i])@ == self.spec_name(i))
                },
                Err(e) => {
                    &&& e == NxError::ParseError
                    &&& exists|i: int| 0 <= i < self.spec_count() && !self.spec_name_ok(i)
                },
            },
    {
        let mut names: Vec<String> = Vec::new();
        let mut i: usize = 0;
        while i < self.file_entries.len()
            invariant
                self.wf(),
                i <= self.spec_count(),
                names@.len() == i,
                forall|k: int| 0 <= k < i ==> #[trigger] self.spec_name_ok(k),
                forall|k: int|
                    0 <= k < i ==> (#[trigger] names@[k])@ == self.spec_name(k),
            decreases self.spec_count() - i,
        {
            let off = self.file_entries[i].string_table_offset as usize;
            if off > self.string_table.len() {
                proof {
                    assert(!self.spec_name_ok(i as int));
                }
                return Err(NxError::ParseError);
            }
            let end = crate::key::find_from(self.string_table.as_slice(), off, 0);
            let bytes = slice_to_vec(slice_subrange(self.string_table.as_slice(), off, end));
            proof {
                let t = self.spec_string_table();
                let s = t.subrange(off as int, t.len() as int);
                crate::key::lemma_spec_find(s, 0);
                assert(s.subrange(0, spec_find(s, 0)) =~= t.subrange(off as int, off + spec_find(
                    s,
                    0,
                )));
                assert(bytes@ =~= spec_cstr(t, off as int));
            }
            let name = match bytes_to_string(bytes) {
                Some(s) => s,
                None => {
                    proof {
                        assert(!self.spec_name_ok(i as int));
                    }
                    return Err(NxError::ParseError);
                },
            };
            names.push(name);
            i = i + 1;
        }
        Ok(names)
    }

    /// Reads `buf.len()` bytes of file `idx` starting at `offset` within
    /// the file, into the front of `buf`; returns how many bytes arrived
    /// (fewer only when the image itself ends early). `InvalidIndex` past
    /// the table; `UnexpectedEof`, with `buf` untouched, when the request
    /// runs past the file's size.
    pub fn read_file(&mut self, idx: usize, offset: usize, buf: &mut Vec<u8>) -> (r: Result<
        usize,
        NxError,
    >)
        requires
            old(self).wf(),
        ensures
            final(self).wf(),
            final(self).raw() == old(self).raw(),
            final(self).spec_count() == old(self).spec_count(),
            forall|i: int|
                0 <= i < old(self).spec_count() ==> final(self).spec_entry(i) == old(
                    self,
                ).spec_entry(i),
            final(self).spec_string_table() == old(self).spec_string_table(),
            ({
                let d = old(self).raw();
                let e = old(self).spec_entry(idx as int);
                let t = spec_pfs0_data_base(d) + e.offset + offset;
                let m = read_amount(t, d.len() as int, old(buf)@.len() as int);
                if idx >= old(self).spec_count() {
                    r matches Err(er) && er == NxError::InvalidIndex && final(buf)@ == old(buf)@
                } else if offset + old(buf)@.len() > e.size {
                    r matches Err(er) && er == NxError::UnexpectedEof && final(buf)@ == old(buf)@
                } else {
                    &&& r matches Ok(got) && got == m
                    &&& final(buf)@.len() == old(buf)@.len()
                    &&& (forall|k: int| m <= k < old(buf)@.len() ==> final(buf)@[k] == old(buf)@[k])
                    &&& final(buf)@.subrange(0, m) == spec_read_result(
                        d,
                        e,
                        offset as int,
                        old(buf)@.len() as int,
                    )
                }
            }),
    {
        if idx >= self.file_entries.len() {
            return Err(NxError::InvalidIndex);
        }
        let entry = self.file_entries[idx];
        let n64: u64 = buf.len() as u64;
        if n64 > entry.size || offset as u64 > entry.size - n64 {
            return Err(NxError::UnexpectedEof);
        }
        proof {
            self.reader.lemma_wf_bounds();
        }
        let data_base: u64 = 0x10 + 0x18 * (self.header.file_count as u64)
            + self.header.string_table_size as u64;
        let ghost spec_t = spec_pfs0_data_base(self.raw()) + entry.offset + offset;
        let t: u64 = match entry.offset.checked_add(offset as u64) {
            Some(s) => match s.checked_add(data_base) {
                Some(t) => t,
                None => {
                    proof {
                        assert(read_amount(spec_t, self.raw().len() as int, buf@.len() as int)
                            == 0);
                    }
                    let got = read_clipped(&mut self.reader, u64::MAX, buf);
                    proof {
                        assert(buf@.subrange(0, 0) =~= spec_read_result(
                            self.raw(),
                            entry,
                            offset as int,
                            buf@.len() as int,
                        ));
                    }
                    return Ok(got);
                },
            },
            None => {
                proof {
                    assert(read_amount(spec_t, self.raw().len() as int, buf@.len() as int) == 0);
                }
                let got = read_clipped(&mut self.reader, u64::MAX, buf);
                proof {
                    assert(buf@.subrange(0, 0) =~= spec_read_result(
                        self.raw(),
                        entry,
                        offset as int,
                        buf@.len() as int,
                    ));
                }
                return Ok(got);
            },
        };
        let got = read_clipped(&mut self.reader, t, buf);
        proof {
            assert(buf@.subrange(0, got as int) =~= spec_read_result(
                self.raw(),
                entry,
                offset as int,
                buf@.len() as int,
            ));
        }
        Ok(got)
    }
}

} // verus!
