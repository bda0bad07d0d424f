//! The seekable byte-source abstraction every reader in this crate is built
//! on, an in-memory implementation of it, and small alignment helpers.

use vstd::prelude::*;
use vstd::slice::{slice_subrange, slice_to_vec};
use crate::NxError;

verus! {

/// A seek request: absolute, relative to the current position, or relative
/// to the end of the source.
#[derive(Clone, Copy, Debug, PartialEq, Eq, Structural)]
pub enum SeekFrom {
    Start(u64),
    Current(i64),
    End(i64),
}

/// The absolute position a seek request asks for, given the current
/// position and the source length.
pub open spec fn seek_target(from: SeekFrom, cur: int, len: int) -> int {
    match from {
        SeekFrom::Start(p) => p as int,
        SeekFrom::Current(d) => cur + d,
        SeekFrom::End(d) => len + d,
    }
}

/// How many bytes a partial read of `n` bytes yields at position `pos` of a
/// source of `len` bytes: `n`, clipped to what is left.
pub open spec fn read_amount(pos: int, len: int, n: int) -> int {
    if pos >= len {
        0
    } else if pos + n <= len {
        n
    } else {
        len - pos
    }
}

/// A shareable, seekable byte source.
///
/// A source is modelled as a fixed byte sequence `data()` and a cursor
/// `pos()`. Reads hand back bytes of `data()` at the cursor and advance it;
/// seeks move it. `dup` yields a second handle onto the same bytes, so many
/// wrapper readers can sit on one source.
pub trait ReadSeek: Sized {
    /// The bytes this source holds.
    spec fn data(&self) -> Seq<u8>;

    /// The current cursor position.
    spec fn pos(&self) -> int;

    /// The source's own well-formedness.
    spec fn wf(&self) -> bool;

    proof fn lemma_wf_bounds(&self)
        requires
            self.wf(),
        ensures
            self.data().len() <= u64::MAX,
            0 <= self.pos() <= u64::MAX,
    ;

    /// The current cursor position, as every seekable source reports it.
    fn stream_position(&mut self) -> (r: Result<u64, NxError>)
        requires
            old(self).wf(),
        ensures
            final(self).wf(),
            final(self).data() == old(self).data(),
            final(self).pos() == old(self).pos(),
            r matches Ok(p) && p as int == old(self).pos(),
    ;

    /// The total number of bytes of the source; the cursor does not move.
    fn stream_len(&mut self) -> (r: Result<u64, NxError>)
        requires
            old(self).wf(),
        ensures
            final(self).wf(),
            final(self).data() == old(self).data(),
            final(self).pos() == old(self).pos(),
            r matches Ok(l) && l as int == old(self).data().len(),
    ;

    /// Moves the cursor; returns the new absolute position. A request that
    /// would land outside `[0, u64::MAX]` fails and leaves the cursor alone.
    fn seek(&mut self, from: SeekFrom) -> (r: Result<u64, NxError>)
        requires
            old(self).wf(),
        ensures
            final(self).wf(),
            final(self).data() == old(self).data(),
            ({
                let t = seek_target(from, old(self).pos(), old(self).data().len() as int);
                if 0 <= t <= u64::MAX {
                    r matches Ok(p) && p as int == t && final(self).pos() == t
                } else {
                    r is Err && final(self).pos() == old(self).pos()
                }
            }),
    ;

    /// Reads exactly `n` bytes, or fails with `UnexpectedEof` when fewer
    /// than `n` bytes are left; on failure the cursor does not move.
    fn read_exact(&mut self, n: usize) -> (r: Result<Vec<u8>, NxError>)
        requires
            old(self).wf(),
        ensures
            final(self).wf(),
            final(self).data() == old(self).data(),
            if old(self).pos() + n <= old(self).data().len() {
                r matches Ok(v) && v@ == old(self).data().subrange(
                    old(self).pos(),
                    old(self).pos() + n,
                ) && final(self).pos() == old(self).pos() + n
            } else {
                r matches Err(e) && e == NxError::UnexpectedEof && final(self).pos() == old(self).pos()
            },
    ;

    /// Reads up to `n` bytes: `n`, clipped to what is left of the source.
    fn read(&mut self, n: usize) -> (r: Result<Vec<u8>, NxError>)
        requires
            old(self).wf(),
        ensures
            final(self).wf(),
            final(self).data() == old(self).data(),
            ({
                let len = old(self).data().len() as int;
                let start = if old(self).pos() <= len { old(self).pos() } else { len };
                let m = read_amount(old(self).pos(), len, n as int);
                let ok = r matches Ok(v) && v@ == old(self).data().subrange(start, start + m);
                ok && final(self).pos() == old(self).pos() + m
            }),
    ;

    /// A second handle onto the same bytes, with its own cursor.
    fn dup(&self) -> (r: Self)
        requires
            self.wf(),
        ensures
            r.wf(),
            r.data() == self.data(),
            r.pos() == self.pos(),
    ;
}

/// An in-memory byte source: a vector and a cursor.
pub struct DataReader {
    offset: u64,
    data: Vec<u8>,
}

impl DataReader {
    pub fn new(data: Vec<u8>) -> (r: DataReader)
        ensures
            r.wf(),
            r.data() == data@,
            r.pos() == 0,
    {
        let n: usize = data.len();
        proof {
            assert(data@.len() <= u64::MAX);
        }
        DataReader { offset: 0, data }
    }
}

impl ReadSeek for DataReader {
    closed spec fn data(&self) -> Seq<u8> {
        self.data@
    }

    closed spec fn pos(&self) -> int {
        self.offset as int
    }

    closed spec fn wf(&self) -> bool {
        self.data@.len() <= u64::MAX
    }

    proof fn lemma_wf_bounds(&self) {
    }

    fn stream_position(&mut self) -> (r: Result<u64, NxError>) {
        Ok(self.offset)
    }

    fn stream_len(&mut self) -> (r: Result<u64, NxError>) {
        Ok(self.data.len() as u64)
    }

    fn seek(&mut self, from: SeekFrom) -> (r: Result<u64, NxError>) {
        match from {
            SeekFrom::Start(p) => {
                self.offset = p;
                Ok(p)
            },
            SeekFrom::Current(d) => {
                match add_u64_i64(self.offset, d) {
                    Some(p) => {
                        self.offset = p;
                        Ok(p)
                    },
                    None => Err(NxError::Io),
                }
            },
            SeekFrom::End(d) => {
                match add_u64_i64(self.data.len() as u64, d) {
                    Some(p) => {
                        self.offset = p;
                        Ok(p)
                    },
                    None => Err(NxError::Io),
                }
            },
        }
    }

    fn read_exact(&mut self, n: usize) -> (r: Result<Vec<u8>, NxError>) {
        if self.offset > self.data.len() as u64 || (self.data.len() as u64 - self.offset)
            < n as u64 {
            return Err(NxError::UnexpectedEof);
        }
        let start: usize = self.offset as usize;
        let out = slice_to_vec(slice_subrange(self.data.as_slice(), start, start + n));
        self.offset = self.offset + n as u64;
        Ok(out)
    }

    fn read(&mut self, n: usize) -> (r: Result<Vec<u8>, NxError>) {
        let len: u64 = self.data.len() as u64;
        if self.offset >= len {
            proof {
                let l = self.data@.len() as int;
                assert(self.data@.subrange(l, l) =~= Seq::<u8>::empty());
            }
            return Ok(Vec::new());
        }
        let avail: u64 = len - self.offset;
        let m: usize = if n as u64 <= avail {
            n
        } else {
            avail as usize
        };
        self.read_exact(m)
    }

    fn dup(&self) -> (r: DataReader) {
        DataReader { offset: self.offset, data: clone_bytes(&self.data) }
    }
}

/// `a + d` where `d` is signed, if it stays within `u64`.
pub fn add_u64_i64(a: u64, d: i64) -> (r: Option<u64>)
    ensures
        if 0 <= a + d <= u64::MAX {
            r matches Some(p) && p as int == a + d
        } else {
            r is None
        },
{
    if d >= 0 {
        let du: u64 = d as u64;
        if a <= u64::MAX - du {
            Some(a + du)
        } else {
            None
        }
    } else if d == i64::MIN {
        if a >= 9223372036854775808u64 {
            Some(a - 9223372036854775808u64)
        } else {
            None
        }
    } else {
        let du: u64 = (-d) as u64;
        if a >= du {
            Some(a - du)
        } else {
            None
        }
    }
}

/// Replaces element `i` of `v`.
pub fn vec_update<T>(v: &mut Vec<T>, i: usize, value: T)
    requires
        i < old(v)@.len(),
    ensures
        final(v)@ == old(v)@.update(i as int, value),
{
    let ghost pre = v@;
    let _old = v.remove(i);
    v.insert(i, value);
    proof {
        assert(v@ =~= pre.update(i as int, value));
    }
}

/// A copy of a byte vector.
pub fn clone_bytes(v: &Vec<u8>) -> (r: Vec<u8>)
    ensures
        r@ == v@,
{
    slice_to_vec(v.as_slice())
}

/// `value` rounded down to a multiple of `align`.
pub fn align_down(value: u64, align: u64) -> (r: u64)
    requires
        align > 0,
    ensures
        r == value - (value % align),
        r % align == 0,
        r <= value,
{
    let q: u64 = value / align;
    proof {
        vstd::arithmetic::div_mod::lemma_fundamental_div_mod(value as int, align as int);
        vstd::arithmetic::div_mod::lemma_mod_bound(value as int, align as int);
        vstd::arithmetic::div_mod::lemma_mod_multiples_basic(q as int, align as int);
        assert((align as int) * (q as int) == value - value % align);
        assert((q as int) * (align as int) <= value) by (nonlinear_arith)
            requires
                (align as int) * (q as int) == value - value % align,
                value % align >= 0,
        ;
    }
    q * align
}

/// `value` rounded up to a multiple of `align`.
pub fn align_up(value: usize, align: usize) -> (r: usize)
    requires
        align > 0,
        value + align <= usize::MAX,
    ensures
        r % align == 0,
        value <= r < value + align,
{
    let s: usize = value + (align - 1);
    let q: usize = s / align;
    proof {
        vstd::arithmetic::div_mod::lemma_fundamental_div_mod(s as int, align as int);
        vstd::arithmetic::div_mod::lemma_mod_bound(s as int, align as int);
        vstd::arithmetic::div_mod::lemma_mod_multiples_basic(q as int, align as int);
        assert((align as int) * (q as int) == s - s % align);
        assert((q as int) * (align as int) <= s && (q as int) * (align as int) >= s - (align - 1))
            by (nonlinear_arith)
            requires
                (align as int) * (q as int) == s - s % align,
                0 <= s % align < align,
        ;
    }
    q * align
}

/// One decrypted byte of an AES-CTR section: the raw byte at absolute
/// offset `abs` of the base source, XORed with byte `abs % 16` of
/// keystream block `abs / 16`.
pub open spec fn ctr_plain_byte(raw: Seq<u8>, key: Seq<u8>, ctr_high: u64, abs: int) -> u8 {
    raw[abs] ^ crate::crypto::aes128_ctr_keystream(key, ctr_high, (abs / 16) as u64)[abs % 16]
}

/// The decrypted view of an AES-CTR section: the base source's bytes from
/// `base_offset` to its end, each decrypted by its absolute block index.
pub open spec fn ctr_plain_view(
    raw: Seq<u8>,
    key: Seq<u8>,
    ctr_high: u64,
    base_offset: int,
) -> Seq<u8> {
    Seq::new(
        if base_offset <= raw.len() {
            (raw.len() - base_offset) as nat
        } else {
            0
        },
        |l: int| ctr_plain_byte(raw, key, ctr_high, base_offset + l),
    )
}

/// A random-access decrypting reader: wraps a seekable source and exposes
/// the AES-128-CTR decryption of everything from `base_offset` on, itself
/// seekable. Logical position is counted from `base_offset`; every 16-byte
/// cipher block is decrypted independently from its absolute block index,
/// so a read needs only the blocks it overlaps.
pub struct Aes128CtrReader<R: ReadSeek> {
    base_reader: R,
    base_offset: u64,
    offset: u64,
    ctr: u64,
    key: Vec<u8>,
}

impl<R: ReadSeek> Aes128CtrReader<R> {
    /// The 16-byte CTR key this reader decrypts with.
    pub closed spec fn spec_key(&self) -> Seq<u8> {
        self.key@
    }

    /// The per-section counter that fills the upper half of each block IV.
    pub closed spec fn spec_ctr(&self) -> u64 {
        self.ctr
    }

    /// Where in the base source this reader's section begins.
    pub closed spec fn spec_base_offset(&self) -> int {
        self.base_offset as int
    }

    /// The base source's raw (encrypted) bytes.
    pub closed spec fn base_data(&self) -> Seq<u8> {
        self.base_reader.data()
    }

    pub fn new(base_reader: R, base_offset: u64, ctr: u64, key: Vec<u8>) -> (r: Self)
        requires
            base_reader.wf(),
            key@.len() == 16,
        ensures
            r.wf(),
            r.pos() == 0,
            r.spec_key() == key@,
            r.spec_ctr() == ctr,
            r.spec_base_offset() == base_offset as int,
            r.base_data() == base_reader.data(),
            r.data() == ctr_plain_view(base_reader.data(), key@, ctr, base_offset as int),
    {
        Aes128CtrReader { base_reader, base_offset, offset: 0, ctr, key }
    }
}

impl<R: ReadSeek> ReadSeek for Aes128CtrReader<R> {
    closed spec fn data(&self) -> Seq<u8> {
        ctr_plain_view(self.base_reader.data(), self.key@, self.ctr, self.base_offset as int)
    }

    closed spec fn pos(&self) -> int {
        self.offset as int
    }

    closed spec fn wf(&self) -> bool {
        self.base_reader.wf() && self.key@.len() == 16
    }

    proof fn lemma_wf_bounds(&self) {
        self.base_reader.lemma_wf_bounds();
    }

    fn stream_position(&mut self) -> (r: Result<u64, NxError>) {
        Ok(self.offset)
    }

    fn stream_len(&mut self) -> (r: Result<u64, NxError>) {
        match self.base_reader.stream_len() {
            Ok(l) => Ok(
                if l >= self.base_offset {
                    l - self.base_offset
                } else {
                    0
                },
            ),
            Err(_) => Err(NxError::Io),
        }
    }

    fn seek(&mut self, from: SeekFrom) -> (r: Result<u64, NxError>) {
        match from {
            SeekFrom::Start(p) => {
                self.offset = p;
                Ok(p)
            },
            SeekFrom::Current(d) => {
                match add_u64_i64(self.offset, d) {
                    Some(p) => {
                        self.offset = p;
                        Ok(p)
                    },
                    None => Err(NxError::Io),
                }
            },
            SeekFrom::End(d) => {
                let loglen: u64 = match self.stream_len() {
                    Ok(l) => l,
                    Err(_) => {
                        return Err(NxError::Io);
                    },
                };
                match add_u64_i64(loglen, d) {
                    Some(p) => {
                        self.offset = p;
                        Ok(p)
                    },
                    None => Err(NxError::Io),
                }
            },
        }
    }

    fn read_exact(&mut self, n: usize) -> (r: Result<Vec<u8>, NxError>) {
        let loglen: u64 = match self.stream_len() {
            Ok(l) => l,
            Err(_) => {
                return Err(NxError::Io);
            },
        };
        if self.offset > loglen || n as u64 > loglen - self.offset {
            return Err(NxError::UnexpectedEof);
        }
        if n == 0 {
            proof {
                let l = self.pos();
                assert(self.data().subrange(l, l) =~= Seq::<u8>::empty());
            }
            return Ok(Vec::new());
        }
        proof {
            self.base_reader.lemma_wf_bounds();
        }
        let abs: u64 = self.base_offset + self.offset;
        let start_block: u64 = abs / 16;
        let intra: usize = (abs % 16) as usize;
        if self.base_reader.seek(SeekFrom::Start(abs)).is_err() {
            return Err(NxError::Io);
        }
        let ghost base = self.base_reader.data();
        let ghost baselen = base.len() as int;
        let mut raw = match self.base_reader.read_exact(n) {
            Ok(v) => v,
            Err(_) => {
                return Err(NxError::Io);
            },
        };
        proof {
            assert(abs + n <= baselen);
            vstd::arithmetic::div_mod::lemma_div_is_ordered(abs as int, u64::MAX as int, 16);
            vstd::arithmetic::div_mod::lemma_div_is_ordered(
                intra + raw@.len() as int + 15,
                u64::MAX as int + 30,
                16,
            );
        }
        crate::crypto::aes128_ctr_transform(&self.key, self.ctr, start_block, intra, &mut raw);
        proof {
            let p = self.pos();
            let b0 = self.base_offset as int;
            assert(abs == 16 * (start_block as int) + intra) by {
                vstd::arithmetic::div_mod::lemma_fundamental_div_mod(abs as int, 16);
            };
            assert forall|j: int| 0 <= j < n implies raw@[j] == self.data()[p + j] by {
                let i = intra + j;
                vstd::arithmetic::div_mod::lemma_hoist_over_denominator(i, start_block as int, 16);
                vstd::arithmetic::div_mod::lemma_mod_multiples_vanish(start_block as int, i, 16);
                assert(16 * (start_block as int) + i == b0 + p + j);
                assert(start_block + i / 16 == (b0 + p + j) / 16);
                assert(i % 16 == (b0 + p + j) % 16);
            };
            assert(raw@ =~= self.data().subrange(p, p + n));
        }
        self.offset = self.offset + n as u64;
        Ok(raw)
    }

    fn read(&mut self, n: usize) -> (r: Result<Vec<u8>, NxError>) {
        let loglen: u64 = match self.stream_len() {
            Ok(l) => l,
            Err(_) => {
                return Err(NxError::Io);
            },
        };
        if self.offset >= loglen {
            proof {
                let l = self.data().len() as int;
                assert(self.data().subrange(l, l) =~= Seq::<u8>::empty());
            }
            return Ok(Vec::new());
        }
        let avail: u64 = loglen - self.offset;
        let m: usize = if n as u64 <= avail {
            n
        } else {
            avail as usize
        };
        self.read_exact(m)
    }

    fn dup(&self) -> (r: Aes128CtrReader<R>) {
        Aes128CtrReader {
            base_reader: self.base_reader.dup(),
            base_offset: self.base_offset,
            offset: self.offset,
            ctr: self.ctr,
            key: clone_bytes(&self.key),
        }
    }
}

/// The CTR reader is position-independent: the decrypted bytes of a range
/// depend only on the range, so one read of `[pos, pos + a + b)` equals a
/// read of `[pos, pos + a)` followed by one of `[pos + a, pos + a + b)`,
/// concatenated.
pub proof fn lemma_ctr_read_split(
    raw: Seq<u8>,
    key: Seq<u8>,
    ctr_high: u64,
    base_offset: int,
    pos: int,
    a: int,
    b: int,
)
    requires
        0 <= pos,
        0 <= a,
        0 <= b,
        pos + a + b <= ctr_plain_view(raw, key, ctr_high, base_offset).len(),
    ensures
        ctr_plain_view(raw, key, ctr_high, base_offset).subrange(pos, pos + a + b)
            == ctr_plain_view(raw, key, ctr_high, base_offset).subrange(pos, pos + a)
            + ctr_plain_view(raw, key, ctr_high, base_offset).subrange(pos + a, pos + a + b),
{
    let v = ctr_plain_view(raw, key, ctr_high, base_offset);
    assert(v.subrange(pos, pos + a + b) =~= v.subrange(pos, pos + a) + v.subrange(
        pos + a,
        pos + a + b,
    ));
}

/// A byte of `x` written big-endian: byte `i` of the 16-byte encoding.
pub open spec fn spec_be_byte(x: u128, i: int) -> u8 {
    (x >> ((8 * (15 - i)) as u128)) as u8
}

/// The 16-byte big-endian encoding of `x`.
pub open spec fn spec_be_bytes(x: u128) -> Seq<u8> {
    Seq::new(16, |i: int| spec_be_byte(x, i))
}

/// The per-sector XTS tweak used throughout the NCA format: the sector
/// index as a 128-bit big-endian number.
pub fn get_nintendo_tweak(sector_index: u128) -> (r: [u8; 16])
    ensures
        r@ == spec_be_bytes(sector_index),
{
    let x = sector_index;
    let r: [u8; 16] = [
        #[verifier::truncate] ((x >> 120) as u8),
        #[verifier::truncate] ((x >> 112) as u8),
        #[verifier::truncate] ((x >> 104) as u8),
        #[verifier::truncate] ((x >> 96) as u8),
        #[verifier::truncate] ((x >> 88) as u8),
        #[verifier::truncate] ((x >> 80) as u8),
        #[verifier::truncate] ((x >> 72) as u8),
        #[verifier::truncate] ((x >> 64) as u8),
        #[verifier::truncate] ((x >> 56) as u8),
        #[verifier::truncate] ((x >> 48) as u8),
        #[verifier::truncate] ((x >> 40) as u8),
        #[verifier::truncate] ((x >> 32) as u8),
        #[verifier::truncate] ((x >> 24) as u8),
        #[verifier::truncate] ((x >> 16) as u8),
        #[verifier::truncate] ((x >> 8) as u8),
        #[verifier::truncate] ((x >> 0) as u8),
    ];
    proof {
        broadcast use vstd::array::group_array_axioms;

        assert(r@[0] == spec_be_byte(sector_index, 0));
        assert(r@[1] == spec_be_byte(sector_index, 1));
        assert(r@[2] == spec_be_byte(sector_index, 2));
        assert(r@[3] == spec_be_byte(sector_index, 3));
        assert(r@[4] == spec_be_byte(sector_index, 4));
        assert(r@[5] == spec_be_byte(sector_index, 5));
        assert(r@[6] == spec_be_byte(sector_index, 6));
        assert(r@[7] == spec_be_byte(sector_index, 7));
        assert(r@[8] == spec_be_byte(sector_index, 8));
        assert(r@[9] == spec_be_byte(sector_index, 9));
        assert(r@[10] == spec_be_byte(sector_index, 10));
        assert(r@[11] == spec_be_byte(sector_index, 11));
        assert(r@[12] == spec_be_byte(sector_index, 12));
        assert(r@[13] == spec_be_byte(sector_index, 13));
        assert(r@[14] == spec_be_byte(sector_index, 14));
        assert(r@[15] == spec_be_byte(sector_index, 15));
        assert(r@ =~= spec_be_bytes(sector_index));
    }
    r
}

/// Reads up to `buf.len()` bytes at absolute position `t` of `rd` (where
/// `t` may lie past the end, even past `u64::MAX`, yielding nothing) into
/// the front of `buf`; the rest of `buf` stays as it was.
pub fn read_clipped<R: ReadSeek>(rd: &mut R, t: u64, buf: &mut Vec<u8>) -> (m: usize)
    requires
        old(rd).wf(),
    ensures
        final(rd).wf(),
        final(rd).data() == old(rd).data(),
        ({
            let d = old(rd).data();
            let mm = read_amount(t as int, d.len() as int, old(buf)@.len() as int);
            &&& m == mm
            &&& final(buf)@.len() == old(buf)@.len()
            &&& (forall|k: int| m <= k < old(buf)@.len() ==> final(buf)@[k] == old(buf)@[k])
            &&& (forall|k: int| 0 <= k < m ==> final(buf)@[k] == d[t + k])
        }),
{
    proof {
        rd.lemma_wf_bounds();
    }
    if rd.seek(SeekFrom::Start(t)).is_err() {
        return 0;
    }
    let got = match rd.read(buf.len()) {
        Ok(v) => v,
        Err(_) => {
            return 0;
        },
    };
    let m = got.len();
    proof {
        let d = old(rd).data();
        if m > 0 {
            assert(t as int <= d.len());
            assert(got@ == d.subrange(t as int, t as int + m));
        }
    }
    let mut k: usize = 0;
    while k < m
        invariant
            k <= m,
            m == got@.len(),
            m <= buf@.len(),
            buf@.len() == old(buf)@.len(),
            forall|j: int| k <= j < buf@.len() ==> buf@[j] == old(buf)@[j],
            forall|j: int| 0 <= j < k ==> buf@[j] == got@[j],
        decreases m - k,
    {
        vec_update(buf, k, got[k]);
        k = k + 1;
    }
    proof {
        let d = old(rd).data();
        assert forall|k2: int| 0 <= k2 < m implies buf@[k2] == d[t + k2] by {
            assert(buf@[k2] == got@[k2]);
            assert(got@[k2] == d.subrange(t as int, t as int + m)[k2]);
        }
    }
    m
}

} // verus!
