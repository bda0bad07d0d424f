//! The key database: a text file of `name = hex` lines holding the header
//! key and the per-generation key-area encryption keys, parsed into a
//! sparse table.

use vstd::prelude::*;
use vstd::seq_lib::*;
use vstd::slice::{slice_index_get, slice_subrange};
use crate::NxError;
use crate::crypto::{is_hex_digit, hex_digit_value, spec_hex_decode, hex_decode};
use crate::util::vec_update;

verus! {

/// ASCII whitespace, ignored on both sides of the `=` of a key line.
pub open spec fn is_ascii_ws(b: u8) -> bool {
    b == 32 || (9 <= b <= 13)
}

/// `s` with all ASCII whitespace removed.
pub open spec fn spec_strip_ws(s: Seq<u8>) -> Seq<u8> {
    s.filter(|b: u8| !is_ascii_ws(b))
}

/// The first index of `sep` in `s`, or `s.len()` when `sep` is absent.
pub open spec fn spec_find(s: Seq<u8>, sep: u8) -> int
    decreases s.len(),
{
    if s.len() == 0 {
        0
    } else if s[0] == sep {
        0
    } else {
        1 + spec_find(s.subrange(1, s.len() as int), sep)
    }
}

pub proof fn lemma_spec_find(s: Seq<u8>, sep: u8)
    ensures
        0 <= spec_find(s, sep) <= s.len(),
        spec_find(s, sep) < s.len() ==> s[spec_find(s, sep)] == sep,
        forall|k: int| 0 <= k < spec_find(s, sep) ==> s[k] != sep,
    decreases s.len(),
{
    if s.len() == 0 {
    } else if s[0] == sep {
    } else {
        let t = s.subrange(1, s.len() as int);
        lemma_spec_find(t, sep);
        assert forall|k: int| 0 <= k < spec_find(s, sep) implies s[k] != sep by {
            if k > 0 {
                assert(t[k - 1] == s[k]);
            }
        }
    }
}

/// Splits `s` on `sep`; a trailing separator yields a trailing empty part.
pub open spec fn spec_split(s: Seq<u8>, sep: u8) -> Seq<Seq<u8>>
    decreases s.len(),
{
    let i = spec_find(s, sep);
    if 0 <= i < s.len() {
        seq![s.subrange(0, i)] + spec_split(s.subrange(i + 1, s.len() as int), sep)
    } else {
        seq![s]
    }
}

/// Whether `s` is a well-formed hex string: even length, hex digits only.
pub open spec fn spec_hex_ok(s: Seq<u8>) -> bool {
    s.len() % 2 == 0 && (forall|i: int| 0 <= i < s.len() ==> is_hex_digit(s[i]))
}

/// The bytes of `"header_key"`.
pub open spec fn spec_name_header_key() -> Seq<u8> {
    seq![104u8, 101u8, 97u8, 100u8, 101u8, 114u8, 95u8, 107u8, 101u8, 121u8]
}

/// The bytes of `"key_area_key_application_"`.
pub open spec fn spec_prefix_application() -> Seq<u8> {
    seq![
        107u8, 101u8, 121u8, 95u8, 97u8, 114u8, 101u8, 97u8, 95u8, 107u8, 101u8, 121u8, 95u8,
        97u8, 112u8, 112u8, 108u8, 105u8, 99u8, 97u8, 116u8, 105u8, 111u8, 110u8, 95u8,
    ]
}

/// The bytes of `"key_area_key_ocean_"`.
pub open spec fn spec_prefix_ocean() -> Seq<u8> {
    seq![
        107u8, 101u8, 121u8, 95u8, 97u8, 114u8, 101u8, 97u8, 95u8, 107u8, 101u8, 121u8, 95u8,
        111u8, 99u8, 101u8, 97u8, 110u8, 95u8,
    ]
}

/// The bytes of `"key_area_key_system_"`.
pub open spec fn spec_prefix_system() -> Seq<u8> {
    seq![
        107u8, 101u8, 121u8, 95u8, 97u8, 114u8, 101u8, 97u8, 95u8, 107u8, 101u8, 121u8, 95u8,
        115u8, 121u8, 115u8, 116u8, 101u8, 109u8, 95u8,
    ]
}

/// `Some(index)` when `name` is `base` followed by exactly two hex digits,
/// read as one base-16 byte.
pub open spec fn spec_key_name_index(base: Seq<u8>, name: Seq<u8>) -> Option<int> {
    if name.len() == base.len() + 2 && name.subrange(0, base.len() as int) == base && is_hex_digit(
        name[name.len() - 2],
    ) && is_hex_digit(name[name.len() - 1]) {
        Some(hex_digit_value(name[name.len() - 2]) * 16 + hex_digit_value(name[name.len() - 1]))
    } else {
        None
    }
}

/// The mathematical content of a parsed key database.
pub struct KeysetView {
    /// 32 bytes; all zero until a `header_key` line sets it.
    pub header_key: Seq<u8>,
    /// Application key-area keys by generation index.
    pub application: Map<int, Seq<u8>>,
    /// Ocean key-area keys by generation index.
    pub ocean: Map<int, Seq<u8>>,
    /// System key-area keys by generation index.
    pub system: Map<int, Seq<u8>>,
}

/// The keyset every parse starts from: a zero header key, no area keys.
pub open spec fn spec_keyset_empty() -> KeysetView {
    KeysetView {
        header_key: Seq::new(32, |i: int| 0u8),
        application: Map::empty(),
        ocean: Map::empty(),
        system: Map::empty(),
    }
}

/// One line of the database folded into the keyset: lines without `=` are
/// skipped; otherwise the value must be hex of the right length (`None` is
/// the fatal parse error); recognized names store their key, others are
/// ignored.
pub open spec fn spec_parse_line(m: KeysetView, line: Seq<u8>) -> Option<KeysetView> {
    let i = spec_find(line, 61);
    if i >= line.len() {
        Some(m)
    } else {
        let name = spec_strip_ws(line.subrange(0, i));
        let value = spec_strip_ws(line.subrange(i + 1, line.len() as int));
        if !spec_hex_ok(value) {
            None
        } else {
            let kd = spec_hex_decode(value);
            if name == spec_name_header_key() {
                if kd.len() == 32 {
                    Some(KeysetView { header_key: kd, ..m })
                } else {
                    None
                }
            } else if spec_key_name_index(spec_prefix_application(), name) is Some {
                let idx = spec_key_name_index(spec_prefix_application(), name).unwrap();
                if kd.len() == 16 {
                    Some(KeysetView { application: m.application.insert(idx, kd), ..m })
                } else {
                    None
                }
            } else if spec_key_name_index(spec_prefix_ocean(), name) is Some {
                let idx = spec_key_name_index(spec_prefix_ocean(), name).unwrap();
                if kd.len() == 16 {
                    Some(KeysetView { ocean: m.ocean.insert(idx, kd), ..m })
                } else {
                    None
                }
            } else if spec_key_name_index(spec_prefix_system(), name) is Some {
                let idx = spec_key_name_index(spec_prefix_system(), name).unwrap();
                if kd.len() == 16 {
                    Some(KeysetView { system: m.system.insert(idx, kd), ..m })
                } else {
                    None
                }
            } else {
                Some(m)
            }
        }
    }
}

/// The lines of the database folded left to right; the first bad line is
/// fatal.
pub open spec fn spec_parse_lines(m: KeysetView, ls: Seq<Seq<u8>>) -> Option<KeysetView>
    decreases ls.len(),
{
    if ls.len() == 0 {
        Some(m)
    } else {
        match spec_parse_line(m, ls[0]) {
            Some(m2) => spec_parse_lines(m2, ls.subrange(1, ls.len() as int)),
            None => None,
        }
    }
}

/// What the whole key database parses to, or `None` on a fatal line.
pub open spec fn spec_parse_keyset(data: Seq<u8>) -> Option<KeysetView> {
    spec_parse_lines(spec_keyset_empty(), spec_split(data, 10))
}

/// A parsed key database. The three key-area tables are sparse: an absent
/// generation is `None`.
#[derive(Clone, Debug)]
pub struct Keyset {
    pub header_key: Vec<u8>,
    pub key_area_keys_application: Vec<Option<Vec<u8>>>,
    pub key_area_keys_ocean: Vec<Option<Vec<u8>>>,
    pub key_area_keys_system: Vec<Option<Vec<u8>>>,
}

/// The sparse key table as a map from generation index to key bytes.
pub open spec fn spec_key_map(v: Seq<Option<Vec<u8>>>) -> Map<int, Seq<u8>> {
    Map::new(
        |i: int| 0 <= i < v.len() && v[i] is Some,
        |i: int| v[i].unwrap()@,
    )
}

impl View for Keyset {
    type V = KeysetView;

    open spec fn view(&self) -> KeysetView {
        KeysetView {
            header_key: self.header_key@,
            application: spec_key_map(self.key_area_keys_application@),
            ocean: spec_key_map(self.key_area_keys_ocean@),
            system: spec_key_map(self.key_area_keys_system@),
        }
    }
}

impl Keyset {
    /// Sizes are as the formats demand: a 32-byte header key, 16-byte
    /// key-area keys.
    pub open spec fn wf(&self) -> bool {
        &&& self.header_key@.len() == 32
        &&& (forall|i: int|
            0 <= i < self.key_area_keys_application@.len()
                && self.key_area_keys_application@[i] is Some
                ==> (#[trigger] self.key_area_keys_application@[i]).unwrap()@.len() == 16)
        &&& (forall|i: int|
            0 <= i < self.key_area_keys_ocean@.len() && self.key_area_keys_ocean@[i] is Some
                ==> (#[trigger] self.key_area_keys_ocean@[i]).unwrap()@.len() == 16)
        &&& (forall|i: int|
            0 <= i < self.key_area_keys_system@.len() && self.key_area_keys_system@[i] is Some
                ==> (#[trigger] self.key_area_keys_system@[i]).unwrap()@.len() == 16)
    }

    /// Parses a key database: one `name = hex` entry per line, whitespace
    /// ignored around both sides, lines without `=` skipped, unknown names
    /// ignored; a value that is not hex of the expected length is fatal.
    pub fn parse(data: &[u8]) -> (r: Result<Keyset, NxError>)
        ensures
            match spec_parse_keyset(data@) {
                Some(m) => r matches Ok(ks) && ks.wf() && ks@ == m,
                None => r matches Err(e) && e == NxError::ParseError,
            },
    {
        let mut ks = Keyset {
            header_key: vec![0u8; 32],
            key_area_keys_application: Vec::new(),
            key_area_keys_ocean: Vec::new(),
            key_area_keys_system: Vec::new(),
        };
        proof {
            assert(ks.header_key@ =~= spec_keyset_empty().header_key);
            assert(spec_key_map(ks.key_area_keys_application@) =~= Map::<int, Seq<u8>>::empty());
            assert(spec_key_map(ks.key_area_keys_ocean@) =~= Map::<int, Seq<u8>>::empty());
            assert(spec_key_map(ks.key_area_keys_system@) =~= Map::<int, Seq<u8>>::empty());
            assert(ks@ == spec_keyset_empty());
            assert(data@.subrange(0, data@.len() as int) =~= data@);
        }
        let mut pos: usize = 0;
        loop
            invariant
                ks.wf(),
                pos <= data@.len(),
                spec_parse_lines(
                    ks@,
                    spec_split(data@.subrange(pos as int, data@.len() as int), 10),
                ) == spec_parse_keyset(data@),
            decreases data@.len() - pos,
        {
            let ghost suffix = data@.subrange(pos as int, data@.len() as int);
            let ghost parts = spec_split(suffix, 10);
            let j = find_from(data, pos, 10);
            let line = slice_subrange(data, pos, j);
            proof {
                assert(line@ =~= suffix.subrange(0, j - pos));
                if j < data@.len() {
                    assert(parts[0] == line@);
                    assert(suffix.subrange(j - pos + 1, suffix.len() as int) =~= data@.subrange(
                        j + 1,
                        data@.len() as int,
                    ));
                    assert(parts.subrange(1, parts.len() as int) =~= spec_split(
                        data@.subrange(j + 1, data@.len() as int),
                        10,
                    ));
                } else {
                    assert(line@ =~= suffix);
                    assert(parts == seq![suffix]);
                    assert(parts[0] == line@);
                    assert(parts.subrange(1, parts.len() as int) =~= Seq::<Seq<u8>>::empty());
                }
            }
            let ghost pre_view = ks@;
            match process_line(&mut ks, line) {
                Ok(_) => {
                },
                Err(_) => {
                    return Err(NxError::ParseError);
                },
            }
            proof {
                assert(spec_parse_line(pre_view, parts[0]) == Some(ks@));
                assert(spec_parse_lines(pre_view, parts) == spec_parse_lines(
                    ks@,
                    parts.subrange(1, parts.len() as int),
                ));
            }
            if j == data.len() {
                return Ok(ks);
            }
            pos = j + 1;
        }
    }
}

/// The first position `>= from` where `s` holds `sep`, or `s.len()`.
pub fn find_from(s: &[u8], from: usize, sep: u8) -> (j: usize)
    requires
        from <= s@.len(),
    ensures
        from <= j <= s@.len(),
        j - from == spec_find(s@.subrange(from as int, s@.len() as int), sep),
        j < s@.len() ==> s@[j as int] == sep,
        forall|k: int| from <= k < j ==> s@[k] != sep,
{
    let ghost suffix = s@.subrange(from as int, s@.len() as int);
    let mut j: usize = from;
    while j < s.len() && *slice_index_get(s, j) != sep
        invariant
            from <= j <= s@.len(),
            forall|k: int| from <= k < j ==> s@[k] != sep,
        decreases s@.len() - j,
    {
        j = j + 1;
    }
    proof {
        lemma_spec_find(suffix, sep);
        let f = spec_find(suffix, sep);
        assert forall|k: int| 0 <= k < j - from implies suffix[k] != sep by {
            assert(suffix[k] == s@[from + k]);
        }
        if f < j - from {
            assert(suffix[f] == s@[from + f]);
            assert(false);
        }
        if j - from < f {
            assert(j < s@.len());
            assert(suffix[j - from] == s@[j as int]);
            assert(false);
        }
    }
    j
}

/// `s` with ASCII whitespace removed, as a fresh vector.
fn strip_ws(s: &[u8]) -> (r: Vec<u8>)
    ensures
        r@ == spec_strip_ws(s@),
{
    let mut out: Vec<u8> = Vec::new();
    let mut k: usize = 0;
    while k < s.len()
        invariant
            k <= s@.len(),
            out@ == spec_strip_ws(s@.subrange(0, k as int)),
        decreases s@.len() - k,
    {
        let b = *slice_index_get(s, k);
        let ghost pre = s@.subrange(0, k as int);
        let ghost cur = s@.subrange(0, k + 1int);
        proof {
            reveal(Seq::filter);
            assert(cur.drop_last() =~= pre);
            assert(cur.last() == b);
        }
        if !(b == 32 || (9 <= b && b <= 13)) {
            out.push(b);
        }
        k = k + 1;
    }
    proof {
        assert(s@.subrange(0, k as int) =~= s@);
    }
    out
}

/// Whether two byte strings hold the same bytes.
pub fn bytes_eq(a: &[u8], b: &[u8]) -> (r: bool)
    ensures
        r <==> a@ == b@,
{
    if a.len() != b.len() {
        return false;
    }
    let mut k: usize = 0;
    while k < a.len()
        invariant
            a@.len() == b@.len(),
            k <= a@.len(),
            forall|i: int| 0 <= i < k ==> a@[i] == b@[i],
        decreases a@.len() - k,
    {
        if *slice_index_get(a, k) != *slice_index_get(b, k) {
            return false;
        }
        k = k + 1;
    }
    proof {
        assert(a@ =~= b@);
    }
    true
}

/// The value of a hex digit, or `None` for any other byte.
fn hex_digit(b: u8) -> (r: Option<u8>)
    ensures
        r is Some <==> is_hex_digit(b),
        r matches Some(v) ==> v == hex_digit_value(b),
{
    if 48 <= b && b <= 57 {
        Some(b - 48)
    } else if 97 <= b && b <= 102 {
        Some(b - 87)
    } else if 65 <= b && b <= 70 {
        Some(b - 55)
    } else {
        None
    }
}

/// `Some(index)` when `name` is `prefix` plus two hex digits.
fn key_name_index(prefix: &Vec<u8>, name: &Vec<u8>) -> (r: Option<usize>)
    ensures
        match spec_key_name_index(prefix@, name@) {
            Some(i) => r matches Some(v) && v as int == i,
            None => r is None,
        },
{
    if name.len() < 2 {
        return None;
    }
    if prefix.len() != name.len() - 2 {
        return None;
    }
    if !bytes_eq(slice_subrange(name.as_slice(), 0, prefix.len()), prefix.as_slice()) {
        proof {
            assert(name@.subrange(0, prefix@.len() as int) != prefix@);
        }
        return None;
    }
    let hi = hex_digit(name[name.len() - 2]);
    let lo = hex_digit(name[name.len() - 1]);
    match (hi, lo) {
        (Some(h), Some(l)) => Some((h as usize) * 16 + (l as usize)),
        _ => None,
    }
}

/// Stores `kd` at generation `idx` of a sparse key table, growing it with
/// absent entries as needed.
fn table_insert(v: &mut Vec<Option<Vec<u8>>>, idx: usize, kd: Vec<u8>)
    requires
        idx < 256,
    ensures
        spec_key_map(final(v)@) == spec_key_map(old(v)@).insert(idx as int, kd@),
        idx < final(v)@.len(),
        final(v)@[idx as int] is Some && final(v)@[idx as int].unwrap()@ == kd@,
        forall|i: int|
            0 <= i < final(v)@.len() && i != idx ==> #[trigger] final(v)@[i] == (if i < old(
                v,
            )@.len() {
                old(v)@[i]
            } else {
                None
            }),
{
    let ghost pre = v@;
    while v.len() <= idx
        invariant
            pre.len() <= v@.len(),
            v@.subrange(0, pre.len() as int) == pre,
            forall|i: int| pre.len() <= i < v@.len() ==> v@[i] is None,
        decreases idx + 1 - v@.len(),
    {
        v.push(None);
        proof {
            assert(v@.subrange(0, pre.len() as int) =~= pre);
        }
    }
    proof {
        assert(spec_key_map(v@) =~= spec_key_map(pre));
        assert forall|i: int| 0 <= i < v@.len() && i < pre.len() implies v@[i] == pre[i] by {
            assert(v@.subrange(0, pre.len() as int)[i] == v@[i]);
        }
    }
    let ghost grown = v@;
    vec_update(v, idx, Some(kd));
    proof {
        assert(spec_key_map(v@) =~= spec_key_map(grown).insert(idx as int, kd@));
        assert(spec_key_map(grown).insert(idx as int, kd@) =~= spec_key_map(pre).insert(
            idx as int,
            kd@,
        ));
    }
}

/// Folds one line of the database into the keyset, as `spec_parse_line`
/// says; a fatal line yields `ParseError`.
fn process_line(ks: &mut Keyset, line: &[u8]) -> (r: Result<(), NxError>)
    requires
        old(ks).wf(),
    ensures
        match spec_parse_line(old(ks)@, line@) {
            Some(m) => r is Ok && final(ks).wf() && final(ks)@ == m,
            None => r matches Err(e) && e == NxError::ParseError,
        },
{
    let j = find_from(line, 0, 61);
    proof {
        assert(line@.subrange(0, line@.len() as int) =~= line@);
    }
    if j == line.len() {
        return Ok(());
    }
    let name = strip_ws(slice_subrange(line, 0, j));
    let value = strip_ws(slice_subrange(line, j + 1, line.len()));
    let kd = match hex_decode(&value) {
        Ok(v) => v,
        Err(e) => {
            return Err(NxError::ParseError);
        },
    };
    let header_name: Vec<u8> = vec![104u8, 101, 97, 100, 101, 114, 95, 107, 101, 121];
    proof {
        assert(header_name@ =~= spec_name_header_key());
    }
    if bytes_eq(name.as_slice(), header_name.as_slice()) {
        if kd.len() == 32 {
            ks.header_key = kd;
            return Ok(());
        } else {
            return Err(NxError::ParseError);
        }
    }
    let prefix_app: Vec<u8> = vec![
        107u8, 101, 121, 95, 97, 114, 101, 97, 95, 107, 101, 121, 95, 97, 112, 112, 108, 105, 99,
        97, 116, 105, 111, 110, 95,
    ];
    let prefix_ocean: Vec<u8> = vec![
        107u8, 101, 121, 95, 97, 114, 101, 97, 95, 107, 101, 121, 95, 111, 99, 101, 97, 110, 95,
    ];
    let prefix_system: Vec<u8> = vec![
        107u8, 101, 121, 95, 97, 114, 101, 97, 95, 107, 101, 121, 95, 115, 121, 115, 116, 101,
        109, 95,
    ];
    proof {
        assert(prefix_app@ =~= spec_prefix_application());
        assert(prefix_ocean@ =~= spec_prefix_ocean());
        assert(prefix_system@ =~= spec_prefix_system());
    }
    if let Some(idx) = key_name_index(&prefix_app, &name) {
        if kd.len() == 16 {
            table_insert(&mut ks.key_area_keys_application, idx, kd);
            return Ok(());
        } else {
            return Err(NxError::ParseError);
        }
    }
    if let Some(idx) = key_name_index(&prefix_ocean, &name) {
        if kd.len() == 16 {
            table_insert(&mut ks.key_area_keys_ocean, idx, kd);
            return Ok(());
        } else {
            return Err(NxError::ParseError);
        }
    }
    if let Some(idx) = key_name_index(&prefix_system, &name) {
        if kd.len() == 16 {
            table_insert(&mut ks.key_area_keys_system, idx, kd);
            return Ok(());
        } else {
            return Err(NxError::ParseError);
        }
    }
    Ok(())
}

} // verus!
