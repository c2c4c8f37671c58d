//! A reader for the boot-time archive: a TAR (ustar) blob holding named
//! byte files.
//!
//! The archive is a sequence of 512-byte blocks.  A block that carries
//! the ustar magic and a well-formed octal size field is a file header;
//! the file's bytes follow in the next blocks, and the scan skips them so
//! that an archive stored inside a file is not mistaken for headers of
//! the outer archive.  Headers are kept under a key derived from the
//! stored name; a later header with the same key replaces the earlier
//! one.

use vstd::prelude::*;
use vstd::slice::{slice_subrange, slice_to_vec};

verus! {

/// Whether `b` is an ASCII octal digit.
pub open spec fn spec_is_octal_digit(b: u8) -> bool {
    48 <= b <= 55
}

/// Whether `s` is a non-empty run of octal digits.
pub open spec fn spec_octal_valid(s: Seq<u8>) -> bool {
    s.len() > 0 && forall|i: int| 0 <= i < s.len() ==> spec_is_octal_digit(#[trigger] s[i])
}

/// The number written in `s` as base-8 digits, most significant first.
pub open spec fn spec_octal_value(s: Seq<u8>) -> int
    decreases s.len(),
{
    if s.len() == 0 {
        0
    } else {
        spec_octal_value(s.drop_last()) * 8 + (s.last() - 48)
    }
}

/// `8^n`, the bound on an `n`-digit octal number.
pub open spec fn spec_pow8(n: nat) -> int
    decreases n,
{
    if n == 0 {
        1
    } else {
        8 * spec_pow8((n - 1) as nat)
    }
}

/// An octal digit string writes a number below eight to its length.
proof fn lemma_octal_value_bound(s: Seq<u8>)
    requires
        forall|i: int| 0 <= i < s.len() ==> spec_is_octal_digit(#[trigger] s[i]),
    ensures
        0 <= spec_octal_value(s) < spec_pow8(s.len()),
    decreases s.len(),
{
    if s.len() > 0 {
        lemma_octal_value_bound(s.drop_last());
    }
}

/// Reads a non-empty octal digit string as a number; reports `None` on
/// an empty or non-octal field.  The field may hold at most 21 digits,
/// which keeps the value well inside the result type.
fn parse_octal(s: &[u8]) -> (r: Option<u128>)
    requires
        s@.len() <= 21,
    ensures
        r is Some <==> spec_octal_valid(s@),
        r matches Some(v) ==> v == spec_octal_value(s@),
{
    let n: usize = s.len();
    if n == 0 {
        return None;
    }
    let mut acc: u128 = 0;
    let mut i: usize = 0;
    while i < n
        invariant
            i <= n,
            n == s@.len() <= 21,
            forall|j: int| 0 <= j < i ==> spec_is_octal_digit(#[trigger] s@[j]),
            acc == spec_octal_value(s@.subrange(0, i as int)),
            0 <= acc < spec_pow8(i as nat),
        decreases n - i,
    {
        let b: u8 = *vstd::slice::slice_index_get(s, i);
        if b < 48 || b > 55 {
            return None;
        }
        proof {
            reveal_with_fuel(spec_pow8, 22);
            assert(spec_pow8(i as nat) <= spec_pow8(21)) by {
                lemma_pow8_monotonic(i as nat, 21);
            }
            assert(s@.subrange(0, i + 1).drop_last() =~= s@.subrange(0, i as int));
            assert(s@.subrange(0, i + 1).last() == s@[i as int]);
        }
        acc = acc * 8 + ((b - 48) as u128);
        i += 1;
    }
    proof {
        assert(s@.subrange(0, n as int) =~= s@);
    }
    Some(acc)
}

/// `8^a <= 8^b` when `a <= b`.
proof fn lemma_pow8_monotonic(a: nat, b: nat)
    requires
        a <= b,
    ensures
        spec_pow8(a) <= spec_pow8(b),
        1 <= spec_pow8(a),
    decreases b,
{
    if a < b {
        lemma_pow8_monotonic(a, (b - 1) as nat);
    } else if a > 0 {
        lemma_pow8_monotonic((a - 1) as nat, (b - 1) as nat);
    }
}

/// `s` with every leading `b` removed.
pub open spec fn spec_trim_start(s: Seq<u8>, b: u8) -> Seq<u8>
    decreases s.len(),
{
    if s.len() > 0 && s[0] == b {
        spec_trim_start(s.drop_first(), b)
    } else {
        s
    }
}

/// `s` with every trailing `b` removed.
pub open spec fn spec_trim_end(s: Seq<u8>, b: u8) -> Seq<u8>
    decreases s.len(),
{
    if s.len() > 0 && s.last() == b {
        spec_trim_end(s.drop_last(), b)
    } else {
        s
    }
}

/// `s` with every leading and trailing `b` removed.
pub open spec fn spec_trim(s: Seq<u8>, b: u8) -> Seq<u8> {
    spec_trim_end(spec_trim_start(s, b), b)
}

/// Trimming the front keeps the range past the leading run of `b`.
proof fn lemma_trim_start_at(s: Seq<u8>, b: u8, lo: int)
    requires
        0 <= lo <= s.len(),
        forall|i: int| 0 <= i < lo ==> s[i] == b,
        lo == s.len() || s[lo] != b,
    ensures
        spec_trim_start(s, b) == s.subrange(lo, s.len() as int),
    decreases lo,
{
    if lo == 0 {
        assert(s.subrange(0, s.len() as int) =~= s);
    } else {
        lemma_trim_start_at(s.drop_first(), b, lo - 1);
        assert(s.drop_first().subrange(lo - 1, s.drop_first().len() as int) =~= s.subrange(
            lo,
            s.len() as int,
        ));
    }
}

/// Trimming the back keeps the range before the trailing run of `b`.
proof fn lemma_trim_end_at(s: Seq<u8>, b: u8, hi: int)
    requires
        0 <= hi <= s.len(),
        forall|i: int| hi <= i < s.len() ==> s[i] == b,
        hi == 0 || s[hi - 1] != b,
    ensures
        spec_trim_end(s, b) == s.subrange(0, hi),
    decreases s.len(),
{
    if hi == s.len() {
        assert(s.subrange(0, hi) =~= s);
    } else {
        lemma_trim_end_at(s.drop_last(), b, hi);
        assert(s.drop_last().subrange(0, hi) =~= s.subrange(0, hi));
    }
}

/// Copies `v` with every leading `b` removed.
fn trim_start_byte(v: &[u8], b: u8) -> (r: Vec<u8>)
    ensures
        r@ == spec_trim_start(v@, b),
{
    let n: usize = v.len();
    let mut lo: usize = 0;
    while lo < n && *vstd::slice::slice_index_get(v, lo) == b
        invariant
            lo <= n,
            n == v@.len(),
            forall|i: int| 0 <= i < lo ==> v@[i] == b,
        decreases n - lo,
    {
        lo += 1;
    }
    proof {
        lemma_trim_start_at(v@, b, lo as int);
    }
    slice_to_vec(slice_subrange(v, lo, n))
}

/// Copies `v` with every leading and trailing `b` removed.
fn trim_byte_ends(v: &[u8], b: u8) -> (r: Vec<u8>)
    ensures
        r@ == spec_trim(v@, b),
{
    let n: usize = v.len();
    let mut lo: usize = 0;
    while lo < n && *vstd::slice::slice_index_get(v, lo) == b
        invariant
            lo <= n,
            n == v@.len(),
            forall|i: int| 0 <= i < lo ==> v@[i] == b,
        decreases n - lo,
    {
        lo += 1;
    }
    proof {
        lemma_trim_start_at(v@, b, lo as int);
    }
    if lo == n {
        return Vec::new();
    }
    let mut hi: usize = n;
    while *vstd::slice::slice_index_get(v, hi - 1) == b
        invariant
            lo < hi <= n,
            n == v@.len(),
            v@[lo as int] != b,
            forall|i: int| hi <= i < n ==> v@[i] == b,
        decreases hi,
    {
        hi -= 1;
    }
    proof {
        let t = v@.subrange(lo as int, n as int);
        assert(forall|j: int| hi - lo <= j < t.len() ==> t[j] == b);
        assert(t[hi - lo - 1] == v@[hi as int - 1]);
        lemma_trim_end_at(t, b, hi as int - lo as int);
        assert(t.subrange(0, hi as int - lo as int) =~= v@.subrange(lo as int, hi as int));
    }
    slice_to_vec(slice_subrange(v, lo, hi))
}

/// The kind of archive member a header announces.
#[derive(Copy, Clone, PartialEq, Eq, Debug, Structural)]
pub enum USTARFileType {
    REGTYPE,
    AREGTYPE,
    LNKTYPE,
    SYMTYPE,
    CHRTYPE,
    BLKTYPE,
    DIRTYPE,
    FIFOTYPE,
    CONTTYPE,
}

/// The member kind announced by type-flag byte `b`; an unknown flag
/// counts as a regular file.
pub open spec fn spec_type_of(b: u8) -> USTARFileType {
    if b == 48 {
        USTARFileType::REGTYPE
    } else if b == 0 {
        USTARFileType::AREGTYPE
    } else if b == 49 {
        USTARFileType::LNKTYPE
    } else if b == 50 {
        USTARFileType::SYMTYPE
    } else if b == 51 {
        USTARFileType::CHRTYPE
    } else if b == 52 {
        USTARFileType::BLKTYPE
    } else if b == 53 {
        USTARFileType::DIRTYPE
    } else if b == 54 {
        USTARFileType::FIFOTYPE
    } else if b == 55 {
        USTARFileType::CONTTYPE
    } else {
        USTARFileType::REGTYPE
    }
}

impl USTARFileType {
    /// Decodes a type-flag character; an unknown flag counts as a
    /// regular file.
    pub fn from_char(i: char) -> (r: Self)
        ensures
            i == '0' ==> r == USTARFileType::REGTYPE,
            i == '\0' ==> r == USTARFileType::AREGTYPE,
            i == '1' ==> r == USTARFileType::LNKTYPE,
            i == '2' ==> r == USTARFileType::SYMTYPE,
            i == '3' ==> r == USTARFileType::CHRTYPE,
            i == '4' ==> r == USTARFileType::BLKTYPE,
            i == '5' ==> r == USTARFileType::DIRTYPE,
            i == '6' ==> r == USTARFileType::FIFOTYPE,
            i == '7' ==> r == USTARFileType::CONTTYPE,
    {
        match i {
            '0' => USTARFileType::REGTYPE,
            '\0' => USTARFileType::AREGTYPE,
            '1' => USTARFileType::LNKTYPE,
            '2' => USTARFileType::SYMTYPE,
            '3' => USTARFileType::CHRTYPE,
            '4' => USTARFileType::BLKTYPE,
            '5' => USTARFileType::DIRTYPE,
            '6' => USTARFileType::FIFOTYPE,
            '7' => USTARFileType::CONTTYPE,
            _ => USTARFileType::REGTYPE,
        }
    }
}

/// Decodes a type-flag byte; an unknown flag counts as a regular file.
fn type_from_byte(b: u8) -> (r: USTARFileType)
    ensures
        r == spec_type_of(b),
{
    if b == 48 {
        USTARFileType::REGTYPE
    } else if b == 0 {
        USTARFileType::AREGTYPE
    } else if b == 49 {
        USTARFileType::LNKTYPE
    } else if b == 50 {
        USTARFileType::SYMTYPE
    } else if b == 51 {
        USTARFileType::CHRTYPE
    } else if b == 52 {
        USTARFileType::BLKTYPE
    } else if b == 53 {
        USTARFileType::DIRTYPE
    } else if b == 54 {
        USTARFileType::FIFOTYPE
    } else if b == 55 {
        USTARFileType::CONTTYPE
    } else {
        USTARFileType::REGTYPE
    }
}

/// The six magic bytes `ustar\0` every header block carries.
pub open spec fn spec_magic() -> Seq<u8> {
    seq![117u8, 115u8, 116u8, 97u8, 114u8, 0u8]
}

/// Whether a 512-byte block carries the ustar magic.
pub open spec fn spec_magic_ok(block: Seq<u8>) -> bool {
    block.subrange(257, 263) == spec_magic()
}

/// The octal size field of a header block.
pub open spec fn spec_size_field(block: Seq<u8>) -> Seq<u8> {
    block.subrange(124, 135)
}

/// The member name stored in a header block: the raw 100-byte field with
/// the padding zero bytes removed from both ends and any leading dots
/// removed.
pub open spec fn spec_header_name(block: Seq<u8>) -> Seq<u8> {
    spec_trim_start(spec_trim(block.subrange(0, 100), 0), 46)
}

/// Whether a block is a well-formed header: ustar magic present and an
/// octal size field.
pub open spec fn spec_block_parses(block: Seq<u8>) -> bool {
    spec_magic_ok(block) && spec_octal_valid(spec_size_field(block))
}

/// One archive member's header: its name, byte size, kind, and the byte
/// offset of its header block within the archive.
#[derive(Debug)]
pub struct USTARHeader {
    pub name: Vec<u8>,
    pub size: u128,
    pub typeflag: USTARFileType,
    pub offset: usize,
}

impl USTARHeader {
    /// Parses one 512-byte block as a header.  `index` is the block's
    /// position in the archive, so the member's offset is `index * 512`
    /// bytes.  A block without the magic, or with a malformed size
    /// field, is no header.
    pub fn from_block(block: &[u8], index: usize) -> (r: Result<USTARHeader, &'static str>)
        requires
            block@.len() == 512,
            index * 512 + 512 <= usize::MAX,
        ensures
            r is Ok <==> spec_block_parses(block@),
            r matches Ok(h) ==> {
                &&& h.name@ == spec_header_name(block@)
                &&& h.size == spec_octal_value(spec_size_field(block@))
                &&& h.typeflag == spec_type_of(block@[156])
                &&& h.offset == index * 512
            },
            !spec_magic_ok(block@) ==> (r matches Err(e) && e@ == "format is not USTAR!"@),
            spec_magic_ok(block@) && !spec_octal_valid(spec_size_field(block@)) ==> (
            r matches Err(e) && e@ == "size field is not octal"@),
    {
        let magic = slice_subrange(block, 257, 263);
        let magic_ok: bool = magic.len() == 6 && *vstd::slice::slice_index_get(magic, 0) == 117
            && *vstd::slice::slice_index_get(magic, 1) == 115 && *vstd::slice::slice_index_get(
            magic,
            2,
        ) == 116 && *vstd::slice::slice_index_get(magic, 3) == 97 && *vstd::slice::slice_index_get(
            magic,
            4,
        ) == 114 && *vstd::slice::slice_index_get(magic, 5) == 0;
        proof {
            if magic_ok {
                assert(block@.subrange(257, 263) =~= spec_magic());
            } else {
                assert(block@.subrange(257, 263) != spec_magic());
            }
        }
        if !magic_ok {
            return Err("format is not USTAR!");
        }
        let size = match parse_octal(slice_subrange(block, 124, 135)) {
            Some(v) => v,
            None => {
                return Err("size field is not octal");
            },
        };
        proof {
            lemma_octal_value_bound(spec_size_field(block@));
            reveal_with_fuel(spec_pow8, 12);
        }
        let name_raw = trim_byte_ends(slice_subrange(block, 0, 100), 0);
        let name = trim_start_byte(name_raw.as_slice(), 46);
        let typeflag = type_from_byte(*vstd::slice::slice_index_get(block, 156));
        let offset: usize = index * 512;
        Ok(USTARHeader { name, size, typeflag, offset })
    }

    /// Copies this header.
    pub fn duplicate(&self) -> (r: USTARHeader)
        ensures
            r.name@ == self.name@,
            r.size == self.size,
            r.typeflag == self.typeflag,
            r.offset == self.offset,
    {
        USTARHeader {
            name: copy_bytes(self.name.as_slice()),
            size: self.size,
            typeflag: self.typeflag,
            offset: self.offset,
        }
    }
}

/// Copies a byte slice into a fresh vector.
fn copy_bytes(v: &[u8]) -> (r: Vec<u8>)
    ensures
        r@ == v@,
{
    let r = slice_to_vec(v);
    r
}

/// The spec-level record the archive keeps for one member: the lookup
/// key beside the header fields.
pub ghost struct StoredModel {
    pub key: Seq<u8>,
    pub name: Seq<u8>,
    pub size: u128,
    pub typeflag: USTARFileType,
    pub offset: int,
}

/// The record a header block at position `i` contributes.  The lookup
/// key is the stored name with dots trimmed from both ends.
pub open spec fn spec_model_of_block(block: Seq<u8>, i: int) -> StoredModel {
    StoredModel {
        key: spec_trim(spec_header_name(block), 46),
        name: spec_header_name(block),
        size: spec_octal_value(spec_size_field(block)) as u128,
        typeflag: spec_type_of(block[156]),
        offset: i * 512,
    }
}

/// The first position holding `key`, or `-1`.
pub open spec fn spec_find_key(s: Seq<StoredModel>, key: Seq<u8>) -> int
    decreases s.len(),
{
    if s.len() == 0 {
        -1
    } else if s[0].key == key {
        0
    } else {
        let r = spec_find_key(s.drop_first(), key);
        if r == -1 {
            -1
        } else {
            r + 1
        }
    }
}

/// Records `m`: replaces the record already under its key, or appends.
pub open spec fn spec_insert(s: Seq<StoredModel>, m: StoredModel) -> Seq<StoredModel> {
    let f = spec_find_key(s, m.key);
    if f == -1 {
        s.push(m)
    } else {
        s.update(f, m)
    }
}

/// The 512-byte block at position `i` of the archive.
pub open spec fn spec_block_at(buf: Seq<u8>, i: int) -> Seq<u8> {
    buf.subrange(512 * i, 512 * i + 512)
}

/// One step of the archive scan at block `i`: skip file contents, or
/// record a header and start skipping its contents.
pub open spec fn spec_scan_step(
    state: (Seq<StoredModel>, u128),
    buf: Seq<u8>,
    i: int,
) -> (Seq<StoredModel>, u128) {
    let block = spec_block_at(buf, i);
    if state.1 > 0 {
        (state.0, if state.1 < 512 { 0u128 } else { (state.1 - 512) as u128 })
    } else if spec_block_parses(block) {
        let m = spec_model_of_block(block, i);
        let skip: u128 = if m.typeflag == USTARFileType::REGTYPE || m.typeflag
            == USTARFileType::AREGTYPE {
            m.size
        } else {
            0
        };
        (spec_insert(state.0, m), skip)
    } else {
        (state.0, 0)
    }
}

/// The records and pending skip after scanning the first `n` blocks.
pub open spec fn spec_scan(buf: Seq<u8>, n: int) -> (Seq<StoredModel>, u128)
    decreases n,
{
    if n <= 0 {
        (Seq::empty(), 0)
    } else {
        spec_scan_step(spec_scan(buf, n - 1), buf, n - 1)
    }
}

/// The archive: the records found by the scan, and the raw blob the
/// file contents are read from.
#[derive(Debug)]
pub struct USTAR {
    headers: Vec<StoredEntry>,
    blob: Vec<u8>,
}

/// One kept record: the lookup key beside the member's header.
#[derive(Debug)]
struct StoredEntry {
    key: Vec<u8>,
    header: USTARHeader,
}

impl StoredEntry {
    /// The spec-level record this entry stores.
    spec fn model(self) -> StoredModel {
        StoredModel {
            key: self.key@,
            name: self.header.name@,
            size: self.header.size,
            typeflag: self.header.typeflag,
            offset: self.header.offset as int,
        }
    }
}

/// Whether the entries' lookup keys are pairwise distinct.
spec fn keys_distinct(s: Seq<StoredEntry>) -> bool {
    forall|a: int, b: int|
        0 <= a < b < s.len() ==> (#[trigger] s[a].key@) != (#[trigger] s[b].key@)
}

/// Whether two byte sequences hold the same bytes.
fn bytes_eq(a: &[u8], b: &[u8]) -> (r: bool)
    ensures
        r == (a@ == b@),
{
    let n: usize = a.len();
    if n != b.len() {
        proof {
            assert(a@ != b@);
        }
        return false;
    }
    let mut i: usize = 0;
    while i < n
        invariant
            i <= n,
            n == a@.len() == b@.len(),
            forall|j: int| 0 <= j < i ==> a@[j] == b@[j],
        decreases n - i,
    {
        if *vstd::slice::slice_index_get(a, i) != *vstd::slice::slice_index_get(b, i) {
            return false;
        }
        i += 1;
    }
    proof {
        assert(a@ =~= b@);
    }
    true
}

impl USTAR {
    /// The records kept, in the order the scan first met their keys.
    pub closed spec fn models(self) -> Seq<StoredModel> {
        self.headers@.map_values(|e: StoredEntry| e.model())
    }

    /// The raw archive bytes.
    pub closed spec fn blob_seq(self) -> Seq<u8> {
        self.blob@
    }

    /// Keys are distinct and every record's header block lies inside
    /// the blob.
    pub closed spec fn wf(self) -> bool {
        (forall|i: int, j: int|
            0 <= i < j < self.models().len() ==> self.models()[i].key != self.models()[j].key)
            && (forall|i: int|
            0 <= i < self.models().len() ==> 0 <= (#[trigger] self.models()[i]).offset
                && self.models()[i].offset + 512 <= self.blob@.len())
    }

    /// Scans an archive blob: walks its 512-byte blocks, records each
    /// header met outside file contents, and skips the contents the
    /// header announces.  A trailing partial block is ignored.
    pub fn new(buf: Vec<u8>) -> (r: USTAR)
        ensures
            r.wf(),
            r.blob_seq() == buf@,
            r.models() == spec_scan(buf@, buf@.len() as int / 512).0,
    {
        let len: usize = buf.len();
        let n_blocks: usize = len / 512;
        let mut headers: Vec<StoredEntry> = Vec::new();
        let mut skip: u128 = 0;
        let mut i: usize = 0;

        while i < n_blocks
            invariant
                i <= n_blocks,
                len == buf@.len(),
                n_blocks == buf@.len() as int / 512,
                headers@.map_values(|e: StoredEntry| e.model()) == spec_scan(buf@, i as int).0,
                skip == spec_scan(buf@, i as int).1,
                keys_distinct(headers@),
                forall|a: int|
                    0 <= a < headers@.len() ==> (#[trigger] headers@[a]).header.offset + 512
                        <= buf@.len(),
            decreases n_blocks - i,
        {
            proof {
                vstd::arithmetic::div_mod::lemma_remainder_lower(buf@.len() as int, 512);
                assert(512 * (i + 1) <= 512 * n_blocks);
                assert(i * 512 + 512 <= len);
            }
            let block = slice_subrange(buf.as_slice(), i * 512, i * 512 + 512);
            if skip > 0 {
                if skip < 512 {
                    skip = 512;
                }
                skip = skip - 512;
            } else {
                match USTARHeader::from_block(block, i) {
                    Ok(header) => {
                        let key = trim_byte_ends(header.name.as_slice(), 46);
                        let new_skip: u128 = match header.typeflag {
                            USTARFileType::REGTYPE | USTARFileType::AREGTYPE => header.size,
                            _ => 0,
                        };
                        insert_entry(&mut headers, StoredEntry { key, header });
                        skip = new_skip;
                    },
                    Err(_) => {
                        skip = 0;
                    },
                }
            }
            i += 1;
        }

        let r = USTAR { headers, blob: buf };
        proof {
            assert forall|a: int, b: int|
                0 <= a < b < r.models().len() implies r.models()[a].key
                != r.models()[b].key by {
                assert(r.headers@[a].key@ != r.headers@[b].key@);
                assert(r.models()[a] == r.headers@[a].model());
                assert(r.models()[b] == r.headers@[b].model());
            }
            assert forall|a: int|
                0 <= a < r.models().len() implies 0 <= (#[trigger] r.models()[a]).offset
                && r.models()[a].offset + 512 <= r.blob@.len() by {
                assert(r.models()[a] == r.headers@[a].model());
            }
        }
        r
    }

    /// The bytes of the member stored under `name`, or `None` when no
    /// member has that name or its announced size runs past the end of
    /// the blob (a malformed archive).
    pub fn open(&self, name: &[u8]) -> (r: Option<Vec<u8>>)
        requires
            self.wf(),
        ensures
            ({
                let f = spec_find_key(self.models(), name@);
                if f == -1 {
                    r is None
                } else {
                    let m = self.models()[f];
                    if m.offset + 512 + m.size <= self.blob_seq().len() {
                        r matches Some(bytes) && bytes@ == self.blob_seq().subrange(
                            m.offset + 512,
                            m.offset + 512 + m.size as int,
                        )
                    } else {
                        r is None
                    }
                }
            }),
    {
        let count: usize = self.headers.len();
        let mut i: usize = 0;
        while i < count
            invariant
                i <= count,
                count == self.headers@.len(),
                self.wf(),
                forall|j: int| 0 <= j < i ==> self.headers@[j].key@ != name@,
            decreases count - i,
        {
            if bytes_eq(self.headers[i].key.as_slice(), name) {
                proof {
                    assert(self.models()[i as int] == self.headers@[i as int].model());
                    lemma_find_key_hit(self.models(), name@, i as int);
                    assert(self.models()[i as int].offset + 512 <= self.blob@.len());
                }
                let blob_len: usize = self.blob.len();
                let header = &self.headers[i].header;
                let lower: usize = header.offset + 512;
                let remaining: usize = blob_len - lower;
                if header.size > remaining as u128 {
                    return None;
                }
                let upper: usize = lower + header.size as usize;
                return Some(copy_bytes(slice_subrange(self.blob.as_slice(), lower, upper)));
            }
            i += 1;
        }
        proof {
            lemma_find_key_miss(self.models(), name@);
        }
        None
    }

    /// Copies of the kept headers, in record order.
    pub fn entries(&self) -> (r: Vec<USTARHeader>)
        ensures
            r@.len() == self.models().len(),
            forall|i: int|
                0 <= i < r@.len() ==> {
                    &&& (#[trigger] r@[i]).name@ == self.models()[i].name
                    &&& r@[i].size == self.models()[i].size
                    &&& r@[i].typeflag == self.models()[i].typeflag
                    &&& r@[i].offset == self.models()[i].offset
                },
    {
        let count: usize = self.headers.len();
        let mut v: Vec<USTARHeader> = Vec::new();
        let mut i: usize = 0;
        while i < count
            invariant
                i <= count,
                count == self.headers@.len(),
                v@.len() == i,
                forall|j: int|
                    0 <= j < i ==> {
                        &&& (#[trigger] v@[j]).name@ == self.headers@[j].header.name@
                        &&& v@[j].size == self.headers@[j].header.size
                        &&& v@[j].typeflag == self.headers@[j].header.typeflag
                        &&& v@[j].offset == self.headers@[j].header.offset
                    },
            decreases count - i,
        {
            v.push(self.headers[i].header.duplicate());
            i += 1;
        }
        v
    }

    /// The number of members kept.
    pub fn len(&self) -> (r: usize)
        ensures
            r == self.models().len(),
    {
        self.headers.len()
    }
}

/// A key found at a position of distinct-keyed records is the first hit.
proof fn lemma_find_key_hit(s: Seq<StoredModel>, key: Seq<u8>, at: int)
    requires
        0 <= at < s.len(),
        s[at].key == key,
        forall|i: int, j: int| 0 <= i < j < s.len() ==> s[i].key != s[j].key,
    ensures
        spec_find_key(s, key) == at,
    decreases s.len(),
{
    if at == 0 {
    } else {
        assert(s[0].key != key);
        lemma_find_key_hit(s.drop_first(), key, at - 1);
    }
}

/// A key no record holds is never found.
proof fn lemma_find_key_miss(s: Seq<StoredModel>, key: Seq<u8>)
    requires
        forall|i: int| 0 <= i < s.len() ==> (#[trigger] s[i]).key != key,
    ensures
        spec_find_key(s, key) == -1,
    decreases s.len(),
{
    if s.len() > 0 {
        lemma_find_key_miss(s.drop_first(), key);
    }
}

/// Records `entry`: replaces the entry already under its key, or
/// appends it, mirroring `spec_insert`.
fn insert_entry(headers: &mut Vec<StoredEntry>, entry: StoredEntry)
    requires
        keys_distinct(old(headers)@),
    ensures
        final(headers)@.map_values(|e: StoredEntry| e.model()) == spec_insert(
            old(headers)@.map_values(|e: StoredEntry| e.model()),
            entry.model(),
        ),
        keys_distinct(final(headers)@),
        forall|a: int|
            0 <= a < final(headers)@.len() ==> (#[trigger] final(headers)@[a]).header.offset
                == entry.header.offset || (a < old(headers)@.len()
                && final(headers)@[a].header.offset == old(headers)@[a].header.offset),
{
    let count: usize = headers.len();
    let mut i: usize = 0;
    while i < count
        invariant
            i <= count,
            count == headers@.len(),
            *headers == *old(headers),
            keys_distinct(headers@),
            forall|j: int| 0 <= j < i ==> headers@[j].key@ != entry.key@,
        decreases count - i,
    {
        if bytes_eq(headers[i].key.as_slice(), entry.key.as_slice()) {
            proof {
                let models = headers@.map_values(|e: StoredEntry| e.model());
                assert forall|a: int, b: int|
                    0 <= a < b < models.len() implies models[a].key != models[b].key by {
                    assert(headers@[a].key@ != headers@[b].key@);
                    assert(models[a] == headers@[a].model());
                    assert(models[b] == headers@[b].model());
                }
                assert(models[i as int] == headers@[i as int].model());
                lemma_find_key_hit(models, entry.key@, i as int);
            }
            let ghost before = headers@;
            headers.set(i, entry);
            proof {
                assert(headers@.map_values(|e: StoredEntry| e.model()) =~= spec_insert(
                    before.map_values(|e: StoredEntry| e.model()),
                    entry.model(),
                ));
                assert forall|a: int, b: int|
                    0 <= a < b < headers@.len() implies (#[trigger] headers@[a].key@)
                    != (#[trigger] headers@[b].key@) by {
                    assert(before[a].key@ != before[b].key@);
                    assert(entry.key@ == before[i as int].key@);
                    assert(headers@ == before.update(i as int, entry));
                    if a == i as int {
                        assert(headers@[b] == before[b]);
                    } else if b == i as int {
                        assert(headers@[a] == before[a]);
                    } else {
                        assert(headers@[a] == before[a]);
                        assert(headers@[b] == before[b]);
                    }
                }
            }
            return ;
        }
        i += 1;
    }
    proof {
        let models = headers@.map_values(|e: StoredEntry| e.model());
        assert forall|a: int| 0 <= a < models.len() implies (#[trigger] models[a]).key
            != entry.key@ by {
            assert(headers@[a].key@ != entry.key@);
            assert(models[a] == headers@[a].model());
        }
        lemma_find_key_miss(models, entry.key@);
    }
    headers.push(entry);
    proof {
        assert(headers@.map_values(|e: StoredEntry| e.model()) =~= spec_insert(
            old(headers)@.map_values(|e: StoredEntry| e.model()),
            entry.model(),
        ));
    }
}

} // verus!
