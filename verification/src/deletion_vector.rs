//! Deletion vectors (format version 3): the set of deleted row positions of one data
//! file, kept in a Roaring treemap and stored in Puffin files as
//! `deletion-vector-v1` blobs framed as: the length of magic and bitmap (4 bytes,
//! big-endian), the magic `D1 D3 39 64`, the portable Roaring bitmap, and the CRC-32 of
//! magic and bitmap (4 bytes, big-endian).
use vstd::prelude::*;
use roaring::RoaringTreemap;
use crate::iceberg_error::IcebergError;
use crate::position_delete::{BatchAction, any_kept};
use crate::text::{owned, copy_string, push_str, push_unsigned, push_char, str_eq, decimal_digits};

verus! {

broadcast use vstd::string::group_string_axioms;

/// `roaring::RoaringTreemap`, a compressed set of `u64` values.
#[verifier::external_type_specification]
#[verifier::external_body]
pub struct ExRoaringTreemap(RoaringTreemap);

/// The values a treemap holds.
pub uninterp spec fn treemap_set(t: RoaringTreemap) -> Set<u64>;

/// The set `RoaringTreemap::deserialize_from` reads from these bytes, `None` when it
/// fails on them.
pub uninterp spec fn roaring_set_of(bytes: Seq<u8>) -> Option<Set<u64>>;

/// One bit of the reflected CRC-32 (IEEE) shift register, `k` times.
pub open spec fn crc_shift(c: u32, k: nat) -> u32
    decreases k,
{
    if k == 0 {
        c
    } else {
        crc_shift(if c & 1 == 1 { (c >> 1u32) ^ 0xEDB8_8320u32 } else { c >> 1u32 }, (k - 1) as nat)
    }
}

/// The CRC-32 register after the bytes, one byte at a time.
pub open spec fn crc_update(c: u32, bytes: Seq<u8>) -> u32
    decreases bytes.len(),
{
    if bytes.len() == 0 {
        c
    } else {
        crc_update(crc_shift(c ^ (bytes[0] as u32), 8), bytes.drop_first())
    }
}

/// The CRC-32 (IEEE) checksum of the bytes: the reflected polynomial `0xEDB88320`,
/// starting from and finishing with all ones.
pub open spec fn crc32_of(bytes: Seq<u8>) -> u32 {
    crc_update(0xFFFF_FFFFu32, bytes) ^ 0xFFFF_FFFFu32
}

/// What `lz4_flex::decompress_size_prepended` returns for these bytes, `None` when it
/// fails on them.
pub uninterp spec fn lz4_decompressed(input: Seq<u8>) -> Option<Seq<u8>>;

/// Calls `RoaringTreemap::new`: an empty set.
#[verifier::external_body]
fn treemap_new() -> (r: RoaringTreemap)
    ensures
        treemap_set(r) == Set::<u64>::empty(),
{
    RoaringTreemap::new()
}

/// Calls `RoaringTreemap::insert`: adds the value, and tells whether it was absent.
#[verifier::external_body]
fn treemap_insert(t: &mut RoaringTreemap, value: u64) -> (r: bool)
    ensures
        treemap_set(*final(t)) == treemap_set(*old(t)).insert(value),
        r == !treemap_set(*old(t)).contains(value),
{
    t.insert(value)
}

/// Calls `RoaringTreemap::contains`.
#[verifier::external_body]
fn treemap_contains(t: &RoaringTreemap, value: u64) -> (r: bool)
    ensures
        r == treemap_set(*t).contains(value),
{
    t.contains(value)
}

/// Calls `RoaringTreemap::len`: the number of values.
#[verifier::external_body]
fn treemap_len(t: &RoaringTreemap) -> (r: u64)
    ensures
        r == treemap_set(*t).len(),
{
    t.len()
}

/// Calls `RoaringTreemap::clone`: the same values.
#[verifier::external_body]
fn treemap_clone(t: &RoaringTreemap) -> (r: RoaringTreemap)
    ensures
        treemap_set(r) == treemap_set(*t),
{
    t.clone()
}

/// Calls `RoaringTreemap::serialize_into` with a fresh `Vec`. It fails only where the
/// writer fails, and writing into a `Vec` does not, so it succeeds; the bytes read
/// back to the same set (the crate documents that deserializing the output gives an
/// equal treemap), and like every `Vec` they are at most `isize::MAX` long.
#[verifier::external_body]
fn treemap_serialize(t: &RoaringTreemap) -> (r: Result<Vec<u8>, String>)
    ensures
        r is Ok,
        r matches Ok(b) ==> roaring_set_of(b@) == Some(treemap_set(*t)) && b.len() <= isize::MAX,
{
    let mut bytes = Vec::new();
    match t.serialize_into(&mut bytes) {
        Ok(()) => Ok(bytes),
        Err(e) => Err(e.to_string()),
    }
}

/// Calls `RoaringTreemap::deserialize_from` on the bytes: the treemap, or the error as
/// text.
#[verifier::external_body]
fn treemap_deserialize(bytes: &[u8]) -> (r: Result<RoaringTreemap, String>)
    ensures
        match r {
            Ok(t) => roaring_set_of(bytes@) == Some(treemap_set(t)),
            Err(_) => roaring_set_of(bytes@) is None,
        },
{
    match RoaringTreemap::deserialize_from(bytes) {
        Ok(t) => Ok(t),
        Err(e) => Err(e.to_string()),
    }
}

/// Calls `crc32fast::hash`, which computes the CRC-32 (IEEE) checksum.
#[verifier::external_body]
fn crc32(bytes: &[u8]) -> (r: u32)
    ensures
        r == crc32_of(bytes@),
{
    crc32fast::hash(bytes)
}

/// Calls `lz4_flex::decompress_size_prepended`: the decompressed bytes, or the error as
/// text.
#[verifier::external_body]
fn lz4_decompress(input: &[u8]) -> (r: Result<Vec<u8>, String>)
    ensures
        match r {
            Ok(v) => lz4_decompressed(input@) == Some(v@),
            Err(_) => lz4_decompressed(input@) is None,
        },
{
    match lz4_flex::decompress_size_prepended(input) {
        Ok(v) => Ok(v),
        Err(e) => Err(e.to_string()),
    }
}

// ---------------------------------------------------------------------------
// Framing
// ---------------------------------------------------------------------------

/// The magic of a deletion vector blob.
pub open spec fn dv_magic() -> Seq<u8> {
    seq![0xD1u8, 0xD3u8, 0x39u8, 0x64u8]
}

/// The big-endian bytes of a 32-bit value.
pub open spec fn be32(x: u32) -> Seq<u8> {
    seq![(x >> 24u32) as u8, (x >> 16u32) as u8, (x >> 8u32) as u8, x as u8]
}

/// The 32-bit value of four big-endian bytes.
pub open spec fn be32_value(b0: u8, b1: u8, b2: u8, b3: u8) -> u32 {
    ((b0 as u32) << 24u32) | ((b1 as u32) << 16u32) | ((b2 as u32) << 8u32) | (b3 as u32)
}

/// The blob holding a serialized bitmap.
pub open spec fn dv_frame(bitmap: Seq<u8>) -> Seq<u8> {
    be32((4 + bitmap.len()) as u32) + dv_magic() + bitmap + be32(crc32_of(dv_magic() + bitmap))
}

/// The length field of a blob.
pub open spec fn content_len(data: Seq<u8>) -> int {
    be32_value(data[0], data[1], data[2], data[3]) as int
}

/// What reading a blob finds.
pub enum BlobReading {
    /// Fewer than 12 bytes
    TooShort,
    /// Fewer bytes than the length field asks for
    LengthMismatch,
    /// The four bytes where the magic belongs
    BadMagic(Seq<u8>),
    /// A length field too small to hold the magic
    ContentTooShort,
    /// The stored and the computed checksum
    CrcMismatch(u32, u32),
    /// The bitmap bytes do not deserialize
    BadBitmap,
    /// The deleted positions
    Positions(Set<u64>),
}

/// What reading a blob finds, in the order of the checks.
pub open spec fn read_blob(data: Seq<u8>) -> BlobReading {
    if data.len() < 12 {
        BlobReading::TooShort
    } else if data.len() < 8 + content_len(data) {
        BlobReading::LengthMismatch
    } else if data.subrange(4, 8) != dv_magic() {
        BlobReading::BadMagic(data.subrange(4, 8))
    } else if content_len(data) < 4 {
        BlobReading::ContentTooShort
    } else {
        let cl = content_len(data);
        let stored = be32_value(data[4 + cl], data[5 + cl], data[6 + cl], data[7 + cl]);
        let computed = crc32_of(data.subrange(4, 4 + cl));
        if stored != computed {
            BlobReading::CrcMismatch(stored, computed)
        } else {
            match roaring_set_of(data.subrange(8, 4 + cl)) {
                Some(s) => BlobReading::Positions(s),
                None => BlobReading::BadBitmap,
            }
        }
    }
}

/// How a byte slice prints with `{:?}`: `[` the values in decimal, separated by `, `,
/// then `]`.
pub open spec fn bytes_debug(b: Seq<u8>) -> Seq<char>
    decreases b.len(),
{
    if b.len() == 0 {
        "[]"@
    } else {
        "["@ + bytes_list(b) + "]"@
    }
}

/// The decimal values of `b` separated by `, `.
pub open spec fn bytes_list(b: Seq<u8>) -> Seq<char>
    decreases b.len(),
{
    if b.len() <= 1 {
        if b.len() == 0 {
            Seq::empty()
        } else {
            decimal_digits(b[0] as nat)
        }
    } else {
        bytes_list(b.drop_last()) + ", "@ + decimal_digits(b.last() as nat)
    }
}

/// The message of the error a failed reading gives.
pub open spec fn reading_message(r: BlobReading) -> Seq<char> {
    match r {
        BlobReading::TooShort => "Data too short for deletion vector"@,
        BlobReading::LengthMismatch => "Data length mismatch"@,
        BlobReading::BadMagic(m) => "Invalid magic bytes: "@ + bytes_debug(m),
        BlobReading::ContentTooShort => "Content length too short for deletion vector"@,
        BlobReading::CrcMismatch(s, c) => "CRC mismatch: stored="@ + decimal_digits(s as nat) + ", computed="@
            + decimal_digits(c as nat),
        _ => "Failed to deserialize bitmap: "@,
    }
}

/// Every set of `u64` positions is finite: it lies within the `2^64` values of the
/// type.
pub proof fn lemma_positions_finite(s: Set<u64>)
    ensures
        s.finite(),
{
    broadcast use vstd::set::group_set_axioms;
    let top: int = 0x1_0000_0000_0000_0000;
    vstd::set_lib::lemma_int_range(0, top);
    let ints = s.map(|x: u64| x as int);
    assert forall|y: int| #[trigger] ints.contains(y) implies vstd::set_lib::set_int_range(0, top).contains(y) by {
        let x = choose|x: u64| s.contains(x) && x as int == y;
    }
    vstd::set_lib::lemma_set_subset_finite(vstd::set_lib::set_int_range(0, top), ints);
    ints.lemma_map_finite(|i: int| i as u64);
    assert forall|x: u64| #[trigger] s.contains(x) <==> ints.map(|i: int| i as u64).contains(x) by {
        if s.contains(x) {
            assert(ints.contains(x as int));
            assert((x as int) as u64 == x);
        }
        if ints.map(|i: int| i as u64).contains(x) {
            let i = choose|i: int| ints.contains(i) && i as u64 == x;
            let w = choose|w: u64| s.contains(w) && w as int == i;
            assert(w == x);
        }
    }
    assert(ints.map(|i: int| i as u64) =~= s);
}

/// The deleted row positions of one data file.
#[derive(Debug)]
pub struct DeletionVector {
    /// The deleted positions
    pub deleted_positions: RoaringTreemap,
    /// The data file the positions are in
    pub referenced_data_file: String,
    /// The number of deleted positions
    pub cardinality: u64,
}

impl DeletionVector {
    /// The deleted positions.
    pub open spec fn positions(&self) -> Set<u64> {
        treemap_set(self.deleted_positions)
    }

    /// The count matches the set.
    pub open spec fn wf(&self) -> bool {
        self.positions().finite() && self.cardinality == self.positions().len()
    }

    /// No deleted positions.
    pub fn new(referenced_data_file: &str) -> (r: DeletionVector)
        ensures
            r.wf(),
            r.positions() == Set::<u64>::empty(),
            r.referenced_data_file@ == referenced_data_file@,
    {
        DeletionVector {
            deleted_positions: treemap_new(),
            referenced_data_file: owned(referenced_data_file),
            cardinality: 0,
        }
    }

    /// The positions of a treemap.
    pub fn from_treemap(treemap: RoaringTreemap, referenced_data_file: &str) -> (r: DeletionVector)
        ensures
            r.wf(),
            r.positions() == treemap_set(treemap),
            r.referenced_data_file@ == referenced_data_file@,
    {
        proof {
            lemma_positions_finite(treemap_set(treemap));
        }
        let cardinality = treemap_len(&treemap);
        DeletionVector {
            deleted_positions: treemap,
            referenced_data_file: owned(referenced_data_file),
            cardinality,
        }
    }

    /// Whether a position is deleted.
    pub fn is_deleted(&self, position: u64) -> (r: bool)
        ensures
            r == self.positions().contains(position),
    {
        treemap_contains(&self.deleted_positions, position)
    }

    /// Marks a position deleted.
    pub fn add_deleted(&mut self, position: u64)
        requires
            old(self).wf(),
            old(self).cardinality < u64::MAX,
        ensures
            final(self).wf(),
            final(self).positions() == old(self).positions().insert(position),
            final(self).referenced_data_file@ == old(self).referenced_data_file@,
    {
        if treemap_insert(&mut self.deleted_positions, position) {
            self.cardinality = self.cardinality + 1;
        }
    }

    /// The number of deleted positions.
    pub fn len(&self) -> (r: u64)
        requires
            self.wf(),
        ensures
            r == self.positions().len(),
    {
        self.cardinality
    }

    /// Whether no position is deleted.
    pub fn is_empty(&self) -> (r: bool)
        requires
            self.wf(),
        ensures
            r == (self.positions().len() == 0),
    {
        self.cardinality == 0
    }

    /// A copy.
    pub fn duplicate(&self) -> (r: DeletionVector)
        requires
            self.wf(),
        ensures
            r.wf(),
            r.positions() == self.positions(),
            r.referenced_data_file@ == self.referenced_data_file@,
    {
        DeletionVector {
            deleted_positions: treemap_clone(&self.deleted_positions),
            referenced_data_file: copy_string(&self.referenced_data_file),
            cardinality: self.cardinality,
        }
    }
}

/// Appends the big-endian bytes of `x`.
fn push_be32(out: &mut Vec<u8>, x: u32)
    ensures
        final(out)@ == old(out)@ + be32(x),
{
    out.push((x >> 24u32) as u8);
    out.push((x >> 16u32) as u8);
    out.push((x >> 8u32) as u8);
    out.push(x as u8);
    assert(out@ =~= old(out)@ + be32(x));
}

/// Appends the bytes of `b`.
fn push_bytes(out: &mut Vec<u8>, b: &[u8])
    ensures
        final(out)@ == old(out)@ + b@,
{
    let ghost base = out@;
    let mut i: usize = 0;
    while i < b.len()
        invariant
            i <= b.len(),
            out@ == base + b@.take(i as int),
        decreases b.len() - i,
    {
        out.push(b[i]);
        i = i + 1;
        assert(b@.take(i as int) =~= b@.take(i - 1).push(b@[i - 1]));
    }
    assert(b@.take(b.len() as int) =~= b@);
}

/// The 32-bit value of four big-endian bytes.
fn read_be32(b0: u8, b1: u8, b2: u8, b3: u8) -> (r: u32)
    ensures
        r == be32_value(b0, b1, b2, b3),
{
    ((b0 as u32) << 24u32) | ((b1 as u32) << 16u32) | ((b2 as u32) << 8u32) | (b3 as u32)
}

/// `prefix` followed by `rest`.
fn message(prefix: &str, rest: &str) -> (r: String)
    ensures
        r@ == prefix@ + rest@,
        has_prefix_chars(r@, prefix@),
{
    let mut m = owned(prefix);
    push_str(&mut m, rest);
    assert(m@.take(prefix@.len() as int) =~= prefix@);
    m
}

/// Appends how a byte slice prints with `{:?}`.
fn push_bytes_debug(out: &mut String, b: &[u8])
    ensures
        final(out)@ == old(out)@ + bytes_debug(b@),
{
    let ghost base = out@;
    push_char(out, '[');
    proof {
        reveal_strlit("[");
        assert(b@.take(0) =~= Seq::<u8>::empty());
        assert(out@ =~= base + "["@ + bytes_list(b@.take(0)));
    }
    let mut i: usize = 0;
    while i < b.len()
        invariant
            i <= b.len(),
            out@ == base + "["@ + bytes_list(b@.take(i as int)),
        decreases b.len() - i,
    {
        proof {
            reveal_strlit("[");
            reveal_strlit(", ");
        }
        let ghost before = out@;
        if i > 0 {
            push_str(out, ", ");
        }
        push_unsigned(out, b[i] as u64);
        proof {
            let t = b@.take(i + 1);
            assert(t.drop_last() =~= b@.take(i as int));
            assert(t.last() == b@[i as int]);
            if i == 0 {
                assert(b@.take(0) =~= Seq::<u8>::empty());
                assert(bytes_list(t) == decimal_digits(b@[0] as nat));
            }
        }
        i = i + 1;
        assert(out@ =~= base + "["@ + bytes_list(b@.take(i as int)));
    }
    push_char(out, ']');
    proof {
        reveal_strlit("[");
        reveal_strlit("]");
        reveal_strlit("[]");
        assert(b@.take(b.len() as int) =~= b@);
        if b.len() == 0 {
            assert(b@.take(0) =~= Seq::<u8>::empty());
        }
    }
    assert(out@ =~= base + bytes_debug(b@));
}

impl DeletionVector {
    /// The blob of this vector, which is always made: the frame of bitmap bytes that
    /// read back to its positions.
    pub fn serialize(&self) -> (r: Result<Vec<u8>, IcebergError>)
        ensures
            r matches Ok(bytes) && exists|bitmap: Seq<u8>|
                roaring_set_of(bitmap) == Some(self.positions()) && #[trigger] dv_frame(bitmap) == bytes@,
    {
        let bitmap = match treemap_serialize(&self.deleted_positions) {
            Ok(b) => b,
            Err(msg) => {
                return Err(IcebergError::InvalidDeletionVector(message("Failed to serialize: ", msg.as_str())));
            },
        };
        let content_len = 4 + bitmap.len();
        let mut result: Vec<u8> = Vec::new();
        push_be32(&mut result, #[verifier::truncate] (content_len as u32));
        let magic: [u8; 4] = [0xD1, 0xD3, 0x39, 0x64];
        push_bytes(&mut result, magic.as_slice());
        push_bytes(&mut result, bitmap.as_slice());
        assert(magic@ =~= dv_magic());
        assert(result@.subrange(4, result@.len() as int) =~= dv_magic() + bitmap@);
        let crc = crc32(&result.as_slice()[4..result.len()]);
        push_be32(&mut result, crc);
        assert(result@ =~= dv_frame(bitmap@));
        Ok(result)
    }

    /// The vector a blob holds: an error, with a message naming the check that failed,
    /// when the blob is too short, shorter than its length field says, has the wrong
    /// magic, a length field too small to hold the magic, the wrong checksum, or a
    /// bitmap that does not deserialize.
    pub fn deserialize(data: &[u8], referenced_data_file: &str) -> (r: Result<DeletionVector, IcebergError>)
        ensures
            match r {
                Ok(dv) => read_blob(data@) == BlobReading::Positions(dv.positions()) && dv.wf()
                    && dv.referenced_data_file@ == referenced_data_file@,
                Err(e) => !(read_blob(data@) is Positions) && (e matches IcebergError::InvalidDeletionVector(m)
                    && has_prefix_chars(m@, reading_message(read_blob(data@)))),
            },
    {
        proof {
            reveal_strlit("Data too short for deletion vector");
            reveal_strlit("Data length mismatch");
        }
        if data.len() < 12 {
            let m = owned("Data too short for deletion vector");
            assert(m@.take(m@.len() as int) =~= m@);
            return Err(IcebergError::InvalidDeletionVector(m));
        }
        let cl = read_be32(data[0], data[1], data[2], data[3]);
        if (data.len() as u64) < 8 + cl as u64 {
            let m = owned("Data length mismatch");
            assert(m@.take(m@.len() as int) =~= m@);
            return Err(IcebergError::InvalidDeletionVector(m));
        }
        let cl = cl as usize;
        let magic = &data[4..8];
        let expected: [u8; 4] = [0xD1, 0xD3, 0x39, 0x64];
        assert(expected@ =~= dv_magic());
        if !crate::expr::datum::bytes_eq(magic, expected.as_slice()) {
            let mut m = owned("Invalid magic bytes: ");
            push_bytes_debug(&mut m, magic);
            proof {
                reveal_strlit("Invalid magic bytes: ");
                assert(m@.take(m@.len() as int) =~= m@);
            }
            return Err(IcebergError::InvalidDeletionVector(m));
        }
        if cl < 4 {
            let m = owned("Content length too short for deletion vector");
            proof {
                reveal_strlit("Content length too short for deletion vector");
                assert(m@.take(m@.len() as int) =~= m@);
            }
            return Err(IcebergError::InvalidDeletionVector(m));
        }
        let bitmap = &data[8..4 + cl];
        let stored = read_be32(data[4 + cl], data[4 + cl + 1], data[4 + cl + 2], data[4 + cl + 3]);
        let computed = crc32(&data[4..4 + cl]);
        if stored != computed {
            let mut m = owned("CRC mismatch: stored=");
            push_unsigned(&mut m, stored as u64);
            push_str(&mut m, ", computed=");
            push_unsigned(&mut m, computed as u64);
            proof {
                reveal_strlit("CRC mismatch: stored=");
                reveal_strlit(", computed=");
                assert(m@.take(m@.len() as int) =~= m@);
            }
            return Err(IcebergError::InvalidDeletionVector(m));
        }
        match treemap_deserialize(bitmap) {
            Ok(t) => Ok(DeletionVector::from_treemap(t, referenced_data_file)),
            Err(msg) => Err(IcebergError::InvalidDeletionVector(message("Failed to deserialize bitmap: ", msg.as_str()))),
        }
    }
}

/// Whether `s` begins with `p`.
pub open spec fn has_prefix_chars(s: Seq<char>, p: Seq<char>) -> bool {
    p.len() <= s.len() && s.take(p.len() as int) == p
}

/// A blob framed from bitmap bytes that fit the 32-bit length field reads back to the
/// positions those bytes hold.
pub proof fn lemma_frame_reads_back(bitmap: Seq<u8>, positions: Set<u64>)
    requires
        roaring_set_of(bitmap) == Some(positions),
        bitmap.len() + 4 <= u32::MAX,
    ensures
        read_blob(dv_frame(bitmap)) == BlobReading::Positions(positions),
{
    let f = dv_frame(bitmap);
    let cl = (4 + bitmap.len()) as u32;
    let crc = crc32_of(dv_magic() + bitmap);
    assert(f.len() == 12 + bitmap.len());
    assert(be32_value(f[0], f[1], f[2], f[3]) == cl) by {
        assert(f[0] == (cl >> 24u32) as u8 && f[1] == (cl >> 16u32) as u8 && f[2] == (cl >> 8u32) as u8 && f[3] == cl as u8);
        assert(be32_value((cl >> 24u32) as u8, (cl >> 16u32) as u8, (cl >> 8u32) as u8, cl as u8) == cl) by (bit_vector);
    }
    assert(content_len(f) == 4 + bitmap.len());
    let c = content_len(f);
    assert(f.subrange(4, 8) =~= dv_magic());
    assert(f.subrange(4, 4 + c) =~= dv_magic() + bitmap);
    assert(f.subrange(8, 4 + c) =~= bitmap);
    assert(be32_value(f[4 + c], f[5 + c], f[6 + c], f[7 + c]) == crc) by {
        assert(f[4 + c] == (crc >> 24u32) as u8 && f[5 + c] == (crc >> 16u32) as u8 && f[6 + c] == (crc >> 8u32) as u8 && f[7 + c] == crc as u8);
        assert(be32_value((crc >> 24u32) as u8, (crc >> 16u32) as u8, (crc >> 8u32) as u8, crc as u8) == crc) by (bit_vector);
    }
}

/// A blob of a vector serialized by `serialize`, when it fits the 32-bit length field,
/// reads back to the vector's positions.
pub proof fn lemma_serialize_roundtrip(bytes: Seq<u8>, positions: Set<u64>)
    requires
        exists|bitmap: Seq<u8>| roaring_set_of(bitmap) == Some(positions) && #[trigger] dv_frame(bitmap) == bytes,
        bytes.len() <= u32::MAX + 8,
    ensures
        read_blob(bytes) == BlobReading::Positions(positions),
{
    let bitmap = choose|bitmap: Seq<u8>| roaring_set_of(bitmap) == Some(positions) && #[trigger] dv_frame(bitmap) == bytes;
    assert(dv_frame(bitmap).len() == 12 + bitmap.len());
    lemma_frame_reads_back(bitmap, positions);
}

// ---------------------------------------------------------------------------
// Puffin files
// ---------------------------------------------------------------------------

/// The magic at both ends of a Puffin file.
pub open spec fn puffin_magic() -> Seq<u8> {
    seq![0x50u8, 0x46u8, 0x41u8, 0x31u8]
}

/// The footer payload size: the little-endian `i32` in the four bytes after the
/// payload and flags.
pub open spec fn footer_size(d: Seq<u8>) -> int {
    (be32_value(d[d.len() - 5], d[d.len() - 6], d[d.len() - 7], d[d.len() - 8]) as i32) as int
}

/// What reading the footer of a Puffin file finds.
pub enum FooterReading {
    /// The file ends before a read is complete
    ShortRead,
    /// A seek would go before the start of the file
    BadSeek,
    /// The file does not start with the magic
    NotPuffin,
    /// The file does not end with the magic
    BadFooterMagic,
    /// The compressed footer does not decompress
    Undecompressible,
    /// The footer JSON
    Payload(Seq<u8>),
}

/// Whether reading the footer gets as far as the payload size.
pub open spec fn reaches_footer_size(d: Seq<u8>) -> bool {
    d.len() >= 12 && d.subrange(0, 4) == puffin_magic() && d.subrange(d.len() - 4, d.len() as int) == puffin_magic()
}

/// What reading the footer of the Puffin file `d` finds, in the order of the reads.
pub open spec fn read_footer(d: Seq<u8>) -> FooterReading {
    if d.len() < 4 {
        FooterReading::ShortRead
    } else if d.subrange(0, 4) != puffin_magic() {
        FooterReading::NotPuffin
    } else if d.len() < 8 {
        FooterReading::BadSeek
    } else if d.subrange(d.len() - 4, d.len() as int) != puffin_magic() {
        FooterReading::BadFooterMagic
    } else if d.len() < 12 {
        FooterReading::BadSeek
    } else {
        let size = footer_size(d);
        let start = d.len() - 12 - size;
        if start < 0 {
            FooterReading::BadSeek
        } else {
            let payload = d.subrange(start, d.len() - 12);
            if d[d.len() - 12] & 1u8 != 0 {
                match lz4_decompressed(payload) {
                    Some(j) => FooterReading::Payload(j),
                    None => FooterReading::Undecompressible,
                }
            } else {
                FooterReading::Payload(payload)
            }
        }
    }
}

/// The message of an I/O error for a read past the end.
pub open spec fn short_read_message() -> Seq<char> {
    "failed to fill whole buffer"@
}

/// The message of an I/O error for a seek before the start.
pub open spec fn bad_seek_message() -> Seq<char> {
    "invalid seek to a negative or overflowing position"@
}

/// The error a failed footer reading gives.
pub open spec fn footer_error(r: FooterReading, e: IcebergError) -> bool {
    match r {
        FooterReading::ShortRead => e matches IcebergError::Io(m) && m@ == short_read_message(),
        FooterReading::BadSeek => e matches IcebergError::Io(m) && m@ == bad_seek_message(),
        FooterReading::NotPuffin => e matches IcebergError::InvalidFormat(m) && m@ == "Not a valid Puffin file"@,
        FooterReading::BadFooterMagic => e matches IcebergError::InvalidFormat(m) && m@ == "Invalid Puffin footer magic"@,
        FooterReading::Undecompressible => e matches IcebergError::InvalidFormat(m) && has_prefix_chars(
            m@,
            "Failed to decompress footer: "@,
        ),
        FooterReading::Payload(_) => false,
    }
}

/// The metadata of a blob in a Puffin file.
#[derive(Debug)]
pub struct BlobMetadata {
    /// Blob type
    pub blob_type: String,
    /// Field ids
    pub fields: Vec<i32>,
    /// Snapshot id
    pub snapshot_id: i64,
    /// Sequence number
    pub sequence_number: i64,
    /// Offset of the blob in the file
    pub offset: i64,
    /// Length of the blob
    pub length: i64,
    /// Compression codec
    pub compression_codec: Option<String>,
    /// Properties, each key once
    pub properties: Vec<(String, String)>,
}

/// The metadata in the footer of a Puffin file.
#[derive(Debug)]
pub struct PuffinFileMetadata {
    /// The blobs
    pub blobs: Vec<BlobMetadata>,
    /// Properties, each key once
    pub properties: Vec<(String, String)>,
}

/// What the reading of the blobs reads of one blob.
pub struct BlobView {
    pub blob_type: Seq<char>,
    pub offset: i64,
    pub length: i64,
    pub properties: Seq<(Seq<char>, Seq<char>)>,
}

impl View for BlobMetadata {
    type V = BlobView;

    open spec fn view(&self) -> BlobView {
        BlobView {
            blob_type: self.blob_type@,
            offset: self.offset,
            length: self.length,
            properties: Seq::new(self.properties.len() as nat, |i: int| (self.properties@[i].0@, self.properties@[i].1@)),
        }
    }
}

/// The views of a list of blobs.
pub open spec fn blob_views(bs: Seq<BlobMetadata>) -> Seq<BlobView> {
    Seq::new(bs.len(), |i: int| bs[i]@)
}

/// The value of the first property named `key`.
pub open spec fn property(props: Seq<(Seq<char>, Seq<char>)>, key: Seq<char>) -> Option<Seq<char>>
    decreases props.len(),
{
    if props.len() == 0 {
        None
    } else if props[0].0 == key {
        Some(props[0].1)
    } else {
        property(props.drop_first(), key)
    }
}

/// Whether reading `length` bytes at `offset` stays within `len` bytes.
pub open spec fn blob_in_range(len: int, offset: i64, length: i64) -> bool {
    length == 0 || ((offset as u64) as int + length <= len)
}

/// The bytes of a blob.
pub open spec fn blob_bytes(d: Seq<u8>, b: BlobView) -> Seq<u8> {
    if b.length == 0 {
        Seq::empty()
    } else {
        d.subrange((b.offset as u64) as int, (b.offset as u64) as int + b.length)
    }
}

/// Why reading the blobs failed.
pub enum BlobsError {
    MissingReference,
    ShortRead,
    Blob(BlobReading),
}

/// Sets the positions stored under `key`, in place of earlier ones.
pub open spec fn put_positions(acc: Seq<(Seq<char>, Set<u64>)>, key: Seq<char>, s: Set<u64>) -> Seq<(Seq<char>, Set<u64>)>
    decreases acc.len(),
{
    if acc.len() == 0 {
        seq![(key, s)]
    } else if acc[0].0 == key {
        acc.update(0, (key, s))
    } else {
        seq![acc[0]] + put_positions(acc.drop_first(), key, s)
    }
}

/// The name of deletion vector blobs.
pub open spec fn dv_blob_type() -> Seq<char> {
    "deletion-vector-v1"@
}

/// The property naming the data file of a deletion vector.
pub open spec fn reference_key() -> Seq<char> {
    "referenced-data-file"@
}

/// The deletion vectors of the blobs of a Puffin file, by data file, read in order; the
/// first failure ends the reading.
pub open spec fn read_blobs(d: Seq<u8>, blobs: Seq<BlobView>) -> Result<Seq<(Seq<char>, Set<u64>)>, BlobsError>
    decreases blobs.len(),
{
    if blobs.len() == 0 {
        Ok(Seq::empty())
    } else {
        match read_blobs(d, blobs.drop_last()) {
            Err(e) => Err(e),
            Ok(acc) => {
                let b = blobs.last();
                if b.blob_type != dv_blob_type() {
                    Ok(acc)
                } else {
                    match property(b.properties, reference_key()) {
                        None => Err(BlobsError::MissingReference),
                        Some(r) => if !blob_in_range(d.len() as int, b.offset, b.length) {
                            Err(BlobsError::ShortRead)
                        } else {
                            match read_blob(blob_bytes(d, b)) {
                                BlobReading::Positions(s) => Ok(put_positions(acc, r, s)),
                                other => Err(BlobsError::Blob(other)),
                            }
                        },
                    }
                }
            },
        }
    }
}

/// The blobs can be read without a panic: their lengths are not negative.
pub open spec fn blobs_readable(d: Seq<u8>, blobs: Seq<BlobView>) -> bool {
    forall|i: int| 0 <= i < blobs.len() ==> (#[trigger] blobs[i]).length >= 0
}

/// Reads deletion vectors from Puffin files.
pub struct DeletionVectorReader;

/// The error a failed blob reading gives.
pub open spec fn blobs_error(err: BlobsError, e: IcebergError) -> bool {
    match err {
        BlobsError::MissingReference => e matches IcebergError::InvalidDeletionVector(m) && m@
            == "Missing referenced-data-file property"@,
        BlobsError::ShortRead => e matches IcebergError::Io(m) && m@ == short_read_message(),
        BlobsError::Blob(b) => e matches IcebergError::InvalidDeletionVector(m) && has_prefix_chars(m@, reading_message(b)),
    }
}

/// The data files and positions of a list of deletion vectors.
pub open spec fn vectors_view(v: Seq<(String, DeletionVector)>) -> Seq<(Seq<char>, Set<u64>)> {
    Seq::new(v.len(), |i: int| (v[i].0@, v[i].1.positions()))
}

/// The index of the first pair under `key`, looking from `i` on.
pub open spec fn first_under(acc: Seq<(Seq<char>, Set<u64>)>, key: Seq<char>, i: int) -> Option<int>
    decreases acc.len() - i,
{
    if i >= acc.len() || i < 0 {
        None
    } else if acc[i].0 == key {
        Some(i)
    } else {
        first_under(acc, key, i + 1)
    }
}

proof fn lemma_put_positions(acc: Seq<(Seq<char>, Set<u64>)>, key: Seq<char>, s: Set<u64>)
    ensures
        put_positions(acc, key, s) == match first_under(acc, key, 0) {
            Some(i) => acc.update(i, (key, s)),
            None => acc.push((key, s)),
        },
    decreases acc.len(),
{
    if acc.len() > 0 && acc[0].0 != key {
        let d = acc.drop_first();
        lemma_put_positions(d, key, s);
        lemma_first_under_shift(acc, key, 1);
        lemma_first_under_found(d, key, 0);
        match first_under(d, key, 0) {
            Some(i) => {
                assert(seq![acc[0]] + d.update(i, (key, s)) =~= acc.update(i + 1, (key, s)));
            },
            None => {
                assert(seq![acc[0]] + d.push((key, s)) =~= acc.push((key, s)));
            },
        }
    } else if acc.len() == 0 {
        assert(seq![(key, s)] =~= acc.push((key, s)));
    }
}

proof fn lemma_first_under_found(acc: Seq<(Seq<char>, Set<u64>)>, key: Seq<char>, i: int)
    requires
        0 <= i,
    ensures
        first_under(acc, key, i) matches Some(j) ==> i <= j < acc.len() && acc[j].0 == key,
    decreases acc.len() - i,
{
    if i < acc.len() && acc[i].0 != key {
        lemma_first_under_found(acc, key, i + 1);
    }
}

proof fn lemma_first_under_shift(acc: Seq<(Seq<char>, Set<u64>)>, key: Seq<char>, i: int)
    requires
        1 <= i <= acc.len(),
        acc[0].0 != key,
    ensures
        first_under(acc, key, i) == match first_under(acc.drop_first(), key, i - 1) {
            Some(j) => Some(j + 1),
            None => None,
        },
        first_under(acc, key, 0) == first_under(acc, key, 1),
    decreases acc.len() - i,
{
    if i < acc.len() && acc[i].0 != key {
        lemma_first_under_shift(acc, key, i + 1);
    }
}

/// Whether a path names the given data file: it is the path or ends with it.
pub open spec fn names_file(key: Seq<char>, data_file_path: Seq<char>) -> bool {
    key == data_file_path || crate::text::has_suffix(key, data_file_path)
}

impl DeletionVectorReader {
    /// The footer JSON of a Puffin file: checks both magics, finds the payload before
    /// the flags and size fields, and decompresses it when the flags say so.
    pub fn footer_json(data: &[u8]) -> (r: Result<Vec<u8>, IcebergError>)
        requires
            reaches_footer_size(data@) ==> footer_size(data@) >= 0,
        ensures
            match r {
                Ok(j) => read_footer(data@) == FooterReading::Payload(j@),
                Err(e) => !(read_footer(data@) is Payload) && footer_error(read_footer(data@), e),
            },
    {
        proof {
            reveal_strlit("failed to fill whole buffer");
            reveal_strlit("invalid seek to a negative or overflowing position");
        }
        let puffin: [u8; 4] = [0x50, 0x46, 0x41, 0x31];
        assert(puffin@ =~= puffin_magic());
        let n = data.len();
        if n < 4 {
            return Err(IcebergError::Io(owned("failed to fill whole buffer")));
        }
        if !crate::expr::datum::bytes_eq(&data[0..4], puffin.as_slice()) {
            return Err(IcebergError::InvalidFormat(owned("Not a valid Puffin file")));
        }
        if n < 8 {
            return Err(IcebergError::Io(owned("invalid seek to a negative or overflowing position")));
        }
        if !crate::expr::datum::bytes_eq(&data[n - 4..n], puffin.as_slice()) {
            return Err(IcebergError::InvalidFormat(owned("Invalid Puffin footer magic")));
        }
        let size = read_be32(data[n - 5], data[n - 6], data[n - 7], data[n - 8]) as i32;
        if n < 12 {
            return Err(IcebergError::Io(owned("invalid seek to a negative or overflowing position")));
        }
        let compressed = data[n - 12] & 1u8 != 0;
        let size = size as usize;
        if n - 12 < size {
            return Err(IcebergError::Io(owned("invalid seek to a negative or overflowing position")));
        }
        let payload = &data[n - 12 - size..n - 12];
        if compressed {
            match lz4_decompress(payload) {
                Ok(v) => Ok(v),
                Err(msg) => Err(IcebergError::InvalidFormat(message("Failed to decompress footer: ", msg.as_str()))),
            }
        } else {
            let mut v: Vec<u8> = Vec::new();
            push_bytes(&mut v, payload);
            assert(v@ =~= payload@);
            Ok(v)
        }
    }

    /// The deletion vectors of the `deletion-vector-v1` blobs of a Puffin file, one per
    /// data file (a later blob for the same file taking the place of an earlier one).
    pub fn vectors_from_blobs(data: &[u8], metadata: &PuffinFileMetadata) -> (r: Result<Vec<(String, DeletionVector)>, IcebergError>)
        requires
            blobs_readable(data@, blob_views(metadata.blobs@)),
        ensures
            match r {
                Ok(v) => read_blobs(data@, blob_views(metadata.blobs@)) == Ok::<Seq<(Seq<char>, Set<u64>)>, BlobsError>(vectors_view(v@))
                    && forall|i: int| 0 <= i < v.len() ==> (#[trigger] v@[i]).1.wf(),
                Err(e) => read_blobs(data@, blob_views(metadata.blobs@)) matches Err(err) && blobs_error(err, e),
            },
    {
        proof {
            reveal_strlit("failed to fill whole buffer");
            reveal_strlit("Missing referenced-data-file property");
            reveal_strlit("deletion-vector-v1");
            reveal_strlit("referenced-data-file");
        }
        let blobs = &metadata.blobs;
        let ghost bv = blob_views(blobs@);
        let mut result: Vec<(String, DeletionVector)> = Vec::new();
        let mut i: usize = 0;
        assert(bv.take(0) =~= Seq::<BlobView>::empty());
        assert(vectors_view(result@) =~= Seq::<(Seq<char>, Set<u64>)>::empty());
        assert(read_blobs(data@, bv.take(0)) == Ok::<Seq<(Seq<char>, Set<u64>)>, BlobsError>(Seq::empty()));
        while i < blobs.len()
            invariant
                i <= blobs.len(),
                bv == blob_views(blobs@),
                bv == blob_views(metadata.blobs@),
                blobs_readable(data@, bv),
                read_blobs(data@, bv.take(i as int)) == Ok::<Seq<(Seq<char>, Set<u64>)>, BlobsError>(vectors_view(result@)),
                forall|k: int| 0 <= k < result.len() ==> (#[trigger] result@[k]).1.wf(),
            decreases blobs.len() - i,
        {
            let blob = &blobs[i];
            proof {
                assert(bv.take(i + 1).drop_last() =~= bv.take(i as int));
                assert(bv.take(i + 1).last() == blob@);
                assert(blob@ == bv[i as int]);
            }
            if str_eq(blob.blob_type.as_str(), "deletion-vector-v1") {
                let reference = match find_property(&blob.properties, "referenced-data-file") {
                    Some(r) => r,
                    None => {
                        let e = IcebergError::InvalidDeletionVector(owned("Missing referenced-data-file property"));
                        proof {
                            assert(read_blobs(data@, bv.take(i + 1)) == Err::<Seq<(Seq<char>, Set<u64>)>, BlobsError>(BlobsError::MissingReference));
                            lemma_read_blobs_stops(data@, bv, i + 1);
                            assert(blobs_error(BlobsError::MissingReference, e));
                        }
                        return Err(e);
                    },
                };
                let off = blob.offset as u64;
                let length = blob.length as u64;
                let n = data.len() as u64;
                let in_range = length == 0 || (off <= n && length <= n - off);
                if !in_range {
                    let e = IcebergError::Io(owned("failed to fill whole buffer"));
                    proof {
                        assert(read_blobs(data@, bv.take(i + 1)) == Err::<Seq<(Seq<char>, Set<u64>)>, BlobsError>(BlobsError::ShortRead));
                        lemma_read_blobs_stops(data@, bv, i + 1);
                        assert(blobs_error(BlobsError::ShortRead, e));
                    }
                    return Err(e);
                }
                let bytes: &[u8] = if length == 0 {
                    &data[0..0]
                } else {
                    &data[off as usize..(off + length) as usize]
                };
                assert(bytes@ =~= blob_bytes(data@, blob@));
                match DeletionVector::deserialize(bytes, reference.as_str()) {
                    Ok(dv) => {
                        put_vector(&mut result, reference, dv);
                    },
                    Err(e) => {
                        proof {
                            assert(read_blobs(data@, bv.take(i + 1)) == Err::<Seq<(Seq<char>, Set<u64>)>, BlobsError>(BlobsError::Blob(read_blob(bytes@))));
                            lemma_read_blobs_stops(data@, bv, i + 1);
                            assert(blobs_error(BlobsError::Blob(read_blob(bytes@)), e));
                        }
                        return Err(e);
                    },
                }
            }
            i = i + 1;
        }
        assert(bv.take(blobs.len() as int) =~= bv);
        Ok(result)
    }

    /// The deletion vector of the first entry whose data file path is `data_file_path`
    /// or ends with it.
    pub fn find_for_data_file(vectors: Vec<(String, DeletionVector)>, data_file_path: &str) -> (r: Option<DeletionVector>)
        ensures
            match r {
                Some(dv) => exists|i: int|
                    0 <= i < vectors.len() && names_file(#[trigger] vectors@[i].0@, data_file_path@) && dv == vectors@[i].1
                        && forall|j: int| 0 <= j < i ==> !names_file(#[trigger] vectors@[j].0@, data_file_path@),
                None => forall|j: int| 0 <= j < vectors.len() ==> !names_file(#[trigger] vectors@[j].0@, data_file_path@),
            },
    {
        let ghost all = vectors@;
        for entry in it: vectors.into_iter()
            invariant
                it.seq() == all,
                forall|j: int| 0 <= j < it.index() ==> !names_file(#[trigger] all[j].0@, data_file_path@),
        {
            let ghost i = it.index();
            let (key, dv) = entry;
            assert(all[i as int].0 == key && all[i as int].1 == dv);
            if str_eq(key.as_str(), data_file_path) || crate::text::ends_with(key.as_str(), data_file_path) {
                return Some(dv);
            }
        }
        None
    }
}

proof fn lemma_read_blobs_stops(d: Seq<u8>, blobs: Seq<BlobView>, n: int)
    requires
        0 <= n <= blobs.len(),
        read_blobs(d, blobs.take(n)) is Err,
    ensures
        read_blobs(d, blobs) == read_blobs(d, blobs.take(n)),
    decreases blobs.len() - n,
{
    if n < blobs.len() {
        assert(blobs.take(n + 1).drop_last() =~= blobs.take(n));
        lemma_read_blobs_stops(d, blobs, n + 1);
    } else {
        assert(blobs.take(n) =~= blobs);
    }
}

/// The value of the first property named `key`.
fn find_property(props: &Vec<(String, String)>, key: &str) -> (r: Option<String>)
    ensures
        match r {
            Some(v) => property(Seq::new(props.len() as nat, |i: int| (props@[i].0@, props@[i].1@)), key@) == Some(v@),
            None => property(Seq::new(props.len() as nat, |i: int| (props@[i].0@, props@[i].1@)), key@) is None,
        },
{
    let ghost pv = Seq::new(props.len() as nat, |i: int| (props@[i].0@, props@[i].1@));
    let mut i: usize = 0;
    assert(pv.skip(0) =~= pv);
    while i < props.len()
        invariant
            i <= props.len(),
            pv == Seq::new(props.len() as nat, |i: int| (props@[i].0@, props@[i].1@)),
            property(pv, key@) == property(pv.skip(i as int), key@),
        decreases props.len() - i,
    {
        assert(pv.skip(i as int)[0] == pv[i as int]);
        if str_eq(props[i].0.as_str(), key) {
            return Some(copy_string(&props[i].1));
        }
        assert(pv.skip(i as int).drop_first() =~= pv.skip(i + 1));
        i = i + 1;
    }
    None
}

/// Stores `dv` under `key`, in place of an earlier vector under the same key.
fn put_vector(v: &mut Vec<(String, DeletionVector)>, key: String, dv: DeletionVector)
    requires
        dv.wf(),
        forall|k: int| 0 <= k < old(v).len() ==> (#[trigger] old(v)@[k]).1.wf(),
    ensures
        vectors_view(final(v)@) == put_positions(vectors_view(old(v)@), key@, dv.positions()),
        forall|k: int| 0 <= k < final(v).len() ==> (#[trigger] final(v)@[k]).1.wf(),
{
    let ghost before = vectors_view(v@);
    proof {
        lemma_put_positions(before, key@, dv.positions());
    }
    let mut i: usize = 0;
    while i < v.len()
        invariant
            i <= v.len(),
            before == vectors_view(v@),
            v@ == old(v)@,
            dv.wf(),
            forall|k: int| 0 <= k < v.len() ==> (#[trigger] v@[k]).1.wf(),
            put_positions(before, key@, dv.positions()) == match first_under(before, key@, 0) {
                Some(j) => before.update(j, (key@, dv.positions())),
                None => before.push((key@, dv.positions())),
            },
            first_under(before, key@, 0) == first_under(before, key@, i as int),
        decreases v.len() - i,
    {
        if str_eq(v[i].0.as_str(), key.as_str()) {
            assert(first_under(before, key@, i as int) == Some(i as int));
            let ghost old_v = v@;
            v.set(i, (key, dv));
            assert(vectors_view(v@) =~= before.update(i as int, (key@, dv.positions())));
            assert forall|k: int| 0 <= k < v.len() implies (#[trigger] v@[k]).1.wf() by {
                if k != i {
                    assert(v@[k] == old_v[k]);
                }
            }
            return;
        }
        i = i + 1;
    }
    let ghost old_v = v@;
    v.push((key, dv));
    assert(vectors_view(v@) =~= before.push((key@, dv.positions())));
    assert forall|k: int| 0 <= k < v.len() implies (#[trigger] v@[k]).1.wf() by {
        if k < old_v.len() {
            assert(v@[k] == old_v[k]);
        }
    }
}

/// Which of `n` rows from position `start` on are kept: those whose position (the
/// start plus the row's index, wrapping around) the vector does not delete.
pub fn dv_keep_mask(dv: &DeletionVector, start: u64, n: usize) -> (r: Vec<bool>)
    ensures
        r@.len() == n,
        forall|k: usize| k < n ==> #[trigger] r@[k as int] == !dv.positions().contains(start.wrapping_add(k as u64)),
{
    let mut mask: Vec<bool> = Vec::new();
    let mut i: usize = 0;
    while i < n
        invariant
            i <= n,
            mask@.len() == i,
            forall|k: usize| k < i ==> #[trigger] mask@[k as int] == !dv.positions().contains(
                start.wrapping_add(k as u64),
            ),
        decreases n - i,
    {
        mask.push(!dv.is_deleted(start.wrapping_add(i as u64)));
        i = i + 1;
    }
    mask
}

/// Whether the vector deletes any of the `num_rows` positions from `start` on.
pub fn batch_has_deletes(dv: &DeletionVector, start: u64, num_rows: u64) -> (r: bool)
    requires
        start + num_rows <= u64::MAX,
    ensures
        r == exists|p: u64| start <= p < start + num_rows && #[trigger] dv.positions().contains(p),
{
    let end = start + num_rows;
    let mut p = start;
    while p < end
        invariant
            start <= p,
            end == start + num_rows,
            forall|q: u64| start <= q < p ==> !#[trigger] dv.positions().contains(q),
        decreases end - p,
    {
        if dv.is_deleted(p) {
            return true;
        }
        p = p + 1;
    }
    false
}

/// The index of the first pair whose path is `key`.
pub open spec fn first_keyed(v: Seq<(Seq<char>, Set<u64>)>, key: Seq<char>) -> Option<int> {
    first_under(v, key, 0)
}

/// The index of the first pair whose path ends with `suffix`, looking from `i` on.
pub open spec fn first_ending(v: Seq<(Seq<char>, Set<u64>)>, suffix: Seq<char>, i: int) -> Option<int>
    decreases v.len() - i,
{
    if i >= v.len() || i < 0 {
        None
    } else if crate::text::has_suffix(v[i].0, suffix) {
        Some(i)
    } else {
        first_ending(v, suffix, i + 1)
    }
}

/// Which vector a data file gets: the one under its path as given, else the one under
/// its normalized path, else the first whose path ends with the file's name.
pub open spec fn chosen_vector(v: Seq<(Seq<char>, Set<u64>)>, original: Seq<char>, normalized: Seq<char>) -> Option<int> {
    match first_keyed(v, original) {
        Some(i) => Some(i),
        None => match first_keyed(v, normalized) {
            Some(i) => Some(i),
            None => match crate::paths::path_file_name(original) {
                Some(name) => first_ending(v, name, 0),
                None => None,
            },
        },
    }
}

fn position_of_key(vectors: &Vec<(String, DeletionVector)>, key: &str) -> (r: Option<usize>)
    ensures
        match r {
            Some(i) => first_keyed(vectors_view(vectors@), key@) == Some(i as int),
            None => first_keyed(vectors_view(vectors@), key@) is None,
        },
{
    let ghost v = vectors_view(vectors@);
    let mut i: usize = 0;
    while i < vectors.len()
        invariant
            i <= vectors.len(),
            v == vectors_view(vectors@),
            first_under(v, key@, 0) == first_under(v, key@, i as int),
        decreases vectors.len() - i,
    {
        if str_eq(vectors[i].0.as_str(), key) {
            return Some(i);
        }
        i = i + 1;
    }
    None
}

fn position_ending(vectors: &Vec<(String, DeletionVector)>, suffix: &str) -> (r: Option<usize>)
    ensures
        match r {
            Some(i) => first_ending(vectors_view(vectors@), suffix@, 0) == Some(i as int),
            None => first_ending(vectors_view(vectors@), suffix@, 0) is None,
        },
{
    let ghost v = vectors_view(vectors@);
    let mut i: usize = 0;
    while i < vectors.len()
        invariant
            i <= vectors.len(),
            v == vectors_view(vectors@),
            first_ending(v, suffix@, 0) == first_ending(v, suffix@, i as int),
        decreases vectors.len() - i,
    {
        if crate::text::ends_with(vectors[i].0.as_str(), suffix) {
            return Some(i);
        }
        i = i + 1;
    }
    None
}

impl DeletionVectorReader {
    /// The deletion vector of a data file read from a table: the one under the path as
    /// given, else under the normalized path, else the first whose path ends with the
    /// file's name.
    pub fn find_deletion_vector(vectors: &Vec<(String, DeletionVector)>, original_path: &str, normalized_path: &str) -> (r: Option<DeletionVector>)
        requires
            forall|k: int| 0 <= k < vectors.len() ==> (#[trigger] vectors@[k]).1.wf(),
        ensures
            match chosen_vector(vectors_view(vectors@), original_path@, normalized_path@) {
                Some(i) => r matches Some(dv) && dv.positions() == vectors_view(vectors@)[i].1
                    && dv.referenced_data_file@ == vectors@[i].1.referenced_data_file@,
                None => r is None,
            },
    {
        proof {
            lemma_first_under_found(vectors_view(vectors@), original_path@, 0);
            lemma_first_under_found(vectors_view(vectors@), normalized_path@, 0);
        }
        let found = match position_of_key(vectors, original_path) {
            Some(i) => Some(i),
            None => match position_of_key(vectors, normalized_path) {
                Some(i) => Some(i),
                None => match crate::paths::file_name_of(original_path) {
                    Some(name) => {
                        proof {
                            lemma_first_ending_found(vectors_view(vectors@), name@, 0);
                        }
                        position_ending(vectors, name.as_str())
                    },
                    None => None,
                },
            },
        };
        match found {
            Some(i) => {
                assert(vectors@[i as int].1.wf());
                Some(vectors[i].1.duplicate())
            },
            None => None,
        }
    }
}

proof fn lemma_first_ending_found(v: Seq<(Seq<char>, Set<u64>)>, suffix: Seq<char>, i: int)
    requires
        0 <= i,
    ensures
        first_ending(v, suffix, i) matches Some(j) ==> i <= j < v.len(),
    decreases v.len() - i,
{
    if i < v.len() && !crate::text::has_suffix(v[i].0, suffix) {
        lemma_first_ending_found(v, suffix, i + 1);
    }
}

/// Whether each of the `n` positions from `start` on is deleted.
pub open spec fn all_vector_deleted_from(d: Set<u64>, start: int, n: int) -> bool {
    forall|k: int| 0 <= k < n ==> #[trigger] d.contains((start + k) as u64)
}

/// Whether one of the `n` positions from `start` on is deleted.
pub open spec fn any_vector_deleted_from(d: Set<u64>, start: int, n: int) -> bool {
    exists|p: u64| start <= p < start + n && #[trigger] d.contains(p)
}

/// The filtering of the batches read from one data file by its deletion vector: the
/// position of the next row read, and what to do with each batch.
#[derive(Debug)]
pub struct DeletionVectorFilter {
    dv: DeletionVector,
    current_position: u64,
}

impl DeletionVectorFilter {
    /// The deleted positions.
    pub closed spec fn deleted(&self) -> Set<u64> {
        self.dv.positions()
    }

    /// The position of the next row read.
    pub closed spec fn position(&self) -> u64 {
        self.current_position
    }

    /// The filtering of a file's batches, from its first row on.
    pub fn new(dv: DeletionVector) -> (r: DeletionVectorFilter)
        ensures
            r.deleted() == dv.positions(),
            r.position() == 0,
    {
        DeletionVectorFilter { dv, current_position: 0 }
    }

    /// The position of the next row read.
    pub fn current_position(&self) -> (r: u64)
        ensures
            r == self.position(),
    {
        self.current_position
    }

    /// Decides what becomes of the next batch, of `num_rows` rows, and moves past it:
    /// it is kept when the vector deletes none of its positions, dropped when it
    /// deletes all, and otherwise filtered down to the rows it does not delete.
    pub fn next_batch(&mut self, num_rows: usize) -> (r: BatchAction)
        requires
            old(self).position() + num_rows <= u64::MAX,
        ensures
            final(self).deleted() == old(self).deleted(),
            final(self).position() == old(self).position() + num_rows,
            ({
                let d = old(self).deleted();
                let s = old(self).position() as int;
                let n = num_rows as int;
                &&& !any_vector_deleted_from(d, s, n) ==> r is Keep
                &&& any_vector_deleted_from(d, s, n) && all_vector_deleted_from(d, s, n) ==> r is Drop
                &&& any_vector_deleted_from(d, s, n) && !all_vector_deleted_from(d, s, n) ==> (r matches BatchAction::Filter(m)
                    && m@.len() == n && forall|k: int| 0 <= k < n ==> #[trigger] m@[k] == !d.contains((s + k) as u64))
            }),
    {
        let start = self.current_position;
        let n = num_rows as u64;
        let ghost d = self.dv.positions();
        let action = if !batch_has_deletes(&self.dv, start, n) {
            BatchAction::Keep
        } else {
            let mask = dv_keep_mask(&self.dv, start, num_rows);
            assert forall|k: int| 0 <= k < num_rows implies #[trigger] mask@[k] == !d.contains((start + k) as u64) by {
                assert(mask@[(k as usize) as int] == !d.contains(start.wrapping_add((k as usize) as u64)));
            }
            if any_kept(&mask) {
                BatchAction::Filter(mask)
            } else {
                assert forall|k: int| 0 <= k < num_rows implies #[trigger] d.contains((start + k) as u64) by {
                    assert(!mask@[k]);
                }
                BatchAction::Drop
            }
        };
        self.current_position = start + n;
        action
    }
}

} // verus!
