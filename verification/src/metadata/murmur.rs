//! The 32-bit x86 variant of MurmurHash3, used by the bucket transform.
use vstd::prelude::*;

verus! {

/// `a * b` modulo 2^32.
pub open spec fn wmul(a: u32, b: u32) -> u32 {
    ((a as nat * b as nat) % 0x1_0000_0000) as u32
}

/// `a + b` modulo 2^32.
pub open spec fn wadd(a: u32, b: u32) -> u32 {
    ((a as nat + b as nat) % 0x1_0000_0000) as u32
}

/// `x` rotated left by 15 bits.
pub open spec fn rotl15(x: u32) -> u32 {
    (x << 15u32) | (x >> 17u32)
}

/// `x` rotated left by 13 bits.
pub open spec fn rotl13(x: u32) -> u32 {
    (x << 13u32) | (x >> 19u32)
}

/// The scrambling of one 32-bit block.
pub open spec fn scramble(k: u32) -> u32 {
    wmul(rotl15(wmul(k, 0xcc9e2d51)), 0x1b873593)
}

/// The little-endian 32-bit block at byte offset `4 * i`.
pub open spec fn block(data: Seq<u8>, i: int) -> u32 {
    (data[4 * i] as u32) | ((data[4 * i + 1] as u32) << 8u32) | ((data[4 * i + 2] as u32) << 16u32) | (
    (data[4 * i + 3] as u32) << 24u32)
}

/// The hash state after the first `n` blocks.
pub open spec fn after_blocks(data: Seq<u8>, n: nat, seed: u32) -> u32
    decreases n,
{
    if n == 0 {
        seed
    } else {
        let h = after_blocks(data, (n - 1) as nat, seed) ^ scramble(block(data, n - 1));
        wadd(wmul(rotl13(h), 5), 0xe6546b64)
    }
}

/// The block formed by the one to three bytes after the last full block, starting at
/// byte `base`.
pub open spec fn tail_block(data: Seq<u8>, base: int) -> u32 {
    let rem = data.len() - base;
    if rem == 3 {
        ((0u32 ^ ((data[base + 2] as u32) << 16u32)) ^ ((data[base + 1] as u32) << 8u32)) ^ (
        data[base] as u32)
    } else if rem == 2 {
        (0u32 ^ ((data[base + 1] as u32) << 8u32)) ^ (data[base] as u32)
    } else {
        0u32 ^ (data[base] as u32)
    }
}

/// The final avalanche of the hash state.
pub open spec fn finalize(h: u32, len: u32) -> u32 {
    let h = h ^ len;
    let h = h ^ (h >> 16u32);
    let h = wmul(h, 0x85ebca6b);
    let h = h ^ (h >> 13u32);
    let h = wmul(h, 0xc2b2ae35);
    h ^ (h >> 16u32)
}

/// MurmurHash3 (x86, 32 bits) of `data` with the given seed.
pub open spec fn murmur3(data: Seq<u8>, seed: u32) -> u32 {
    let nb = data.len() / 4;
    let h = after_blocks(data, nb, seed);
    let h = if data.len() % 4 == 0 {
        h
    } else {
        h ^ scramble(tail_block(data, 4 * nb as int))
    };
    finalize(h, data.len() as u32)
}

fn scramble_exec(k: u32) -> (r: u32)
    ensures
        r == scramble(k),
{
    let k = k.wrapping_mul(0xcc9e2d51);
    let k = (k << 15u32) | (k >> 17u32);
    k.wrapping_mul(0x1b873593)
}

/// MurmurHash3 (x86, 32 bits) of `data` with the given seed.
pub fn murmur3_x86_32(data: &[u8], seed: u32) -> (r: u32)
    ensures
        r == murmur3(data@, seed),
{
    let len = data.len();
    let n_blocks = len / 4;
    let mut hash = seed;
    let mut i: usize = 0;
    while i < n_blocks
        invariant
            i <= n_blocks == data.len() / 4,
            hash == after_blocks(data@, i as nat, seed),
        decreases n_blocks - i,
    {
        let offset = i * 4;
        let k = (data[offset] as u32) | ((data[offset + 1] as u32) << 8u32) | ((data[offset + 2]
            as u32) << 16u32) | ((data[offset + 3] as u32) << 24u32);
        assert(k == block(data@, i as int));
        hash = hash ^ scramble_exec(k);
        hash = (hash << 13u32) | (hash >> 19u32);
        hash = hash.wrapping_mul(5).wrapping_add(0xe6546b64);
        i = i + 1;
    }
    let base = n_blocks * 4;
    let rem = len - base;
    if rem == 3 {
        let mut k1: u32 = 0;
        k1 = k1 ^ ((data[base + 2] as u32) << 16u32);
        k1 = k1 ^ ((data[base + 1] as u32) << 8u32);
        k1 = k1 ^ (data[base] as u32);
        hash = hash ^ scramble_exec(k1);
    } else if rem == 2 {
        let mut k1: u32 = 0;
        k1 = k1 ^ ((data[base + 1] as u32) << 8u32);
        k1 = k1 ^ (data[base] as u32);
        hash = hash ^ scramble_exec(k1);
    } else if rem == 1 {
        let mut k1: u32 = 0;
        k1 = k1 ^ (data[base] as u32);
        hash = hash ^ scramble_exec(k1);
    }
    hash = hash ^ (len as u32);
    hash = hash ^ (hash >> 16u32);
    hash = hash.wrapping_mul(0x85ebca6b);
    hash = hash ^ (hash >> 13u32);
    hash = hash.wrapping_mul(0xc2b2ae35);
    hash = hash ^ (hash >> 16u32);
    hash
}


/// The number that bytes stand for read little-endian: byte `i` weighs `256^i`.
pub open spec fn le_number(bytes: Seq<u8>) -> nat
    decreases bytes.len(),
{
    if bytes.len() == 0 {
        0
    } else {
        bytes[0] as nat + 256 * le_number(bytes.drop_first())
    }
}

proof fn lemma_le_number_small(bytes: Seq<u8>)
    requires
        1 <= bytes.len() <= 4,
    ensures
        le_number(bytes) == bytes[0] as nat + 256 * (if bytes.len() > 1 { bytes[1] as nat } else { 0 }) + 65536 * (
        if bytes.len() > 2 { bytes[2] as nat } else { 0 }) + 16777216 * (if bytes.len() > 3 { bytes[3] as nat } else { 0 }),
{
    let b1 = bytes.drop_first();
    let b2 = b1.drop_first();
    let b3 = b2.drop_first();
    let b4 = b3.drop_first();
    assert(le_number(bytes) == bytes[0] as nat + 256 * le_number(b1));
    if b1.len() == 0 {
        assert(le_number(b1) == 0);
    } else {
        assert(b1[0] == bytes[1]);
        assert(le_number(b1) == b1[0] as nat + 256 * le_number(b2));
        if b2.len() == 0 {
            assert(le_number(b2) == 0);
        } else {
            assert(b2[0] == bytes[2]);
            assert(le_number(b2) == b2[0] as nat + 256 * le_number(b3));
            if b3.len() == 0 {
                assert(le_number(b3) == 0);
            } else {
                assert(b3[0] == bytes[3]);
                assert(le_number(b3) == b3[0] as nat + 256 * le_number(b4));
                assert(le_number(b4) == 0);
            }
        }
    }
}

proof fn lemma_or_is_sum(x0: u32, x1: u32, x2: u32, x3: u32)
    requires
        x0 < 256,
        x1 < 256,
        x2 < 256,
        x3 < 256,
    ensures
        (x0 | (x1 << 8u32) | (x2 << 16u32) | (x3 << 24u32)) == x0 + 256 * x1 + 65536 * x2 + 16777216 * x3,
        ((0u32 ^ (x2 << 16u32)) ^ (x1 << 8u32)) ^ x0 == x0 + 256 * x1 + 65536 * x2,
        (0u32 ^ (x1 << 8u32)) ^ x0 == x0 + 256 * x1,
        0u32 ^ x0 == x0,
{
    assert((x0 | (x1 << 8u32) | (x2 << 16u32) | (x3 << 24u32)) == x0 + 256 * x1 + 65536 * x2 + 16777216 * x3) by (bit_vector)
        requires
            x0 < 256,
            x1 < 256,
            x2 < 256,
            x3 < 256,
    ;
    assert(((0u32 ^ (x2 << 16u32)) ^ (x1 << 8u32)) ^ x0 == x0 + 256 * x1 + 65536 * x2) by (bit_vector)
        requires
            x0 < 256,
            x1 < 256,
            x2 < 256,
    ;
    assert((0u32 ^ (x1 << 8u32)) ^ x0 == x0 + 256 * x1) by (bit_vector)
        requires
            x0 < 256,
            x1 < 256,
    ;
    assert(0u32 ^ x0 == x0) by (bit_vector);
}

/// MurmurHash3 reads its input little-endian: each full block of four bytes, and the
/// one to three bytes after the last full block, are mixed in as the number those
/// bytes stand for with byte `i` weighing `256^i`; the hash is the final mix of the
/// state after the blocks with the scrambled tail number, and the length.
pub proof fn lemma_murmur3_reads_little_endian(data: Seq<u8>, seed: u32)
    ensures
        forall|i: int| 0 <= i < data.len() / 4 ==> #[trigger] block(data, i) as nat == le_number(data.subrange(4 * i, 4 * i + 4)),
        data.len() % 4 != 0 ==> tail_block(data, 4 * (data.len() / 4) as int) as nat == le_number(data.skip(4 * (data.len() / 4) as int)),
        murmur3(data, seed) == finalize(
            if data.len() % 4 == 0 {
                after_blocks(data, data.len() / 4, seed)
            } else {
                after_blocks(data, data.len() / 4, seed) ^ scramble(le_number(data.skip(4 * (data.len() / 4) as int)) as u32)
            },
            data.len() as u32,
        ),
{
    assert forall|i: int| 0 <= i < data.len() / 4 implies #[trigger] block(data, i) as nat == le_number(data.subrange(4 * i, 4 * i + 4)) by {
        let w = data.subrange(4 * i, 4 * i + 4);
        lemma_le_number_small(w);
        lemma_or_is_sum(data[4 * i] as u32, data[4 * i + 1] as u32, data[4 * i + 2] as u32, data[4 * i + 3] as u32);
    }
    let base: int = 4 * (data.len() / 4) as int;
    if data.len() % 4 != 0 {
        let t = data.skip(base);
        lemma_le_number_small(t);
        let x0 = data[base] as u32;
        let x1 = if t.len() > 1 { data[base + 1] as u32 } else { 0u32 };
        let x2 = if t.len() > 2 { data[base + 2] as u32 } else { 0u32 };
        lemma_or_is_sum(x0, x1, x2, 0u32);
        assert(tail_block(data, base) as nat == le_number(t));
    }
}

/// MurmurHash3 of no bytes with seed 0 is 0, as the reference
/// implementation gives.
pub proof fn lemma_murmur3_vector_empty()
    ensures
        murmur3(Seq::<u8>::empty(), 0) == 0u32,
{
    let v_empty = Seq::<u8>::empty();
    lemma_murmur3_reads_little_endian(v_empty, 0);
    assert(0u32 ^ 0u32 == 0u32
        && 0u32 ^ (0u32 >> 16u32) == 0u32
        && 0u32 ^ (0u32 >> 13u32) == 0u32
        && 0u32 ^ (0u32 >> 16u32) == 0u32) by (bit_vector);
    assert(wmul(0u32, 0x85ebca6b) == 0u32);
    assert(wmul(0u32, 0xc2b2ae35) == 0u32);
    assert(murmur3(v_empty, 0) == 0u32);
}

/// MurmurHash3 of `a` (one byte) with seed 0 is 1009084850, as the reference
/// implementation gives.
pub proof fn lemma_murmur3_vector_a()
    ensures
        murmur3(seq![97u8], 0) == 1009084850u32,
{
    let v_a = seq![97u8];
    lemma_murmur3_reads_little_endian(v_a, 0);
    assert(rotl15(2280598449u32) == 2514011127u32
        && 0u32 ^ 1347135957u32 == 1347135957u32
        && 1347135957u32 ^ 1u32 == 1347135956u32
        && 1347135956u32 ^ (1347135956u32 >> 16u32) == 1347156383u32
        && 1118686069u32 ^ (1118686069u32 >> 13u32) == 1118821915u32
        && 1009079703u32 ^ (1009079703u32 >> 16u32) == 1009084850u32) by (bit_vector);
    assert(v_a.skip(0) =~= seq![97u8]);
    lemma_le_number_small(v_a.skip(0));
    assert(wmul(97u32, 0xcc9e2d51) == 2280598449u32);
    assert(wmul(2514011127u32, 0x1b873593) == 1347135957u32);
    assert(scramble(97u32) == 1347135957u32);
    assert(wmul(1347156383u32, 0x85ebca6b) == 1118686069u32);
    assert(wmul(1118821915u32, 0xc2b2ae35) == 1009079703u32);
    assert(murmur3(v_a, 0) == 1009084850u32);
}

/// MurmurHash3 of `ab` (two bytes) with seed 0 is 2613040991, as the reference
/// implementation gives.
pub proof fn lemma_murmur3_vector_ab()
    ensures
        murmur3(seq![97u8, 98u8], 0) == 2613040991u32,
{
    let v_ab = seq![97u8, 98u8];
    lemma_murmur3_reads_little_endian(v_ab, 0);
    assert(rotl15(357051825u32) == 383290020u32
        && 0u32 ^ 1535610924u32 == 1535610924u32
        && 1535610924u32 ^ 2u32 == 1535610926u32
        && 1535610926u32 ^ (1535610926u32 >> 16u32) == 1535626153u32
        && 697858467u32 ^ (697858467u32 >> 13u32) == 697906528u32
        && 2613005536u32 ^ (2613005536u32 >> 16u32) == 2613040991u32) by (bit_vector);
    assert(v_ab.skip(0) =~= seq![97u8, 98u8]);
    lemma_le_number_small(v_ab.skip(0));
    assert(wmul(25185u32, 0xcc9e2d51) == 357051825u32);
    assert(wmul(383290020u32, 0x1b873593) == 1535610924u32);
    assert(scramble(25185u32) == 1535610924u32);
    assert(wmul(1535626153u32, 0x85ebca6b) == 697858467u32);
    assert(wmul(697906528u32, 0xc2b2ae35) == 2613005536u32);
    assert(murmur3(v_ab, 0) == 2613040991u32);
}

/// MurmurHash3 of `abc` (three bytes) with seed 0 is 3017643002, as the reference
/// implementation gives.
pub proof fn lemma_murmur3_vector_abc()
    ensures
        murmur3(seq![97u8, 98u8, 99u8], 0) == 3017643002u32,
{
    let v_abc = seq![97u8, 98u8, 99u8];
    lemma_murmur3_reads_little_endian(v_abc, 0);
    assert(rotl15(2610638257u32) == 2530790861u32
        && 0u32 ^ 2805243319u32 == 2805243319u32
        && 2805243319u32 ^ 3u32 == 2805243316u32
        && 2805243316u32 ^ (2805243316u32 >> 16u32) == 2805217920u32
        && 1283289984u32 ^ (1283289984u32 >> 13u32) == 1283395691u32
        && 3017613351u32 ^ (3017613351u32 >> 16u32) == 3017643002u32) by (bit_vector);
    assert(v_abc.skip(0) =~= seq![97u8, 98u8, 99u8]);
    lemma_le_number_small(v_abc.skip(0));
    assert(wmul(6513249u32, 0xcc9e2d51) == 2610638257u32);
    assert(wmul(2530790861u32, 0x1b873593) == 2805243319u32);
    assert(scramble(6513249u32) == 2805243319u32);
    assert(wmul(2805217920u32, 0x85ebca6b) == 1283289984u32);
    assert(wmul(1283395691u32, 0xc2b2ae35) == 3017613351u32);
    assert(murmur3(v_abc, 0) == 3017643002u32);
}

/// MurmurHash3 of `abcd` (one full block) with seed 0 is 1139631978, as the reference
/// implementation gives.
pub proof fn lemma_murmur3_vector_abcd()
    ensures
        murmur3(seq![97u8, 98u8, 99u8, 100u8], 0) == 1139631978u32,
{
    let v_abcd = seq![97u8, 98u8, 99u8, 100u8];
    lemma_or_is_sum(97, 98, 99, 100);
    assert(v_abcd.len() / 4 == 1 && v_abcd.len() % 4 == 0);
    assert(rotl15(1067134385u32) == 2530779085u32
        && 0u32 ^ 1536439223u32 == 1536439223u32
        && rotl13(1536439223u32) == 2255940466u32
        && 2259092638u32 ^ 4u32 == 2259092634u32
        && 2259092634u32 ^ (2259092634u32 >> 16u32) == 2259124797u32
        && 3016135039u32 ^ (3016135039u32 >> 13u32) == 3015905099u32
        && 1139614855u32 ^ (1139614855u32 >> 16u32) == 1139631978u32) by (bit_vector);
    assert(after_blocks(v_abcd, 0, 0) == 0u32);
    assert(block(v_abcd, 0) == 1684234849u32);
    assert(wmul(1684234849u32, 0xcc9e2d51) == 1067134385u32);
    assert(wmul(2530779085u32, 0x1b873593) == 1536439223u32);
    assert(scramble(1684234849u32) == 1536439223u32);
    assert(wmul(2255940466u32, 5) == 2689767738u32);
    assert(wadd(2689767738u32, 0xe6546b64) == 2259092638u32);
    assert(after_blocks(v_abcd, 1, 0) == 2259092638u32);
    assert(wmul(2259124797u32, 0x85ebca6b) == 3016135039u32);
    assert(wmul(3015905099u32, 0xc2b2ae35) == 1139614855u32);
    assert(murmur3(v_abcd, 0) == 1139631978u32);
}

/// MurmurHash3 of `banana` (a full block and a two-byte tail) with seed 0 is 4116851631, as the reference
/// implementation gives.
pub proof fn lemma_murmur3_vector_banana()
    ensures
        murmur3(seq![98u8, 97u8, 110u8, 97u8, 110u8, 97u8], 0) == 4116851631u32,
{
    let v_banana = seq![98u8, 97u8, 110u8, 97u8, 110u8, 97u8];
    lemma_or_is_sum(98, 97, 110, 97);
    lemma_or_is_sum(110, 97, 0, 0);
    assert(v_banana.len() / 4 == 1 && v_banana.len() % 4 == 2);
    assert(rotl15(1837566466u32) == 2231449283u32
        && 0u32 ^ 299749625u32 == 299749625u32
        && rotl13(299749625u32) == 3122602555u32
        && rotl15(3676514766u32) == 2498194833u32
        && 2297435787u32 ^ 2097803075u32 == 4126800328u32
        && 4126800328u32 ^ 6u32 == 4126800334u32
        && 4126800334u32 ^ (4126800334u32 >> 16u32) == 4126739511u32
        && 473465085u32 ^ (473465085u32 >> 13u32) == 473456953u32
        && 4116897485u32 ^ (4116897485u32 >> 16u32) == 4116851631u32) by (bit_vector);
    assert(after_blocks(v_banana, 0, 0) == 0u32);
    assert(block(v_banana, 0) == 1634623842u32);
    assert(wmul(1634623842u32, 0xcc9e2d51) == 1837566466u32);
    assert(wmul(2231449283u32, 0x1b873593) == 299749625u32);
    assert(scramble(1634623842u32) == 299749625u32);
    assert(wmul(3122602555u32, 5) == 2728110887u32);
    assert(wadd(2728110887u32, 0xe6546b64) == 2297435787u32);
    assert(after_blocks(v_banana, 1, 0) == 2297435787u32);
    assert(tail_block(v_banana, 4) == 24942u32);
    assert(wmul(24942u32, 0xcc9e2d51) == 3676514766u32);
    assert(wmul(2498194833u32, 0x1b873593) == 2097803075u32);
    assert(scramble(24942u32) == 2097803075u32);
    assert(wmul(4126739511u32, 0x85ebca6b) == 473465085u32);
    assert(wmul(473456953u32, 0xc2b2ae35) == 4116897485u32);
    assert(murmur3(v_banana, 0) == 4116851631u32);
}

} // verus!
