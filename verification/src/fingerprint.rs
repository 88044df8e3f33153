//! Seeded fingerprinting of source bytes.
//!
//! Every transform stage (the resize step and each output codec) owns an
//! "algorithm seed": a constant it bumps whenever its output for the same
//! input would change. A fingerprint combines the resize seed and the active
//! format's seed into one key, hashes the raw source bytes under that key,
//! and, when a variant name is active, adds the hash of the variant name's
//! UTF-8 bytes under the same key. The fingerprint is rendered as 16
//! lowercase hex digits for use in output file names.

use vstd::prelude::*;
use vstd::string::StringSliceAdditionalSpecFns;

verus! {

/// Initial state of the keyed hash before the seed is mixed in.
pub const HASH_INIT: u64 = 0xcbf2_9ce4_8422_2325;

/// Multiplier applied after each absorbed byte.
pub const HASH_PRIME: u64 = 0x0000_0100_0000_01b3;

/// Algorithm seed of the resize stage.
pub const RESIZE_SEED: u64 = 0x7265_737a_0000_0001;

/// Algorithm seed of the AVIF encoder stage.
pub const AVIF_SEED: u64 = 0x6176_6966_0000_0001;

/// Algorithm seed of the JPEG encoder stage.
pub const JPEG_SEED: u64 = 0x6a70_6567_0000_0001;

/// Algorithm seed of the PNG encoder stage.
pub const PNG_SEED: u64 = 0x706e_6700_0000_0001;

/// Algorithm seed of the WebP encoder stage.
pub const WEBP_SEED: u64 = 0x7765_6270_0000_0001;

/// One absorption step of the keyed hash: fold a byte into the state.
pub open spec fn hash_step(h: u64, b: u8) -> u64 {
    vstd::wrapping::u64_specs::wrapping_mul(h ^ (b as u64), HASH_PRIME)
}

/// The keyed hash of `data` under `seed`: the seed perturbs the initial
/// state, then every byte is absorbed in order.
pub open spec fn hash_spec(data: Seq<u8>, seed: u64) -> u64
    decreases data.len(),
{
    if data.len() == 0 {
        HASH_INIT ^ seed
    } else {
        hash_step(hash_spec(data.drop_last(), seed), data.last())
    }
}

/// Deterministic keyed hash over raw bytes. Any two calls on equal bytes and
/// equal seeds return the same value, on any machine.
pub fn hash(data: &[u8], seed: u64) -> (r: u64)
    ensures
        r == hash_spec(data@, seed),
{
    let mut h: u64 = HASH_INIT ^ seed;
    let mut i: usize = 0;
    while i < data.len()
        invariant
            i <= data@.len(),
            h == hash_spec(data@.subrange(0, i as int), seed),
        decreases data@.len() - i,
    {
        let b = data[i];
        h = (h ^ (b as u64)).wrapping_mul(HASH_PRIME);
        i = i + 1;
        proof {
            let pre = data@.subrange(0, i as int);
            assert(pre.drop_last() =~= data@.subrange(0, i - 1));
            assert(pre.last() == data@[i - 1]);
        }
    }
    proof {
        assert(data@.subrange(0, data@.len() as int) =~= data@);
    }
    h
}

/// The key a fingerprint is computed under: the resize stage's seed and the
/// active format's seed, combined by wrapping addition so that each stage
/// owns its constant independently.
pub open spec fn combined_seed(resize_seed: u64, format_seed: u64) -> u64 {
    vstd::wrapping::u64_specs::wrapping_add(resize_seed, format_seed)
}

/// The fingerprint of `data` under the two stage seeds and an optional
/// variant name (given as its UTF-8 bytes): the keyed hash of the source
/// bytes, plus (wrapping) the keyed hash of the variant bytes when a variant
/// is active, both under the combined seed.
pub open spec fn fingerprint_spec(
    data: Seq<u8>,
    resize_seed: u64,
    format_seed: u64,
    variant: Option<Seq<u8>>,
) -> u64 {
    let seed = combined_seed(resize_seed, format_seed);
    match variant {
        Option::None => hash_spec(data, seed),
        Option::Some(v) => vstd::wrapping::u64_specs::wrapping_add(
            hash_spec(data, seed),
            hash_spec(v, seed),
        ),
    }
}

/// The variant argument of `fingerprint`, as the byte sequences the
/// fingerprint is defined over.
pub open spec fn variant_bytes(variant: Option<&str>) -> Option<Seq<u8>> {
    match variant {
        Option::None => Option::<Seq<u8>>::None,
        Option::Some(v) => Option::Some(v.spec_bytes()),
    }
}

/// Fingerprint of one (source image, output format) pair. For fixed source
/// bytes, seeds and variant name the result is the same on every call.
pub fn fingerprint(data: &[u8], resize_seed: u64, format_seed: u64, variant: Option<&str>) -> (r:
    u64)
    ensures
        r == fingerprint_spec(data@, resize_seed, format_seed, variant_bytes(variant)),
{
    let seed = resize_seed.wrapping_add(format_seed);
    let h1 = hash(data, seed);
    match variant {
        Option::None => h1,
        Option::Some(v) => h1.wrapping_add(hash(v.as_bytes(), seed)),
    }
}

/// A fingerprint depends on the two stage seeds only through their wrapping
/// sum: two seed pairs with the same sum give the same fingerprint for every
/// input. In particular, bumping one stage's seed leaves every fingerprint
/// computed without that stage untouched.
pub proof fn lemma_fingerprint_seed_composition(
    data: Seq<u8>,
    rs1: u64,
    fs1: u64,
    rs2: u64,
    fs2: u64,
    variant: Option<Seq<u8>>,
)
    requires
        combined_seed(rs1, fs1) == combined_seed(rs2, fs2),
    ensures
        fingerprint_spec(data, rs1, fs1, variant) == fingerprint_spec(data, rs2, fs2, variant),
{
}

/// Fingerprinting is deterministic: it is a function of the source bytes,
/// the two stage seeds, and the variant bytes alone, so repeated
/// computations over equal inputs agree.
pub proof fn lemma_fingerprint_deterministic(
    data1: Seq<u8>,
    data2: Seq<u8>,
    rs: u64,
    fs: u64,
    v1: Option<Seq<u8>>,
    v2: Option<Seq<u8>>,
)
    requires
        data1 == data2,
        v1 == v2,
    ensures
        fingerprint_spec(data1, rs, fs, v1) == fingerprint_spec(data2, rs, fs, v2),
{
}

/// The lowercase hexadecimal digit of a nibble.
pub open spec fn hex_digit(n: u8) -> char
    recommends
        n < 16,
{
    if n < 10 {
        ((n + 0x30) as u8) as char
    } else {
        ((n + 0x57) as u8) as char
    }
}

/// Lowercase hexadecimal rendering of a byte sequence: two digits per byte,
/// high nibble first.
pub open spec fn hex_of(bytes: Seq<u8>) -> Seq<char>
    decreases bytes.len(),
{
    if bytes.len() == 0 {
        Seq::<char>::empty()
    } else {
        hex_of(bytes.drop_last()) + seq![
            hex_digit(bytes.last() / 16),
            hex_digit(bytes.last() % 16),
        ]
    }
}

/// A hexadecimal rendering is twice as long as the bytes it renders.
pub proof fn lemma_hex_of_len(bytes: Seq<u8>)
    ensures
        hex_of(bytes).len() == 2 * bytes.len(),
    decreases bytes.len(),
{
    if bytes.len() > 0 {
        lemma_hex_of_len(bytes.drop_last());
    }
}

/// Relies on hex::encode: each input byte becomes two lowercase hexadecimal
/// digits, high nibble first, drawn from "0123456789abcdef".
#[verifier::external_body]
fn hex_encode(data: &[u8]) -> (r: String)
    ensures
        r@ == hex_of(data@),
{
    hex::encode(data)
}

/// The big-endian byte representation of a 64-bit value.
pub open spec fn be_bytes_spec(x: u64) -> Seq<u8> {
    seq![
        ((x >> 56) & 0xff) as u8,
        ((x >> 48) & 0xff) as u8,
        ((x >> 40) & 0xff) as u8,
        ((x >> 32) & 0xff) as u8,
        ((x >> 24) & 0xff) as u8,
        ((x >> 16) & 0xff) as u8,
        ((x >> 8) & 0xff) as u8,
        (x & 0xff) as u8,
    ]
}

/// The big-endian bytes of a 64-bit value, most significant first.
pub fn be_bytes(x: u64) -> (r: Vec<u8>)
    ensures
        r@ == be_bytes_spec(x),
{
    let mut r: Vec<u8> = Vec::new();
    r.push(((x >> 56) & 0xff) as u8);
    r.push(((x >> 48) & 0xff) as u8);
    r.push(((x >> 40) & 0xff) as u8);
    r.push(((x >> 32) & 0xff) as u8);
    r.push(((x >> 24) & 0xff) as u8);
    r.push(((x >> 16) & 0xff) as u8);
    r.push(((x >> 8) & 0xff) as u8);
    r.push((x & 0xff) as u8);
    proof {
        assert(r@ =~= be_bytes_spec(x));
    }
    r
}

/// A fingerprint as it appears in output file names: the lowercase
/// hexadecimal rendering of its big-endian bytes, always 16 digits.
pub open spec fn fingerprint_hex_spec(fp: u64) -> Seq<char> {
    hex_of(be_bytes_spec(fp))
}

/// Render a fingerprint as its 16 lowercase hexadecimal digits.
pub fn fingerprint_hex(fp: u64) -> (r: String)
    ensures
        r@ == fingerprint_hex_spec(fp),
        r@.len() == 16,
{
    let bytes = be_bytes(fp);
    let r = hex_encode(bytes.as_slice());
    proof {
        lemma_hex_of_len(be_bytes_spec(fp));
    }
    r
}

} // verus!
