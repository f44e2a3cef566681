//! Content digests, and the name of the file that holds a root's worklist.
use vstd::prelude::*;
use vstd::string::StringSliceAdditionalSpecFns;

verus! {

/// The 64-bit XXH3 digest (seed 0, default secret) of a byte sequence.
pub uninterp spec fn xxh3_of(bytes: Seq<u8>) -> u64;

/// Relies on `xxhash_rust::xxh3::xxh3_64`: the digest of the whole input,
/// determined by the bytes alone.
#[verifier::external_body]
fn xxh3(bytes: &[u8]) -> (r: u64)
    ensures
        r == xxh3_of(bytes@),
{
    xxhash_rust::xxh3::xxh3_64(bytes)
}

/// The lower-case hexadecimal digits.
pub open spec fn hex_digits() -> Seq<char> {
    seq!['0', '1', '2', '3', '4', '5', '6', '7', '8', '9', 'a', 'b', 'c', 'd', 'e', 'f']
}

/// Two lower-case hex digits per byte, high nibble first.
pub open spec fn hex_of(bytes: Seq<u8>) -> Seq<char>
    decreases bytes.len(),
{
    if bytes.len() == 0 {
        Seq::empty()
    } else {
        let b = bytes.last();
        hex_of(bytes.drop_last()) + seq![hex_digits()[(b / 16) as int], hex_digits()[(b % 16) as int]]
    }
}

/// Relies on `hex::encode`: each byte becomes two lower-case hex digits, high
/// nibble first, in the order of the input.
#[verifier::external_body]
fn to_hex(bytes: &[u8]) -> (r: String)
    ensures
        r@ == hex_of(bytes@),
{
    hex::encode(bytes)
}

/// The eight bytes of `x`, most significant first.
pub open spec fn be_bytes(x: u64) -> Seq<u8> {
    seq![
        (x / 0x100_0000_0000_0000) as u8,
        (x / 0x1_0000_0000_0000 % 256) as u8,
        (x / 0x100_0000_0000 % 256) as u8,
        (x / 0x1_0000_0000 % 256) as u8,
        (x / 0x100_0000 % 256) as u8,
        (x / 0x1_0000 % 256) as u8,
        (x / 0x100 % 256) as u8,
        (x % 256) as u8,
    ]
}

/// Big-endian encoding of a 64-bit integer.
pub fn u64_to_be_bytes(x: u64) -> (r: Vec<u8>)
    ensures
        r@ == be_bytes(x),
{
    let r = vec![
        (x / 0x100_0000_0000_0000) as u8,
        (x / 0x1_0000_0000_0000 % 256) as u8,
        (x / 0x100_0000_0000 % 256) as u8,
        (x / 0x1_0000_0000 % 256) as u8,
        (x / 0x100_0000 % 256) as u8,
        (x / 0x1_0000 % 256) as u8,
        (x / 0x100 % 256) as u8,
        (x % 256) as u8,
    ];
    assert(r@ =~= be_bytes(x));
    r
}

/// Fingerprint of a file's full contents. Two files are treated as identical
/// exactly when their fingerprints are equal.
pub fn fingerprint(contents: &[u8]) -> (r: u64)
    ensures
        r == xxh3_of(contents@),
{
    xxh3(contents)
}

/// The suffix of a persisted worklist's file name.
pub open spec fn worklist_suffix() -> Seq<char> {
    seq!['.', 'b', 'i', 'n']
}

/// The name of the file that holds the worklist of the tree rooted at `root`:
/// the hex form of the big-endian digest of the root's UTF-8 bytes, then `.bin`.
/// Distinct roots get distinct names unless their digests collide.
pub fn worklist_file_name(root: &str) -> (r: String)
    ensures
        r@ == hex_of(be_bytes(xxh3_of(root.spec_bytes()))) + worklist_suffix(),
{
    let digest = xxh3(root.as_bytes());
    let bytes = u64_to_be_bytes(digest);
    let mut name = to_hex(bytes.as_slice());
    name.append(".bin");
    proof {
        reveal_strlit(".bin");
        assert(".bin"@ =~= worklist_suffix());
    }
    name
}

} // verus!
