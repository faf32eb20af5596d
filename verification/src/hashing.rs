//! Digests and hex text for addresses, names and page paths.
use vstd::prelude::*;

verus! {

use vstd::string::StringSliceAdditionalSpecFns;

/// The digest that sha2's `Sha256` computes for a byte sequence; a function
/// of the input alone.
pub uninterp spec fn sha256_of(data: Seq<u8>) -> Seq<u8>;

/// Relies on sha2::Sha256::digest: a 32-byte digest determined by the input
/// bytes alone.
#[verifier::external_body]
pub fn sha256(data: &[u8]) -> (r: Vec<u8>)
    ensures
        r@ == sha256_of(data@),
        r@.len() == 32,
{
    <sha2::Sha256 as sha2::Digest>::digest(data).to_vec()
}

/// The 16-byte hash that identifies a page path on the wire.
pub open spec fn path_hash_of(path_bytes: Seq<u8>) -> Seq<u8> {
    sha256_of(path_bytes).take(16)
}

/// `sha256(path)[:16]`, the request's commitment to the page path.
pub fn compute_path_hash(path: &str) -> (r: Vec<u8>)
    ensures
        r@ == path_hash_of(path.spec_bytes()),
        r@.len() == 16,
{
    let digest = sha256(path.as_bytes());
    let mut out: Vec<u8> = Vec::new();
    let mut i: usize = 0;
    while i < 16
        invariant
            i <= 16,
            digest@.len() == 32,
            digest@ == sha256_of(path.spec_bytes()),
            out@ =~= digest@.take(i as int),
        decreases 16 - i,
    {
        out.push(digest[i]);
        i = i + 1;
    }
    assert(out@ =~= digest@.take(16));
    out
}

/// The sixteen lower-case hex digits, in value order.
pub open spec fn hex_digits() -> Seq<char> {
    seq!['0', '1', '2', '3', '4', '5', '6', '7', '8', '9', 'a', 'b', 'c', 'd', 'e', 'f']
}

/// Lower-case hex text of a byte sequence: two digits per byte, high nibble
/// first.
pub open spec fn hex_encode_of(b: Seq<u8>) -> Seq<char>
    decreases b.len(),
{
    if b.len() == 0 {
        Seq::empty()
    } else {
        seq![hex_digits()[b[0] as int / 16], hex_digits()[b[0] as int % 16]] + hex_encode_of(
            b.drop_first(),
        )
    }
}

/// Relies on hex::encode: lower-case digits, two per byte, high nibble first.
#[verifier::external_body]
pub fn hex_encode(b: &[u8]) -> (r: String)
    ensures
        r@ == hex_encode_of(b@),
{
    hex::encode(b)
}

pub open spec fn is_hex_digit(c: char) -> bool {
    ('0' <= c && c <= '9') || ('a' <= c && c <= 'f') || ('A' <= c && c <= 'F')
}

/// The value of one hex digit, upper or lower case.
pub open spec fn hex_digit_value(c: char) -> int {
    if '0' <= c && c <= '9' {
        c as int - '0' as int
    } else if 'a' <= c && c <= 'f' {
        c as int - 'a' as int + 10
    } else {
        c as int - 'A' as int + 10
    }
}

/// Text that hex::decode accepts: even length, hex digits only.
pub open spec fn valid_hex(s: Seq<char>) -> bool {
    s.len() % 2 == 0 && (forall|i: int| 0 <= i < s.len() ==> is_hex_digit(#[trigger] s[i]))
}

/// The bytes encoded by a valid hex text, pairwise.
pub open spec fn hex_decode_of(s: Seq<char>) -> Seq<u8>
    decreases s.len(),
{
    if s.len() < 2 {
        Seq::empty()
    } else {
        seq![(hex_digit_value(s[0]) * 16 + hex_digit_value(s[1])) as u8] + hex_decode_of(s.skip(2))
    }
}

pub proof fn lemma_hex_decode_len(s: Seq<char>)
    ensures
        hex_decode_of(s).len() == s.len() / 2,
    decreases s.len(),
{
    if s.len() >= 2 {
        lemma_hex_decode_len(s.skip(2));
    }
}

/// Relies on hex::decode: accepts upper or lower digits, refuses odd length
/// and any other character.
#[verifier::external_body]
pub fn hex_decode(s: &str) -> (r: Option<Vec<u8>>)
    ensures
        r is Some <==> valid_hex(s@),
        r matches Some(v) ==> v@ == hex_decode_of(s@),
{
    hex::decode(s).ok()
}

} // verus!
