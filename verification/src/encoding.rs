use sha2::Digest;
use vstd::prelude::*;
use vstd::string::*;

use crate::base58::{base58_encoding, bs58_encode, lemma_base58_encoding_injective};

verus! {

/// The SHA-256 digest of a byte sequence, as `sha2::Sha256` computes it.
pub uninterp spec fn sha256(data: Seq<u8>) -> Seq<u8>;

/// Calls `sha2::Sha256::digest`. Claimed: the result is the named digest of
/// the input and, being a `GenericArray<u8, U32>`, is 32 bytes long.
#[verifier::external_body]
fn sha256_digest(data: &[u8]) -> (res: Vec<u8>)
    ensures
        res@ == sha256(data@),
        res@.len() == 32,
{
    sha2::Sha256::digest(data).to_vec()
}

/// Calls `String::push`, which appends one character.
#[verifier::external_body]
fn string_push(s: &mut String, c: char)
    ensures
        final(s)@ == old(s)@.push(c),
{
    s.push(c)
}

/// The Base58Check checksum: the first four bytes of a double SHA-256.
pub open spec fn checksum(data: Seq<u8>) -> Seq<u8> {
    sha256(sha256(data)).take(4)
}

/// The bytes that Base58Check encodes: the data followed by its checksum.
pub open spec fn base58check_payload(data: Seq<u8>) -> Seq<u8> {
    data + checksum(data)
}

/// The Base58Check encoding of a byte sequence.
pub open spec fn base58check(data: Seq<u8>) -> Seq<char> {
    base58_encoding(base58check_payload(data))
}

/// Base58Check is injective: equal texts come from equal data, and the text
/// decodes to the data followed by its four checksum bytes. The checksum
/// lengths are what `encode_base58_check` ensures of each encoded input.
pub proof fn lemma_base58check_injective(d1: Seq<u8>, d2: Seq<u8>)
    requires
        checksum(d1).len() == 4,
        checksum(d2).len() == 4,
        base58check(d1) == base58check(d2),
    ensures
        d1 == d2,
{
    lemma_base58_encoding_injective(base58check_payload(d1), base58check_payload(d2));
    let p = base58check_payload(d1);
    assert(d1 =~= p.take(d1.len() as int));
    assert(d2 =~= p.take(d2.len() as int));
}

/// Every Base58Check text decodes to the data followed by the first four
/// bytes of SHA-256 applied twice to the data: any bytes whose Base58 text is
/// the Base58Check text of `d` are exactly those.
pub proof fn lemma_base58check_decodes(d: Seq<u8>, p: Seq<u8>)
    requires
        base58_encoding(p) == base58check(d),
    ensures
        p == d + sha256(sha256(d)).take(4),
{
    lemma_base58_encoding_injective(p, base58check_payload(d));
}

/// Lower-cases an ASCII capital letter and keeps any other character.
pub open spec fn ascii_lower(c: char) -> char {
    if 'A' <= c && c <= 'Z' {
        ((c as int) + 32) as char
    } else {
        c
    }
}

/// A character sequence with its ASCII capitals lower-cased.
pub open spec fn ascii_lowercase(s: Seq<char>) -> Seq<char> {
    s.map_values(|c: char| ascii_lower(c))
}

/// The witness-program address text: human-readable part, separator `'1'`,
/// then the lower-cased Base58 encoding of the program.
pub open spec fn witness_address(hrp: Seq<char>, encoded: Seq<char>) -> Seq<char> {
    hrp + seq!['1'] + ascii_lowercase(encoded)
}

/// Frames `data` for Base58Check: appends the first four bytes of `digest`,
/// the double SHA-256 of `data`.
pub fn base58check_frame(data: &[u8], digest: &[u8]) -> (res: Vec<u8>)
    requires
        digest@.len() >= 4,
    ensures
        res@ == data@ + digest@.take(4),
        res@.len() == data@.len() + 4,
{
    let mut full: Vec<u8> = Vec::new();
    let n: usize = data.len();
    for i in 0..n
        invariant
            n == data@.len(),
            full@ == data@.take(i as int),
    {
        full.push(data[i]);
        assert(data@.take(i + 1) == data@.take(i as int).push(data@[i as int]));
    }
    assert(data@.take(n as int) == data@);
    for j in 0..4usize
        invariant
            digest@.len() >= 4,
            full@ == data@ + digest@.take(j as int),
    {
        full.push(digest[j]);
        assert(digest@.take(j + 1) == digest@.take(j as int).push(digest@[j as int]));
    }
    full
}

/// Base58Check encoding: the data and the first four bytes of its double
/// SHA-256, encoded in Base58.
pub(crate) fn encode_base58_check(data: &[u8]) -> (res: String)
    ensures
        res@ == base58check(data@),
        checksum(data@).len() == 4,
        // The text is the Base58 of the data followed by the first four bytes
        // of SHA-256 applied twice to the data.
        sha256(sha256(data@)).len() == 32,
        res@ == base58_encoding(data@ + sha256(sha256(data@)).take(4)),
{
    let first_hash = sha256_digest(data);
    let second_hash = sha256_digest(first_hash.as_slice());
    let full_data = base58check_frame(data, second_hash.as_slice());
    bs58_encode(full_data.as_slice())
}

/// Lower-cases the ASCII capitals of a string; other characters are kept.
/// On Base58 text this is what `str::to_lowercase` does.
pub fn ascii_lowercase_string(s: &str) -> (res: String)
    ensures
        res@ == ascii_lowercase(s@),
        res@.len() == s@.len(),
        forall|i: int| 0 <= i < res@.len() ==> !('A' <= #[trigger] res@[i] && res@[i] <= 'Z'),
        forall|i: int|
            0 <= i < s@.len() ==> #[trigger] res@[i] == (if 'A' <= s@[i] && s@[i] <= 'Z' {
                ((s@[i] as int) + 32) as char
            } else {
                s@[i]
            }),
{
    let n: usize = s.unicode_len();
    let mut out = String::new();
    for i in 0..n
        invariant
            n == s@.len(),
            out@ == ascii_lowercase(s@.take(i as int)),
    {
        let c = s.get_char(i);
        let lc = if 'A' <= c && c <= 'Z' {
            ((c as u8) + 32) as char
        } else {
            c
        };
        string_push(&mut out, lc);
        assert(s@.take(i + 1) == s@.take(i as int).push(c));
        assert(ascii_lowercase(s@.take(i + 1)) == ascii_lowercase(s@.take(i as int)).push(lc));
    }
    assert(s@.take(n as int) == s@);
    out
}

/// The witness-address text: the human-readable part, the separator `'1'`,
/// then each character of the Base58 text with capitals `'A'..='Z'` moved to
/// lower case (code plus 32) and every other character kept; no capital
/// remains after the separator.
pub proof fn lemma_witness_address_text(hrp: Seq<char>, encoded: Seq<char>)
    ensures
        witness_address(hrp, encoded).len() == hrp.len() + 1 + encoded.len(),
        witness_address(hrp, encoded).take(hrp.len() as int) == hrp,
        witness_address(hrp, encoded)[hrp.len() as int] == '1',
        forall|i: int|
            0 <= i < encoded.len() ==> {
                let c = #[trigger] witness_address(hrp, encoded)[hrp.len() + 1 + i];
                &&& !('A' <= c && c <= 'Z')
                &&& c == (if 'A' <= encoded[i] && encoded[i] <= 'Z' {
                    ((encoded[i] as int) + 32) as char
                } else {
                    encoded[i]
                })
            },
{
    let w = witness_address(hrp, encoded);
    assert(w.take(hrp.len() as int) =~= hrp);
    assert forall|i: int| 0 <= i < encoded.len() implies {
        let c = #[trigger] w[hrp.len() + 1 + i];
        &&& !('A' <= c && c <= 'Z')
        &&& c == (if 'A' <= encoded[i] && encoded[i] <= 'Z' {
            ((encoded[i] as int) + 32) as char
        } else {
            encoded[i]
        })
    } by {
        assert(w[hrp.len() + 1 + i] == ascii_lower(encoded[i]));
    }
}

/// Formats a witness-program address from its human-readable part and the
/// Base58 encoding of the program.
pub fn format_witness_address(hrp: &str, encoded: &str) -> (res: String)
    ensures
        res@ == witness_address(hrp@, encoded@),
{
    let mut out = String::from_str(hrp);
    string_push(&mut out, '1');
    let lower = ascii_lowercase_string(encoded);
    out.append(lower.as_str());
    out
}

/// Witness-program encoding: the human-readable part, `'1'`, and the
/// lower-cased Base58 encoding of the program. It never fails.
pub(crate) fn encode_bech32(hrp: &str, data: &[u8]) -> (res: Result<String, &'static str>)
    ensures
        res matches Ok(s) && s@ == witness_address(hrp@, base58_encoding(data@)),
{
    let encoded = bs58_encode(data);
    Ok(format_witness_address(hrp, encoded.as_str()))
}

} // verus!
