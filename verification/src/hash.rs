//! The digest that identifies a text: of the content of a source file, to see whether it
//! has changed, and of its path, to tell one file from another.

use vstd::prelude::*;
use vstd::string::StringSliceAdditionalSpecFns;
use vstd::utf8::encode_utf8;

verus! {

/// The SHA-256 hash of `data`, as `ring` computes it.
pub uninterp spec fn sha256(data: Seq<u8>) -> Seq<u8>;

/// The longest input, in bytes, that `ring` hashes: its length in bits has to fit in 64 bits.
pub const MAX_INPUT_LEN: u64 = 0x1fff_ffff_ffff_ffff;

/// Feeds `data` to a `ring::digest::Context` for `SHA256` and takes the value that `finish`
/// gives. The value is taken on trust as [`sha256`] of the data; its length is the 32 bytes that
/// `ring` declares for the algorithm. `finish` panics on an input of more than
/// [`MAX_INPUT_LEN`] bytes.
#[verifier::external_body]
fn sha256_of(data: &[u8]) -> (hash: Vec<u8>)
    requires
        data@.len() <= MAX_INPUT_LEN,
    ensures
        hash@ == sha256(data@),
        hash@.len() == 32,
{
    let mut context = ring::digest::Context::new(&ring::digest::SHA256);
    context.update(data);
    context.finish().as_ref().to_vec()
}

/// The lower-case hexadecimal digit for a value below sixteen.
pub open spec fn hex_digit(value: int) -> char {
    seq!['0', '1', '2', '3', '4', '5', '6', '7', '8', '9', 'a', 'b', 'c', 'd', 'e', 'f'][value]
}

/// The bytes written in lower-case hexadecimal, two digits for each byte, the high half first.
pub open spec fn hex_lower(bytes: Seq<u8>) -> Seq<char> {
    Seq::new(
        2 * bytes.len(),
        |i: int|
            if i % 2 == 0 {
                hex_digit(bytes[i / 2] as int / 16)
            } else {
                hex_digit(bytes[i / 2] as int % 16)
            },
    )
}

/// Calls `data_encoding::HEXLOWER.encode`, which writes each byte as two digits out of
/// `0123456789abcdef`. It refuses an input of more than `usize::MAX / 512` bytes.
#[verifier::external_body]
fn encode_hex_lower(bytes: &[u8]) -> (text: String)
    requires
        bytes@.len() <= usize::MAX / 512,
    ensures
        text@ == hex_lower(bytes@),
{
    data_encoding::HEXLOWER.encode(bytes)
}

/// The digest of a text: the SHA-256 hash of its UTF-8 bytes, in lower-case hexadecimal.
pub open spec fn digest_of(text: Seq<char>) -> Seq<char> {
    hex_lower(sha256(encode_utf8(text)))
}

/// Whether a character is a lower-case hexadecimal digit.
pub open spec fn is_hex_lower(c: char) -> bool {
    ('0' <= c && c <= '9') || ('a' <= c && c <= 'f')
}

/// The digest that identifies a text: 64 lower-case hexadecimal digits.
pub fn digest(s: &str) -> (r: String)
    requires
        s.spec_bytes().len() <= MAX_INPUT_LEN,
    ensures
        r@ == digest_of(s@),
        r@.len() == 64,
        forall|i: int| 0 <= i < 64 ==> is_hex_lower(#[trigger] r@[i]),
{
    let hash = sha256_of(s.as_bytes());
    let r = encode_hex_lower(hash.as_slice());
    proof {
        assert forall|i: int| 0 <= i < 64 implies is_hex_lower(#[trigger] r@[i]) by {
            hex_digits_are_hex(hash@[i / 2] as int / 16);
            hex_digits_are_hex(hash@[i / 2] as int % 16);
        }
    }
    r
}

/// The digest of a text of any length: none for a text that is too long to be hashed.
pub open spec fn checked_digest_of(text: Seq<char>) -> Option<Seq<char>> {
    if encode_utf8(text).len() <= MAX_INPUT_LEN {
        Some(digest_of(text))
    } else {
        None
    }
}

/// Computes the digest of a text of any length: none for a text that is too long to be
/// hashed.
pub fn checked_digest(s: &str) -> (r: Option<String>)
    ensures
        match r {
            Some(digest) => checked_digest_of(s@) == Some(digest@),
            None => checked_digest_of(s@) is None,
        },
{
    if s.as_bytes().len() as u64 <= MAX_INPUT_LEN {
        Some(digest(s))
    } else {
        None
    }
}

/// The value that a lower-case hexadecimal digit stands for.
pub open spec fn hex_value(c: char) -> int {
    if '0' <= c && c <= '9' {
        c as int - '0' as int
    } else {
        c as int - 'a' as int + 10
    }
}

/// Each value below sixteen has a digit of its own.
pub proof fn hex_digits_are_hex(value: int)
    requires
        0 <= value < 16,
    ensures
        is_hex_lower(hex_digit(value)),
        hex_value(hex_digit(value)) == value,
{
}

/// The same text always has the same digest: the digest depends on the characters of the text
/// and on nothing else, whatever its length.
pub proof fn digest_is_deterministic(first: Seq<char>, second: Seq<char>)
    requires
        first == second,
    ensures
        digest_of(first) == digest_of(second),
        checked_digest_of(first) == checked_digest_of(second),
{
}

/// Two texts have different digests wherever their hashes differ.
pub proof fn different_hashes_give_different_digests(first: Seq<char>, second: Seq<char>)
    requires
        sha256(encode_utf8(first)) != sha256(encode_utf8(second)),
    ensures
        digest_of(first) != digest_of(second),
{
    if digest_of(first) == digest_of(second) {
        hex_lower_is_injective(sha256(encode_utf8(first)), sha256(encode_utf8(second)));
    }
}

/// Writing a hash in hexadecimal loses nothing: digests differ wherever hashes do.
pub proof fn hex_lower_is_injective(first: Seq<u8>, second: Seq<u8>)
    requires
        hex_lower(first) == hex_lower(second),
    ensures
        first == second,
{
    assert(hex_lower(first).len() == 2 * first.len());
    assert(hex_lower(second).len() == 2 * second.len());
    assert forall|i: int| 0 <= i < first.len() implies first[i] == second[i] by {
        let a = first[i] as int;
        let b = second[i] as int;
        assert(hex_lower(first)[2 * i] == hex_digit(a / 16));
        assert(hex_lower(second)[2 * i] == hex_digit(b / 16));
        assert(hex_lower(first)[2 * i + 1] == hex_digit(a % 16));
        assert(hex_lower(second)[2 * i + 1] == hex_digit(b % 16));
        hex_digits_are_hex(a / 16);
        hex_digits_are_hex(b / 16);
        hex_digits_are_hex(a % 16);
        hex_digits_are_hex(b % 16);
    }
    assert(first =~= second);
}

} // verus!
