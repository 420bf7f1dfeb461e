//! SHA-256 digests, computed by the `sha2` crate.
use sha2::{Digest, Sha256};
use crate::text::string_from_chars;
use vstd::prelude::*;

verus! {

/// The SHA-256 digest of `data` (FIPS 180-4), as computed by `sha2::Sha256`.
pub uninterp spec fn sha256(data: Seq<u8>) -> Seq<u8>;

/// Calls `sha2::Sha256::digest` on `data`.
///
/// Trusted: the returned 32 bytes are the SHA-256 digest of `data`; nothing
/// more is claimed about the digest function.
#[verifier::external_body]
pub(crate) fn sha256_digest(data: &[u8]) -> (d: [u8; 32])
    ensures
        d@ == sha256(data@),
{
    Sha256::digest(data).into()
}

/// The lowercase hexadecimal digit of a nibble.
pub open spec fn hex_digit(n: nat) -> char {
    if n < 10 {
        ((n + 48) as u8) as char
    } else {
        ((n + 87) as u8) as char
    }
}

/// `data` in lowercase hexadecimal, two digits per byte, high nibble first.
pub open spec fn hex_lower(data: Seq<u8>) -> Seq<char>
    decreases data.len(),
{
    if data.len() == 0 {
        Seq::empty()
    } else {
        hex_lower(data.drop_last()) + seq![
            hex_digit((data.last() / 16) as nat),
            hex_digit((data.last() % 16) as nat),
        ]
    }
}

/// The lowercase hexadecimal digit of a nibble.
fn hex_char(n: u8) -> (c: char)
    requires
        n < 16,
    ensures
        c == hex_digit(n as nat),
{
    if n < 10 {
        (n + 48) as char
    } else {
        (n + 87) as char
    }
}

/// `data` in lowercase hexadecimal, two digits per byte, high nibble first
/// (what `hex::encode` gives).
pub(crate) fn hex_encode(data: &[u8]) -> (s: String)
    ensures
        s@ == hex_lower(data@),
{
    let n = data.len();
    let mut chars: Vec<char> = Vec::new();
    let mut i: usize = 0;
    assert(data@.take(0) =~= Seq::<u8>::empty());
    while i < n
        invariant
            n == data@.len(),
            i <= n,
            chars@ == hex_lower(data@.take(i as int)),
        decreases n - i,
    {
        let b = data[i];
        chars.push(hex_char(b / 16));
        chars.push(hex_char(b % 16));
        assert(data@.take(i + 1).drop_last() =~= data@.take(i as int));
        assert(chars@ =~= hex_lower(data@.take(i + 1)));
        i = i + 1;
    }
    assert(data@.take(n as int) =~= data@);
    string_from_chars(chars.as_slice())
}

/// The value of a hexadecimal digit of either case.
pub open spec fn hex_nibble(c: char) -> Option<u8> {
    if '0' <= c <= '9' {
        Some((c as u32 - 48) as u8)
    } else if 'a' <= c <= 'f' {
        Some((c as u32 - 87) as u8)
    } else if 'A' <= c <= 'F' {
        Some((c as u32 - 55) as u8)
    } else {
        None
    }
}

/// The bytes an even number of hexadecimal digits (either case, high
/// nibble first) spell, or `None`.
pub open spec fn hex_value(s: Seq<char>) -> Option<Seq<u8>> {
    if s.len() % 2 == 0 && forall|i: int| 0 <= i < s.len() ==> #[trigger] hex_nibble(s[i]) is Some {
        Some(
            Seq::new(
                s.len() / 2,
                |i: int| (hex_nibble(s[2 * i])->0 * 16 + hex_nibble(s[2 * i + 1])->0) as u8,
            ),
        )
    } else {
        None
    }
}

/// The text of the error `hex::decode` reports for `s` (the `Display` of
/// its `FromHexError`).
pub uninterp spec fn hex_error_text(s: Seq<char>) -> Seq<char>;

/// Calls `hex::decode` on `s`.
///
/// Trusted: the crate decodes an even number of hexadecimal digits of either
/// case into bytes, high nibble first, and refuses anything else; the text of
/// its error is named, not stated.
#[verifier::external_body]
pub(crate) fn hex_decode(s: &str) -> (r: Result<Vec<u8>, String>)
    ensures
        match r {
            Ok(v) => hex_value(s@) == Some(v@),
            Err(e) => hex_value(s@) is None && e@ == hex_error_text(s@),
        },
{
    match hex::decode(s) {
        Ok(v) => Ok(v),
        Err(e) => Err(e.to_string()),
    }
}

/// Each byte gives two digits.
pub proof fn lemma_hex_len(data: Seq<u8>)
    ensures
        hex_lower(data).len() == 2 * data.len(),
    decreases data.len(),
{
    if data.len() > 0 {
        lemma_hex_len(data.drop_last());
    }
}

} // verus!
