//! Hashing and encodings: SHA-1 (crate `sha1`), standard base64 (crate
//! `base64`) and lowercase hexadecimal.
use vstd::prelude::*;

verus! {

/// The SHA-1 digest of a byte string, as computed by the `sha1` crate.
pub uninterp spec fn sha1_of(data: Seq<u8>) -> Seq<u8>;

/// `Sha1::digest` of the `sha1` crate (`Digest::digest`): the 20-byte SHA-1
/// digest of the input. The digest is named by `sha1_of`; its length is the
/// crate's output size (`U20`).
#[verifier::external_body]
pub(crate) fn sha1_digest(data: &[u8]) -> (r: Vec<u8>)
    ensures
        r@ == sha1_of(data@),
        r@.len() == 20,
{
    <sha1::Sha1 as sha1::Digest>::digest(data).to_vec()
}

/// The standard base64 text (RFC 4648 alphabet, with padding) of a byte
/// string, as computed by the `base64` crate.
pub uninterp spec fn base64_standard_of(data: Seq<u8>) -> Seq<char>;

/// `Engine::encode` of the `base64` crate with its `STANDARD` engine. The
/// text is named by `base64_standard_of`. The crate panics when the length
/// of the output overflows `usize`, which the bound on the input rules out.
#[verifier::external_body]
pub(crate) fn base64_standard(data: &[u8]) -> (r: String)
    requires
        data@.len() <= usize::MAX / 2,
    ensures
        r@ == base64_standard_of(data@),
{
    <base64::engine::GeneralPurpose as base64::Engine>::encode(
        &base64::engine::general_purpose::STANDARD,
        data,
    )
}

/// The lowercase hexadecimal digit of a value below 16.
pub open spec fn hex_digit(d: nat) -> char {
    if d < 10 {
        (('0' as nat) + d) as char
    } else {
        (('a' as nat) + d - 10) as char
    }
}

/// Two lowercase hexadecimal digits per byte (`format!("{:02x}", b)`).
pub open spec fn hex_of(bytes: Seq<u8>) -> Seq<char>
    decreases bytes.len(),
{
    if bytes.len() == 0 {
        seq![]
    } else {
        hex_of(bytes.drop_last()) + seq![
            hex_digit((bytes.last() / 16) as nat),
            hex_digit((bytes.last() % 16) as nat),
        ]
    }
}

/// The lowercase hexadecimal digit of a value below 16.
fn hex_char(d: u8) -> (c: char)
    requires
        d < 16,
    ensures
        c == hex_digit(d as nat),
{
    let chars: [char; 16] = [
        '0', '1', '2', '3', '4', '5', '6', '7', '8', '9', 'a', 'b', 'c', 'd', 'e', 'f',
    ];
    let c = chars[d as usize];
    assert(c == hex_digit(d as nat)) by {
        assert(('0' as nat) == 48);
        assert(('a' as nat) == 97);
    }
    c
}

/// Lowercase hexadecimal text of the bytes.
pub fn hex_string(bytes: &[u8]) -> (r: String)
    ensures
        r@ == hex_of(bytes@),
{
    let mut s = String::new();
    let mut i: usize = 0;
    while i < bytes.len()
        invariant
            i <= bytes.len(),
            s@ == hex_of(bytes@.take(i as int)),
        decreases bytes.len() - i,
    {
        let b = bytes[i];
        crate::text::push_char(&mut s, hex_char(b / 16));
        crate::text::push_char(&mut s, hex_char(b % 16));
        assert(bytes@.take(i + 1).drop_last() =~= bytes@.take(i as int));
        i = i + 1;
    }
    assert(bytes@.take(bytes.len() as int) =~= bytes@);
    s
}

} // verus!
