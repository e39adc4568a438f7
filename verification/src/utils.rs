//! Hash-based anonymization: a digest behind a trusted wrapper, with the
//! hexadecimal rendering and the pseudonym shape verified.

use vstd::prelude::*;
use crate::codec::{chars_to_string, hex_char, hex_to_char, push_lit};
use sha2::Digest;
use vstd::string::StringSliceAdditionalSpecFns;
use vstd::string::StrSliceExecFns;

verus! {

/// The SHA-256 digest of a byte sequence: a function of the bytes alone.
pub uninterp spec fn sha256_of(data: Seq<u8>) -> Seq<u8>;

/// Relies on `sha2::Sha256` through `Digest::digest`: the 32-byte
/// SHA-256 digest of the input, a function of the input bytes alone.
#[verifier::external_body]
fn sha256_bytes(data: &[u8]) -> (r: Vec<u8>)
    ensures
        r@ == sha256_of(data@),
        r@.len() == 32,
{
    sha2::Sha256::digest(data).to_vec()
}

/// The lowercase hexadecimal text of one byte, two digits.
pub open spec fn byte_hex(b: u8) -> Seq<char> {
    seq![hex_char(b as int / 16), hex_char(b as int % 16)]
}

/// The lowercase hexadecimal text of a byte sequence.
pub open spec fn hex_text(bs: Seq<u8>) -> Seq<char>
    decreases bs.len(),
{
    if bs.len() == 0 {
        Seq::empty()
    } else {
        hex_text(bs.drop_last()) + byte_hex(bs.last())
    }
}

/// Hexadecimal digits are ASCII.
proof fn lemma_hex_char_ascii(d: int)
    requires
        0 <= d <= 15,
    ensures
        '\0' <= hex_char(d) <= '\u{7f}',
{
}

/// The lowercase hexadecimal digest of the input bytes: 64 ASCII
/// characters.
pub fn hash_data(data: &[u8]) -> (r: String)
    ensures
        r@ == hex_text(sha256_of(data@)),
        r@.len() == 64,
        vstd::utf8::is_ascii_chars(r@),
{
    let h = sha256_bytes(data);
    let mut out: Vec<char> = Vec::new();
    let mut j: usize = 0;
    while j < h.len()
        invariant
            j <= h.len(),
            h@ == sha256_of(data@),
            h@.len() == 32,
            out@ == hex_text(h@.take(j as int)),
            out@.len() == 2 * j,
            vstd::utf8::is_ascii_chars(out@),
        decreases h.len() - j,
    {
        let b = h[j];
        proof {
            assert(h@.take(j + 1).drop_last() =~= h@.take(j as int));
            assert(h@.take(j + 1).last() == h@[j as int]);
            lemma_hex_char_ascii(b as int / 16);
            lemma_hex_char_ascii(b as int % 16);
        }
        out.push(hex_to_char((b / 16) as u32));
        out.push(hex_to_char((b % 16) as u32));
        proof {
            assert(out@ =~= hex_text(h@.take(j + 1)));
        }
        j = j + 1;
    }
    proof {
        assert(h@.take(32) =~= h@);
    }
    chars_to_string(&out)
}

/// A hash-based pseudonym for a text: `anon_` and the first eight
/// hexadecimal characters of the text's SHA-256 digest.
pub fn anonymize_text(text: &str) -> (r: String)
    ensures
        r@ == "anon_"@ + hex_text(sha256_of(text.spec_bytes())).take(8),
{
    let hash = hash_data(text.as_bytes());
    let mut out: Vec<char> = Vec::new();
    push_lit(&mut out, "anon_");
    let prefix = hash.as_str().substring_ascii(0, 8);
    push_lit(&mut out, prefix);
    proof {
        assert(prefix@ =~= hash@.take(8));
        assert(out@ =~= "anon_"@ + hex_text(sha256_of(text.spec_bytes())).take(8));
    }
    chars_to_string(&out)
}

} // verus!
