//! Hashes and hexadecimal.
use sha2::Digest;
use vstd::prelude::*;

use crate::json;
use crate::text;
use crate::text::{owned, trim};

verus! {

/// What SHA-256 makes of some bytes.
pub uninterp spec fn sha256_of(data: Seq<u8>) -> Seq<u8>;

/// `sha2::Sha256::digest`: the 32 bytes of the hash, a function of the data alone.
#[verifier::external_body]
fn sha256(data: &[u8]) -> (r: Vec<u8>)
    ensures
        r@ == sha256_of(data@),
        r@.len() == 32,
{
    sha2::Sha256::digest(data).to_vec()
}

/// The bytes in lower-case hexadecimal, two digits each.
pub open spec fn hex_of(data: Seq<u8>) -> Seq<char>
    decreases data.len(),
{
    if data.len() == 0 {
        Seq::empty()
    } else {
        hex_of(data.drop_last()).push(json::hex_digit((data.last() / 16) as nat)).push(
            json::hex_digit((data.last() % 16) as nat),
        )
    }
}

/// `hex::encode`: two lower-case digits for each byte, in order.
#[verifier::external_body]
pub(crate) fn hex_encode(data: &[u8]) -> (r: String)
    ensures
        r@ == hex_of(data@),
{
    hex::encode(data)
}

/// A hexadecimal digit, in either case.
pub open spec fn is_hex_digit(c: char) -> bool {
    text::is_digit(c) || 'a' <= c <= 'f' || 'A' <= c <= 'F'
}

/// The number that a hexadecimal digit writes.
pub open spec fn hex_value(c: char) -> int {
    if text::is_digit(c) {
        c as int - 48
    } else if 'a' <= c <= 'f' {
        c as int - 87
    } else {
        c as int - 55
    }
}

/// The bytes that `s` writes in hexadecimal, where it does.
pub open spec fn bytes_of(s: Seq<char>) -> Option<Seq<u8>> {
    if s.len() % 2 == 0 && (forall|i: int| 0 <= i < s.len() ==> is_hex_digit(#[trigger] s[i])) {
        Some(
            Seq::new(
                s.len() / 2,
                |i: int| (hex_value(s[2 * i]) * 16 + hex_value(s[2 * i + 1])) as u8,
            ),
        )
    } else {
        None
    }
}

/// `hex::decode`: the bytes of an even number of hexadecimal digits in either case, and an error
/// for anything else.
#[verifier::external_body]
fn hex_decode(s: &str) -> (r: Option<Vec<u8>>)
    ensures
        match r {
            Some(v) => bytes_of(s@) == Some(v@),
            None => bytes_of(s@) is None,
        },
{
    hex::decode(s).ok()
}

/// The identity of a text: its SHA-256, in hexadecimal.
pub open spec fn text_id(s: Seq<char>) -> Seq<char> {
    hex_of(sha256_of(vstd::utf8::encode_utf8(s)))
}

/// Hex SHA-256 of the UTF-8 bytes of a text.
pub fn sha256_hex(src: &str) -> (r: String)
    ensures
        r@ == text_id(src@),
        r@.len() == 64,
{
    let d = sha256(src.as_bytes());
    proof {
        hex_of_len(d@);
    }
    hex_encode(d.as_slice())
}

proof fn hex_of_len(data: Seq<u8>)
    ensures
        hex_of(data).len() == 2 * data.len(),
    decreases data.len(),
{
    if data.len() > 0 {
        hex_of_len(data.drop_last());
    }
}

/// Why a key is refused.
pub open spec fn key_complaint(hex_key: Seq<char>) -> Seq<char> {
    "`"@ + hex_key + "` is not 32 hex-encoded bytes"@
}

/// The 32 bytes of a hex-encoded key; white space around it is ignored.
pub fn decode_key32(hex_key: &str) -> (r: Result<[u8; 32], String>)
    ensures
        match r {
            Ok(k) => bytes_of(text::trimmed(hex_key@)) == Some(k@),
            Err(e) => {
                &&& e@ == key_complaint(hex_key@)
                &&& match bytes_of(text::trimmed(hex_key@)) {
                    Some(b) => b.len() != 32,
                    None => true,
                }
            },
        },
{
    if let Some(v) = hex_decode(trim(hex_key)) {
        if v.len() == 32 {
            let mut k: [u8; 32] = [0;32];
            let mut i: usize = 0;
            while i < 32
                invariant
                    i <= 32,
                    v@.len() == 32,
                    forall|j: int| 0 <= j < i ==> k@[j] == v@[j],
                decreases 32 - i,
            {
                k[i] = v[i];
                i += 1;
            }
            assert(k@ =~= v@);
            return Ok(k);
        }
    }
    let mut m = owned("`");
    m.append(hex_key);
    m.append("` is not 32 hex-encoded bytes");
    Err(m)
}

// ---------------------------------------------------------------------------------------------
// Laws
// ---------------------------------------------------------------------------------------------
/// Bytes that are written in hex read back as they were.
pub proof fn bytes_in_hex_read_back(data: Seq<u8>)
    ensures
        bytes_of(hex_of(data)) == Some(data),
{
    hex_of_len(data);
    let s = hex_of(data);
    assert forall|i: int| 0 <= i < data.len() implies s[2 * i] == #[trigger] json::hex_digit(
        (data[i] / 16) as nat,
    ) && s[2 * i + 1] == json::hex_digit((data[i] % 16) as nat) by {
        byte_in_hex(data, i);
    }
    assert forall|j: int| 0 <= j < s.len() implies is_hex_digit(#[trigger] s[j]) by {
        byte_in_hex(data, j / 2);
        assert(j == 2 * (j / 2) || j == 2 * (j / 2) + 1);
    }
    let r = bytes_of(s)->0;
    assert(r.len() == data.len());
    assert forall|i: int| 0 <= i < data.len() implies r[i] == data[i] by {
        byte_in_hex(data, i);
        assert(hex_value(json::hex_digit((data[i] / 16) as nat)) == data[i] / 16);
        assert(hex_value(json::hex_digit((data[i] % 16) as nat)) == data[i] % 16);
    }
    assert(r =~= data);
}

proof fn byte_in_hex(data: Seq<u8>, i: int)
    requires
        0 <= i < data.len(),
    ensures
        hex_of(data).len() == 2 * data.len(),
        hex_of(data)[2 * i] == json::hex_digit((data[i] / 16) as nat),
        hex_of(data)[2 * i + 1] == json::hex_digit((data[i] % 16) as nat),
    decreases data.len(),
{
    hex_of_len(data);
    hex_of_len(data.drop_last());
    if i < data.len() - 1 {
        byte_in_hex(data.drop_last(), i);
        assert(data.drop_last()[i] == data[i]);
    }
}

} // verus!
