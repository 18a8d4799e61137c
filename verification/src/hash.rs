//! Content fingerprints: the lower-case hex rendering of the MD5 digest of
//! a description's UTF-8 bytes.
//!
//! MD5 is the legacy fingerprint choice of the stored format. It is kept
//! for compatibility; it is not collision-resistant, so a fingerprint match
//! asserts only that two descriptions agree, not that either is trusted.

use vstd::prelude::*;
use vstd::string::StringExecFns;

verus! {

/// The MD5 digest of a byte sequence. The digest is a pure function of the
/// bytes; its definition is delegated to the `md5` crate.
pub uninterp spec fn spec_md5(bytes: Seq<u8>) -> Seq<u8>;

/// Relies on `md5::compute`: the digest depends on the input bytes alone
/// and is always 16 bytes long (`md5::Digest` wraps a `[u8; 16]`).
#[verifier::external_body]
fn md5_digest(data: &[u8]) -> (r: Vec<u8>)
    ensures
        r@ == spec_md5(data@),
        r@.len() == 16,
{
    md5::compute(data).0.to_vec()
}

/// The lower-case hex character for one value below 16.
pub open spec fn spec_hex_digit(n: int) -> char {
    if n == 0 {
        '0'
    } else if n == 1 {
        '1'
    } else if n == 2 {
        '2'
    } else if n == 3 {
        '3'
    } else if n == 4 {
        '4'
    } else if n == 5 {
        '5'
    } else if n == 6 {
        '6'
    } else if n == 7 {
        '7'
    } else if n == 8 {
        '8'
    } else if n == 9 {
        '9'
    } else if n == 10 {
        'a'
    } else if n == 11 {
        'b'
    } else if n == 12 {
        'c'
    } else if n == 13 {
        'd'
    } else if n == 14 {
        'e'
    } else {
        'f'
    }
}

/// One hex digit as a string slice.
fn hex_digit_str(n: u8) -> (r: &'static str)
    requires
        n < 16,
    ensures
        r@ == seq![spec_hex_digit(n as int)],
{
    let r = match n {
        0 => "0",
        1 => "1",
        2 => "2",
        3 => "3",
        4 => "4",
        5 => "5",
        6 => "6",
        7 => "7",
        8 => "8",
        9 => "9",
        10 => "a",
        11 => "b",
        12 => "c",
        13 => "d",
        14 => "e",
        _ => "f",
    };
    proof {
        reveal_strlit("0");
        reveal_strlit("1");
        reveal_strlit("2");
        reveal_strlit("3");
        reveal_strlit("4");
        reveal_strlit("5");
        reveal_strlit("6");
        reveal_strlit("7");
        reveal_strlit("8");
        reveal_strlit("9");
        reveal_strlit("a");
        reveal_strlit("b");
        reveal_strlit("c");
        reveal_strlit("d");
        reveal_strlit("e");
        reveal_strlit("f");
        assert(r@ =~= seq![spec_hex_digit(n as int)]);
    }
    r
}

/// The lower-case hex rendering of a byte sequence, two characters per
/// byte, most significant nibble first.
pub open spec fn spec_hex(bytes: Seq<u8>) -> Seq<char>
    decreases bytes.len(),
{
    if bytes.len() == 0 {
        Seq::empty()
    } else {
        spec_hex(bytes.drop_last()) + seq![
            spec_hex_digit(bytes.last() as int / 16),
            spec_hex_digit(bytes.last() as int % 16),
        ]
    }
}

/// Renders bytes as lower-case hex.
fn to_hex(data: &Vec<u8>) -> (r: String)
    ensures
        r@ == spec_hex(data@),
{
    let mut out = String::new();
    let len = data.len();
    let mut i: usize = 0;
    while i < len
        invariant
            len == data@.len(),
            i <= len,
            out@ == spec_hex(data@.take(i as int)),
        decreases len - i,
    {
        let b = data[i];
        out.append(hex_digit_str(b / 16));
        out.append(hex_digit_str(b % 16));
        proof {
            assert(data@.take(i + 1).drop_last() =~= data@.take(i as int));
            assert(data@.take(i + 1).last() == data@[i as int]);
        }
        i = i + 1;
    }
    proof {
        assert(data@.take(len as int) =~= data@);
    }
    out
}

/// The fingerprint of a description: the hex rendering of the MD5 digest
/// of its UTF-8 bytes. A pure function of the description's characters, so
/// equal descriptions always fingerprint equally, across servers and runs.
pub open spec fn spec_fingerprint(text: Seq<char>) -> Seq<char> {
    spec_hex(spec_md5(vstd::utf8::encode_utf8(text)))
}

/// Computes the fingerprint of one description.
pub fn fingerprint(text: &str) -> (r: String)
    ensures
        r@ == spec_fingerprint(text@),
        r@.len() == 32,
{
    let bytes = text.as_bytes();
    let digest = md5_digest(bytes);
    proof {
        lemma_hex_len(digest@);
    }
    to_hex(&digest)
}

/// Hex rendering doubles the length.
proof fn lemma_hex_len(bytes: Seq<u8>)
    ensures
        spec_hex(bytes).len() == 2 * bytes.len(),
    decreases bytes.len(),
{
    if bytes.len() > 0 {
        lemma_hex_len(bytes.drop_last());
    }
}

/// Equal descriptions produce equal fingerprints: the fingerprint is a
/// function of the description text alone, independent of the server, the
/// entity name, or the run that computed it.
pub proof fn lemma_fingerprint_deterministic(a: Seq<char>, b: Seq<char>)
    requires
        a == b,
    ensures
        spec_fingerprint(a) == spec_fingerprint(b),
{
}

} // verus!
