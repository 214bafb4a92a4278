//! The checksum pipeline: a content digest is computed over the exact bytes
//! placed in the store and kept as lowercase hex text in a sibling object.
//! On pull the digest is recomputed and compared as an exact string; a missing
//! sibling is its own failure, distinct from a mismatch.

use vstd::prelude::*;

use sha1::Digest;

use crate::errors::PackageError;
use crate::strutil::str_eq;

verus! {

/// The 20-byte SHA-1 digest of a byte sequence. The value is fixed by
/// sha1::Sha1::digest and never stated here.
pub uninterp spec fn sha1_digest(data: Seq<u8>) -> Seq<u8>;

/// Relies on sha1::Sha1::digest: the 20-byte SHA-1 digest, a function of the
/// input bytes alone.
#[verifier::external_body]
fn sha1_digest_bytes(data: &Vec<u8>) -> (r: Vec<u8>)
    ensures
        r@ == sha1_digest(data@),
        r@.len() == 20,
{
    sha1::Sha1::digest(data.as_slice()).to_vec()
}

/// The lowercase hex character of a digit below 16.
pub open spec fn hex_char(d: u8) -> char {
    if d == 0 { '0' } else if d == 1 { '1' } else if d == 2 { '2' } else if d == 3 { '3' }
    else if d == 4 { '4' } else if d == 5 { '5' } else if d == 6 { '6' } else if d == 7 { '7' }
    else if d == 8 { '8' } else if d == 9 { '9' } else if d == 10 { 'a' } else if d == 11 { 'b' }
    else if d == 12 { 'c' } else if d == 13 { 'd' } else if d == 14 { 'e' } else { 'f' }
}

/// The lowercase hex encoding of a byte sequence, two characters per byte.
pub open spec fn hex_lower_of(data: Seq<u8>) -> Seq<char>
    decreases data.len(),
{
    if data.len() == 0 {
        Seq::<char>::empty()
    } else {
        seq![hex_char(data.first() / 16), hex_char(data.first() % 16)] + hex_lower_of(
            data.drop_first(),
        )
    }
}

/// One hex digit as a string slice.
fn hex_digit_str(d: u8) -> (r: &'static str)
    requires
        d < 16,
    ensures
        r@ =~= seq![hex_char(d)],
{
    proof {
        reveal_strlit("0");
        reveal_strlit("1");
        reveal_strlit("2");
        reveal_strlit("3");
        reveal_strlit("4");
        reveal_strlit("5");
        reveal_strlit("6");
        reveal_strlit("7");
        reveal_strlit("8");
        reveal_strlit("9");
        reveal_strlit("a");
        reveal_strlit("b");
        reveal_strlit("c");
        reveal_strlit("d");
        reveal_strlit("e");
        reveal_strlit("f");
    }
    match d {
        0 => "0",
        1 => "1",
        2 => "2",
        3 => "3",
        4 => "4",
        5 => "5",
        6 => "6",
        7 => "7",
        8 => "8",
        9 => "9",
        10 => "a",
        11 => "b",
        12 => "c",
        13 => "d",
        14 => "e",
        _ => "f",
    }
}

/// Encodes bytes as lowercase hex text.
pub fn to_hex_lower(data: &Vec<u8>) -> (r: String)
    ensures
        r@ == hex_lower_of(data@),
{
    let mut r = String::new();
    let n = data.len();
    let mut i: usize = 0;
    proof {
        assert(data@.subrange(0, n as int) =~= data@);
        assert(data@.subrange(n as int, n as int) =~= Seq::<u8>::empty());
    }
    while i < n
        invariant
            0 <= i <= n,
            n == data@.len(),
            hex_lower_of(data@) =~= r@ + hex_lower_of(data@.subrange(i as int, n as int)),
        decreases n - i,
    {
        let b = data[i];
        let hi = hex_digit_str(b / 16);
        let lo = hex_digit_str(b % 16);
        let ghost tail = data@.subrange(i as int, n as int);
        proof {
            assert(tail.first() == data@[i as int]);
            assert(tail.drop_first() =~= data@.subrange(i + 1, n as int));
        }
        r.append(hi);
        r.append(lo);
        i = i + 1;
    }
    proof {
        assert(hex_lower_of(data@.subrange(n as int, n as int)) =~= Seq::<char>::empty());
        assert(r@ =~= hex_lower_of(data@));
    }
    r
}

/// The checksum text of a byte sequence: the lowercase hex of its SHA-1
/// digest, as stored in the sibling digest object.
pub open spec fn spec_checksum(data: Seq<u8>) -> Seq<char> {
    hex_lower_of(sha1_digest(data))
}

/// Computes the checksum text of the given artifact bytes.
pub fn compute_checksum(data: &Vec<u8>) -> (r: String)
    ensures
        r@ == spec_checksum(data@),
{
    let digest = sha1_digest_bytes(data);
    to_hex_lower(&digest)
}

/// What checksum verification promises: acceptance exactly on a matching
/// digest, and a mismatch failure that carries both digests and the identity.
pub open spec fn checksum_verdict(
    data: Seq<u8>,
    expected: Seq<char>,
    name: Seq<char>,
    version: Seq<char>,
    r: Result<(), PackageError>,
) -> bool {
    &&& (r is Ok <==> expected == spec_checksum(data))
    &&& (r is Err ==> (r matches Err(
        PackageError::ChecksumMismatch { name: en, version: ev, expected: ee, actual: ea },
    ) && en@ == name && ev@ == version && ee@ == expected && ea@ == spec_checksum(data)))
}

/// Verifies downloaded artifact bytes against the digest text stored beside
/// them.
pub fn verify_checksum(data: &Vec<u8>, expected: &str, name: &str, version: &str) -> (r: Result<
    (),
    PackageError,
>)
    ensures
        checksum_verdict(data@, expected@, name@, version@, r),
{
    let actual = compute_checksum(data);
    if str_eq(actual.as_str(), expected) {
        Ok(())
    } else {
        Err(PackageError::ChecksumMismatch {
            name: name.to_owned(),
            version: version.to_owned(),
            expected: expected.to_owned(),
            actual,
        })
    }
}

/// Verifies a pulled artifact: the absence of the sibling digest object is its
/// own failure, not a mismatch.
pub fn verify_pulled_artifact(
    data: &Vec<u8>,
    expected: Option<&String>,
    name: &str,
    version: &str,
) -> (r: Result<(), PackageError>)
    ensures
        expected is None <==> r matches Err(PackageError::MissingChecksum),
        (match expected {
            Some(e) => checksum_verdict(data@, e@, name@, version@, r),
            None => true,
        }),
{
    match expected {
        Some(e) => verify_checksum(data, e.as_str(), name, version),
        None => Err(PackageError::MissingChecksum),
    }
}

/// Law: bytes whose digest no longer matches the stored digest text never
/// pass verification, and the failure names both digests and the identity.
pub proof fn lemma_tamper_detected(
    data: Seq<u8>,
    expected: Seq<char>,
    name: Seq<char>,
    version: Seq<char>,
    r: Result<(), PackageError>,
)
    requires
        checksum_verdict(data, expected, name, version, r),
        spec_checksum(data) != expected,
    ensures
        r matches Err(
            PackageError::ChecksumMismatch { name: en, version: ev, expected: ee, actual: ea },
        ) && en@ == name && ev@ == version && ee@ == expected && ea@ == spec_checksum(data),
{
}

} // verus!
