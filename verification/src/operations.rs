//! Push- and pull-side plumbing around the pipelines: command-line package
//! identities, endpoint normalization, the keys and digest of an upload, the
//! identity check on a pulled manifest, and recording an encryption's salt and
//! nonce in the manifest that travels with the artifact.

use vstd::prelude::*;

use crate::checksum::spec_checksum;
use crate::errors::PackageError;
use crate::keys::{spec_artifact_key, spec_checksum_key};
use crate::models::{EncryptionConfig, PackageMetadata};
use crate::security::EncryptedPayload;
use crate::strutil::{is_prefix_of, str_starts_with};

verus! {

/// The index of the first `'@'` in `s`, or -1 if none occurs.
pub open spec fn first_at(s: Seq<char>) -> int
    decreases s.len(),
{
    if s.len() == 0 {
        -1
    } else if s[0] == '@' {
        0
    } else {
        let rest = first_at(s.drop_first());
        if rest < 0 {
            -1
        } else {
            rest + 1
        }
    }
}

/// The first `'@'` index is in range, holds an `'@'`, is minimal, and exists
/// exactly when the text holds one at all.
pub proof fn lemma_first_at(s: Seq<char>)
    ensures
        first_at(s) == -1 <==> (forall|j: int| 0 <= j < s.len() ==> s[j] != '@'),
        first_at(s) >= 0 ==> {
            &&& first_at(s) < s.len()
            &&& s[first_at(s)] == '@'
            &&& forall|j: int| 0 <= j < first_at(s) ==> s[j] != '@'
        },
    decreases s.len(),
{
    if s.len() > 0 && s[0] != '@' {
        lemma_first_at(s.drop_first());
        let rest = s.drop_first();
        assert(forall|i: int| 0 <= i < rest.len() ==> rest[i] == s[i + 1]);
        if first_at(s) == -1 {
            assert forall|j: int| 0 <= j < s.len() implies s[j] != '@' by {
                if j > 0 {
                    assert(rest[j - 1] != '@');
                }
            }
        }
        if first_at(s) >= 0 {
            assert forall|j: int| 0 <= j < first_at(s) implies s[j] != '@' by {
                if j > 0 {
                    assert(rest[j - 1] != '@');
                }
            }
        }
        if forall|j: int| 0 <= j < s.len() ==> s[j] != '@' {
            assert(forall|j: int| 0 <= j < rest.len() ==> rest[j] != '@');
        }
    }
}

/// Splits a command-line package identity `name@version` at its first
/// separator; text with no separator is rejected.
pub fn parse_package_spec(text: &str) -> (r: Result<(String, String), PackageError>)
    ensures
        first_at(text@) < 0 ==> (r matches Err(PackageError::InvalidPackageSpec { raw }) && raw@
            == text@),
        first_at(text@) >= 0 ==> (r matches Ok(nv) && nv.0@ == text@.subrange(0, first_at(text@))
            && nv.1@ == text@.subrange(first_at(text@) + 1, text@.len() as int)),
{
    proof {
        lemma_first_at(text@);
    }
    let n = text.unicode_len();
    let mut i: usize = 0;
    while i < n
        invariant
            0 <= i <= n,
            n == text@.len(),
            forall|j: int| 0 <= j < i ==> text@[j] != '@',
        decreases n - i,
    {
        if text.get_char(i) == '@' {
            proof {
                lemma_first_at(text@);
                let fa = first_at(text@);
                assert(!(fa < i) && !(i < fa));
            }
            let name = text.substring_char(0, i).to_owned();
            let version = text.substring_char(i + 1, n).to_owned();
            return Ok((name, version));
        }
        i = i + 1;
    }
    proof {
        lemma_first_at(text@);
    }
    Err(PackageError::InvalidPackageSpec { raw: text.to_owned() })
}

/// The scheme prefix of a plain HTTP endpoint.
pub open spec fn http_prefix() -> Seq<char> {
    seq!['h', 't', 't', 'p', ':', '/', '/']
}

/// The scheme prefix assumed where an endpoint names none.
pub open spec fn https_prefix() -> Seq<char> {
    seq!['h', 't', 't', 'p', 's', ':', '/', '/']
}

/// The text without its trailing slashes.
pub open spec fn trim_trailing_slashes(s: Seq<char>) -> Seq<char>
    decreases s.len(),
{
    if s.len() > 0 && s[s.len() - 1] == '/' {
        trim_trailing_slashes(s.drop_last())
    } else {
        s
    }
}

/// A usable endpoint: the text under an assumed secure scheme where it names
/// none, with trailing slashes dropped.
pub open spec fn spec_normalized_endpoint(e: Seq<char>) -> Seq<char> {
    if is_prefix_of(http_prefix(), e) || is_prefix_of(https_prefix(), e) {
        trim_trailing_slashes(e)
    } else {
        trim_trailing_slashes(https_prefix() + e)
    }
}

/// Normalizes an endpoint: a missing scheme becomes the secure one, and
/// trailing slashes are dropped.
pub fn normalize_endpoint(endpoint: &str) -> (r: String)
    ensures
        r@ == spec_normalized_endpoint(endpoint@),
{
    proof {
        reveal_strlit("http://");
        reveal_strlit("https://");
        assert("http://"@ =~= http_prefix());
        assert("https://"@ =~= https_prefix());
    }
    let has_scheme = str_starts_with(endpoint, "http://") || str_starts_with(
        endpoint,
        "https://",
    );
    let base = if has_scheme {
        endpoint.to_owned()
    } else {
        let mut b = String::from_str("https://");
        b.append(endpoint);
        b
    };
    let ghost bview = base@;
    proof {
        assert(has_scheme ==> bview == endpoint@);
        assert(!has_scheme ==> bview == https_prefix() + endpoint@);
    }
    let n = base.as_str().unicode_len();
    let mut k = n;
    proof {
        assert(bview.subrange(0, n as int) =~= bview);
    }
    let mut stop = false;
    while !stop && k > 0
        invariant
            0 <= k <= n,
            n == bview.len(),
            bview == base@,
            trim_trailing_slashes(bview) == trim_trailing_slashes(bview.subrange(0, k as int)),
            stop ==> k > 0 && bview[k - 1] != '/',
        decreases k + (if stop { 0int } else { 1int }),
    {
        if base.as_str().get_char(k - 1) != '/' {
            stop = true;
        } else {
            proof {
                assert(bview.subrange(0, k as int).last() == '/');
                assert(bview.subrange(0, k as int).drop_last() =~= bview.subrange(0, k - 1));
            }
            k = k - 1;
        }
    }
    proof {
        if k > 0 {
            assert(bview.subrange(0, k as int).last() == bview[k - 1]);
        }
        assert(trim_trailing_slashes(bview.subrange(0, k as int)) == bview.subrange(0, k as int));
    }
    base.as_str().substring_char(0, k).to_owned()
}

/// Where an upload goes and what travels beside it: the artifact key, the
/// sibling digest key, and the digest text of the exact bytes handed over.
#[derive(Debug)]
pub struct PushArtifacts {
    pub artifact_key: String,
    pub checksum_key: String,
    pub checksum: String,
}

/// Prepares an upload of (name, version) with the given final content — after
/// any encryption — naming both store keys and the digest of those bytes.
pub fn prepare_push_artifacts(name: &str, version: &str, content: &Vec<u8>) -> (r: PushArtifacts)
    ensures
        r.artifact_key@ == spec_artifact_key(name@, version@),
        r.checksum_key@ == spec_checksum_key(spec_artifact_key(name@, version@)),
        r.checksum@ == spec_checksum(content@),
{
    let artifact_key = crate::keys::format_artifact_key(name, version);
    let checksum_key = crate::keys::format_checksum_key(artifact_key.as_str());
    let checksum = crate::checksum::compute_checksum(content);
    PushArtifacts { artifact_key, checksum_key, checksum }
}

/// The bytes that encrypted content occupies in the store: the UTF-8 encoding
/// of the base64 ciphertext text.
pub fn encrypted_content_bytes(payload: &EncryptedPayload) -> (r: Vec<u8>)
    ensures
        r@ == vstd::utf8::encode_utf8(payload.ciphertext@),
{
    payload.ciphertext.as_str().as_bytes_vec()
}

/// Checks that a pulled manifest declares the identity that was asked for.
pub fn verify_manifest_identity(m: &PackageMetadata, name: &str, version: &str) -> (r: Result<
    (),
    PackageError,
>)
    ensures
        r is Ok <==> m.name@ == name@ && m.version@ == version@,
        r is Err ==> (r matches Err(
            PackageError::MetadataMismatch { name: en, version: ev, found_name: fln, found_version: flv },
        ) && en@ == name@ && ev@ == version@ && fln@ == m.name@ && flv@ == m.version@),
{
    if crate::strutil::str_eq(m.name.as_str(), name) && crate::strutil::str_eq(
        m.version.as_str(),
        version,
    ) {
        Ok(())
    } else {
        Err(
            PackageError::MetadataMismatch {
                name: name.to_owned(),
                version: version.to_owned(),
                found_name: m.name.clone(),
                found_version: m.version.clone(),
            },
        )
    }
}

/// Copies an optional text.
fn clone_opt_string(o: &Option<String>) -> (r: Option<String>)
    ensures
        r == *o,
{
    match o {
        Some(s) => Some(s.clone()),
        None => None,
    }
}

/// Records what an encryption produced in the manifest that travels with the
/// artifact: the salt and the nonce move in, ciphertext aside, and everything
/// else in the manifest stays as it was.
pub fn record_encryption(m: &mut PackageMetadata, payload: &EncryptedPayload)
    requires
        old(m).encryption is Some,
    ensures
        final (m).encryption matches Some(c) && {
            let c0 = old(m).encryption.unwrap();
            &&& c.algorithm == c0.algorithm
            &&& c.enabled == c0.enabled
            &&& c.encrypted_password == c0.encrypted_password
            &&& c.salt matches Some(s) && s@ == payload.salt@
            &&& c.nonce matches Some(x) && x@ == payload.nonce@
        },
        final (m).name == old(m).name,
        final (m).version == old(m).version,
        final (m).author == old(m).author,
        final (m).description == old(m).description,
        final (m).includes == old(m).includes,
        final (m).excludes == old(m).excludes,
        final (m).dependencies == old(m).dependencies,
{
    let (algorithm, enabled, encrypted_password) = match &m.encryption {
        Some(c) => (clone_opt_string(&c.algorithm), c.enabled, clone_opt_string(
            &c.encrypted_password,
        )),
        None => (None, false, None),
    };
    m.encryption = Some(
        EncryptionConfig {
            algorithm,
            enabled,
            encrypted_password,
            salt: Some(payload.salt.clone()),
            nonce: Some(payload.nonce.clone()),
        },
    );
}

/// Law: the digest text written beside an artifact at push time verifies
/// against the same bytes at pull time.
pub proof fn lemma_push_pull_checksum(
    content: Seq<u8>,
    expected: Seq<char>,
    name: Seq<char>,
    version: Seq<char>,
    r: Result<(), PackageError>,
)
    requires
        expected == spec_checksum(content),
        crate::checksum::checksum_verdict(content, expected, name, version, r),
    ensures
        r is Ok,
{
}

} // verus!
