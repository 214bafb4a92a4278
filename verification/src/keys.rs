//! Object keys of artifacts. An artifact lives under `{name}-{version}.zip`;
//! the catalog recovers the identity by stripping the suffix and splitting the
//! remainder on the last separator. Keys with no separator in the stem are not
//! package artifacts and are silently skipped by callers.

use vstd::prelude::*;

verus! {

/// The fixed artifact suffix, as characters.
pub open spec fn artifact_suffix() -> Seq<char> {
    seq!['.', 'z', 'i', 'p']
}

/// The index of the last `'-'` in `s`, or `-1` if none occurs.
pub open spec fn last_dash_index(s: Seq<char>) -> int
    decreases s.len(),
{
    if s.len() == 0 {
        -1
    } else if s[s.len() - 1] == '-' {
        s.len() - 1
    } else {
        last_dash_index(s.drop_last())
    }
}

/// The stem of a key: everything before the artifact suffix.
pub open spec fn key_stem(k: Seq<char>) -> Seq<char> {
    k.subrange(0, k.len() - 4)
}

/// Whether a key decomposes into a package identity: it ends in the artifact
/// suffix and its stem contains a separator.
pub open spec fn key_parses(k: Seq<char>) -> bool {
    &&& k.len() >= 4
    &&& k.subrange(k.len() - 4, k.len() as int) == artifact_suffix()
    &&& last_dash_index(key_stem(k)) >= 0
}

/// The name encoded in a parsing key: the stem up to its last separator.
pub open spec fn key_name_of(k: Seq<char>) -> Seq<char> {
    key_stem(k).subrange(0, last_dash_index(key_stem(k)))
}

/// The version encoded in a parsing key: the stem after its last separator.
pub open spec fn key_version_of(k: Seq<char>) -> Seq<char> {
    key_stem(k).subrange(last_dash_index(key_stem(k)) + 1, key_stem(k).len() as int)
}

/// The canonical key under which an artifact for (name, version) is stored.
pub open spec fn spec_artifact_key(name: Seq<char>, version: Seq<char>) -> Seq<char> {
    name + seq!['-'] + version + artifact_suffix()
}

/// The key of the digest object stored beside an artifact key.
pub open spec fn spec_checksum_key(artifact_key: Seq<char>) -> Seq<char> {
    artifact_key + seq!['.', 's', 'h', 'a', '1']
}

proof fn lemma_last_dash_none(s: Seq<char>)
    requires
        forall|i: int| 0 <= i < s.len() ==> s[i] != '-',
    ensures
        last_dash_index(s) == -1,
    decreases s.len(),
{
    if s.len() > 0 {
        lemma_last_dash_none(s.drop_last());
    }
}

proof fn lemma_last_dash_in_range(s: Seq<char>)
    ensures
        -1 <= last_dash_index(s) < s.len(),
        last_dash_index(s) >= 0 ==> s[last_dash_index(s)] == '-',
        forall|i: int| last_dash_index(s) < i < s.len() ==> s[i] != '-',
    decreases s.len(),
{
    if s.len() > 0 && s[s.len() - 1] != '-' {
        lemma_last_dash_in_range(s.drop_last());
        assert forall|i: int| last_dash_index(s) < i < s.len() implies s[i] != '-' by {
            if i < s.len() - 1 {
                assert(s.drop_last()[i] != '-');
            }
        }
    }
}

/// Appending separator-free text does not move the last separator.
proof fn lemma_last_dash_append_no_dash(s: Seq<char>, t: Seq<char>)
    requires
        forall|i: int| 0 <= i < t.len() ==> t[i] != '-',
    ensures
        last_dash_index(s + t) == last_dash_index(s),
    decreases t.len(),
{
    if t.len() == 0 {
        assert(s + t =~= s);
    } else {
        assert((s + t).drop_last() =~= s + t.drop_last());
        lemma_last_dash_append_no_dash(s, t.drop_last());
    }
}

/// Builds the canonical artifact key `{name}-{version}.zip`.
pub fn format_artifact_key(name: &str, version: &str) -> (r: String)
    ensures
        r@ == spec_artifact_key(name@, version@),
{
    proof {
        reveal_strlit("-");
        reveal_strlit(".zip");
    }
    let mut r = name.to_owned();
    r.append("-");
    r.append(version);
    r.append(".zip");
    proof {
        assert("-"@ =~= seq!['-']);
        assert(".zip"@ =~= artifact_suffix());
        assert(r@ =~= spec_artifact_key(name@, version@));
    }
    r
}

/// Builds the key of the digest object stored beside the given artifact key.
pub fn format_checksum_key(artifact_key: &str) -> (r: String)
    ensures
        r@ == spec_checksum_key(artifact_key@),
{
    proof {
        reveal_strlit(".sha1");
    }
    let mut r = artifact_key.to_owned();
    r.append(".sha1");
    proof {
        assert(".sha1"@ =~= seq!['.', 's', 'h', 'a', '1']);
        assert(r@ =~= spec_checksum_key(artifact_key@));
    }
    r
}

/// Splits an object key into the package identity it encodes, if any: the key
/// must end in the artifact suffix and its stem must contain a separator.
pub fn parse_artifact_key(key: &str) -> (r: Option<(String, String)>)
    ensures
        r is Some <==> key_parses(key@),
        r is Some ==> r.unwrap().0@ == key_name_of(key@) && r.unwrap().1@ == key_version_of(key@),
{
    let n = key.unicode_len();
    if n < 4 {
        return None;
    }
    if !(key.get_char(n - 4) == '.' && key.get_char(n - 3) == 'z' && key.get_char(n - 2) == 'i'
        && key.get_char(n - 1) == 'p') {
        proof {
            assert(key@.subrange(n - 4, n as int) != artifact_suffix());
        }
        return None;
    }
    assert(key@.subrange(n - 4, n as int) =~= artifact_suffix());
    let stem_len = n - 4;
    let ghost stem = key_stem(key@);
    proof {
        assert(stem.subrange(0, stem_len as int) =~= stem);
    }
    // Scan the stem from its end for the last separator.
    let mut i = stem_len;
    while i > 0
        invariant
            0 <= i <= stem_len,
            stem_len == n - 4 <= key@.len(),
            n == key@.len(),
            stem =~= key@.subrange(0, stem_len as int),
            key@.subrange(n as int - 4, n as int) == artifact_suffix(),
            last_dash_index(stem) == last_dash_index(stem.subrange(0, i as int)),
        decreases i,
    {
        let c = key.get_char(i - 1);
        if c == '-' {
            let d = i - 1;
            proof {
                assert(stem.subrange(0, i as int).last() == '-');
                assert(last_dash_index(stem.subrange(0, i as int)) == i - 1);
            }
            let name = key.substring_char(0, d).to_owned();
            let version = key.substring_char(d + 1, stem_len).to_owned();
            proof {
                assert(name@ =~= key_name_of(key@));
                assert(version@ =~= key_version_of(key@));
            }
            return Some((name, version));
        }
        proof {
            assert(stem.subrange(0, i as int).last() != '-');
            assert(stem.subrange(0, i as int).drop_last() =~= stem.subrange(0, i - 1));
        }
        i = i - 1;
    }
    proof {
        assert(stem.subrange(0, 0) =~= Seq::<char>::empty());
        assert(last_dash_index(stem) == -1);
    }
    None
}

/// Law: the canonical key of any identity whose version holds no separator
/// decomposes back to exactly that identity.
pub proof fn lemma_key_round_trip(name: Seq<char>, version: Seq<char>)
    requires
        forall|i: int| 0 <= i < version.len() ==> version[i] != '-',
    ensures
        key_parses(spec_artifact_key(name, version)),
        key_name_of(spec_artifact_key(name, version)) == name,
        key_version_of(spec_artifact_key(name, version)) == version,
{
    let k = spec_artifact_key(name, version);
    let stem = name + seq!['-'] + version;
    assert(k.subrange(k.len() - 4, k.len() as int) =~= artifact_suffix());
    assert(key_stem(k) =~= stem);
    lemma_last_dash_append_no_dash(name + seq!['-'], version);
    assert((name + seq!['-']).last() == '-');
    assert(last_dash_index(name + seq!['-']) == name.len());
    assert(key_name_of(k) =~= name);
    assert(key_version_of(k) =~= version);
}

} // verus!
