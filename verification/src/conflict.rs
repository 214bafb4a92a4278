//! The conflict resolver: decides whether a push of (name, version) may
//! proceed, given the current catalog. Versions are compared as semantic
//! versions through the semver crate; existing versions that do not parse are
//! ignored rather than rejected.

use vstd::prelude::*;

use crate::errors::PackageError;
use crate::models::{catalog_has, package_is, Package};

verus! {

/// The resolver's verdict on a requested (name, version).
#[derive(Debug)]
pub enum PackageConflictStatus {
    /// Nothing stands in the way of the push.
    NoConflict,
    /// Exactly this (name, version) already exists.
    VersionExists,
    /// A strictly higher version of the same name exists; carries one such
    /// existing version.
    HigherVersionExists(String),
}

/// Whether the text parses as a semantic version.
/// The meaning is fixed by semver::Version::parse and never stated here.
pub uninterp spec fn semver_parses(s: Seq<char>) -> bool;

/// Whether version text `a` precedes version text `b` in semantic-version
/// precedence; meaningful only where both parse. The meaning is fixed by the
/// order on semver::Version.
pub uninterp spec fn semver_lt(a: Seq<char>, b: Seq<char>) -> bool;

/// Relies on semver::Version::parse: reports whether the text is a valid
/// semantic version.
#[verifier::external_body]
fn semver_parse_ok(s: &str) -> (r: bool)
    ensures
        r == semver_parses(s@),
{
    semver::Version::parse(s).is_ok()
}

/// Relies on semver::Version::parse and the total order on semver::Version:
/// reports whether version `a` sorts strictly below version `b`.
#[verifier::external_body]
fn semver_less(a: &str, b: &str) -> (r: bool)
    requires
        semver_parses(a@),
        semver_parses(b@),
    ensures
        r == semver_lt(a@, b@),
{
    match (semver::Version::parse(a), semver::Version::parse(b)) {
        (Ok(va), Ok(vb)) => va < vb,
        _ => false,
    }
}

/// Whether any catalog entry carries this name.
pub open spec fn has_same_name(cat: Seq<Package>, name: Seq<char>) -> bool {
    exists|i: int| 0 <= i < cat.len() && (#[trigger] cat[i]).name@ == name
}

/// Whether the entry at `i` is a candidate for the report: a same-name entry
/// whose version parses and sorts strictly above `v`.
pub open spec fn candidate_at(cat: Seq<Package>, name: Seq<char>, v: Seq<char>, i: int) -> bool {
    &&& 0 <= i < cat.len()
    &&& cat[i].name@ == name
    &&& semver_parses(cat[i].version@)
    &&& semver_lt(v, cat[i].version@)
}

/// Whether no same-name parsed version sorts strictly above the entry at `i`.
pub open spec fn undominated_at(cat: Seq<Package>, name: Seq<char>, i: int) -> bool {
    forall|t: int|
        0 <= t < cat.len() && (#[trigger] cat[t]).name@ == name && semver_parses(cat[t].version@)
            ==> !semver_lt(cat[i].version@, cat[t].version@)
}

/// Whether some same-name entry holds a parsing version strictly above `v`.
pub open spec fn higher_exists(cat: Seq<Package>, name: Seq<char>, v: Seq<char>) -> bool {
    exists|i: int|
        0 <= i < cat.len() && (#[trigger] cat[i]).name@ == name && semver_parses(cat[i].version@)
            && semver_lt(v, cat[i].version@)
}

/// What the reported higher version `h` satisfies: it belongs to a same-name
/// entry above `v`, and — wherever any candidate is undominated, as one always
/// is under a total version order — no same-name parsed version sorts above
/// `h` itself.
pub open spec fn highest_reported(cat: Seq<Package>, name: Seq<char>, v: Seq<char>, h: Seq<char>) -> bool {
    &&& is_higher_than(cat, name, v, h)
    &&& ((exists|k: int|
        #[trigger] candidate_at(cat, name, v, k) && undominated_at(cat, name, k)) ==> forall|t: int|
        0 <= t < cat.len() && (#[trigger] cat[t]).name@ == name && semver_parses(cat[t].version@)
            ==> !semver_lt(h, cat[t].version@))
}

/// Whether `h` is the version of some same-name entry, parses, and sorts
/// strictly above `v`.
pub open spec fn is_higher_than(cat: Seq<Package>, name: Seq<char>, v: Seq<char>, h: Seq<char>) -> bool {
    exists|i: int|
        0 <= i < cat.len() && (#[trigger] cat[i]).name@ == name && cat[i].version@ == h
            && semver_parses(h) && semver_lt(v, h)
}

/// The index of the first catalog entry carrying (name, version), or -1.
pub open spec fn first_pkg_idx(cat: Seq<Package>, name: Seq<char>, v: Seq<char>) -> int
    decreases cat.len(),
{
    if cat.len() == 0 {
        -1
    } else if package_is(cat[0], name, v) {
        0
    } else {
        let rest = first_pkg_idx(cat.drop_first(), name, v);
        if rest < 0 {
            -1
        } else {
            rest + 1
        }
    }
}

/// The first matching index is in range, matches, is minimal, and exists
/// exactly when the catalog holds the pair.
pub proof fn lemma_first_pkg_idx(cat: Seq<Package>, name: Seq<char>, v: Seq<char>)
    ensures
        first_pkg_idx(cat, name, v) == -1 <==> !catalog_has(cat, name, v),
        first_pkg_idx(cat, name, v) >= 0 ==> {
            let fi = first_pkg_idx(cat, name, v);
            &&& fi < cat.len()
            &&& package_is(cat[fi], name, v)
            &&& forall|j: int| 0 <= j < fi ==> !package_is(#[trigger] cat[j], name, v)
        },
    decreases cat.len(),
{
    if cat.len() == 0 {
    } else if package_is(cat[0], name, v) {
    } else {
        lemma_first_pkg_idx(cat.drop_first(), name, v);
        let rest = cat.drop_first();
        assert(forall|i: int| 0 <= i < rest.len() ==> rest[i] == cat[i + 1]);
        if catalog_has(rest, name, v) {
            let i = choose|i: int| 0 <= i < rest.len() && package_is(#[trigger] rest[i], name, v);
            assert(package_is(cat[i + 1], name, v));
        }
        if catalog_has(cat, name, v) {
            let i = choose|i: int| 0 <= i < cat.len() && package_is(#[trigger] cat[i], name, v);
            assert(i != 0);
            assert(package_is(rest[i - 1], name, v));
        }
        if first_pkg_idx(cat, name, v) >= 0 {
            let fi = first_pkg_idx(cat, name, v);
            assert forall|j: int| 0 <= j < fi implies !package_is(#[trigger] cat[j], name, v) by {
                if j > 0 {
                    assert(!package_is(rest[j - 1], name, v));
                }
            }
        }
    }
}

/// What the resolver promises: which verdict or failure comes back on each
/// shape of catalog, in the order the rules are consulted — same-name
/// presence, then the exact pair (with its lock), then semantic-version
/// comparison against every same-name entry that parses.
pub open spec fn conflict_post(
    cat: Seq<Package>,
    name: Seq<char>,
    v: Seq<char>,
    r: Result<PackageConflictStatus, PackageError>,
) -> bool {
    let fi = first_pkg_idx(cat, name, v);
    &&& (!has_same_name(cat, name) ==> r matches Ok(PackageConflictStatus::NoConflict))
    &&& (has_same_name(cat, name) && fi >= 0 && cat[fi].is_locked ==> (r matches Err(
        PackageError::PackageLocked { name: en, version: ev, reason: er },
    ) && en@ == name && ev@ == v && (match cat[fi].lock_reason {
        Some(s) => er@ == s@,
        None => er@ == "Unknown"@,
    })))
    &&& (has_same_name(cat, name) && fi >= 0 && !cat[fi].is_locked ==> r matches Ok(
        PackageConflictStatus::VersionExists,
    ))
    &&& (has_same_name(cat, name) && fi < 0 && !semver_parses(v) ==> (r matches Err(
        PackageError::InvalidVersion { version: ev },
    ) && ev@ == v))
    &&& (has_same_name(cat, name) && fi < 0 && semver_parses(v) && higher_exists(cat, name, v)
        ==> (r matches Ok(PackageConflictStatus::HigherVersionExists(h)) && highest_reported(
        cat,
        name,
        v,
        h@,
    )))
    &&& (has_same_name(cat, name) && fi < 0 && semver_parses(v) && !higher_exists(cat, name, v)
        ==> r matches Ok(PackageConflictStatus::NoConflict))
}

/// Whether any catalog entry carries this name.
fn catalog_has_name(cat: &Vec<Package>, name: &str) -> (r: bool)
    ensures
        r == has_same_name(cat@, name@),
{
    let mut i: usize = 0;
    while i < cat.len()
        invariant
            0 <= i <= cat@.len(),
            forall|j: int| 0 <= j < i ==> (#[trigger] cat@[j]).name@ != name@,
        decreases cat@.len() - i,
    {
        if crate::strutil::str_eq(cat[i].name.as_str(), name) {
            return true;
        }
        i = i + 1;
    }
    false
}

/// Decides whether a push of (name, version) conflicts with the catalog:
/// no same-name entry means no conflict; the exact pair fails when locked and
/// reports `VersionExists` otherwise; a requested version that does not parse
/// is rejected; otherwise any strictly higher parsed same-name version is
/// reported, and the absence of one means no conflict.
pub fn check_package_conflict(cat: &Vec<Package>, package_name: &str, version: &str) -> (r: Result<
    PackageConflictStatus,
    PackageError,
>)
    ensures
        conflict_post(cat@, package_name@, version@, r),
{
    proof {
        lemma_first_pkg_idx(cat@, package_name@, version@);
    }
    if !catalog_has_name(cat, package_name) {
        return Ok(PackageConflictStatus::NoConflict);
    }
    match crate::catalog::find_package_index(cat, package_name, version) {
        Some(i) => {
            proof {
                assert(package_is(cat@[i as int], package_name@, version@));
                let fi = first_pkg_idx(cat@, package_name@, version@);
                assert(fi >= 0);
                assert(!(fi < i) && !(i < fi));
            }
            let p = &cat[i];
            if p.is_locked {
                let reason = match &p.lock_reason {
                    Some(s) => s.clone(),
                    None => String::from_str("Unknown"),
                };
                Err(PackageError::PackageLocked {
                    name: package_name.to_owned(),
                    version: version.to_owned(),
                    reason,
                })
            } else {
                Ok(PackageConflictStatus::VersionExists)
            }
        },
        None => {
            proof {
                assert(!catalog_has(cat@, package_name@, version@));
            }
            if !semver_parse_ok(version) {
                return Err(PackageError::InvalidVersion { version: version.to_owned() });
            }
            // Look for a candidate that no same-name parsed version exceeds.
            // Each inner scan compares the candidate against every entry, so
            // its verdict stands on the comparisons actually made.
            let n = cat.len();
            let mut first_higher: Option<String> = None;
            let mut i: usize = 0;
            while i < n
        invariant
            0 <= i <= n,
            n == cat@.len(),
            semver_parses(version@),
            has_same_name(cat@, package_name@),
            first_pkg_idx(cat@, package_name@, version@) < 0,
            forall|k: int|
                0 <= k < i ==> !(#[trigger] candidate_at(cat@, package_name@, version@, k)
                    && undominated_at(cat@, package_name@, k)),
            first_higher is None ==> forall|k: int|
                0 <= k < i ==> !candidate_at(cat@, package_name@, version@, k),
            first_higher matches Some(hh) ==> is_higher_than(cat@, package_name@, version@, hh@),
        decreases n - i,
            {
                let p = &cat[i];
                let is_cand = crate::strutil::str_eq(p.name.as_str(), package_name)
                    && semver_parse_ok(p.version.as_str()) && semver_less(
                    version,
                    p.version.as_str(),
                );
                if is_cand {
                    proof {
                        assert(candidate_at(cat@, package_name@, version@, i as int));
                    }
                    if first_higher.is_none() {
                        first_higher = Some(p.version.clone());
                    }
                    let mut dominated = false;
                    let ghost mut wit: int = 0;
                    let mut j: usize = 0;
                    while j < n && !dominated
                invariant
                    0 <= j <= n,
                    i < n,
                    n == cat@.len(),
                    candidate_at(cat@, package_name@, version@, i as int),
                    p == &cat@[i as int],
                    !dominated ==> forall|t: int|
                        0 <= t < j ==> !((#[trigger] cat@[t]).name@ == package_name@
                            && semver_parses(cat@[t].version@) && semver_lt(
                            cat@[i as int].version@,
                            cat@[t].version@,
                        )),
                    dominated ==> 0 <= wit < n && cat@[wit].name@ == package_name@
                        && semver_parses(cat@[wit].version@) && semver_lt(
                        cat@[i as int].version@,
                        cat@[wit].version@,
                    ),
                decreases n - j + (if dominated { 0int } else { 1int }),
                    {
                        let q = &cat[j];
                        if crate::strutil::str_eq(q.name.as_str(), package_name)
                            && semver_parse_ok(q.version.as_str()) && semver_less(
                            p.version.as_str(),
                            q.version.as_str(),
                        ) {
                            dominated = true;
                            proof {
                                wit = j as int;
                            }
                        }
                        j = j + 1;
                    }
                    if !dominated {
                        proof {
                            assert(undominated_at(cat@, package_name@, i as int));
                            assert(is_higher_than(
                                cat@,
                                package_name@,
                                version@,
                                cat@[i as int].version@,
                            ));
                        }
                        return Ok(PackageConflictStatus::HigherVersionExists(p.version.clone()));
                    }
                    proof {
                        assert(!undominated_at(cat@, package_name@, i as int));
                    }
                }
                i = i + 1;
            }
            match first_higher {
                Some(h) => {
                    proof {
                        if exists|k: int|
                            #[trigger] candidate_at(cat@, package_name@, version@, k)
                                && undominated_at(cat@, package_name@, k) {
                            let k = choose|k: int|
                                #[trigger] candidate_at(cat@, package_name@, version@, k)
                                    && undominated_at(cat@, package_name@, k);
                            assert(false);
                        }
                    }
                    Ok(PackageConflictStatus::HigherVersionExists(h))
                },
                None => {
                    proof {
                        assert forall|k: int|
                            0 <= k < cat@.len() implies !((#[trigger] cat@[k]).name@
                            == package_name@ && semver_parses(cat@[k].version@) && semver_lt(
                            version@,
                            cat@[k].version@,
                        )) by {
                            assert(!candidate_at(cat@, package_name@, version@, k));
                        }
                        assert(!higher_exists(cat@, package_name@, version@));
                    }
                    Ok(PackageConflictStatus::NoConflict)
                },
            }
        },
    }
}

/// What the push policy promises when not forced: the resolver's verdicts are
/// turned into failures for everything but a clean `NoConflict`.
pub open spec fn push_post(
    cat: Seq<Package>,
    name: Seq<char>,
    v: Seq<char>,
    r: Result<(), PackageError>,
) -> bool {
    let fi = first_pkg_idx(cat, name, v);
    &&& (!has_same_name(cat, name) ==> r is Ok)
    &&& (has_same_name(cat, name) && fi >= 0 && cat[fi].is_locked ==> (r matches Err(
        PackageError::PackageLocked { name: en, version: ev, reason: er },
    ) && en@ == name && ev@ == v && (match cat[fi].lock_reason {
        Some(s) => er@ == s@,
        None => er@ == "Unknown"@,
    })))
    &&& (has_same_name(cat, name) && fi >= 0 && !cat[fi].is_locked ==> (r matches Err(
        PackageError::VersionExists { name: en, version: ev },
    ) && en@ == name && ev@ == v))
    &&& (has_same_name(cat, name) && fi < 0 && !semver_parses(v) ==> (r matches Err(
        PackageError::InvalidVersion { version: ev },
    ) && ev@ == v))
    &&& (has_same_name(cat, name) && fi < 0 && semver_parses(v) && higher_exists(cat, name, v)
        ==> (r matches Err(PackageError::HigherVersionExists { name: en, version: ev, existing: eh })
        && en@ == name && ev@ == v && highest_reported(cat, name, v, eh@)))
    &&& (has_same_name(cat, name) && fi < 0 && semver_parses(v) && !higher_exists(cat, name, v)
        ==> r is Ok)
}

/// The push policy: a forced push bypasses the resolver entirely, lock state
/// included; a normal push goes through only on `NoConflict`.
pub fn check_push_allowed(cat: &Vec<Package>, package_name: &str, version: &str, force: bool) -> (r:
    Result<(), PackageError>)
    ensures
        force ==> r is Ok,
        !force ==> push_post(cat@, package_name@, version@, r),
{
    if force {
        return Ok(());
    }
    match check_package_conflict(cat, package_name, version) {
        Ok(PackageConflictStatus::NoConflict) => Ok(()),
        Ok(PackageConflictStatus::VersionExists) => Err(PackageError::VersionExists {
            name: package_name.to_owned(),
            version: version.to_owned(),
        }),
        Ok(PackageConflictStatus::HigherVersionExists(h)) => Err(
            PackageError::HigherVersionExists {
                name: package_name.to_owned(),
                version: version.to_owned(),
                existing: h,
            },
        ),
        Err(e) => Err(e),
    }
}

/// Law: a name with no catalog entry at all resolves to `NoConflict`,
/// whatever the requested version looks like.
pub proof fn lemma_absent_name_no_conflict(
    cat: Seq<Package>,
    name: Seq<char>,
    v: Seq<char>,
    r: Result<PackageConflictStatus, PackageError>,
)
    requires
        conflict_post(cat, name, v, r),
        !has_same_name(cat, name),
    ensures
        r matches Ok(PackageConflictStatus::NoConflict),
{
}

/// Law: re-pushing a present, unlocked (name, version) resolves to
/// `VersionExists`.
pub proof fn lemma_repush_same_version(
    cat: Seq<Package>,
    name: Seq<char>,
    v: Seq<char>,
    r: Result<PackageConflictStatus, PackageError>,
)
    requires
        conflict_post(cat, name, v, r),
        catalog_has(cat, name, v),
        !cat[first_pkg_idx(cat, name, v)].is_locked,
    ensures
        r matches Ok(PackageConflictStatus::VersionExists),
{
    lemma_first_pkg_idx(cat, name, v);
    let i = choose|i: int| 0 <= i < cat.len() && package_is(#[trigger] cat[i], name, v);
    assert(cat[i].name@ == name);
}

/// Law: where the requested version parses, its exact pair is absent, and some
/// same-name entry carries `v2` — a version above the request that no
/// same-name parsed version reaches and that strictly exceeds every other —
/// the resolver names exactly `v2`.
pub proof fn lemma_highest_version_reported(
    cat: Seq<Package>,
    name: Seq<char>,
    v1: Seq<char>,
    v2: Seq<char>,
    r: Result<PackageConflictStatus, PackageError>,
)
    requires
        conflict_post(cat, name, v1, r),
        !catalog_has(cat, name, v1),
        semver_parses(v1),
        semver_parses(v2),
        semver_lt(v1, v2),
        exists|k: int| 0 <= k < cat.len() && (#[trigger] cat[k]).name@ == name && cat[k].version@ == v2,
        forall|t: int|
            0 <= t < cat.len() && (#[trigger] cat[t]).name@ == name && semver_parses(
                cat[t].version@,
            ) ==> !semver_lt(v2, cat[t].version@),
        forall|t: int|
            0 <= t < cat.len() && (#[trigger] cat[t]).name@ == name && semver_parses(
                cat[t].version@,
            ) && cat[t].version@ != v2 ==> semver_lt(cat[t].version@, v2),
    ensures
        r matches Ok(PackageConflictStatus::HigherVersionExists(h)) && h@ == v2,
{
    lemma_first_pkg_idx(cat, name, v1);
    let k2 = choose|k: int|
        0 <= k < cat.len() && (#[trigger] cat[k]).name@ == name && cat[k].version@ == v2;
    assert(candidate_at(cat, name, v1, k2));
    assert(undominated_at(cat, name, k2));
    assert(higher_exists(cat, name, v1));
    assert(has_same_name(cat, name));
    assert(r matches Ok(PackageConflictStatus::HigherVersionExists(h)) && highest_reported(
        cat,
        name,
        v1,
        h@,
    ));
    match r {
        Ok(PackageConflictStatus::HigherVersionExists(h)) => {
            let j = choose|j: int|
                0 <= j < cat.len() && (#[trigger] cat[j]).name@ == name && cat[j].version@ == h@
                    && semver_parses(h@) && semver_lt(v1, h@);
            assert(!semver_lt(h@, cat[k2].version@));
            if h@ != v2 {
                assert(semver_lt(cat[j].version@, v2));
            }
        },
        _ => {},
    }
}

/// Law: where the requested version parses, its exact pair is absent, and
/// exactly one same-name version stands above it, the resolver names that
/// version.
pub proof fn lemma_sole_higher_version_reported(
    cat: Seq<Package>,
    name: Seq<char>,
    v1: Seq<char>,
    v2: Seq<char>,
    r: Result<PackageConflictStatus, PackageError>,
)
    requires
        conflict_post(cat, name, v1, r),
        !catalog_has(cat, name, v1),
        semver_parses(v1),
        is_higher_than(cat, name, v1, v2),
        forall|i: int|
            0 <= i < cat.len() && (#[trigger] cat[i]).name@ == name && semver_parses(
                cat[i].version@,
            ) && semver_lt(v1, cat[i].version@) ==> cat[i].version@ == v2,
    ensures
        r matches Ok(PackageConflictStatus::HigherVersionExists(h)) && h@ == v2,
{
    lemma_first_pkg_idx(cat, name, v1);
    let i = choose|i: int|
        0 <= i < cat.len() && (#[trigger] cat[i]).name@ == name && cat[i].version@ == v2
            && semver_parses(v2) && semver_lt(v1, v2);
    assert(cat[i].name@ == name);
    assert(higher_exists(cat, name, v1));
    assert(r matches Ok(PackageConflictStatus::HigherVersionExists(h)) && is_higher_than(
        cat,
        name,
        v1,
        h@,
    ));
    match r {
        Ok(PackageConflictStatus::HigherVersionExists(h)) => {
            let j = choose|j: int|
                0 <= j < cat.len() && (#[trigger] cat[j]).name@ == name && cat[j].version@ == h@
                    && semver_parses(h@) && semver_lt(v1, h@);
            assert(cat[j].version@ == v2);
        },
        _ => {},
    }
}

} // verus!
