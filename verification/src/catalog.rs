//! The registry catalog: a fresh package listing derived on demand from the
//! raw object-store entries. Every key that ends in the artifact suffix and
//! splits on its last separator becomes one catalog entry; other keys are
//! silently skipped.

use vstd::prelude::*;

use crate::keys::{key_name_of, key_parses, key_version_of, parse_artifact_key};
use crate::models::{lock_is_for, LockedPackage, Package, Storage};
use crate::strutil::str_eq;

verus! {

/// One raw object-store entry, as the listing reports it.
#[derive(Debug)]
pub struct ObjectEntry {
    pub key: String,
    pub size: Option<u64>,
    pub last_modified: Option<String>,
}

/// How one catalog entry is derived from one raw entry whose key parses: the
/// identity comes from the key, the storage descriptor from the listing, and
/// everything the manifest would supply is left empty.
pub open spec fn package_from_entry(e: ObjectEntry, p: Package) -> bool {
    &&& key_parses(e.key@)
    &&& p.name@ == key_name_of(e.key@)
    &&& p.version@ == key_version_of(e.key@)
    &&& p.author@ == Seq::<char>::empty()
    &&& p.description@ == Seq::<char>::empty()
    &&& p.dependencies@ == Seq::<(String, String)>::empty()
    &&& p.storage.path == e.key
    &&& p.storage.checksum@ == Seq::<char>::empty()
    &&& (match e.size {
        Some(s) => p.storage.size == s,
        None => p.storage.size == 0,
    })
    &&& (match e.last_modified {
        Some(m) => p.storage.created_at == m,
        None => p.storage.created_at@ == Seq::<char>::empty(),
    })
    &&& p.is_locked == false
    &&& p.lock_reason is None
}

/// The catalog relation: `cat` lists, in order, one package per raw entry
/// whose key parses as an artifact key.
pub open spec fn is_catalog_of(entries: Seq<ObjectEntry>, cat: Seq<Package>) -> bool
    decreases entries.len(),
{
    if entries.len() == 0 {
        cat.len() == 0
    } else if key_parses(entries.last().key@) {
        &&& cat.len() > 0
        &&& package_from_entry(entries.last(), cat.last())
        &&& is_catalog_of(entries.drop_last(), cat.drop_last())
    } else {
        is_catalog_of(entries.drop_last(), cat)
    }
}

/// A well-formed catalog: every entry's storage key decomposes back to the
/// entry's own (name, version).
pub open spec fn catalog_wf(cat: Seq<Package>) -> bool {
    forall|i: int|
        0 <= i < cat.len() ==> {
            &&& key_parses((#[trigger] cat[i]).storage.path@)
            &&& key_name_of(cat[i].storage.path@) == cat[i].name@
            &&& key_version_of(cat[i].storage.path@) == cat[i].version@
        }
}

/// Law: any catalog derived from a listing is well-formed.
pub proof fn lemma_catalog_of_wf(entries: Seq<ObjectEntry>, cat: Seq<Package>)
    requires
        is_catalog_of(entries, cat),
    ensures
        catalog_wf(cat),
    decreases entries.len(),
{
    if entries.len() > 0 {
        if key_parses(entries.last().key@) {
            lemma_catalog_of_wf(entries.drop_last(), cat.drop_last());
            assert forall|i: int| 0 <= i < cat.len() implies {
                &&& key_parses((#[trigger] cat[i]).storage.path@)
                &&& key_name_of(cat[i].storage.path@) == cat[i].name@
                &&& key_version_of(cat[i].storage.path@) == cat[i].version@
            } by {
                if i < cat.len() - 1 {
                    assert(cat.drop_last()[i] == cat[i]);
                }
            }
        } else {
            lemma_catalog_of_wf(entries.drop_last(), cat);
        }
    }
}

/// Derives the package listing from the raw object-store entries. Keys that do
/// not decompose are skipped; the rest appear in listing order.
pub fn catalog_from_entries(entries: &Vec<ObjectEntry>) -> (r: Vec<Package>)
    ensures
        is_catalog_of(entries@, r@),
{
    let mut r: Vec<Package> = Vec::new();
    let ghost all = entries@;
    let mut i: usize = 0;
    proof {
        assert(all.subrange(0, 0) =~= Seq::<ObjectEntry>::empty());
    }
    while i < entries.len()
        invariant
            0 <= i <= entries.len(),
            all == entries@,
            is_catalog_of(all.subrange(0, i as int), r@),
        decreases entries.len() - i,
    {
        let e = &entries[i];
        proof {
            assert(all.subrange(0, i + 1).drop_last() =~= all.subrange(0, i as int));
            assert(all.subrange(0, i + 1).last() == all[i as int]);
        }
        match parse_artifact_key(&e.key) {
            Some((name, version)) => {
                let size = match e.size {
                    Some(s) => s,
                    None => 0,
                };
                let created_at = match &e.last_modified {
                    Some(m) => m.clone(),
                    None => String::new(),
                };
                let p = Package {
                    name,
                    version,
                    author: String::new(),
                    description: String::new(),
                    dependencies: Vec::new(),
                    storage: Storage {
                        path: e.key.clone(),
                        checksum: String::new(),
                        size,
                        created_at,
                    },
                    is_locked: false,
                    lock_reason: None,
                };
                proof {
                    assert(package_from_entry(all[i as int], p));
                }
                let ghost r0 = r@;
                r.push(p);
                proof {
                    assert(r@.drop_last() =~= r0);
                    assert(r@.last() == p);
                }
            },
            None => {},
        }
        i = i + 1;
    }
    proof {
        assert(all.subrange(0, entries@.len() as int) =~= all);
    }
    r
}

/// The index of the first lock record for (name, version), if one exists.
pub fn find_lock_index(locks: &Vec<LockedPackage>, name: &str, version: &str) -> (r: Option<
    usize,
>)
    ensures
        (match r {
            Some(i) => {
                &&& i < locks@.len()
                &&& lock_is_for(locks@[i as int], name@, version@)
                &&& forall|j: int| 0 <= j < i ==> !lock_is_for(#[trigger] locks@[j], name@, version@)
            },
            None => forall|j: int|
                0 <= j < locks@.len() ==> !lock_is_for(#[trigger] locks@[j], name@, version@),
        }),
{
    let mut i: usize = 0;
    while i < locks.len()
        invariant
            0 <= i <= locks@.len(),
            forall|j: int| 0 <= j < i ==> !lock_is_for(#[trigger] locks@[j], name@, version@),
        decreases locks@.len() - i,
    {
        let lp = &locks[i];
        if str_eq(lp.name.as_str(), name) && str_eq(lp.version.as_str(), version) {
            return Some(i);
        }
        i = i + 1;
    }
    None
}

/// The index of the first catalog entry carrying (name, version), if any.
pub fn find_package_index(cat: &Vec<Package>, name: &str, version: &str) -> (r: Option<usize>)
    ensures
        (match r {
            Some(i) => {
                &&& i < cat@.len()
                &&& cat@[i as int].name@ == name@
                &&& cat@[i as int].version@ == version@
                &&& forall|j: int|
                    0 <= j < i ==> !((#[trigger] cat@[j]).name@ == name@ && cat@[j].version@
                        == version@)
            },
            None => forall|j: int|
                0 <= j < cat@.len() ==> !((#[trigger] cat@[j]).name@ == name@ && cat@[j].version@
                    == version@),
        }),
{
    let mut i: usize = 0;
    while i < cat.len()
        invariant
            0 <= i <= cat@.len(),
            forall|j: int|
                0 <= j < i ==> !((#[trigger] cat@[j]).name@ == name@ && cat@[j].version@
                    == version@),
        decreases cat@.len() - i,
    {
        let p = &cat[i];
        if str_eq(p.name.as_str(), name) && str_eq(p.version.as_str(), version) {
            return Some(i);
        }
        i = i + 1;
    }
    None
}

/// How one catalog entry looks after the lock index has been applied to it:
/// identity and storage are unchanged; the lock flag and reason reflect the
/// first lock record for the entry's identity.
pub open spec fn lock_applied(p: Package, locks: Seq<LockedPackage>, q: Package) -> bool {
    &&& q.name == p.name
    &&& q.version == p.version
    &&& q.author == p.author
    &&& q.description == p.description
    &&& q.dependencies@ == p.dependencies@
    &&& q.storage == p.storage
    &&& q.is_locked == crate::models::is_locked_in(locks, p.name@, p.version@)
    &&& (if crate::models::is_locked_in(locks, p.name@, p.version@) {
        exists|k: int|
            {
                &&& 0 <= k < locks.len()
                &&& lock_is_for(#[trigger] locks[k], p.name@, p.version@)
                &&& (forall|j: int| 0 <= j < k ==> !lock_is_for(#[trigger] locks[j], p.name@, p.version@))
                &&& q.lock_reason == Some(locks[k].lock_reason)
            }
    } else {
        q.lock_reason is None
    })
}

/// Marks every catalog entry that the lock index protects, carrying the reason
/// of its first matching lock record; all other fields are preserved.
pub fn with_lock_state(cat: &Vec<Package>, locks: &Vec<LockedPackage>) -> (r: Vec<Package>)
    ensures
        r@.len() == cat@.len(),
        forall|i: int| 0 <= i < cat@.len() ==> lock_applied(cat@[i], locks@, #[trigger] r@[i]),
{
    let mut r: Vec<Package> = Vec::new();
    let mut i: usize = 0;
    while i < cat.len()
        invariant
            0 <= i <= cat@.len(),
            r@.len() == i,
            forall|j: int| 0 <= j < i ==> lock_applied(cat@[j], locks@, #[trigger] r@[j]),
        decreases cat@.len() - i,
    {
        let p = &cat[i];
        let found = find_lock_index(locks, p.name.as_str(), p.version.as_str());
        let (is_locked, lock_reason) = match found {
            Some(k) => (true, Some(locks[k].lock_reason.clone())),
            None => (false, None),
        };
        let mut dependencies: Vec<(String, String)> = Vec::new();
        let mut d: usize = 0;
        while d < p.dependencies.len()
            invariant
                0 <= d <= p.dependencies@.len(),
                dependencies@.len() == d,
                forall|j: int| 0 <= j < d ==> dependencies@[j] == p.dependencies@[j],
            decreases p.dependencies@.len() - d,
        {
            let (dn, dr) = (&p.dependencies[d].0, &p.dependencies[d].1);
            dependencies.push((dn.clone(), dr.clone()));
            d = d + 1;
        }
        proof {
            assert(dependencies@ =~= p.dependencies@);
        }
        let q = Package {
            name: p.name.clone(),
            version: p.version.clone(),
            author: p.author.clone(),
            description: p.description.clone(),
            dependencies,
            storage: Storage {
                path: p.storage.path.clone(),
                checksum: p.storage.checksum.clone(),
                size: p.storage.size,
                created_at: p.storage.created_at.clone(),
            },
            is_locked,
            lock_reason,
        };
        proof {
            assert(lock_applied(cat@[i as int], locks@, q));
        }
        r.push(q);
        i = i + 1;
    }
    r
}

} // verus!
