//! Verified string utilities: equality, prefix testing, and the lexicographic
//! order (by character value) under which stored timestamps sort
//! chronologically.

use vstd::prelude::*;

verus! {

/// Character-wise string equality.
pub fn str_eq(a: &str, b: &str) -> (r: bool)
    ensures
        r == (a@ == b@),
{
    let an = a.unicode_len();
    let bn = b.unicode_len();
    if an != bn {
        return false;
    }
    let mut i: usize = 0;
    while i < an
        invariant
            0 <= i <= an,
            an == a@.len() && an == b@.len(),
            forall|j: int| 0 <= j < i ==> a@[j] == b@[j],
        decreases an - i,
    {
        if a.get_char(i) != b.get_char(i) {
            return false;
        }
        i = i + 1;
    }
    proof {
        assert(a@ =~= b@);
    }
    true
}

/// Whether `p` is a prefix of `s`.
pub open spec fn is_prefix_of(p: Seq<char>, s: Seq<char>) -> bool {
    p.len() <= s.len() && s.subrange(0, p.len() as int) == p
}

/// Whether `s` starts with `p`, character by character.
pub fn str_starts_with(s: &str, p: &str) -> (r: bool)
    ensures
        r == is_prefix_of(p@, s@),
{
    let sn = s.unicode_len();
    let pn = p.unicode_len();
    if pn > sn {
        proof {
            assert(!is_prefix_of(p@, s@));
        }
        return false;
    }
    let mut i: usize = 0;
    while i < pn
        invariant
            0 <= i <= pn,
            pn == p@.len() && sn == s@.len() && pn <= sn,
            forall|j: int| 0 <= j < i ==> s@[j] == p@[j],
        decreases pn - i,
    {
        if s.get_char(i) != p.get_char(i) {
            proof {
                assert(s@.subrange(0, p@.len() as int)[i as int] == s@[i as int]);
            }
            return false;
        }
        i = i + 1;
    }
    proof {
        assert(s@.subrange(0, p@.len() as int) =~= p@);
    }
    true
}

/// Strict lexicographic order on the characters of `a` and `b`, starting the
/// comparison at position `i`.
pub open spec fn lex_lt_from(a: Seq<char>, b: Seq<char>, i: int) -> bool
    decreases a.len() - i,
{
    if i >= b.len() || i < 0 {
        false
    } else if i >= a.len() {
        true
    } else if a[i] != b[i] {
        (a[i] as int) < (b[i] as int)
    } else {
        lex_lt_from(a, b, i + 1)
    }
}

/// Strict lexicographic order on strings, by character value. Stored
/// timestamps are formatted so that this order is the chronological one.
pub open spec fn lex_lt(a: Seq<char>, b: Seq<char>) -> bool {
    lex_lt_from(a, b, 0)
}

/// No string sorts below itself.
pub proof fn lemma_lex_irrefl(a: Seq<char>, i: int)
    ensures
        !lex_lt_from(a, a, i),
    decreases a.len() - i,
{
    if 0 <= i < a.len() {
        lemma_lex_irrefl(a, i + 1);
    }
}

/// The lexicographic order is transitive.
pub proof fn lemma_lex_trans(a: Seq<char>, b: Seq<char>, c: Seq<char>, i: int)
    requires
        0 <= i,
        lex_lt_from(a, b, i),
        lex_lt_from(b, c, i),
    ensures
        lex_lt_from(a, c, i),
    decreases b.len() - i,
{
    if i < a.len() && i < b.len() && i < c.len() && a[i] == b[i] && b[i] == c[i] {
        lemma_lex_trans(a, b, c, i + 1);
    }
}

/// If `a` is not above `b` and `b` is below `c`, then `a` is below `c`.
pub proof fn lemma_lex_le_lt_trans(a: Seq<char>, b: Seq<char>, c: Seq<char>, i: int)
    requires
        0 <= i,
        !lex_lt_from(b, a, i),
        lex_lt_from(b, c, i),
    ensures
        lex_lt_from(a, c, i),
    decreases b.len() - i,
{
    if i >= b.len() {
        // b ends here, so b < c forces i < c.len(), and !(b < a) forces a to end too.
        assert(i < c.len());
        assert(i >= a.len());
        assert(lex_lt_from(a, c, i));
    } else if i >= a.len() {
        // a ends here while b goes on, contradicting !(b < a)? No: b < a would need
        // i >= a.len() to make it true, so this case is settled directly.
        assert(i < c.len());
        assert(lex_lt_from(a, c, i));
    } else if i >= c.len() {
        assert(!lex_lt_from(b, c, i));
    } else if a[i] == b[i] && b[i] == c[i] {
        lemma_lex_le_lt_trans(a, b, c, i + 1);
    } else if a[i] == b[i] {
        // b[i] differs from c[i]; b < c forces b[i] below c[i].
        assert((b[i] as int) < (c[i] as int));
        assert((a[i] as int) < (c[i] as int));
        assert(a[i] != c[i]);
        assert(lex_lt_from(a, c, i));
    } else {
        // a[i] differs from b[i]; !(b < a) forces a[i] below b[i].
        assert((a[i] as int) < (b[i] as int));
        assert((b[i] as int) <= (c[i] as int));
        assert((a[i] as int) < (c[i] as int));
        assert(a[i] != c[i]);
        assert(lex_lt_from(a, c, i));
    }
}

/// Character-wise lexicographic comparison: returns whether `a` sorts strictly
/// below `b`.
pub fn str_lex_less(a: &str, b: &str) -> (r: bool)
    ensures
        r == lex_lt(a@, b@),
{
    let an = a.unicode_len();
    let bn = b.unicode_len();
    let mut i: usize = 0;
    loop
        invariant
            0 <= i <= an,
            i <= bn,
            an == a@.len() && bn == b@.len(),
            lex_lt(a@, b@) == lex_lt_from(a@, b@, i as int),
        decreases an - i,
    {
        if i >= bn {
            return false;
        }
        if i >= an {
            return true;
        }
        let ca = a.get_char(i);
        let cb = b.get_char(i);
        if ca != cb {
            let r = (ca as u32) < (cb as u32);
            proof {
                assert(r == ((a@[i as int] as int) < (b@[i as int] as int)));
            }
            return r;
        }
        i = i + 1;
    }
}

} // verus!
