//! Identifiers, digests, and the order in which records are walked.

use vstd::prelude::*;

verus! {

/// A 32-byte digest.
pub type Digest32 = [u8; 32];

/// A 32-byte identifier of a participant, record, operation, or asset.
pub type Identifier = [u8; 32];

/// The all-zero identifier. It names nothing and is refused wherever an
/// identifier or digest is required.
pub const ZERO: [u8; 32] = [
    0, 0, 0, 0, 0, 0, 0, 0, 0, 0, 0, 0, 0, 0, 0, 0, 0, 0, 0, 0, 0, 0, 0, 0, 0, 0, 0, 0, 0, 0, 0, 0,
];

/// The number that a byte string writes in base 256, most significant byte first.
pub open spec fn magnitude(s: Seq<u8>) -> nat
    decreases s.len(),
{
    if s.len() == 0 {
        0
    } else {
        magnitude(s.drop_last()) * 256 + s.last() as nat
    }
}

/// Where an identifier stands in byte order.
pub open spec fn rank(id: Identifier) -> nat {
    magnitude(id@)
}

pub proof fn lemma_magnitude_injective(a: Seq<u8>, b: Seq<u8>)
    requires
        a.len() == b.len(),
        magnitude(a) == magnitude(b),
    ensures
        a == b,
    decreases a.len(),
{
    if a.len() > 0 {
        lemma_magnitude_injective(a.drop_last(), b.drop_last());
        assert(a =~= a.drop_last().push(a.last()));
        assert(b =~= b.drop_last().push(b.last()));
    } else {
        assert(a =~= b);
    }
}

/// Two identifiers of the same rank are the same identifier.
pub proof fn lemma_rank_injective(a: Identifier, b: Identifier)
    requires
        rank(a) == rank(b),
    ensures
        a == b,
{
    lemma_magnitude_injective(a@, b@);
    assert forall|i: int| 0 <= i < 32 implies a[i] == b[i] by {
        assert(a@[i] == b@[i]);
    }
    assert(a =~= b);
}

pub proof fn lemma_magnitude_first_difference(a: Seq<u8>, b: Seq<u8>, i: int)
    requires
        a.len() == b.len(),
        0 <= i < a.len(),
        forall|j: int| 0 <= j < i ==> a[j] == b[j],
        a[i] < b[i],
    ensures
        magnitude(a) < magnitude(b),
    decreases a.len(),
{
    if i == a.len() - 1 {
        assert(a.drop_last() =~= b.drop_last());
    } else {
        lemma_magnitude_first_difference(a.drop_last(), b.drop_last(), i);
    }
}

/// Whether two identifiers are equal.
pub fn same_id(a: &Identifier, b: &Identifier) -> (r: bool)
    ensures
        r == (*a == *b),
{
    let mut i: usize = 0;
    while i < 32
        invariant
            i <= 32,
            forall|j: int| 0 <= j < i ==> a[j] == b[j],
        decreases 32 - i,
    {
        if a[i] != b[i] {
            return false;
        }
        i = i + 1;
    }
    assert(*a =~= *b);
    true
}

/// Whether an identifier is the all-zero one.
pub fn is_zero(id: &Identifier) -> (r: bool)
    ensures
        r == (*id == ZERO),
{
    same_id(id, &ZERO)
}

/// Whether `a` comes before `b` in byte order.
pub fn precedes(a: &Identifier, b: &Identifier) -> (r: bool)
    ensures
        r == (rank(*a) < rank(*b)),
{
    let mut i: usize = 0;
    while i < 32
        invariant
            i <= 32,
            forall|j: int| 0 <= j < i ==> a[j] == b[j],
        decreases 32 - i,
    {
        if a[i] < b[i] {
            proof {
                lemma_magnitude_first_difference(a@, b@, i as int);
            }
            return true;
        }
        if b[i] < a[i] {
            proof {
                lemma_magnitude_first_difference(b@, a@, i as int);
            }
            return false;
        }
        i = i + 1;
    }
    assert(*a =~= *b);
    false
}

/// Whether an optional identifier is present and equal to `id`.
pub fn holds_id(slot: &Option<Identifier>, id: &Identifier) -> (r: bool)
    ensures
        r == (*slot == Some(*id)),
{
    match slot {
        Some(found) => same_id(found, id),
        None => false,
    }
}

/// Whether two optional identifiers agree.
pub fn same_slot(a: &Option<Identifier>, b: &Option<Identifier>) -> (r: bool)
    ensures
        r == (*a == *b),
{
    match b {
        Some(id) => holds_id(a, id),
        None => a.is_none(),
    }
}

/// Whether any of the identifiers is the all-zero one.
pub open spec fn has_zero(ids: Seq<Identifier>) -> bool {
    exists|i: int| 0 <= i < ids.len() && ids[i] == ZERO
}

/// Whether any of the identifiers is the all-zero one.
pub fn any_zero(ids: &[Identifier]) -> (r: bool)
    ensures
        r == has_zero(ids@),
{
    let mut i: usize = 0;
    while i < ids.len()
        invariant
            i <= ids@.len(),
            forall|j: int| 0 <= j < i ==> ids@[j] != ZERO,
        decreases ids@.len() - i,
    {
        if is_zero(&ids[i]) {
            return true;
        }
        i = i + 1;
    }
    false
}

/// Whether a list of identifiers contains `id`.
pub fn list_contains(ids: &Vec<Identifier>, id: &Identifier) -> (r: bool)
    ensures
        r == ids@.contains(*id),
{
    let mut i: usize = 0;
    while i < ids.len()
        invariant
            i <= ids@.len(),
            forall|j: int| 0 <= j < i ==> ids@[j] != *id,
        decreases ids@.len() - i,
    {
        if same_id(&ids[i], id) {
            return true;
        }
        i = i + 1;
    }
    false
}

/// A copy of a list of identifiers.
pub fn copy_ids(ids: &Vec<Identifier>) -> (r: Vec<Identifier>)
    ensures
        r@ == ids@,
{
    let mut out: Vec<Identifier> = Vec::new();
    let mut i: usize = 0;
    while i < ids.len()
        invariant
            i <= ids@.len(),
            out@ == ids@.take(i as int),
        decreases ids@.len() - i,
    {
        out.push(ids[i]);
        i = i + 1;
        assert(out@ =~= ids@.take(i as int));
    }
    assert(ids@.take(i as int) =~= ids@);
    out
}

/// Whether a list of identifiers is in strictly ascending byte order.
pub open spec fn is_ascending(s: Seq<Identifier>) -> bool {
    forall|i: int, j: int| 0 <= i < j < s.len() ==> rank(s[i]) < rank(s[j])
}

/// The members of a finite set of identifiers, in ascending byte order.
pub open spec fn ascending(ids: Set<Identifier>) -> Seq<Identifier> {
    choose|s: Seq<Identifier>| is_ascending(s) && s.to_set() == ids
}

/// An ascending list is determined by its members.
pub proof fn lemma_ascending_unique(s: Seq<Identifier>, t: Seq<Identifier>)
    requires
        is_ascending(s),
        is_ascending(t),
        s.to_set() == t.to_set(),
    ensures
        s == t,
    decreases s.len(),
{
    if s.len() == 0 {
        if t.len() > 0 {
            assert(t.to_set().contains(t[0]));
            assert(s.to_set().contains(t[0]));
        }
        assert(s =~= t);
    } else {
        assert(s.to_set().contains(s[0]));
        assert(t.to_set().contains(s[0]));
        assert(t.len() > 0);
        assert(s.to_set().contains(s.last()));
        assert(t.to_set().contains(s.last()));
        assert(t.to_set().contains(t.last()));
        assert(s.to_set().contains(t.last()));
        let i = choose|i: int| 0 <= i < t.len() && t[i] == s.last();
        let j = choose|j: int| 0 <= j < s.len() && s[j] == t.last();
        assert(rank(s.last()) == rank(t.last()));
        lemma_rank_injective(s.last(), t.last());
        let s1 = s.drop_last();
        let t1 = t.drop_last();
        assert forall|x: Identifier| s1.to_set().contains(x) implies t1.to_set().contains(x) by {
            let k = choose|k: int| 0 <= k < s1.len() && s1[k] == x;
            assert(s[k] == x);
            assert(s.to_set().contains(x));
            assert(t.to_set().contains(x));
            let m = choose|m: int| 0 <= m < t.len() && t[m] == x;
            assert(rank(s[k]) < rank(s.last()));
            assert(m < t.len() - 1);
            assert(t1[m] == x);
        }
        assert forall|x: Identifier| t1.to_set().contains(x) implies s1.to_set().contains(x) by {
            let k = choose|k: int| 0 <= k < t1.len() && t1[k] == x;
            assert(t[k] == x);
            assert(t.to_set().contains(x));
            assert(s.to_set().contains(x));
            let m = choose|m: int| 0 <= m < s.len() && s[m] == x;
            assert(rank(t[k]) < rank(t.last()));
            assert(m < s.len() - 1);
            assert(s1[m] == x);
        }
        assert(s1.to_set() =~= t1.to_set());
        assert(is_ascending(s1));
        assert(is_ascending(t1));
        lemma_ascending_unique(s1, t1);
        assert(s =~= s1.push(s.last()));
        assert(t =~= t1.push(t.last()));
    }
}

/// The ascending order of a set is the ascending list of its members.
pub proof fn lemma_ascending_is(s: Seq<Identifier>, ids: Set<Identifier>)
    requires
        is_ascending(s),
        s.to_set() == ids,
    ensures
        ascending(ids) == s,
{
    lemma_ascending_unique(ascending(ids), s);
}

/// Every finite set of identifiers has an ascending order.
pub proof fn lemma_ascending_exists(ids: Set<Identifier>)
    requires
        ids.finite(),
    ensures
        is_ascending(ascending(ids)),
        ascending(ids).to_set() == ids,
        ascending(ids).len() == ids.len(),
        ascending(ids).no_duplicates(),
    decreases ids.len(),
{
    if ids.len() == 0 {
        assert(ids =~= Set::<Identifier>::empty());
        let s = Seq::<Identifier>::empty();
        assert(s.to_set() =~= ids);
        lemma_ascending_is(s, ids);
    } else {
        let x = ids.choose();
        let rest = ids.remove(x);
        lemma_ascending_exists(rest);
        let s = ascending(rest);
        let p = lemma_insertion_point(s, x);
        lemma_ascending_insert(s, p, x);
        assert(rest.insert(x) =~= ids);
        lemma_ascending_is(s.insert(p, x), ids);
    }
    let s = ascending(ids);
    assert(s.no_duplicates());
    s.unique_seq_to_set();
}

proof fn lemma_insertion_point(s: Seq<Identifier>, x: Identifier) -> (p: int)
    requires
        is_ascending(s),
        !s.to_set().contains(x),
    ensures
        0 <= p <= s.len(),
        forall|i: int| 0 <= i < p ==> rank(#[trigger] s[i]) < rank(x),
        forall|i: int| p <= i < s.len() ==> rank(x) < rank(#[trigger] s[i]),
    decreases s.len(),
{
    if s.len() == 0 {
        0
    } else {
        assert(s.to_set().contains(s.last()));
        if rank(s.last()) == rank(x) {
            lemma_rank_injective(s.last(), x);
        }
        if rank(s.last()) < rank(x) {
            s.len() as int
        } else {
            let t = s.drop_last();
            assert forall|y: Identifier| t.to_set().contains(y) implies s.to_set().contains(y) by {
                let k = choose|k: int| 0 <= k < t.len() && t[k] == y;
                assert(s[k] == y);
            }
            let p = lemma_insertion_point(t, x);
            assert forall|i: int| 0 <= i < p implies rank(#[trigger] s[i]) < rank(x) by {
                assert(s[i] == t[i]);
            }
            assert forall|i: int| p <= i < s.len() implies rank(x) < rank(#[trigger] s[i]) by {
                if i < t.len() {
                    assert(s[i] == t[i]);
                }
            }
            p
        }
    }
}

/// Placing an identifier between its neighbours keeps a list ascending.
pub proof fn lemma_ascending_insert(s: Seq<Identifier>, p: int, x: Identifier)
    requires
        is_ascending(s),
        0 <= p <= s.len(),
        forall|i: int| 0 <= i < p ==> rank(#[trigger] s[i]) < rank(x),
        forall|i: int| p <= i < s.len() ==> rank(x) < rank(#[trigger] s[i]),
    ensures
        is_ascending(s.insert(p, x)),
        s.insert(p, x).to_set() == s.to_set().insert(x),
{
    let t = s.insert(p, x);
    assert forall|i: int, j: int| 0 <= i < j < t.len() implies rank(t[i]) < rank(t[j]) by {
        let si = if i < p { s[i] } else { s[i - 1] };
        let sj = if j < p { s[j] } else { s[j - 1] };
    }
    assert forall|y: Identifier| s.to_set().insert(x).contains(y) implies t.to_set().contains(y) by {
        if y == x {
            assert(t[p] == x);
        } else {
            let k = choose|k: int| 0 <= k < s.len() && s[k] == y;
            if k < p {
                assert(t[k] == y);
            } else {
                assert(t[k + 1] == y);
            }
        }
    }
    assert forall|y: Identifier| t.to_set().contains(y) implies s.to_set().insert(x).contains(y) by {
        let k = choose|k: int| 0 <= k < t.len() && t[k] == y;
        if k < p {
            assert(s[k] == y);
        } else if k > p {
            assert(s[k - 1] == y);
        }
    }
    assert(t.to_set() =~= s.to_set().insert(x));
}

/// The ascending order of a set with one more member: the new member is placed
/// at one position and the others keep their order.
pub proof fn lemma_ascending_with(ids: Set<Identifier>, x: Identifier) -> (p: int)
    requires
        ids.finite(),
        !ids.contains(x),
    ensures
        0 <= p <= ascending(ids).len(),
        ascending(ids.insert(x)) == ascending(ids).insert(p, x),
{
    lemma_ascending_exists(ids);
    let s = ascending(ids);
    let p = lemma_insertion_point(s, x);
    lemma_ascending_insert(s, p, x);
    lemma_ascending_is(s.insert(p, x), ids.insert(x));
    p
}

} // verus!
