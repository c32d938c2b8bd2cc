use vstd::prelude::*;

verus! {

/// The value of the first entry whose key is `key`, if there is one. Both a
/// table's named part and the global namespace are such entry lists.
pub open spec fn first_under<M>(entries: Seq<(Seq<char>, M)>, key: Seq<char>) -> Option<M>
    decreases entries.len(),
{
    if entries.len() == 0 {
        None
    } else if entries[0].0 == key {
        Some(entries[0].1)
    } else {
        first_under(entries.drop_first(), key)
    }
}

/// The first entry under a key is the one found.
pub proof fn lemma_first_under_at<M>(entries: Seq<(Seq<char>, M)>, j: int, k: Seq<char>)
    requires
        0 <= j < entries.len(),
        entries[j].0 == k,
        forall|m: int| 0 <= m < j ==> entries[m].0 != k,
    ensures
        first_under(entries, k) == Some(entries[j].1),
    decreases j,
{
    if j > 0 {
        let rest = entries.drop_first();
        assert(rest[j - 1] == entries[j]);
        assert forall|m: int| 0 <= m < j - 1 implies rest[m].0 != k by {
            assert(rest[m] == entries[m + 1]);
        }
        lemma_first_under_at(rest, j - 1, k);
    }
}

/// A key under which no entry stands finds nothing.
pub proof fn lemma_first_under_absent<M>(entries: Seq<(Seq<char>, M)>, k: Seq<char>)
    requires
        forall|m: int| 0 <= m < entries.len() ==> entries[m].0 != k,
    ensures
        first_under(entries, k) is None,
    decreases entries.len(),
{
    if entries.len() > 0 {
        let rest = entries.drop_first();
        assert forall|m: int| 0 <= m < rest.len() implies rest[m].0 != k by {
            assert(rest[m] == entries[m + 1]);
        }
        lemma_first_under_absent(rest, k);
    }
}

/// Replacing the value of the first entry under a key changes what that key
/// finds and nothing else.
pub proof fn lemma_first_under_update<M>(
    entries: Seq<(Seq<char>, M)>,
    i: int,
    e: (Seq<char>, M),
    k: Seq<char>,
)
    requires
        0 <= i < entries.len(),
        entries[i].0 == e.0,
        forall|m: int| 0 <= m < i ==> entries[m].0 != e.0,
    ensures
        first_under(entries.update(i, e), k) == if k == e.0 {
            Some(e.1)
        } else {
            first_under(entries, k)
        },
    decreases i,
{
    if i > 0 {
        assert(entries.update(i, e).drop_first() =~= entries.drop_first().update(i - 1, e));
        lemma_first_under_update(entries.drop_first(), i - 1, e, k);
    } else {
        assert(entries.update(i, e).drop_first() =~= entries.drop_first());
    }
}

/// Appending an entry under a key not yet present makes that key find it and
/// changes nothing else.
pub proof fn lemma_first_under_push<M>(entries: Seq<(Seq<char>, M)>, e: (Seq<char>, M), k: Seq<char>)
    requires
        k == e.0 ==> forall|m: int| 0 <= m < entries.len() ==> entries[m].0 != k,
    ensures
        first_under(entries.push(e), k) == if k == e.0 {
            Some(e.1)
        } else {
            first_under(entries, k)
        },
    decreases entries.len(),
{
    let p = entries.push(e);
    if entries.len() > 0 {
        let rest = entries.drop_first();
        assert(p.drop_first() =~= rest.push(e));
        assert(p[0] == entries[0]);
        if k == e.0 {
            assert forall|m: int| 0 <= m < rest.len() implies rest[m].0 != k by {
                assert(rest[m] == entries[m + 1]);
            }
            assert(entries[0].0 != k);
        }
        lemma_first_under_push(rest, e, k);
        if entries[0].0 == k {
            assert(first_under(p, k) == Some(entries[0].1));
        } else {
            assert(first_under(p, k) == first_under(rest.push(e), k));
            assert(first_under(entries, k) == first_under(rest, k));
        }
    } else {
        assert(p.drop_first() =~= Seq::<(Seq<char>, M)>::empty());
        assert(p[0] == e);
        assert(first_under(p.drop_first(), k) is None);
        assert(first_under(entries, k) is None);
    }
}

} // verus!
