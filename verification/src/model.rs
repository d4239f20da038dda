//! The mathematical model of a registry: a sequence of identifier/value
//! pairs in insertion order, with spec functions over it.

use vstd::prelude::*;

verus! {

/// Whether some entry of `s` is keyed by `id`.
pub open spec fn has_id<Identifier, T>(s: Seq<(Identifier, T)>, id: Identifier) -> bool {
    exists|i: int| 0 <= i < s.len() && s[i].0 == id
}

/// The position of the entry keyed by `id` (meaningful when `has_id` holds
/// and the identifiers of `s` are distinct).
pub open spec fn index_of_id<Identifier, T>(s: Seq<(Identifier, T)>, id: Identifier) -> int {
    choose|i: int| 0 <= i < s.len() && s[i].0 == id
}

/// Whether the identifiers of `s` are pairwise distinct.
pub open spec fn distinct_ids<Identifier, T>(s: Seq<(Identifier, T)>) -> bool {
    forall|i: int, j: int| 0 <= i < j < s.len() ==> s[i].0 != s[j].0
}

/// The position an insertion under `id` addresses: the position of the
/// existing entry keyed by `id`, or one past the end if there is none.
pub open spec fn insert_position<Identifier, T>(s: Seq<(Identifier, T)>, id: Identifier) -> int {
    if has_id(s, id) {
        index_of_id(s, id)
    } else {
        s.len() as int
    }
}

/// The sequence of entries after inserting `value` under `id`: the value of
/// the existing entry keyed by `id` is replaced in place (the stored
/// identifier is kept), or a fresh entry is appended.
pub open spec fn spec_insert<Identifier, T>(
    s: Seq<(Identifier, T)>,
    id: Identifier,
    value: T,
) -> Seq<(Identifier, T)> {
    if has_id(s, id) {
        s.update(index_of_id(s, id), (s[index_of_id(s, id)].0, value))
    } else {
        s.push((id, value))
    }
}

/// When the identifiers of `s` are distinct, any position holding `id` is
/// the position `index_of_id` picks.
pub proof fn lemma_index_of_id_unique<Identifier, T>(
    s: Seq<(Identifier, T)>,
    id: Identifier,
    i: int,
)
    requires
        distinct_ids(s),
        0 <= i < s.len(),
        s[i].0 == id,
    ensures
        has_id(s, id),
        index_of_id(s, id) == i,
{
    assert(has_id(s, id));
    let j = index_of_id(s, id);
    assert(0 <= j < s.len() && s[j].0 == id);
    if i < j {
        assert(s[i].0 != s[j].0);
    } else if j < i {
        assert(s[j].0 != s[i].0);
    }
}

/// `index_of_id` picks a position that holds `id`, whenever one exists.
pub proof fn lemma_index_of_id_holds<Identifier, T>(s: Seq<(Identifier, T)>, id: Identifier)
    requires
        has_id(s, id),
    ensures
        0 <= index_of_id(s, id) < s.len(),
        s[index_of_id(s, id)].0 == id,
{
}

/// Replacing a value in place preserves distinctness of the identifiers.
pub proof fn lemma_update_value_distinct<Identifier, T>(
    s: Seq<(Identifier, T)>,
    i: int,
    value: T,
)
    requires
        distinct_ids(s),
        0 <= i < s.len(),
    ensures
        distinct_ids(s.update(i, (s[i].0, value))),
{
    let s2 = s.update(i, (s[i].0, value));
    assert forall|k: int, j: int| 0 <= k < j < s2.len() implies s2[k].0 != s2[j].0 by {
        assert(s2[k].0 == s[k].0);
        assert(s2[j].0 == s[j].0);
    }
}

/// Inserting preserves distinctness of the identifiers.
pub proof fn lemma_spec_insert_distinct<Identifier, T>(
    s: Seq<(Identifier, T)>,
    id: Identifier,
    value: T,
)
    requires
        distinct_ids(s),
    ensures
        distinct_ids(spec_insert(s, id, value)),
{
    let s2 = spec_insert(s, id, value);
    if has_id(s, id) {
        lemma_index_of_id_holds(s, id);
        assert forall|i: int, j: int| 0 <= i < j < s2.len() implies s2[i].0 != s2[j].0 by {
            assert(s2[i].0 == s[i].0);
            assert(s2[j].0 == s[j].0);
        }
    } else {
        assert forall|i: int, j: int| 0 <= i < j < s2.len() implies s2[i].0 != s2[j].0 by {
            if j == s.len() as int {
                assert(s2[j].0 == id);
                assert(s2[i].0 == s[i].0);
                assert(!(s[i].0 == id)) by {
                    if s[i].0 == id {
                        assert(has_id(s, id));
                    }
                }
            } else {
                assert(s2[i].0 == s[i].0);
                assert(s2[j].0 == s[j].0);
            }
        }
    }
}

} // verus!
