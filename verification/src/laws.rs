//! Laws that relate the library's operations to each other, stated over the
//! mathematical model and proved once and for all.

use vstd::prelude::*;

use crate::model::distinct_ids;
use crate::model::has_id;
use crate::model::index_of_id;
use crate::model::insert_position;
use crate::model::lemma_index_of_id_holds;
use crate::model::lemma_index_of_id_unique;
use crate::model::lemma_spec_insert_distinct;
use crate::model::spec_insert;
use crate::ticket::RegistryTicket;

verus! {

/// Inserting under `id` makes exactly the identifiers of `s` plus `id`
/// present, and grows the length only when `id` was absent.
pub proof fn lemma_spec_insert_effect<Identifier, T>(
    s: Seq<(Identifier, T)>,
    id: Identifier,
    value: T,
)
    ensures
        spec_insert(s, id, value).len() == if has_id(s, id) {
            s.len() as int
        } else {
            s.len() + 1 as int
        },
        forall|x: Identifier| has_id(spec_insert(s, id, value), x) <==> (has_id(s, x) || x == id),
{
    let s2 = spec_insert(s, id, value);
    if has_id(s, id) {
        lemma_index_of_id_holds(s, id);
        let idx = index_of_id(s, id);
        assert forall|x: Identifier| has_id(s2, x) <==> (has_id(s, x) || x == id) by {
            assert forall|k: int| 0 <= k < s.len() implies s2[k].0 == s[k].0 by {}
            if has_id(s2, x) {
                let k = choose|k: int| 0 <= k < s2.len() && s2[k].0 == x;
                assert(s[k].0 == x);
                assert(has_id(s, x));
            }
            if has_id(s, x) {
                let k = choose|k: int| 0 <= k < s.len() && s[k].0 == x;
                assert(s2[k].0 == x);
                assert(has_id(s2, x));
            }
            if x == id {
                assert(s2[idx].0 == x);
                assert(has_id(s2, x));
            }
        }
    } else {
        assert forall|x: Identifier| has_id(s2, x) <==> (has_id(s, x) || x == id) by {
            if has_id(s2, x) {
                let k = choose|k: int| 0 <= k < s2.len() && s2[k].0 == x;
                if k < s.len() {
                    assert(s[k].0 == x);
                    assert(has_id(s, x));
                } else {
                    assert(x == id);
                }
            }
            if has_id(s, x) {
                let k = choose|k: int| 0 <= k < s.len() && s[k].0 == x;
                assert(s2[k].0 == x);
                assert(has_id(s2, x));
            }
            if x == id {
                assert(s2[s.len() as int].0 == x);
                assert(has_id(s2, x));
            }
        }
    }
}

/// The sequence of identifiers a sequence of insertion operations carries.
pub open spec fn ids_of<Identifier, T>(ops: Seq<(Identifier, T)>) -> Seq<Identifier> {
    ops.map_values(|e: (Identifier, T)| e.0)
}

/// The entries a registry holds after applying the given insertions, in
/// order, to an empty one (capacity aside: the model has no ticket bound).
pub open spec fn after_inserts<Identifier, T>(ops: Seq<(Identifier, T)>) -> Seq<(Identifier, T)>
    decreases ops.len(),
{
    if ops.len() == 0 {
        Seq::empty()
    } else {
        spec_insert(after_inserts(ops.drop_last()), ops.last().0, ops.last().1)
    }
}

/// For every sequence of insertions applied to an empty registry, the number
/// of entries equals the number of distinct identifiers inserted:
/// re-insertion under an existing identifier does not increase the length.
pub proof fn lemma_len_counts_distinct_ids<Identifier, T>(ops: Seq<(Identifier, T)>)
    ensures
        after_inserts(ops).len() == ids_of(ops).to_set().len(),
        forall|x: Identifier| has_id(after_inserts(ops), x) <==> ids_of(ops).to_set().contains(x),
    decreases ops.len(),
{
    broadcast use vstd::set::group_set_axioms;
    broadcast use vstd::seq_lib::seq_to_set_is_finite;

    if ops.len() == 0 {
        assert(ids_of(ops).to_set() =~= Set::<Identifier>::empty());
    } else {
        let dl = ops.drop_last();
        let last = ops.last();
        lemma_len_counts_distinct_ids(dl);
        lemma_spec_insert_effect(after_inserts(dl), last.0, last.1);
        assert(ids_of(dl) =~= ids_of(ops).drop_last());
        assert forall|x: Identifier| ids_of(ops).contains(x) <==> (ids_of(dl).contains(x) || x
            == last.0) by {
            if ids_of(ops).contains(x) {
                let k = choose|k: int| 0 <= k < ids_of(ops).len() && ids_of(ops)[k] == x;
                if k < dl.len() {
                    assert(ids_of(dl)[k] == x);
                } else {
                    assert(x == last.0);
                }
            }
            if ids_of(dl).contains(x) {
                let k = choose|k: int| 0 <= k < ids_of(dl).len() && ids_of(dl)[k] == x;
                assert(ids_of(ops)[k] == x);
            }
            if x == last.0 {
                assert(ids_of(ops)[ops.len() - 1] == x);
            }
        }
        assert(ids_of(ops).to_set() =~= ids_of(dl).to_set().insert(last.0));
        assert forall|x: Identifier| has_id(after_inserts(ops), x) <==> ids_of(
            ops,
        ).to_set().contains(x) by {
            assert(has_id(after_inserts(ops), x) <==> (has_id(after_inserts(dl), x) || x
                == last.0));
            assert(ids_of(ops).to_set().contains(x) <==> ids_of(ops).contains(x));
            assert(ids_of(dl).to_set().contains(x) <==> ids_of(dl).contains(x));
        }
        assert(ids_of(dl).to_set().finite());
        if ids_of(dl).to_set().contains(last.0) {
            assert(ids_of(dl).to_set().insert(last.0) =~= ids_of(dl).to_set());
            assert(has_id(after_inserts(dl), last.0));
        } else {
            assert(ids_of(dl).to_set().insert(last.0).len() == ids_of(dl).to_set().len() + 1);
            assert(!has_id(after_inserts(dl), last.0));
        }
    }
}

/// The position an identifier occupies is stable across re-insertion: after
/// inserting under `id`, the entry keyed by `id` sits exactly where the
/// insertion addressed it, so a later insertion or lookup under `id` yields
/// the same position, and hence an equal ticket.
pub proof fn lemma_ticket_of_after_insert<Identifier, T>(
    s: Seq<(Identifier, T)>,
    id: Identifier,
    value: T,
)
    requires
        distinct_ids(s),
    ensures
        has_id(spec_insert(s, id, value), id),
        index_of_id(spec_insert(s, id, value), id) == insert_position(s, id),
        spec_insert(s, id, value)[insert_position(s, id)].1 == value,
        insert_position(spec_insert(s, id, value), id) == insert_position(s, id),
{
    let s2 = spec_insert(s, id, value);
    lemma_spec_insert_distinct(s, id, value);
    if has_id(s, id) {
        lemma_index_of_id_holds(s, id);
        let idx = index_of_id(s, id);
        assert(s2[idx].0 == s[idx].0);
        lemma_index_of_id_unique(s2, id, idx);
    } else {
        assert(s2[s.len() as int].0 == id);
        lemma_index_of_id_unique(s2, id, s.len() as int);
    }
}

/// Re-inserting under an existing identifier addresses the same position as
/// the original insertion (hence returns an equal ticket), hands back the
/// previously stored value as the replaced one, and leaves the newly
/// inserted value stored.
pub proof fn lemma_reinsert<Identifier, T>(
    s: Seq<(Identifier, T)>,
    id: Identifier,
    v1: T,
    v2: T,
)
    requires
        distinct_ids(s),
    ensures
        insert_position(spec_insert(s, id, v1), id) == insert_position(s, id),
        spec_insert(s, id, v1)[index_of_id(spec_insert(s, id, v1), id)].1 == v1,
        spec_insert(spec_insert(s, id, v1), id, v2)[insert_position(s, id)].1 == v2,
{
    let s1 = spec_insert(s, id, v1);
    lemma_ticket_of_after_insert(s, id, v1);
    lemma_spec_insert_distinct(s, id, v1);
    lemma_ticket_of_after_insert(s1, id, v2);
}

/// The sequence of `(ticket, entry)` pairs a forward traversal of the
/// entries `s` yields, when `s` starts at position `lo` of its manager.
pub open spec fn forward_sequence<Ticket: RegistryTicket, Identifier, T>(
    s: Seq<(Identifier, T)>,
    lo: nat,
) -> Seq<(Option<Ticket>, (Identifier, T))> {
    Seq::new(s.len(), |k: int| (Ticket::spec_from_index((lo + k) as nat), s[k]))
}

/// The sequence of `(ticket, entry)` pairs a backward traversal of the same
/// entries yields.
pub open spec fn backward_sequence<Ticket: RegistryTicket, Identifier, T>(
    s: Seq<(Identifier, T)>,
    lo: nat,
) -> Seq<(Option<Ticket>, (Identifier, T))> {
    Seq::new(s.len(), |k: int| (Ticket::spec_from_index((lo + s.len() - 1 - k) as nat), s[s.len() - 1 - k]))
}

/// Forward traversal followed by reversal of the collected sequence equals
/// backward traversal of the same entries: the adapters yield the same
/// `(ticket, identifier, value)` triples from either end, in opposite order.
pub proof fn lemma_forward_reverse<Ticket: RegistryTicket, Identifier, T>(
    s: Seq<(Identifier, T)>,
    lo: nat,
)
    ensures
        forward_sequence::<Ticket, Identifier, T>(s, lo).reverse() == backward_sequence::<
            Ticket,
            Identifier,
            T,
        >(s, lo),
{
    assert(forward_sequence::<Ticket, Identifier, T>(s, lo).reverse() =~= backward_sequence::<
        Ticket,
        Identifier,
        T,
    >(s, lo));
}

/// Once an iteration adapter reports exhaustion, all subsequent calls also
/// report it: an exhausted remainder `entries[front..back]` is empty, and
/// every step an adapter takes only moves its cursors inward, which keeps
/// the remainder empty.
pub proof fn lemma_adapters_are_fused<Identifier, T>(
    entries: Seq<(Identifier, T)>,
    front: int,
    back: int,
    front2: int,
    back2: int,
)
    requires
        0 <= front <= back <= entries.len(),
        entries.subrange(front, back).len() == 0,
        front <= front2 <= back2 <= back,
    ensures
        entries.subrange(front2, back2).len() == 0,
{
}

/// The entries left after consuming `n` elements one at a time, each step
/// discarding the first remaining entry.
pub open spec fn consume_n<Identifier, T>(s: Seq<(Identifier, T)>, n: nat) -> Seq<(Identifier, T)>
    decreases n,
{
    if n == 0 || s.len() == 0 {
        s
    } else {
        consume_n(s.drop_first(), (n - 1) as nat)
    }
}

/// Skipping `n` elements at once leaves exactly the entries that consuming
/// and discarding `n` elements one at a time leaves, so the efficient skip
/// yields the same result as repeated single steps.
pub proof fn lemma_skip_consume<Identifier, T>(s: Seq<(Identifier, T)>, n: nat)
    ensures
        consume_n(s, n) == if n <= s.len() {
            s.skip(n as int)
        } else {
            Seq::<(Identifier, T)>::empty()
        },
    decreases n,
{
    if n == 0 {
        assert(s.skip(0) =~= s);
    } else if s.len() == 0 {
        assert(s =~= Seq::<(Identifier, T)>::empty());
    } else {
        lemma_skip_consume(s.drop_first(), (n - 1) as nat);
        if n <= s.len() {
            assert(s.drop_first().skip(n - 1) =~= s.skip(n as int));
        } else {
            assert(consume_n(s, n) =~= Seq::<(Identifier, T)>::empty());
        }
    }
}

} // verus!
