//! Laws of the table, stated over the table model and proved once for every
//! well-formed table.

use vstd::prelude::*;

use crate::models::{new_model, PayloadModel};
use crate::store::{
    contains_id, lemma_lookup_index, lemma_lookup_none, lemma_lookup_replace,
    lemma_remove_id_props, replace_id, spec_delete, spec_get, spec_insert, spec_update, table_wf,
    TableModel,
};

verus! {

/// A create keeps the table well formed, and the created row is immediately
/// readable: getting the key the create assigned returns exactly the created
/// row, every field equal.
pub proof fn lemma_insert_then_get(t: TableModel, p: PayloadModel, now: int)
    requires
        table_wf(t),
    ensures
        table_wf(spec_insert(t, p, now)),
        spec_get(spec_insert(t, p, now), t.next_id) == Some(new_model(t.next_id, p, now)),
{
    let t1 = spec_insert(t, p, now);
    assert forall|i: int, j: int| 0 <= i < j < t1.rows.len() implies (
    #[trigger] t1.rows[i]).part_id != (#[trigger] t1.rows[j]).part_id by {
        if j < t1.rows.len() - 1 {
            assert(t.rows[i].part_id != t.rows[j].part_id);
        } else {
            assert(t1.rows[i] == t.rows[i]);
            assert(t.rows[i].part_id < t.next_id);
        }
    }
    assert forall|k: int| 0 <= k < t.rows.len() implies (#[trigger] t1.rows[k]).part_id
        != t.next_id by {
        assert(t1.rows[k] == t.rows[k]);
        assert(t.rows[k].part_id < t.next_id);
    }
    lemma_lookup_index(t1.rows, t.next_id, t.rows.len() as int);
}

/// A deleted key is gone: after deleting a key, getting it finds nothing,
/// whether or not the key was there.
pub proof fn lemma_delete_then_get(t: TableModel, id: int)
    ensures
        spec_get(spec_delete(t, id), id) is None,
{
    lemma_remove_id_props(t.rows, id);
    let rows1 = spec_delete(t, id).rows;
    assert forall|k: int| 0 <= k < rows1.len() implies (#[trigger] rows1[k]).part_id != id by {
        if rows1[k].part_id == id {
            assert(contains_id(rows1, id));
        }
    }
    lemma_lookup_none(rows1, id);
}

/// A successful update keeps `created_at` and moves `updated_at` forward:
/// provided the clock reads at or past the row's last update, the row read
/// back afterwards has the old `created_at` untouched and `updated_at` equal
/// to `now`, hence at or past its previous value.
pub proof fn lemma_update_preserves_created_at(t: TableModel, id: int, p: PayloadModel, now: int)
    requires
        table_wf(t),
        spec_get(t, id) is Some,
        now >= spec_get(t, id)->Some_0.updated_at,
    ensures
        table_wf(spec_update(t, id, p, now)),
        spec_get(spec_update(t, id, p, now), id) is Some,
        spec_get(spec_update(t, id, p, now), id)->Some_0.created_at == spec_get(
            t,
            id,
        )->Some_0.created_at,
        spec_get(spec_update(t, id, p, now), id)->Some_0.updated_at == now,
        spec_get(spec_update(t, id, p, now), id)->Some_0.updated_at >= spec_get(
            t,
            id,
        )->Some_0.updated_at,
{
    lemma_lookup_replace(t.rows, id, p, now);
    let rows1 = replace_id(t.rows, id, p, now);
    assert forall|i: int, j: int| 0 <= i < j < rows1.len() implies (#[trigger] rows1[i]).part_id
        != (#[trigger] rows1[j]).part_id by {
        assert(rows1[i].part_id == t.rows[i].part_id);
        assert(rows1[j].part_id == t.rows[j].part_id);
    }
    assert forall|i: int| 0 <= i < rows1.len() implies 1 <= (#[trigger] rows1[i]).part_id
        < t.next_id by {
        assert(rows1[i].part_id == t.rows[i].part_id);
    }
}

/// The table after a run of creates, one per payload, all at instant `now`.
pub open spec fn spec_insert_all(t: TableModel, ps: Seq<PayloadModel>, now: int) -> TableModel
    decreases ps.len(),
{
    if ps.len() == 0 {
        t
    } else {
        spec_insert_all(spec_insert(t, ps[0], now), ps.drop_first(), now)
    }
}

/// Bulk creation loses nothing and duplicates nothing: after one create per
/// payload, the table holds exactly the old rows followed by one new row per
/// payload, in order, under consecutive fresh keys — and keys stay unique,
/// so a listing holds each created row exactly once.
pub proof fn lemma_insert_all_exactly_once(t: TableModel, ps: Seq<PayloadModel>, now: int)
    requires
        table_wf(t),
    ensures
        table_wf(spec_insert_all(t, ps, now)),
        spec_insert_all(t, ps, now).next_id == t.next_id + ps.len(),
        spec_insert_all(t, ps, now).rows == t.rows + Seq::new(
            ps.len(),
            |k: int| new_model(t.next_id + k, ps[k], now),
        ),
    decreases ps.len(),
{
    let t1 = spec_insert_all(t, ps, now);
    let fresh = Seq::new(ps.len(), |k: int| new_model(t.next_id + k, ps[k], now));
    if ps.len() == 0 {
        assert(t.rows + fresh =~= t.rows);
    } else {
        let t0 = spec_insert(t, ps[0], now);
        lemma_insert_then_get(t, ps[0], now);
        lemma_insert_all_exactly_once(t0, ps.drop_first(), now);
        let fresh0 = Seq::new(
            ps.drop_first().len(),
            |k: int| new_model(t0.next_id + k, ps.drop_first()[k], now),
        );
        assert(t1.rows == t0.rows + fresh0);
        assert(t0.rows + fresh0 =~= t.rows + fresh) by {
            assert(forall|k: int|
                0 <= k < ps.drop_first().len() ==> #[trigger] ps.drop_first()[k] == ps[k + 1]);
        }
    }
}

} // verus!
