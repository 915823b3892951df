//! The particle table and its five operations: list, get-by-id, insert,
//! update and delete. Each operation mirrors one SQL statement against a
//! `particles` table; the table model is the sequence of rows in storage
//! order together with the next primary key to assign.

use vstd::prelude::*;

use crate::models::{
    new_model, updated_model, NewParticle, Particle, ParticleModel, ParticlePayLoad, PayloadModel,
    StorageError,
};

verus! {

/// Mathematical model of the whole table: the rows in storage order and the
/// next primary key the storage engine will hand out.
#[verifier::ext_equal]
pub ghost struct TableModel {
    pub rows: Seq<ParticleModel>,
    pub next_id: int,
}

/// No two rows share a primary key.
pub open spec fn unique_ids(rows: Seq<ParticleModel>) -> bool {
    forall|i: int, j: int|
        0 <= i < j < rows.len() ==> #[trigger] rows[i].part_id != #[trigger] rows[j].part_id
}

/// Well-formedness of a table: keys are unique, positive, and below the next
/// key to assign, so a freshly assigned key never collides.
pub open spec fn table_wf(t: TableModel) -> bool {
    &&& unique_ids(t.rows)
    &&& 1 <= t.next_id
    &&& forall|i: int|
        0 <= i < t.rows.len() ==> 1 <= (#[trigger] t.rows[i]).part_id < t.next_id
}

/// Whether some row carries the key `id`.
pub open spec fn contains_id(rows: Seq<ParticleModel>, id: int) -> bool {
    exists|i: int| 0 <= i < rows.len() && (#[trigger] rows[i]).part_id == id
}

/// The first row carrying the key `id`, if any: the row a keyed `SELECT`
/// returns.
pub open spec fn lookup(rows: Seq<ParticleModel>, id: int) -> Option<ParticleModel>
    decreases rows.len(),
{
    if rows.len() == 0 {
        None
    } else if rows[0].part_id == id {
        Some(rows[0])
    } else {
        lookup(rows.drop_first(), id)
    }
}

/// The rows left after deleting every row keyed `id`, order kept.
pub open spec fn remove_id(rows: Seq<ParticleModel>, id: int) -> Seq<ParticleModel>
    decreases rows.len(),
{
    if rows.len() == 0 {
        Seq::empty()
    } else if rows[0].part_id == id {
        remove_id(rows.drop_first(), id)
    } else {
        seq![rows[0]] + remove_id(rows.drop_first(), id)
    }
}

/// The rows after a keyed update: every row keyed `id` is replaced wholesale
/// by the payload with `updated_at` bumped to `now`; all other rows, and the
/// order, are untouched.
pub open spec fn replace_id(
    rows: Seq<ParticleModel>,
    id: int,
    p: PayloadModel,
    now: int,
) -> Seq<ParticleModel> {
    Seq::new(
        rows.len(),
        |i: int|
            if rows[i].part_id == id {
                updated_model(rows[i], p, now)
            } else {
                rows[i]
            },
    )
}

/// Table after a create at instant `now`: the new row is appended with the
/// next key, and the next key advances.
pub open spec fn spec_insert(t: TableModel, p: PayloadModel, now: int) -> TableModel {
    TableModel { rows: t.rows.push(new_model(t.next_id, p, now)), next_id: t.next_id + 1 }
}

/// Table after a keyed update at instant `now`. When no row matches, this is
/// the table unchanged.
pub open spec fn spec_update(t: TableModel, id: int, p: PayloadModel, now: int) -> TableModel {
    TableModel { rows: replace_id(t.rows, id, p, now), next_id: t.next_id }
}

/// Table after a keyed delete. When no row matches, this is the table
/// unchanged.
pub open spec fn spec_delete(t: TableModel, id: int) -> TableModel {
    TableModel { rows: remove_id(t.rows, id), next_id: t.next_id }
}

/// The row a keyed get returns, if any.
pub open spec fn spec_get(t: TableModel, id: int) -> Option<ParticleModel> {
    lookup(t.rows, id)
}

/// `lookup` returns the row at the first matching index.
pub proof fn lemma_lookup_index(rows: Seq<ParticleModel>, id: int, j: int)
    requires
        0 <= j < rows.len(),
        rows[j].part_id == id,
        forall|k: int| 0 <= k < j ==> (#[trigger] rows[k]).part_id != id,
    ensures
        lookup(rows, id) == Some(rows[j]),
    decreases j,
{
    if j > 0 {
        lemma_lookup_index(rows.drop_first(), id, j - 1);
    }
}

/// When no row matches, `lookup` returns nothing.
pub proof fn lemma_lookup_none(rows: Seq<ParticleModel>, id: int)
    requires
        forall|k: int| 0 <= k < rows.len() ==> (#[trigger] rows[k]).part_id != id,
    ensures
        lookup(rows, id) is None,
    decreases rows.len(),
{
    if rows.len() > 0 {
        lemma_lookup_none(rows.drop_first(), id);
    }
}

/// `lookup` succeeds exactly on keys the table holds, and the row it returns
/// carries that key and is a row of the table.
pub proof fn lemma_lookup_contains(rows: Seq<ParticleModel>, id: int)
    ensures
        (lookup(rows, id) is Some) == contains_id(rows, id),
        lookup(rows, id) is Some ==> lookup(rows, id)->Some_0.part_id == id && rows.contains(
            lookup(rows, id)->Some_0,
        ),
    decreases rows.len(),
{
    if rows.len() == 0 {
    } else if rows[0].part_id == id {
        assert(contains_id(rows, id));
        assert(rows.contains(rows[0]));
    } else {
        let tail = rows.drop_first();
        lemma_lookup_contains(tail, id);
        if contains_id(tail, id) {
            let w = choose|i: int| 0 <= i < tail.len() && (#[trigger] tail[i]).part_id == id;
            assert(rows[w + 1].part_id == id);
            assert(contains_id(rows, id));
            let m = choose|i: int| 0 <= i < tail.len() && tail[i] == lookup(tail, id)->Some_0;
            assert(rows[m + 1] == lookup(rows, id)->Some_0);
            assert(rows.contains(lookup(rows, id)->Some_0));
        } else {
            if contains_id(rows, id) {
                let w = choose|i: int|
                    0 <= i < rows.len() && (#[trigger] rows[i]).part_id == id;
                assert(w >= 1);
                assert(tail[w - 1].part_id == id);
                assert(contains_id(tail, id));
            }
        }
    }
}

/// A keyed update commutes with a keyed get: after the update, the get
/// returns the old row with its business fields replaced and `updated_at`
/// bumped, and a get that found nothing still finds nothing.
pub proof fn lemma_lookup_replace(rows: Seq<ParticleModel>, id: int, p: PayloadModel, now: int)
    ensures
        lookup(replace_id(rows, id, p, now), id) == match lookup(rows, id) {
            Option::Some(r) => Option::Some(updated_model(r, p, now)),
            Option::None => Option::None::<ParticleModel>,
        },
    decreases rows.len(),
{
    let replaced = replace_id(rows, id, p, now);
    if rows.len() == 0 {
    } else {
        lemma_lookup_replace(rows.drop_first(), id, p, now);
        assert(replaced.drop_first() =~= replace_id(rows.drop_first(), id, p, now));
    }
}

/// Appending a row commutes with a keyed delete.
pub proof fn lemma_remove_id_push(rows: Seq<ParticleModel>, x: ParticleModel, id: int)
    ensures
        remove_id(rows.push(x), id) == remove_id(rows, id) + (if x.part_id == id {
            Seq::<ParticleModel>::empty()
        } else {
            seq![x]
        }),
    decreases rows.len(),
{
    let tail = if x.part_id == id {
        Seq::<ParticleModel>::empty()
    } else {
        seq![x]
    };
    if rows.len() == 0 {
        reveal_with_fuel(remove_id, 3);
        assert(rows.push(x).drop_first() =~= Seq::<ParticleModel>::empty());
        assert(remove_id(rows.push(x), id) =~= remove_id(rows, id) + tail);
    } else {
        assert(rows.push(x).drop_first() =~= rows.drop_first().push(x));
        lemma_remove_id_push(rows.drop_first(), x, id);
        assert(rows.push(x)[0] == rows[0]);
        if rows[0].part_id == id {
            assert(remove_id(rows.push(x), id) =~= remove_id(rows, id) + tail);
        } else {
            assert(seq![rows[0]] + (remove_id(rows.drop_first(), id) + tail) =~= (seq![rows[0]]
                + remove_id(rows.drop_first(), id)) + tail);
            assert(remove_id(rows.push(x), id) =~= remove_id(rows, id) + tail);
        }
    }
}

/// What a keyed delete leaves: no row with the deleted key, every kept row a
/// row of the original, uniqueness kept, and exactly one row gone when a
/// unique-keyed table held the key (none when it did not).
pub proof fn lemma_remove_id_props(rows: Seq<ParticleModel>, id: int)
    ensures
        !contains_id(rows, id) ==> remove_id(rows, id) == rows,
        !contains_id(remove_id(rows, id), id),
        forall|x: ParticleModel| #[trigger]
            remove_id(rows, id).contains(x) ==> rows.contains(x),
        unique_ids(rows) ==> unique_ids(remove_id(rows, id)),
        unique_ids(rows) && contains_id(rows, id) ==> remove_id(rows, id).len() == rows.len()
            - 1,
        remove_id(rows, id).len() <= rows.len(),
    decreases rows.len(),
{
    if rows.len() == 0 {
        assert(remove_id(rows, id) =~= rows);
        if contains_id(rows, id) {
            let w = choose|i: int| 0 <= i < rows.len() && (#[trigger] rows[i]).part_id == id;
            assert(false);
        }
    } else {
        let head = rows[0];
        let tail = rows.drop_first();
        let rest = remove_id(tail, id);
        lemma_remove_id_props(tail, id);
        assert(forall|i: int| 0 <= i < tail.len() ==> #[trigger] tail[i] == rows[i + 1]);
        if unique_ids(rows) {
            assert forall|i: int, j: int| 0 <= i < j < tail.len() implies (#[trigger] tail[i]).part_id
                != (#[trigger] tail[j]).part_id by {
                assert(rows[i + 1].part_id != rows[j + 1].part_id);
            }
            assert(unique_ids(tail));
        }
        if head.part_id == id {
            // The whole result is what deleting from the tail leaves.
            assert(remove_id(rows, id) == rest);
            assert(contains_id(rows, id));
            if unique_ids(rows) {
                assert forall|k: int| 0 <= k < tail.len() implies (#[trigger] tail[k]).part_id
                    != id by {
                    assert(rows[0].part_id != rows[k + 1].part_id);
                }
                if contains_id(tail, id) {
                    let w = choose|i: int|
                        0 <= i < tail.len() && (#[trigger] tail[i]).part_id == id;
                    assert(false);
                }
                assert(rest == tail);
            }
            assert forall|x: ParticleModel| #[trigger] rest.contains(x) implies rows.contains(
                x,
            ) by {
                assert(tail.contains(x));
                let m = choose|i: int| 0 <= i < tail.len() && tail[i] == x;
                assert(rows[m + 1] == x);
            }
        } else {
            let combined = seq![head] + rest;
            assert(remove_id(rows, id) == combined);
            assert(combined[0] == head);
            assert(forall|k: int| 1 <= k < combined.len() ==> #[trigger] combined[k] == rest[k
                - 1]);
            // The deleted key is absent from the result.
            if contains_id(combined, id) {
                let w = choose|i: int|
                    0 <= i < combined.len() && (#[trigger] combined[i]).part_id == id;
                assert(w >= 1);
                assert(rest[w - 1].part_id == id);
                assert(contains_id(rest, id));
                assert(false);
            }
            // Every kept row is a row of the original.
            assert forall|x: ParticleModel| #[trigger] combined.contains(x) implies rows.contains(
                x,
            ) by {
                let k = choose|i: int| 0 <= i < combined.len() && combined[i] == x;
                if k == 0 {
                    assert(rows[0] == x);
                } else {
                    assert(rest[k - 1] == x);
                    assert(rest.contains(x));
                    assert(tail.contains(x));
                    let m = choose|i: int| 0 <= i < tail.len() && tail[i] == x;
                    assert(rows[m + 1] == x);
                }
            }
            if unique_ids(rows) {
                // The head keeps a key no kept tail row carries.
                assert forall|k: int| 0 <= k < rest.len() implies (#[trigger] rest[k]).part_id
                    != head.part_id by {
                    assert(rest.contains(rest[k]));
                    assert(tail.contains(rest[k]));
                    let m = choose|i: int| 0 <= i < tail.len() && tail[i] == rest[k];
                    assert(rows[0].part_id != rows[m + 1].part_id);
                }
                assert forall|i: int, j: int| 0 <= i < j < combined.len() implies (
                #[trigger] combined[i]).part_id != (#[trigger] combined[j]).part_id by {
                    assert(combined[j] == rest[j - 1]);
                    if i > 0 {
                        assert(combined[i] == rest[i - 1]);
                        assert(unique_ids(rest));
                    }
                }
                assert(unique_ids(combined));
            }
            if !contains_id(rows, id) {
                if contains_id(tail, id) {
                    let w = choose|i: int|
                        0 <= i < tail.len() && (#[trigger] tail[i]).part_id == id;
                    assert(rows[w + 1].part_id == id);
                    assert(contains_id(rows, id));
                }
                assert(rest == tail);
                assert(combined =~= rows);
            }
            if unique_ids(rows) && contains_id(rows, id) {
                let w = choose|i: int| 0 <= i < rows.len() && (#[trigger] rows[i]).part_id == id;
                assert(w >= 1);
                assert(tail[w - 1].part_id == id);
                assert(contains_id(tail, id));
            }
        }
    }
}

/// The particle table itself: the rows in storage order and the next primary
/// key the engine will assign.
pub struct ParticleTable {
    rows: Vec<Particle>,
    next_id: i32,
}

impl View for ParticleTable {
    type V = TableModel;

    closed spec fn view(&self) -> TableModel {
        TableModel {
            rows: self.rows@.map_values(|p: Particle| p@),
            next_id: self.next_id as int,
        }
    }
}

impl ParticleTable {
    /// An empty table; keys start at 1, as a serial column does.
    pub fn new() -> (t: ParticleTable)
        ensures
            t@ == (TableModel { rows: Seq::<ParticleModel>::empty(), next_id: 1 }),
            table_wf(t@),
    {
        let t = ParticleTable { rows: Vec::new(), next_id: 1 };
        proof {
            assert(t@ =~= (TableModel { rows: Seq::<ParticleModel>::empty(), next_id: 1 }));
        }
        t
    }

    /// Whether the table can still assign a fresh key: false only once the
    /// key space is exhausted.
    pub fn can_assign_id(&self) -> (b: bool)
        ensures
            b == (self@.next_id < i32::MAX as int),
    {
        self.next_id < i32::MAX
    }

    /// The full-table scan: every row, in storage order.
    pub fn find_all_particles(&self) -> (r: Vec<Particle>)
        ensures
            r@.map_values(|p: Particle| p@) == self@.rows,
    {
        let mut out: Vec<Particle> = Vec::new();
        let n = self.rows.len();
        let mut i: usize = 0;
        while i < n
            invariant
                i <= n,
                n == self.rows.len(),
                out@.map_values(|p: Particle| p@) == self@.rows.take(i as int),
            decreases n - i,
        {
            let ghost prev = out@;
            out.push(self.rows[i].clone());
            proof {
                assert(out@.map_values(|p: Particle| p@) =~= prev.map_values(
                    |p: Particle| p@,
                ).push(self@.rows[i as int]));
                assert(self@.rows.take(i as int + 1) =~= self@.rows.take(i as int).push(
                    self@.rows[i as int],
                ));
            }
            i += 1;
        }
        proof {
            assert(self@.rows.take(n as int) =~= self@.rows);
        }
        out
    }

    /// The keyed lookup: the row under `particle_id` when one exists; absence
    /// is not an error.
    pub fn find_particle_by_id(&self, particle_id: i32) -> (r: Option<Particle>)
        ensures
            (r is Some) == contains_id(self@.rows, particle_id as int),
            r is Some ==> Some(r->Some_0@) == spec_get(self@, particle_id as int),
            r is None ==> spec_get(self@, particle_id as int) is None,
    {
        let n = self.rows.len();
        let mut i: usize = 0;
        while i < n
            invariant
                i <= n,
                n == self.rows.len(),
                forall|k: int|
                    0 <= k < i as int ==> (#[trigger] self@.rows[k]).part_id != particle_id as int,
            decreases n - i,
        {
            if self.rows[i].part_id == particle_id {
                proof {
                    lemma_lookup_index(self@.rows, particle_id as int, i as int);
                    assert(contains_id(self@.rows, particle_id as int));
                }
                return Some(self.rows[i].clone());
            }
            i += 1;
        }
        proof {
            lemma_lookup_none(self@.rows, particle_id as int);
            if contains_id(self@.rows, particle_id as int) {
                let w = choose|k: int|
                    0 <= k < self@.rows.len() && (#[trigger] self@.rows[k]).part_id
                        == particle_id as int;
                assert(false);
            }
        }
        None
    }

    /// The create at a caller-chosen instant: appends a row under the next
    /// key, both timestamps stamped with `now`, and returns the created row.
    pub fn add_particle_at(&mut self, payload: &ParticlePayLoad, now: i64) -> (r: Particle)
        requires
            table_wf(old(self)@),
            old(self)@.next_id < i32::MAX as int,
        ensures
            final(self)@ == spec_insert(old(self)@, payload@, now as int),
            r@ == new_model(old(self)@.next_id, payload@, now as int),
            table_wf(final(self)@),
    {
        let row = NewParticle::from_payload(payload, now).with_id(self.next_id);
        let result = row.clone();
        self.rows.push(row);
        self.next_id = self.next_id + 1;
        proof {
            assert(result@ =~= new_model(old(self)@.next_id, payload@, now as int));
            assert(self@.rows =~= old(self)@.rows.push(result@));
            assert(self@ =~= spec_insert(old(self)@, payload@, now as int));
            let rows = self@.rows;
            assert forall|i: int, j: int| 0 <= i < j < rows.len() implies (
            #[trigger] rows[i]).part_id != (#[trigger] rows[j]).part_id by {
                if j < rows.len() - 1 {
                    assert(old(self)@.rows[i].part_id != old(self)@.rows[j].part_id);
                } else {
                    assert(rows[i] == old(self)@.rows[i]);
                    assert(rows[i].part_id < old(self)@.next_id);
                }
            }
        }
        result
    }

    /// The create as the handler invokes it: stamps both timestamps with one
    /// reading of the wall clock. Whatever instant the clock returned, the
    /// new row is appended under the next key with equal timestamps.
    pub fn add_particle(&mut self, payload: &ParticlePayLoad) -> (r: Particle)
        requires
            table_wf(old(self)@),
            old(self)@.next_id < i32::MAX as int,
        ensures
            table_wf(final(self)@),
            exists|now: int| #![auto]
                final(self)@ == spec_insert(old(self)@, payload@, now) && r@ == new_model(
                    old(self)@.next_id,
                    payload@,
                    now,
                ),
            r@.created_at == r@.updated_at,
            r@.part_id == old(self)@.next_id,
            final(self)@.next_id == old(self)@.next_id + 1,
    {
        let now = crate::clock::now_micros();
        let r = self.add_particle_at(payload, now);
        proof {
            assert(self@ == spec_insert(old(self)@, payload@, now as int) && r@ == new_model(
                old(self)@.next_id,
                payload@,
                now as int,
            ));
        }
        r
    }

    /// The keyed update at a caller-chosen instant: replaces the five
    /// business fields of the row under `particle_id` wholesale, keeps
    /// `created_at`, bumps `updated_at` to `now`, and returns the replaced
    /// row. When no row matches, the table is untouched and the operation
    /// fails with `NotFound`.
    pub fn update_particle_at(
        &mut self,
        particle_id: i32,
        payload: &ParticlePayLoad,
        now: i64,
    ) -> (r: Result<Particle, StorageError>)
        requires
            table_wf(old(self)@),
        ensures
            final(self)@ == spec_update(old(self)@, particle_id as int, payload@, now as int),
            table_wf(final(self)@),
            (r is Ok) == contains_id(old(self)@.rows, particle_id as int),
            r is Ok ==> spec_get(old(self)@, particle_id as int) is Some && r->Ok_0@
                == updated_model(
                spec_get(old(self)@, particle_id as int)->Some_0,
                payload@,
                now as int,
            ),
            r is Err ==> r->Err_0 == StorageError::NotFound && final(self)@ == old(self)@,
    {
        let ghost orig: Seq<ParticleModel> = self@.rows;
        let mut out: Vec<Particle> = Vec::new();
        let mut found: Option<Particle> = None;
        let ghost mut first_j: int = 0;
        let n = self.rows.len();
        let mut i: usize = 0;
        while i < n
            invariant
                i <= n,
                n == self.rows.len(),
                self@ == old(self)@,
                orig == old(self)@.rows,
                out@.len() == i as int,
                forall|k: int|
                    0 <= k < i as int ==> (#[trigger] out@[k])@ == (if orig[k].part_id
                        == particle_id as int {
                        updated_model(orig[k], payload@, now as int)
                    } else {
                        orig[k]
                    }),
                found is None ==> forall|k: int|
                    0 <= k < i as int ==> (#[trigger] orig[k]).part_id != particle_id as int,
                found is Some ==> {
                    &&& 0 <= first_j < i as int
                    &&& orig[first_j].part_id == particle_id as int
                    &&& (forall|k: int|
                        0 <= k < first_j ==> (#[trigger] orig[k]).part_id != particle_id as int)
                    &&& found->Some_0@ == updated_model(orig[first_j], payload@, now as int)
                },
            decreases n - i,
        {
            let p = &self.rows[i];
            if p.part_id == particle_id {
                let updated = Particle {
                    part_id: p.part_id,
                    part_type: payload.part_type.clone(),
                    part_name: payload.part_name.clone(),
                    mass: payload.mass,
                    charge: payload.charge.clone(),
                    spin: payload.spin.clone(),
                    created_at: p.created_at,
                    updated_at: now,
                };
                if found.is_none() {
                    found = Some(updated.clone());
                    proof {
                        first_j = i as int;
                    }
                }
                out.push(updated);
            } else {
                out.push(self.rows[i].clone());
            }
            i += 1;
        }
        self.rows = out;
        proof {
            assert(self@.rows =~= replace_id(orig, particle_id as int, payload@, now as int));
            assert(self@ =~= spec_update(old(self)@, particle_id as int, payload@, now as int));
            let rows = self@.rows;
            assert forall|i2: int, j2: int| 0 <= i2 < j2 < rows.len() implies (
            #[trigger] rows[i2]).part_id != (#[trigger] rows[j2]).part_id by {
                assert(rows[i2].part_id == orig[i2].part_id);
                assert(rows[j2].part_id == orig[j2].part_id);
            }
            assert forall|i2: int| 0 <= i2 < rows.len() implies 1 <= (
            #[trigger] rows[i2]).part_id < self@.next_id by {
                assert(rows[i2].part_id == orig[i2].part_id);
            }
        }
        match found {
            Some(p) => {
                proof {
                    lemma_lookup_index(orig, particle_id as int, first_j);
                    assert(contains_id(orig, particle_id as int));
                }
                Ok(p)
            },
            None => {
                proof {
                    if contains_id(orig, particle_id as int) {
                        let w = choose|k: int|
                            0 <= k < orig.len() && (#[trigger] orig[k]).part_id
                                == particle_id as int;
                        assert(false);
                    }
                    assert(self@ =~= old(self)@);
                }
                Err(StorageError::NotFound)
            },
        }
    }

    /// The keyed update as the handler invokes it: `updated_at` is stamped
    /// with one reading of the wall clock.
    pub fn update_particle(&mut self, particle_id: i32, payload: &ParticlePayLoad) -> (r: Result<
        Particle,
        StorageError,
    >)
        requires
            table_wf(old(self)@),
        ensures
            table_wf(final(self)@),
            (r is Ok) == contains_id(old(self)@.rows, particle_id as int),
            exists|now: int| #![auto]
                final(self)@ == spec_update(old(self)@, particle_id as int, payload@, now) && (r
                    is Ok ==> r->Ok_0@ == updated_model(
                    spec_get(old(self)@, particle_id as int)->Some_0,
                    payload@,
                    now,
                )),
            r is Ok ==> spec_get(old(self)@, particle_id as int) is Some && r->Ok_0@.created_at
                == spec_get(old(self)@, particle_id as int)->Some_0.created_at
                && r->Ok_0@.part_id == particle_id as int,
            r is Err ==> r->Err_0 == StorageError::NotFound && final(self)@ == old(self)@,
    {
        let now = crate::clock::now_micros();
        let r = self.update_particle_at(particle_id, payload, now);
        proof {
            lemma_lookup_contains(old(self)@.rows, particle_id as int);
            assert(self@ == spec_update(old(self)@, particle_id as int, payload@, now as int) && (
            r is Ok ==> r->Ok_0@ == updated_model(
                spec_get(old(self)@, particle_id as int)->Some_0,
                payload@,
                now as int,
            )));
        }
        r
    }

    /// The keyed delete: removes the row under `particle_id` when one
    /// exists, and returns how many rows went away, 0 or 1. A missing row is
    /// not an error.
    pub fn delete_particle(&mut self, particle_id: i32) -> (r: usize)
        requires
            table_wf(old(self)@),
        ensures
            final(self)@ == spec_delete(old(self)@, particle_id as int),
            table_wf(final(self)@),
            contains_id(old(self)@.rows, particle_id as int) ==> r == 1,
            !contains_id(old(self)@.rows, particle_id as int) ==> r == 0,
    {
        let ghost orig: Seq<ParticleModel> = self@.rows;
        let mut kept: Vec<Particle> = Vec::new();
        let mut removed: usize = 0;
        let n = self.rows.len();
        let mut i: usize = 0;
        while i < n
            invariant
                i <= n,
                n == self.rows.len(),
                self@ == old(self)@,
                orig == old(self)@.rows,
                kept@.map_values(|p: Particle| p@) == remove_id(
                    orig.take(i as int),
                    particle_id as int,
                ),
                removed as int + kept@.len() == i as int,
            decreases n - i,
        {
            let ghost prev = kept@;
            if self.rows[i].part_id == particle_id {
                removed = removed + 1;
            } else {
                kept.push(self.rows[i].clone());
            }
            proof {
                lemma_remove_id_push(orig.take(i as int), orig[i as int], particle_id as int);
                assert(orig.take(i as int + 1) =~= orig.take(i as int).push(orig[i as int]));
                if orig[i as int].part_id == particle_id as int {
                    assert(remove_id(orig.take(i as int), particle_id as int)
                        + Seq::<ParticleModel>::empty() =~= remove_id(
                        orig.take(i as int),
                        particle_id as int,
                    ));
                } else {
                    assert(kept@.map_values(|p: Particle| p@) =~= prev.map_values(
                        |p: Particle| p@,
                    ).push(orig[i as int]));
                }
                assert(kept@.map_values(|p: Particle| p@) =~= remove_id(
                    orig.take(i as int + 1),
                    particle_id as int,
                ));
            }
            i += 1;
        }
        proof {
            assert(orig.take(n as int) =~= orig);
        }
        self.rows = kept;
        proof {
            lemma_remove_id_props(orig, particle_id as int);
            assert(self@ =~= spec_delete(old(self)@, particle_id as int));
            let rows = self@.rows;
            assert forall|i2: int| 0 <= i2 < rows.len() implies 1 <= (
            #[trigger] rows[i2]).part_id < self@.next_id by {
                assert(rows.contains(rows[i2]));
                assert(orig.contains(rows[i2]));
                let m = choose|k: int| 0 <= k < orig.len() && orig[k] == rows[i2];
                assert(1 <= orig[m].part_id < old(self)@.next_id);
            }
        }
        removed
    }
}

} // verus!
