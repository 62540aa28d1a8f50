//! The generic CRUD repository layer.
//!
//! A store of entities is modelled by its records, kept in the store's order,
//! and by the next id it will hand out. Every id below that bound has been
//! handed out before (by `create`, or taken by `update`), so an id that
//! `create` returns was never assigned earlier, even to a record deleted since.

use vstd::prelude::*;

use crate::diagnostics::{Error, Result};
use crate::entity::Entity;

verus! {

/// One past the largest id a store can hand out (2^63).
pub const ID_LIMIT: u64 = 0x8000_0000_0000_0000;

/// No two records share an id.
pub open spec fn ids_unique<E: Entity>(rows: Seq<E>) -> bool {
    forall|i: int, j: int| 0 <= i < j < rows.len() ==> rows[i].spec_id() != rows[j].spec_id()
}

/// The invariant of a store's contents: ids are unique, and each is at least
/// zero and below the next id to hand out, which is at most `ID_LIMIT`.
pub open spec fn store_invariant<E: Entity>(rows: Seq<E>, next_id: int) -> bool {
    &&& ids_unique(rows)
    &&& forall|i: int| 0 <= i < rows.len() ==> 0 <= #[trigger] rows[i].spec_id() < next_id
    &&& 0 <= next_id <= ID_LIMIT
}

/// Whether an id has been handed out by a store whose next id is `next_id`.
pub open spec fn assigned_before(next_id: int, id: int) -> bool {
    0 <= id < next_id
}

/// Some record has this id.
pub open spec fn has_id<E: Entity>(rows: Seq<E>, id: i64) -> bool {
    exists|i: int| 0 <= i < rows.len() && #[trigger] rows[i].spec_id() == id
}

/// Accepts the records whose id is not `id`.
pub open spec fn id_other_than<E: Entity>(id: i64) -> spec_fn(E) -> bool {
    |e: E| e.spec_id() != id
}

/// Accepts the records whose id is among `ids`.
pub open spec fn id_among<E: Entity>(ids: Seq<i64>) -> spec_fn(E) -> bool {
    |e: E| ids.contains(e.spec_id())
}

/// Accepts the records whose id is not among `ids`.
pub open spec fn id_not_among<E: Entity>(ids: Seq<i64>) -> spec_fn(E) -> bool {
    |e: E| !ids.contains(e.spec_id())
}

/// The records whose id is not `id`, in order.
pub open spec fn rows_without<E: Entity>(rows: Seq<E>, id: i64) -> Seq<E> {
    rows.filter(id_other_than(id))
}

/// The records whose id is among `ids`, in order.
pub open spec fn rows_with_ids<E: Entity>(rows: Seq<E>, ids: Seq<i64>) -> Seq<E> {
    rows.filter(id_among(ids))
}

/// The records whose id is not among `ids`, in order.
pub open spec fn rows_without_ids<E: Entity>(rows: Seq<E>, ids: Seq<i64>) -> Seq<E> {
    rows.filter(id_not_among(ids))
}

/// The records after `entity` replaced the record with its id, or was added
/// at the end when there was none.
pub open spec fn rows_upserted<E: Entity>(rows: Seq<E>, entity: E) -> Seq<E> {
    if has_id(rows, entity.spec_id()) {
        rows.map_values(|r: E| if r.spec_id() == entity.spec_id() { entity } else { r })
    } else {
        rows.push(entity)
    }
}

/// The next id after `id` was written by `update`.
pub open spec fn next_id_after_update(next_id: int, id: int) -> int {
    if id + 1 > next_id {
        id + 1
    } else {
        next_id
    }
}

/// The persistence operations that every store of entities `E` offers.
pub trait BasicRepository<E: Entity>: Sized {
    /// The stored records, in the store's order.
    spec fn rows(&self) -> Seq<E>;

    /// The next id that `create` hands out.
    spec fn next_id(&self) -> int;

    /// Inserts the entity as a new record under a fresh id; the entity's own
    /// id is not used. Fails with a store error once the id space is exhausted.
    fn create(&mut self, entity: E) -> (r: Result<E>)
        requires
            store_invariant(old(self).rows(), old(self).next_id()),
        ensures
            store_invariant(final(self).rows(), final(self).next_id()),
            r is Ok <==> old(self).next_id() < ID_LIMIT,
            match r {
                Ok(s) => {
                    &&& s.spec_id() == old(self).next_id()
                    &&& s.spec_id() >= 0
                    &&& !assigned_before(old(self).next_id(), s.spec_id() as int)
                    &&& !has_id(old(self).rows(), s.spec_id())
                    &&& assigned_before(final(self).next_id(), s.spec_id() as int)
                    &&& s == entity.spec_with_id(s.spec_id())
                    &&& final(self).rows() == old(self).rows().push(s)
                    &&& final(self).next_id() == old(self).next_id() + 1
                },
                Err(e) => {
                    &&& e is Store
                    &&& final(self).rows() == old(self).rows()
                    &&& final(self).next_id() == old(self).next_id()
                },
            },
    ;

    /// Every record, in the store's order.
    fn find_all(&self) -> (r: Result<Vec<E>>)
        requires
            store_invariant(self.rows(), self.next_id()),
        ensures
            r is Ok,
            r->Ok_0@ == self.rows(),
    ;

    /// The record with this id; `NotFound` when there is none.
    fn find_by_id(&self, id: &i64) -> (r: Result<E>)
        requires
            store_invariant(self.rows(), self.next_id()),
        ensures
            r is Ok <==> has_id(self.rows(), *id),
            match r {
                Ok(s) => s.spec_id() == *id && self.rows().contains(s),
                Err(e) => e == Error::NotFound,
            },
    ;

    /// The records whose id is among `ids`, in the store's order; ids that
    /// match no record are left out.
    fn find_all_by_id(&self, ids: Vec<i64>) -> (r: Result<Vec<E>>)
        requires
            store_invariant(self.rows(), self.next_id()),
        ensures
            r is Ok,
            r->Ok_0@ == rows_with_ids(self.rows(), ids@),
    ;

    /// Replaces the record with the entity's id, or adds it when there is
    /// none. An entity that still carries the "new" sentinel is refused.
    fn update(&mut self, entity: E) -> (r: Result<E>)
        requires
            store_invariant(old(self).rows(), old(self).next_id()),
        ensures
            store_invariant(final(self).rows(), final(self).next_id()),
            r is Ok <==> entity.spec_id() >= 0,
            match r {
                Ok(s) => {
                    &&& s == entity
                    &&& final(self).rows() == rows_upserted(old(self).rows(), entity)
                    &&& final(self).next_id() == next_id_after_update(
                        old(self).next_id(),
                        entity.spec_id() as int,
                    )
                },
                Err(e) => {
                    &&& e is Validation
                    &&& final(self).rows() == old(self).rows()
                    &&& final(self).next_id() == old(self).next_id()
                },
            },
    ;

    /// Removes every record.
    fn delete_all(&mut self) -> (r: Result<()>)
        requires
            store_invariant(old(self).rows(), old(self).next_id()),
        ensures
            store_invariant(final(self).rows(), final(self).next_id()),
            r is Ok,
            final(self).rows() == Seq::<E>::empty(),
            final(self).next_id() == old(self).next_id(),
    ;

    /// Removes the record with this id, if there is one.
    fn delete_by_id(&mut self, id: &i64) -> (r: Result<()>)
        requires
            store_invariant(old(self).rows(), old(self).next_id()),
        ensures
            store_invariant(final(self).rows(), final(self).next_id()),
            r is Ok,
            final(self).rows() == rows_without(old(self).rows(), *id),
            final(self).next_id() == old(self).next_id(),
    ;

    /// Removes the records whose id is among `ids`.
    fn delete_all_by_id(&mut self, ids: Vec<i64>) -> (r: Result<()>)
        requires
            store_invariant(old(self).rows(), old(self).next_id()),
        ensures
            store_invariant(final(self).rows(), final(self).next_id()),
            r is Ok,
            final(self).rows() == rows_without_ids(old(self).rows(), ids@),
            final(self).next_id() == old(self).next_id(),
    ;

    /// Creates the entity when it still carries the "new" sentinel, and
    /// updates the record with its id otherwise.
    fn save(&mut self, entity: E) -> (r: Result<E>)
        requires
            store_invariant(old(self).rows(), old(self).next_id()),
        ensures
            store_invariant(final(self).rows(), final(self).next_id()),
            entity.spec_id() < 0 ==> (r is Ok <==> old(self).next_id() < ID_LIMIT),
            entity.spec_id() < 0 ==> match r {
                Ok(s) => {
                    &&& s.spec_id() == old(self).next_id()
                    &&& s == entity.spec_with_id(s.spec_id())
                    &&& final(self).rows() == old(self).rows().push(s)
                    &&& final(self).next_id() == old(self).next_id() + 1
                },
                Err(e) => {
                    &&& e is Store
                    &&& final(self).rows() == old(self).rows()
                    &&& final(self).next_id() == old(self).next_id()
                },
            },
            entity.spec_id() >= 0 ==> {
                &&& r is Ok
                &&& r->Ok_0 == entity
                &&& final(self).rows() == rows_upserted(old(self).rows(), entity)
                &&& final(self).next_id() == next_id_after_update(
                    old(self).next_id(),
                    entity.spec_id() as int,
                )
            },
    {
        if entity.is_new() {
            self.create(entity)
        } else {
            self.update(entity)
        }
    }

    /// Removes the record with the entity's id, if there is one.
    fn delete(&mut self, entity: E) -> (r: Result<()>)
        requires
            store_invariant(old(self).rows(), old(self).next_id()),
        ensures
            store_invariant(final(self).rows(), final(self).next_id()),
            r is Ok,
            final(self).rows() == rows_without(old(self).rows(), entity.spec_id()),
            final(self).next_id() == old(self).next_id(),
    {
        self.delete_by_id(entity.get_id())
    }
}

/// An id that no record has is left out of what `find_all_by_id` returns,
/// while every listed id that a record has is kept.
pub proof fn lemma_find_all_by_id_omits_absent<E: Entity>(rows: Seq<E>, ids: Seq<i64>, id: i64)
    ensures
        !has_id(rows, id) ==> !has_id(rows_with_ids(rows, ids), id),
        has_id(rows, id) && ids.contains(id) ==> has_id(rows_with_ids(rows, ids), id),
{
    let pred = id_among::<E>(ids);
    let out = rows.filter(pred);
    if has_id(out, id) {
        let i = choose|i: int| 0 <= i < out.len() && #[trigger] out[i].spec_id() == id;
        assert(out.contains(out[i]));
        rows.lemma_filter_contains_rev(pred, out[i]);
        let k = choose|k: int| 0 <= k < rows.len() && rows[k] == out[i];
        assert(rows[k].spec_id() == id);
    }
    if has_id(rows, id) && ids.contains(id) {
        let k = choose|k: int| 0 <= k < rows.len() && #[trigger] rows[k].spec_id() == id;
        rows.lemma_filter_contains(pred, k);
        let i = choose|i: int| 0 <= i < out.len() && out[i] == rows[k];
        assert(out[i].spec_id() == id);
    }
}

/// After the record with an id is deleted, no record has that id, whether
/// or not one had it before; so `find_by_id` then fails with `NotFound`.
pub proof fn lemma_deleted_id_not_found<E: Entity>(rows: Seq<E>, id: i64)
    ensures
        !has_id(rows_without(rows, id), id),
{
    let pred = id_other_than::<E>(id);
    let out = rows.filter(pred);
    if has_id(out, id) {
        let i = choose|i: int| 0 <= i < out.len() && #[trigger] out[i].spec_id() == id;
        rows.lemma_filter_pred(pred, i);
    }
}

/// Once every record is deleted, `find_all` lists nothing: what it returns
/// is the store's records, which are then none.
pub proof fn lemma_nothing_found_after_delete_all<E: Entity>(rows: Seq<E>, found: Seq<E>)
    requires
        rows == Seq::<E>::empty(),
        found == rows,
    ensures
        found.len() == 0,
{
}

} // verus!
