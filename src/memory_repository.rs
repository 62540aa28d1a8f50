//! A repository that keeps its entities in memory.

use vstd::prelude::*;

use crate::diagnostics::{Error, Result};
use crate::entity::{Entity, Sample};
use crate::repository::{
    has_id, id_among, id_not_among, id_other_than, ids_unique, next_id_after_update, rows_upserted,
    rows_with_ids, rows_without_ids, store_invariant, BasicRepository, ID_LIMIT,
};
use crate::seq_facts::{keys_unique, lemma_filter_unique};

verus! {

/// A store of entities held in memory, in insertion order.
pub struct MemoryRepository<E> {
    rows: Vec<E>,
    next_id: u64,
}

/// The in-memory store of samples.
pub type SampleRepositoryMap = MemoryRepository<Sample>;

/// Whether `id` is among `ids`.
fn ids_contain(ids: &Vec<i64>, id: i64) -> (r: bool)
    ensures
        r == ids@.contains(id),
{
    let mut i: usize = 0;
    while i < ids.len()
        invariant
            i <= ids@.len(),
            forall|j: int| 0 <= j < i ==> ids@[j] != id,
        decreases ids@.len() - i,
    {
        if ids[i] == id {
            return true;
        }
        i += 1;
    }
    false
}

/// Filtering keeps the store invariant.
proof fn lemma_filter_keeps_invariant<E: Entity>(
    rows: Seq<E>,
    next_id: int,
    pred: spec_fn(E) -> bool,
)
    requires
        store_invariant(rows, next_id),
    ensures
        store_invariant(rows.filter(pred), next_id),
{
    let key = |e: E| e.spec_id();
    assert(keys_unique(rows, key));
    lemma_filter_unique(rows, pred, key);
    let out = rows.filter(pred);
    assert forall|i: int| 0 <= i < out.len() implies 0 <= #[trigger] out[i].spec_id()
        < next_id by {
        assert(out.contains(out[i]));
    }
}

impl<E: Entity> MemoryRepository<E> {
    /// An empty store whose first id is 0.
    pub fn new() -> (r: Self)
        ensures
            r.rows() == Seq::<E>::empty(),
            r.next_id() == 0,
            store_invariant(r.rows(), r.next_id()),
    {
        let r = MemoryRepository { rows: Vec::new(), next_id: 0 };
        assert(r.rows() =~= Seq::<E>::empty());
        r
    }

    /// The position of the record with this id, if there is one.
    fn position_of(&self, id: i64) -> (r: Option<usize>)
        requires
            ids_unique(self.rows@),
        ensures
            match r {
                Some(k) => k < self.rows@.len() && self.rows@[k as int].spec_id() == id,
                None => !has_id(self.rows@, id),
            },
    {
        let mut i: usize = 0;
        while i < self.rows.len()
            invariant
                i <= self.rows@.len(),
                forall|j: int| 0 <= j < i ==> #[trigger] self.rows@[j].spec_id() != id,
            decreases self.rows@.len() - i,
        {
            if *self.rows[i].get_id() == id {
                return Some(i);
            }
            i += 1;
        }
        None
    }

    /// Copies of the records that `pred` keeps: those whose id is among
    /// `ids` when `keep_listed`, the others otherwise.
    fn select(&self, ids: &Vec<i64>, keep_listed: bool) -> (r: Vec<E>)
        ensures
            keep_listed ==> r@ == self.rows@.filter(id_among(ids@)),
            !keep_listed ==> r@ == self.rows@.filter(id_not_among(ids@)),
    {
        let ghost rows = self.rows@;
        let ghost pred = if keep_listed {
            id_among::<E>(ids@)
        } else {
            id_not_among::<E>(ids@)
        };
        let mut out: Vec<E> = Vec::new();
        let mut i: usize = 0;
        while i < self.rows.len()
            invariant
                rows == self.rows@,
                i <= self.rows@.len(),
                pred == (if keep_listed {
                    id_among::<E>(ids@)
                } else {
                    id_not_among::<E>(ids@)
                }),
                out@ == rows.take(i as int).filter(pred),
            decreases self.rows@.len() - i,
        {
            proof {
                assert(rows.take(i + 1) =~= rows.take(i as int).push(rows[i as int]));
                rows.take(i as int).lemma_filter_push(rows[i as int], pred);
            }
            let listed = ids_contain(ids, *self.rows[i].get_id());
            if listed == keep_listed {
                out.push(self.rows[i].duplicate());
            }
            i += 1;
        }
        assert(rows.take(i as int) =~= rows);
        out
    }
}

impl<E: Entity> BasicRepository<E> for MemoryRepository<E> {
    closed spec fn rows(&self) -> Seq<E> {
        self.rows@
    }

    closed spec fn next_id(&self) -> int {
        self.next_id as int
    }

    fn create(&mut self, entity: E) -> (r: Result<E>) {
        if self.next_id >= ID_LIMIT {
            return Err(Error::Store("the id space of the store is exhausted".to_owned()));
        }
        let id = self.next_id as i64;
        let created = entity.with_id(id);
        self.rows.push(created.duplicate());
        self.next_id = self.next_id + 1;
        Ok(created)
    }

    fn find_all(&self) -> (r: Result<Vec<E>>) {
        let mut out: Vec<E> = Vec::new();
        let mut i: usize = 0;
        while i < self.rows.len()
            invariant
                i <= self.rows@.len(),
                out@ =~= self.rows@.take(i as int),
            decreases self.rows@.len() - i,
        {
            out.push(self.rows[i].duplicate());
            assert(self.rows@.take(i + 1) =~= self.rows@.take(i as int).push(self.rows@[i as int]));
            i += 1;
        }
        assert(self.rows@.take(i as int) =~= self.rows@);
        Ok(out)
    }

    fn find_by_id(&self, id: &i64) -> (r: Result<E>) {
        match self.position_of(*id) {
            Some(k) => Ok(self.rows[k].duplicate()),
            None => Err(Error::NotFound),
        }
    }

    fn find_all_by_id(&self, ids: Vec<i64>) -> (r: Result<Vec<E>>) {
        Ok(self.select(&ids, true))
    }

    fn update(&mut self, entity: E) -> (r: Result<E>) {
        if entity.is_new() {
            return Err(Error::Validation("an update needs the id of a stored record".to_owned()));
        }
        let ghost rows = self.rows@;
        let ghost row = entity;
        let id = *entity.get_id();
        let result = entity.duplicate();
        match self.position_of(id) {
            Some(k) => {
                self.rows[k] = entity;
                assert(self.rows@ =~= rows.map_values(
                    |r: E| if r.spec_id() == row.spec_id() { row } else { r },
                ));
            },
            None => {
                self.rows.push(entity);
            },
        }
        if id as u64 >= self.next_id {
            self.next_id = id as u64 + 1;
        }
        assert(self.rows@ == rows_upserted(rows, row));
        assert(self.next_id() == next_id_after_update(old(self).next_id(), id as int));
        Ok(result)
    }

    fn delete_all(&mut self) -> (r: Result<()>) {
        self.rows.clear();
        Ok(())
    }

    fn delete_by_id(&mut self, id: &i64) -> (r: Result<()>) {
        let ghost rows = self.rows@;
        let ghost pred = id_other_than::<E>(*id);
        let mut out: Vec<E> = Vec::new();
        let mut i: usize = 0;
        while i < self.rows.len()
            invariant
                rows == self.rows@,
                i <= self.rows@.len(),
                pred == id_other_than::<E>(*id),
                out@ == rows.take(i as int).filter(pred),
            decreases self.rows@.len() - i,
        {
            proof {
                assert(rows.take(i + 1) =~= rows.take(i as int).push(rows[i as int]));
                rows.take(i as int).lemma_filter_push(rows[i as int], pred);
            }
            if *self.rows[i].get_id() != *id {
                out.push(self.rows[i].duplicate());
            }
            i += 1;
        }
        assert(rows.take(i as int) =~= rows);
        proof {
            lemma_filter_keeps_invariant(rows, self.next_id as int, pred);
        }
        self.rows = out;
        Ok(())
    }

    fn delete_all_by_id(&mut self, ids: Vec<i64>) -> (r: Result<()>) {
        let kept = self.select(&ids, false);
        proof {
            lemma_filter_keeps_invariant(self.rows@, self.next_id as int, id_not_among::<E>(ids@));
        }
        self.rows = kept;
        Ok(())
    }
}

} // verus!
