//! The use-case layer over any repository of samples.

use vstd::prelude::*;

use crate::diagnostics::Result;
use crate::entity::Sample;
use crate::repository::{assigned_before, has_id, store_invariant, BasicRepository, ID_LIMIT};

verus! {

/// The sample use cases, run against the repository `R`. They pass the
/// repository's results and errors through unchanged.
pub struct BasicSampleUsecase<R> {
    pub sample_repository: R,
}

impl<R: BasicRepository<Sample>> BasicSampleUsecase<R> {
    /// The use cases over this repository.
    pub fn new(sample_repository: R) -> (r: Self)
        ensures
            r.sample_repository == sample_repository,
    {
        BasicSampleUsecase { sample_repository }
    }

    /// Every stored sample, in the repository's order.
    pub fn find_all(&self) -> (r: Result<Vec<Sample>>)
        requires
            store_invariant(self.sample_repository.rows(), self.sample_repository.next_id()),
        ensures
            r is Ok,
            r->Ok_0@ == self.sample_repository.rows(),
    {
        let samples = self.sample_repository.find_all()?;
        Ok(samples)
    }

    /// Stores a new sample under a fresh id.
    pub fn create(&mut self, sample: Sample) -> (r: Result<Sample>)
        requires
            store_invariant(
                old(self).sample_repository.rows(),
                old(self).sample_repository.next_id(),
            ),
        ensures
            store_invariant(
                final(self).sample_repository.rows(),
                final(self).sample_repository.next_id(),
            ),
            r is Ok <==> old(self).sample_repository.next_id() < ID_LIMIT,
            match r {
                Ok(s) => {
                    &&& s.id == old(self).sample_repository.next_id()
                    &&& s.id >= 0
                    &&& !assigned_before(old(self).sample_repository.next_id(), s.id as int)
                    &&& !has_id(old(self).sample_repository.rows(), s.id)
                    &&& s.name == sample.name
                    &&& final(self).sample_repository.rows() == old(
                        self,
                    ).sample_repository.rows().push(s)
                    &&& final(self).sample_repository.next_id() == old(
                        self,
                    ).sample_repository.next_id() + 1
                },
                Err(e) => {
                    &&& e is Store
                    &&& final(self).sample_repository.rows() == old(
                        self,
                    ).sample_repository.rows()
                    &&& final(self).sample_repository.next_id() == old(
                        self,
                    ).sample_repository.next_id()
                },
            },
    {
        let sample = self.sample_repository.create(sample)?;
        Ok(sample)
    }
}

} // verus!
