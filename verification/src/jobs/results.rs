//! Results of finished jobs, by job id.

use vstd::prelude::*;

use crate::store::KeyedStore;
use vstd::pervasive::cloned;

verus! {

/// The results of finished jobs, by job id; a later result for the same job
/// replaces the earlier one.
pub struct ResultStore<R> {
    results: KeyedStore<R>,
}

impl<R> ResultStore<R> {
    pub closed spec fn view(&self) -> Map<Seq<char>, R> {
        self.results.view()
    }

    pub closed spec fn wf(&self) -> bool {
        self.results.wf()
    }

    pub fn new() -> (s: Self)
        ensures
            s.wf(),
            s.view() == Map::<Seq<char>, R>::empty(),
    {
        ResultStore { results: KeyedStore::new() }
    }

    /// Stores the result of job `job_id`.
    pub fn put(&mut self, job_id: String, result: R)
        requires
            old(self).wf(),
        ensures
            final(self).wf(),
            final(self).view() == old(self).view().insert(job_id@, result),
    {
        self.results.insert(job_id, result);
    }
}

impl<R: Clone> ResultStore<R> {
    /// A copy of the result of job `job_id`, if it is known.
    pub fn get(&self, job_id: &str) -> (r: Option<R>)
        requires
            self.wf(),
        ensures
            r is None <==> !self.view().contains_key(job_id@),
            r matches Some(v) ==> cloned(self.view()[job_id@], v),
    {
        match self.results.get(job_id) {
            Some(v) => Some(v.clone()),
            None => None,
        }
    }
}

} // verus!
