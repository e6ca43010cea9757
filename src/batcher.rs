//! Gathering items into batches of a fixed size.
use vstd::prelude::*;

verus! {

/// Collects pushed items and hands them out once `batch_size` are gathered.
pub struct Batcher<T> {
    pub batch: Vec<T>,
    pub batch_size: usize,
}

impl<T> Batcher<T> {
    pub fn new(batch_size: usize) -> (r: Batcher<T>)
        ensures
            r.batch@.len() == 0,
            r.batch_size == batch_size,
    {
        Batcher { batch: Vec::new(), batch_size }
    }

    /// Adds `x`. When the batch reaches `batch_size` items, it is returned
    /// and the batcher starts an empty one.
    pub fn push(self, x: T) -> (r: (Batcher<T>, Option<Vec<T>>))
        requires
            self.batch@.len() < usize::MAX,
        ensures
            r.0.batch_size == self.batch_size,
            self.batch@.len() + 1 >= self.batch_size ==> r.0.batch@.len() == 0,
            self.batch@.len() + 1 >= self.batch_size ==> (r.1 matches Some(b) && b@ == self.batch@.push(x)),
            self.batch@.len() + 1 < self.batch_size ==> r.1 is None && r.0.batch@ == self.batch@.push(x),
    {
        let mut batch = self.batch;
        batch.push(x);
        if batch.len() >= self.batch_size {
            (Batcher::new(self.batch_size), Some(batch))
        } else {
            (Batcher { batch, batch_size: self.batch_size }, None)
        }
    }

    /// The items gathered so far.
    pub fn into_inner(self) -> (r: Vec<T>)
        ensures
            r@ == self.batch@,
    {
        self.batch
    }
}

} // verus!
