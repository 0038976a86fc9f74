//! Batches of records in transposed layout.
//!
//! A coordinate is carried as the bit pattern of its 32-bit float
//! (`f32::to_bits`); this module never reads it as a number.
use vstd::prelude::*;

verus! {

/// A batch of records: `entities[i]` and `occur_counts[i]` belong to record
/// `i`, and `vectors[j][i]` is the `j`-th coordinate of record `i`.
pub struct EmbeddingChunk {
    pub entities: Vec<String>,
    pub occur_counts: Vec<u32>,
    pub vectors: Vec<Vec<u32>>,
}

impl EmbeddingChunk {
    /// The number of records in the batch.
    pub open spec fn len(&self) -> nat {
        self.entities@.len()
    }

    /// The parallel sequences agree in length.
    pub open spec fn wf(&self) -> bool {
        &&& self.occur_counts@.len() == self.entities@.len()
        &&& forall|j: int|
            0 <= j < self.vectors@.len() ==> (#[trigger] self.vectors@[j])@.len()
                == self.entities@.len()
    }

    /// The coordinates of record `i`, read across the columns.
    pub open spec fn record_vector_spec(&self, i: int) -> Seq<u32> {
        Seq::new(self.vectors@.len(), |j: int| self.vectors@[j]@[i])
    }

    /// Whether the parallel sequences agree in length.
    pub fn is_well_formed(&self) -> (r: bool)
        ensures
            r == self.wf(),
    {
        let n = self.entities.len();
        if self.occur_counts.len() != n {
            return false;
        }
        let mut j: usize = 0;
        while j < self.vectors.len()
            invariant
                j <= self.vectors@.len(),
                n == self.entities@.len(),
                forall|k: int| 0 <= k < j ==> (#[trigger] self.vectors@[k])@.len() == n,
            decreases self.vectors@.len() - j,
        {
            if self.vectors[j].len() != n {
                return false;
            }
            j = j + 1;
        }
        true
    }

    /// The coordinates of record `i`: `vectors[j][i]` for every column `j`,
    /// in column order.
    pub fn record_vector(&self, i: usize) -> (r: Vec<u32>)
        requires
            self.wf(),
            i < self.len(),
        ensures
            r@ == self.record_vector_spec(i as int),
    {
        let mut r: Vec<u32> = Vec::new();
        let mut j: usize = 0;
        while j < self.vectors.len()
            invariant
                self.wf(),
                i < self.len(),
                j <= self.vectors@.len(),
                r@ == Seq::new(j as nat, |k: int| self.vectors@[k]@[i as int]),
            decreases self.vectors@.len() - j,
        {
            r.push(self.vectors[j][i]);
            j = j + 1;
            assert(r@ =~= Seq::new(j as nat, |k: int| self.vectors@[k]@[i as int]));
        }
        assert(r@ =~= self.record_vector_spec(i as int));
        r
    }
}

} // verus!
