//! Upload batching: blobs are accumulated up to a batch size and handed
//! out for flushing whenever a batch fills; the remainder is handed out
//! at stream end.
//!
//! The batcher itself performs no network work: callers flush each full
//! batch and decide what a failed flush means for the rest of the stream.

use vstd::prelude::*;

use crate::chunk::UploadBlob;
use crate::chunk::chunk_count_spec;
use crate::chunk::lemma_chunk_count_unique;
use crate::strutil::concat_seqs;
use crate::strutil::lemma_concat_seqs_add;
use crate::strutil::lemma_concat_seqs_singleton;

verus! {

/// The plain contents of a list of batches.
pub open spec fn batches_view(bss: Seq<Vec<UploadBlob>>) -> Seq<Seq<UploadBlob>> {
    bss.map_values(|bs: Vec<UploadBlob>| bs@)
}

/// Groups a blob list into batches of `batch_size`, in order, the last
/// batch holding the remainder.  Concatenating the batches in order gives
/// the input back; every batch but the last is exactly full, and none is
/// empty.
pub fn plan_batches(blobs: &Vec<UploadBlob>, batch_size: usize) -> (r: Vec<Vec<UploadBlob>>)
    requires
        batch_size >= 1,
    ensures
        concat_seqs(batches_view(r@)) == blobs@,
        blobs@.len() == 0 ==> r@.len() == 0,
        blobs@.len() > 0 ==> r@.len() == chunk_count_spec(
            blobs@.len() as int,
            batch_size as int,
        ),
        forall|i: int|
            0 <= i < r@.len() ==> 1 <= (#[trigger] r@[i]@.len()) <= batch_size,
        forall|i: int| 0 <= i < r@.len() - 1 ==> (#[trigger] r@[i]@.len()) == batch_size,
{
    let total: usize = blobs.len();
    let mut out: Vec<Vec<UploadBlob>> = Vec::new();
    let mut start: usize = 0;
    proof {
        assert(batches_view(out@) =~= Seq::<Seq<UploadBlob>>::empty());
        assert(concat_seqs(batches_view(out@)) =~= blobs@.subrange(0, 0));
    }
    while start < total
        invariant
            1 <= batch_size,
            total == blobs@.len(),
            start <= total,
            start == out@.len() * (batch_size as int) || (start == total && total > 0 && out@.len()
                == chunk_count_spec(total as int, batch_size as int)),
            concat_seqs(batches_view(out@)) == blobs@.subrange(0, start as int),
            forall|i: int|
                0 <= i < out@.len() ==> 1 <= (#[trigger] out@[i]@.len()) <= batch_size,
            forall|i: int|
                0 <= i < out@.len() ==> (#[trigger] out@[i]@.len()) == batch_size || start == total
                    && i == out@.len() - 1,
        decreases total - start,
    {
        let end: usize = if total - start > batch_size {
            start + batch_size
        } else {
            total
        };
        let mut batch: Vec<UploadBlob> = Vec::new();
        let mut j: usize = start;
        while j < end
            invariant
                start <= j <= end <= total,
                total == blobs@.len(),
                batch@ == blobs@.subrange(start as int, j as int),
            decreases end - j,
        {
            batch.push(blobs[j].clone());
            proof {
                assert(blobs@.subrange(start as int, j + 1 as int) =~= blobs@.subrange(
                    start as int,
                    j as int,
                ).push(blobs@[j as int]));
            }
            j = j + 1;
        }
        let ghost old_out = out@;
        let ghost k = out@.len() as int;
        proof {
            assert((k + 1) * (batch_size as int) == k * (batch_size as int) + batch_size)
                by (nonlinear_arith);
        }
        out.push(batch);
        proof {
            assert(batches_view(out@) =~= batches_view(old_out) + seq![
                blobs@.subrange(start as int, end as int),
            ]);
            lemma_concat_seqs_add(
                batches_view(old_out),
                seq![blobs@.subrange(start as int, end as int)],
            );
            lemma_concat_seqs_singleton(blobs@.subrange(start as int, end as int));
            assert(blobs@.subrange(0, start as int) + blobs@.subrange(start as int, end as int)
                =~= blobs@.subrange(0, end as int));
            if end == total {
                assert(total as int <= (k + 1) * (batch_size as int));
                assert((k + 1) * (batch_size as int) < total as int + batch_size as int);
                lemma_chunk_count_unique((k + 1) as int, total as int, batch_size as int);
            }
        }
        start = end;
    }
    proof {
        assert(blobs@.subrange(0, total as int) =~= blobs@);
        if total > 0 && start == out@.len() * (batch_size as int) {
            lemma_chunk_count_unique(out@.len() as int, total as int, batch_size as int);
        }
    }
    out
}

/// Accumulates upload blobs and signals when a full batch is ready.
///
/// Holds fewer than `batch_size` pending blobs at all times; `push` hands
/// back a full batch exactly when the new blob fills one, and `finish`
/// hands back whatever remains.
pub struct UploadBatcher {
    batch_size: usize,
    pending: Vec<UploadBlob>,
}

impl UploadBatcher {
    /// The configured batch size.
    pub closed spec fn spec_batch_size(self) -> int {
        self.batch_size as int
    }

    /// The blobs accumulated and not yet handed out.
    pub closed spec fn pending_view(self) -> Seq<UploadBlob> {
        self.pending@
    }

    /// A batcher is well formed when it is never holding a full batch.
    pub open spec fn wf(self) -> bool {
        self.spec_batch_size() >= 1 && self.pending_view().len() < self.spec_batch_size()
    }

    /// Creates a batcher for batches of `batch_size` blobs.
    pub fn new(batch_size: usize) -> (r: UploadBatcher)
        requires
            batch_size >= 1,
        ensures
            r.wf(),
            r.spec_batch_size() == batch_size,
            r.pending_view() == Seq::<UploadBlob>::empty(),
    {
        let r = UploadBatcher { batch_size, pending: Vec::new() };
        proof {
            assert(r.pending_view() =~= Seq::<UploadBlob>::empty());
        }
        r
    }

    /// Accepts one blob; hands back a full batch when this blob fills one.
    pub fn push(&mut self, blob: UploadBlob) -> (flushed: Option<Vec<UploadBlob>>)
        requires
            old(self).wf(),
        ensures
            final(self).wf(),
            final(self).spec_batch_size() == old(self).spec_batch_size(),
            match flushed {
                Some(batch) => {
                    &&& batch@ == old(self).pending_view().push(blob)
                    &&& batch@.len() == old(self).spec_batch_size()
                    &&& final(self).pending_view() == Seq::<UploadBlob>::empty()
                },
                None => {
                    &&& final(self).pending_view() == old(self).pending_view().push(blob)
                    &&& old(self).pending_view().len() + 1 < old(self).spec_batch_size()
                },
            },
    {
        self.pending.push(blob);
        if self.pending.len() == self.batch_size {
            let mut batch: Vec<UploadBlob> = Vec::new();
            core::mem::swap(&mut batch, &mut self.pending);
            proof {
                assert(self.pending_view() =~= Seq::<UploadBlob>::empty());
            }
            Some(batch)
        } else {
            None
        }
    }

    /// Ends the stream: hands back the remainder, if any.
    pub fn finish(&mut self) -> (flushed: Option<Vec<UploadBlob>>)
        requires
            old(self).wf(),
        ensures
            final(self).wf(),
            final(self).spec_batch_size() == old(self).spec_batch_size(),
            final(self).pending_view() == Seq::<UploadBlob>::empty(),
            match flushed {
                Some(batch) => batch@ == old(self).pending_view() && batch@.len() > 0,
                None => old(self).pending_view().len() == 0,
            },
    {
        if self.pending.len() == 0 {
            proof {
                assert(self.pending_view() =~= Seq::<UploadBlob>::empty());
            }
            None
        } else {
            let mut batch: Vec<UploadBlob> = Vec::new();
            core::mem::swap(&mut batch, &mut self.pending);
            proof {
                assert(self.pending_view() =~= Seq::<UploadBlob>::empty());
            }
            Some(batch)
        }
    }
}

} // verus!
