//! Resumable upload sessions: an append-only byte file with checkpointed
//! incremental hashing. A checkpoint is a forked hasher keyed by the
//! offset it has consumed; all checkpoints are retained. Hashing always
//! resumes from the checkpoint with the greatest recorded offset not
//! beyond the current length and consumes only the residual tail, never
//! the whole file.

use vstd::prelude::*;
use vstd::slice::{slice_subrange, slice_to_vec};

use crate::digest::{
    sha256_feed, sha256_fed, sha256_finish, sha256_fork, sha256_of, sha256_start,
    spec_sha256_digest_str, Digest, DigestAlgorithm,
};
use crate::text::{lemma_hex_of_is_lower_hex, lemma_hex_of_len, to_hex};

verus! {

/// Server-side state of one in-progress upload.
pub struct UploadSession {
    pub namespace: String,
    pub data: Vec<u8>,
    pub checkpoints: Vec<(u64, sha2::Sha256)>,
    pub started_at: u64,
}

impl UploadSession {
    /// Every checkpoint has consumed exactly the prefix its offset names,
    /// and a checkpoint at offset zero always exists.
    pub open spec fn wf(&self) -> bool {
        &&& self.checkpoints@.len() >= 1
        &&& self.checkpoints@[0].0 == 0
        &&& forall|i: int|
            0 <= i < self.checkpoints@.len() ==> (#[trigger] self.checkpoints@[i]).0
                <= self.data@.len() && sha256_fed(self.checkpoints@[i].1) == self.data@.take(
                self.checkpoints@[i].0 as int,
            )
    }

    /// Opens a fresh, empty session.
    pub fn new(namespace: String, started_at: u64) -> (s: Self)
        ensures
            s.wf(),
            s.namespace@ == namespace@,
            s.data@ == Seq::<u8>::empty(),
            s.started_at == started_at,
    {
        let cp0 = sha256_start();
        let mut checkpoints: Vec<(u64, sha2::Sha256)> = Vec::new();
        checkpoints.push((0, cp0));
        let s = UploadSession { namespace, data: Vec::new(), checkpoints, started_at };
        proof {
            assert(s.data@.take(0) =~= Seq::<u8>::empty());
        }
        s
    }

    /// Index of the checkpoint with the greatest recorded offset.
    fn best_checkpoint(&self) -> (r: usize)
        requires
            self.wf(),
        ensures
            r < self.checkpoints@.len(),
            forall|j: int|
                0 <= j < self.checkpoints@.len() ==> (#[trigger] self.checkpoints@[j]).0
                    <= self.checkpoints@[r as int].0,
    {
        let n = self.checkpoints.len();
        let mut best: usize = 0;
        let mut i: usize = 1;
        while i < n
            invariant
                1 <= i <= n,
                n == self.checkpoints@.len(),
                best < i,
                forall|j: int|
                    0 <= j < i ==> (#[trigger] self.checkpoints@[j]).0
                        <= self.checkpoints@[best as int].0,
            decreases n - i,
        {
            if self.checkpoints[i].0 > self.checkpoints[best].0 {
                best = i;
            }
            i = i + 1;
        }
        best
    }

    /// Appends bytes, hashes forward from the latest checkpoint over the
    /// residual tail plus the new bytes, and records a checkpoint at the
    /// offset reached.
    pub fn append_chunk(&mut self, bytes: &[u8])
        requires
            old(self).wf(),
        ensures
            final(self).wf(),
            final(self).data@ == old(self).data@ + bytes@,
            final(self).namespace@ == old(self).namespace@,
            final(self).started_at == old(self).started_at,
    {
        let ghost pre = self.data@;
        let best = self.best_checkpoint();
        let off64 = self.checkpoints[best].0;
        let off = off64 as usize;
        let mut h = sha256_fork(&self.checkpoints[best].1);
        let mut incoming = slice_to_vec(bytes);
        self.data.append(&mut incoming);
        let tail = slice_subrange(self.data.as_slice(), off, self.data.len());
        sha256_feed(&mut h, tail);
        let end = self.data.len() as u64;
        proof {
            assert(sha256_fed(h) =~= self.data@.take(self.data@.len() as int)) by {
                assert(pre.take(off as int) =~= self.data@.take(off as int));
                assert(self.data@.take(off as int) + self.data@.subrange(
                    off as int,
                    self.data@.len() as int,
                ) =~= self.data@);
                assert(self.data@.take(self.data@.len() as int) =~= self.data@);
            }
            assert forall|i: int| 0 <= i < self.checkpoints@.len() implies (
            #[trigger] self.checkpoints@[i]).0 <= self.data@.len() && sha256_fed(
                self.checkpoints@[i].1,
            ) == self.data@.take(self.checkpoints@[i].0 as int) by {
                assert(self.data@.take(self.checkpoints@[i].0 as int) =~= pre.take(
                    self.checkpoints@[i].0 as int,
                ));
            }
        }
        self.checkpoints.push((end, h));
    }

    /// Appends bytes without hashing or checkpointing: the final bytes of
    /// a completing put, hashed only during finalisation.
    pub fn append_tail(&mut self, bytes: &[u8])
        requires
            old(self).wf(),
        ensures
            final(self).wf(),
            final(self).data@ == old(self).data@ + bytes@,
            final(self).namespace@ == old(self).namespace@,
            final(self).started_at == old(self).started_at,
            final(self).checkpoints@ == old(self).checkpoints@,
    {
        let ghost pre = self.data@;
        let mut incoming = slice_to_vec(bytes);
        self.data.append(&mut incoming);
        proof {
            assert forall|i: int| 0 <= i < self.checkpoints@.len() implies (
            #[trigger] self.checkpoints@[i]).0 <= self.data@.len() && sha256_fed(
                self.checkpoints@[i].1,
            ) == self.data@.take(self.checkpoints@[i].0 as int) by {
                assert(self.data@.take(self.checkpoints@[i].0 as int) =~= pre.take(
                    self.checkpoints@[i].0 as int,
                ));
            }
        }
    }

    /// Current maximum offset: the number of bytes received so far.
    pub fn range_max(&self) -> (r: u64)
        ensures
            r == self.data@.len(),
    {
        self.data.len() as u64
    }

    /// The SHA-256 digest of the whole session, computed by resuming from
    /// the checkpoint with the greatest recorded offset and rehashing only
    /// the bytes past it.
    pub fn compute_digest(&self) -> (d: Digest)
        requires
            self.wf(),
        ensures
            d.wf(),
            d.algorithm == DigestAlgorithm::Sha256,
            d.spec_canonical() == spec_sha256_digest_str(self.data@),
    {
        let best = self.best_checkpoint();
        let off64 = self.checkpoints[best].0;
        let off = off64 as usize;
        let mut h = sha256_fork(&self.checkpoints[best].1);
        let tail = slice_subrange(self.data.as_slice(), off, self.data.len());
        sha256_feed(&mut h, tail);
        proof {
            assert(self.data@.take(off as int) + self.data@.subrange(
                off as int,
                self.data@.len() as int,
            ) =~= self.data@);
            lemma_hex_of_len(sha256_of(self.data@));
            lemma_hex_of_is_lower_hex(sha256_of(self.data@));
        }
        let out = sha256_finish(h);
        let hex = to_hex(out.as_slice());
        Digest { algorithm: DigestAlgorithm::Sha256, hash: hex }
    }
}

} // verus!
