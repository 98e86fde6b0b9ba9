//! The session aggregate: a named, timestamped container binding a working
//! directory, an environment snapshot, and the ordered block sequence whose
//! insertion order is the execution order.

use vstd::prelude::*;
use crate::block::{clone_env, Block};
use crate::clock::{fresh_id, now_millis, ts_in_bound};

verus! {

/// Pointwise observational equality of two block sequences.
pub open spec fn blocks_eqv(a: Seq<Block>, b: Seq<Block>) -> bool {
    &&& a.len() == b.len()
    &&& forall|i: int| 0 <= i < a.len() ==> (#[trigger] a[i]).eqv(b[i])
}

/// A named container of an ordered block sequence, tied to a working
/// directory and an environment snapshot.
#[derive(Debug)]
pub struct Session {
    pub id: u128,
    pub created_at: i64,
    pub updated_at: i64,
    pub name: String,
    pub blocks: Vec<Block>,
    pub environment: Vec<(String, String)>,
    pub working_directory: String,
}

impl Session {
    /// Well-formedness: timestamps in bound, and `updated_at` never behind
    /// `created_at` — it is bumped on every appended block.
    pub open spec fn wf(self) -> bool {
        &&& ts_in_bound(self.created_at)
        &&& ts_in_bound(self.updated_at)
        &&& self.created_at <= self.updated_at
    }

    /// Observational equality: plain fields equal, blocks and environment
    /// equal entry by entry.
    pub open spec fn eqv(self, other: Session) -> bool {
        &&& self.id == other.id
        &&& self.created_at == other.created_at
        &&& self.updated_at == other.updated_at
        &&& self.name == other.name
        &&& blocks_eqv(self.blocks@, other.blocks@)
        &&& self.environment@ == other.environment@
        &&& self.working_directory == other.working_directory
    }

    /// A fresh, empty session created now.
    pub fn new(name: String, working_directory: String) -> (s: Session)
        ensures
            s.wf(),
            s.name == name,
            s.working_directory == working_directory,
            s.blocks@ == Seq::<Block>::empty(),
            s.environment@ == Seq::<(String, String)>::empty(),
            s.created_at == s.updated_at,
    {
        let now = now_millis();
        Session {
            id: fresh_id(),
            created_at: now,
            updated_at: now,
            name,
            blocks: Vec::new(),
            environment: Vec::new(),
            working_directory,
        }
    }

    /// Append a block and bump `updated_at`, which never decreases.
    pub fn add_block(&mut self, block: Block)
        requires
            old(self).wf(),
        ensures
            final(self).wf(),
            final(self).blocks@ == old(self).blocks@.push(block),
            final(self).updated_at >= old(self).updated_at,
            final(self).id == old(self).id,
            final(self).created_at == old(self).created_at,
            final(self).name == old(self).name,
            final(self).environment == old(self).environment,
            final(self).working_directory == old(self).working_directory,
    {
        self.blocks.push(block);
        let now = now_millis();
        if now > self.updated_at {
            self.updated_at = now;
        }
    }
}

impl Clone for Session {
    /// A clone is observably equal to the original.
    fn clone(&self) -> (res: Session)
        ensures
            res.eqv(*self),
    {
        let mut blocks: Vec<Block> = Vec::new();
        let mut i: usize = 0;
        while i < self.blocks.len()
            invariant
                i <= self.blocks@.len(),
                blocks@.len() == i,
                forall|j: int| 0 <= j < i ==> (#[trigger] blocks@[j]).eqv(self.blocks@[j]),
            decreases self.blocks@.len() - i,
        {
            blocks.push(self.blocks[i].clone());
            i = i + 1;
        }
        Session {
            id: self.id,
            created_at: self.created_at,
            updated_at: self.updated_at,
            name: self.name.clone(),
            blocks,
            environment: clone_env(&self.environment),
            working_directory: self.working_directory.clone(),
        }
    }
}

} // verus!
