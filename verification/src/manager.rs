//! The in-memory block collection.
//!
//! The manager owns the ordered sequence of blocks of the active session and
//! mediates every read and write of it. All by-ID operations scan in order and
//! act on the first match; operations on a missing ID are deliberate no-ops
//! returning an empty result, so that stale IDs from asynchronous completions
//! are harmless.

use vstd::prelude::*;
use crate::block::{Block, BlockState};
use crate::digits::{dec_int, i64_string};

verus! {

/// True when some block in `s` carries `id`.
pub open spec fn has_id(s: Seq<Block>, id: u128) -> bool {
    exists|i: int| 0 <= i < s.len() && s[i].id == id
}

/// The first index in `s` whose block carries `id`.
pub open spec fn first_idx(s: Seq<Block>, id: u128) -> int
    decreases s.len(),
{
    if s.len() == 0 {
        0
    } else if s[0].id == id {
        0
    } else {
        1 + first_idx(s.drop_first(), id)
    }
}

/// The index found by a first-match scan is `first_idx`.
pub proof fn lemma_first_idx_at(s: Seq<Block>, id: u128, i: int)
    requires
        0 <= i < s.len(),
        s[i].id == id,
        forall|j: int| 0 <= j < i ==> s[j].id != id,
    ensures
        has_id(s, id),
        first_idx(s, id) == i,
    decreases i,
{
    if i == 0 {
    } else {
        lemma_first_idx_at(s.drop_first(), id, i - 1);
    }
}

/// The block sequence after selecting `id`: every block deselected, then the
/// first block carrying `id`, if any, selected.
pub open spec fn select_model(s: Seq<Block>, id: u128) -> Seq<Block> {
    Seq::new(
        s.len(),
        |j: int|
            (Block {
                is_selected: has_id(s, id) && j == first_idx(s, id),
                ..s[j]
            }),
    )
}

/// The copy-to-clipboard rendering of a whole block: the command behind a
/// prompt, the output, and the exit code (`-1` when none is recorded).
pub open spec fn full_text(b: Block) -> Seq<char> {
    let code: int = match b.exit_code {
        Some(c) => c as int,
        None => -1,
    };
    "$ "@ + b.command@ + "\n"@ + b.output@ + "\n[Exit code: "@ + dec_int(code) + "]"@
}

/// The subsequence of blocks in `Running` state, in order.
pub open spec fn running_blocks_of(s: Seq<Block>) -> Seq<Block>
    decreases s.len(),
{
    if s.len() == 0 {
        Seq::empty()
    } else {
        let sub = running_blocks_of(s.drop_last());
        if s.last().state == BlockState::Running {
            sub.push(s.last())
        } else {
            sub
        }
    }
}

/// The ordered block collection of the active session, with at most one
/// selected block, referenced by ID.
#[derive(Debug)]
pub struct BlockManager {
    blocks: Vec<Block>,
    selected_block: Option<u128>,
}

impl BlockManager {
    /// The ordered block sequence.
    pub closed spec fn view(self) -> Seq<Block> {
        self.blocks@
    }

    /// The ID the manager believes is selected, if any.
    pub closed spec fn spec_selected(self) -> Option<u128> {
        self.selected_block
    }

    /// An empty manager with no selection.
    pub fn new() -> (m: BlockManager)
        ensures
            m@ == Seq::<Block>::empty(),
            m.spec_selected() is None,
    {
        BlockManager { blocks: Vec::new(), selected_block: None }
    }

    /// Append a block and hand back its ID.
    pub fn add_block(&mut self, block: Block) -> (id: u128)
        ensures
            id == block.id,
            final(self)@ == old(self)@.push(block),
            final(self).spec_selected() == old(self).spec_selected(),
    {
        let id = block.id;
        self.blocks.push(block);
        id
    }

    /// Look up a block by ID; a missing ID yields `None`.
    pub fn get_block(&self, id: &u128) -> (r: Option<&Block>)
        ensures
            r is Some <==> has_id(self@, *id),
            (r matches Some(b) ==> *b == self@[first_idx(self@, *id)]),
    {
        let mut i: usize = 0;
        while i < self.blocks.len()
            invariant
                i <= self@.len(),
                forall|j: int| 0 <= j < i ==> self@[j].id != *id,
            decreases self@.len() - i,
        {
            if self.blocks[i].id == *id {
                proof {
                    lemma_first_idx_at(self@, *id, i as int);
                }
                return Some(&self.blocks[i]);
            }
            i = i + 1;
        }
        None
    }

    /// Look up a block by ID for mutation; a missing ID yields `None` and
    /// leaves the manager untouched.
    pub fn get_block_mut(&mut self, id: &u128) -> (r: Option<&mut Block>)
        ensures
            r is Some <==> has_id(old(self)@, *id),
            r is None ==> *final(self) == *old(self),
            (r matches Some(b) ==> {
                &&& *b == old(self)@[first_idx(old(self)@, *id)]
                &&& final(self)@ == old(self)@.update(first_idx(old(self)@, *id), *final(b))
                &&& final(self).spec_selected() == old(self).spec_selected()
            }),
    {
        let mut i: usize = 0;
        while i < self.blocks.len()
            invariant
                *self == *old(self),
                i <= self.blocks@.len(),
                forall|j: int| 0 <= j < i ==> self.blocks@[j].id != *id,
            decreases self.blocks@.len() - i,
        {
            if self.blocks[i].id == *id {
                proof {
                    lemma_first_idx_at(self.blocks@, *id, i as int);
                }
                return Some(&mut self.blocks[i]);
            }
            i = i + 1;
        }
        None
    }

    /// The whole block sequence, in order.
    pub fn get_blocks(&self) -> (r: &[Block])
        ensures
            r@ == self@,
    {
        self.blocks.as_slice()
    }

    /// The whole block sequence for mutation in place.
    pub fn get_blocks_mut(&mut self) -> (r: &mut Vec<Block>)
        ensures
            r@ == old(self)@,
            final(self)@ == final(r)@,
            final(self).spec_selected() == old(self).spec_selected(),
    {
        &mut self.blocks
    }

    /// Remove a block by ID and hand it back; a missing ID yields `None` and
    /// leaves the manager untouched.
    pub fn remove_block(&mut self, id: &u128) -> (r: Option<Block>)
        ensures
            r is Some <==> has_id(old(self)@, *id),
            r is None ==> *final(self) == *old(self),
            (r matches Some(b) ==> {
                &&& b == old(self)@[first_idx(old(self)@, *id)]
                &&& final(self)@ == old(self)@.remove(first_idx(old(self)@, *id))
                &&& final(self).spec_selected() == old(self).spec_selected()
            }),
    {
        let mut i: usize = 0;
        while i < self.blocks.len()
            invariant
                *self == *old(self),
                i <= self.blocks@.len(),
                forall|j: int| 0 <= j < i ==> self.blocks@[j].id != *id,
            decreases self.blocks@.len() - i,
        {
            if self.blocks[i].id == *id {
                proof {
                    lemma_first_idx_at(self.blocks@, *id, i as int);
                }
                return Some(self.blocks.remove(i));
            }
            i = i + 1;
        }
        None
    }

    /// Drop every block and the selection together.
    pub fn clear_all(&mut self)
        ensures
            final(self)@ == Seq::<Block>::empty(),
            final(self).spec_selected() is None,
    {
        self.blocks.clear();
        self.selected_block = None;
    }

    /// How many blocks are held.
    pub fn count(&self) -> (n: usize)
        ensures
            n == self@.len(),
    {
        self.blocks.len()
    }

    /// Select the block carrying `id`, deselecting every other block first:
    /// at most one block is selected at any time. Selecting a missing ID is a
    /// silent no-op, like every other by-ID operation.
    pub fn select_block(&mut self, id: u128)
        ensures
            !has_id(old(self)@, id) ==> *final(self) == *old(self),
            has_id(old(self)@, id) ==> final(self)@ == select_model(old(self)@, id),
            final(self).spec_selected() == (if has_id(old(self)@, id) {
                Some(id)
            } else {
                old(self).spec_selected()
            }),
    {
        // Find the block first: a missing ID must change nothing.
        let mut k: usize = 0;
        while k < self.blocks.len() && self.blocks[k].id != id
            invariant
                *self == *old(self),
                k <= self.blocks@.len(),
                forall|j: int| 0 <= j < k ==> (#[trigger] self.blocks@[j]).id != id,
            decreases self.blocks@.len() - k,
        {
            k = k + 1;
        }
        if k == self.blocks.len() {
            return ;
        }
        proof {
            lemma_first_idx_at(self.blocks@, id, k as int);
        }
        let found = k;
        let ghost s0 = self.blocks@;
        let mut i: usize = 0;
        while i < self.blocks.len()
            invariant
                self.selected_block == old(self).selected_block,
                has_id(s0, id),
                found == first_idx(s0, id),
                found < s0.len(),
                i <= self.blocks@.len(),
                self.blocks@.len() == s0.len(),
                s0 == old(self).blocks@,
                forall|j: int| 0 <= j < i ==> self.blocks@[j] == (Block {
                    is_selected: false,
                    ..s0[j]
                }),
                forall|j: int| i <= j < s0.len() ==> self.blocks@[j] == s0[j],
            decreases self.blocks@.len() - i,
        {
            let b = &mut self.blocks[i];
            b.set_selected(false);
            i = i + 1;
        }
        let ghost s1 = self.blocks@;
        let b = &mut self.blocks[found];
        b.set_selected(true);
        self.selected_block = Some(id);
        proof {
            assert forall|j: int| 0 <= j < s0.len() implies self.blocks@[j] == select_model(
                s0,
                id,
            )[j] by {
                if j == found as int {
                    assert(self.blocks@[j] == (Block { is_selected: true, ..s1[j] }));
                }
            }
            assert(self.blocks@ =~= select_model(s0, id));
        }
    }

    /// Deselect every block and clear the selection.
    pub fn deselect_all(&mut self)
        ensures
            final(self)@.len() == old(self)@.len(),
            forall|j: int| 0 <= j < old(self)@.len() ==> final(self)@[j] == (Block {
                is_selected: false,
                ..old(self)@[j]
            }),
            final(self).spec_selected() is None,
    {
        let ghost s0 = self.blocks@;
        let mut i: usize = 0;
        while i < self.blocks.len()
            invariant
                i <= self.blocks@.len(),
                self.blocks@.len() == s0.len(),
                s0 == old(self).blocks@,
                forall|j: int| 0 <= j < i ==> self.blocks@[j] == (Block {
                    is_selected: false,
                    ..s0[j]
                }),
                forall|j: int| i <= j < s0.len() ==> self.blocks@[j] == s0[j],
            decreases self.blocks@.len() - i,
        {
            let b = &mut self.blocks[i];
            b.set_selected(false);
            i = i + 1;
        }
        self.selected_block = None;
    }

    /// The selected block, if the selection points at a block that is still
    /// held.
    pub fn get_selected_block(&self) -> (r: Option<&Block>)
        ensures
            r is Some <==> (self.spec_selected() matches Some(id) && has_id(self@, id)),
            (r matches Some(b) ==> (self.spec_selected() matches Some(id) && *b == self@[first_idx(self@, id)])),
    {
        match &self.selected_block {
            Some(id) => {
                let id = *id;
                self.get_block(&id)
            },
            None => None,
        }
    }

    /// The selected block for mutation, if the selection points at a block
    /// that is still held.
    pub fn get_selected_block_mut(&mut self) -> (r: Option<&mut Block>)
        ensures
            r is Some <==> (old(self).spec_selected() matches Some(id) && has_id(old(self)@, id)),
            r is None ==> *final(self) == *old(self),
            (r matches Some(b) ==> (old(self).spec_selected() matches Some(id) && {
                &&& *b == old(self)@[first_idx(old(self)@, id)]
                &&& final(self)@ == old(self)@.update(first_idx(old(self)@, id), *final(b))
                &&& final(self).spec_selected() == old(self).spec_selected()
            })),
    {
        match self.selected_block {
            Some(id) => self.get_block_mut(&id),
            None => None,
        }
    }

    /// Flip the collapse flag of the block carrying `id`; a missing ID is a
    /// no-op.
    pub fn toggle_block_collapsed(&mut self, id: &u128)
        ensures
            !has_id(old(self)@, *id) ==> *final(self) == *old(self),
            has_id(old(self)@, *id) ==> final(self)@ == old(self)@.update(
                first_idx(old(self)@, *id),
                (Block {
                    is_collapsed: !old(self)@[first_idx(old(self)@, *id)].is_collapsed,
                    ..old(self)@[first_idx(old(self)@, *id)]
                }),
            ),
            final(self).spec_selected() == old(self).spec_selected(),
    {
        match self.get_block_mut(id) {
            Some(block) => {
                block.toggle_collapsed();
            },
            None => {},
        }
    }

    /// The blocks currently in `Running` state, in order.
    pub fn get_running_blocks(&self) -> (r: Vec<&Block>)
        ensures
            r@.len() == running_blocks_of(self@).len(),
            forall|j: int| 0 <= j < r@.len() ==> *(#[trigger] r@[j]) == running_blocks_of(self@)[j],
    {
        let mut r: Vec<&Block> = Vec::new();
        let ghost mut acc = Seq::<Block>::empty();
        let mut i: usize = 0;
        proof {
            assert(running_blocks_of(self@.take(0)) =~= Seq::<Block>::empty());
        }
        while i < self.blocks.len()
            invariant
                i <= self@.len(),
                acc == running_blocks_of(self@.take(i as int)),
                r@.len() == acc.len(),
                forall|j: int| 0 <= j < r@.len() ==> *(#[trigger] r@[j]) == acc[j],
            decreases self@.len() - i,
        {
            let ghost prefix = self@.take(i as int);
            if self.blocks[i].is_running() {
                let elem = &self.blocks[i];
                r.push(elem);
                proof {
                    acc = acc.push(self@[i as int]);
                }
            }
            proof {
                let t = self@.take(i + 1);
                assert(t.drop_last() =~= prefix);
                assert(t.last() == self@[i as int]);
                assert(acc == running_blocks_of(t));
            }
            i = i + 1;
        }
        proof {
            assert(self@.take(self@.len() as int) =~= self@);
        }
        r
    }

    /// The most recently appended block, if any.
    pub fn get_last_block(&self) -> (r: Option<&Block>)
        ensures
            r is Some <==> self@.len() > 0,
            (r matches Some(b) ==> *b == self@.last()),
    {
        if self.blocks.len() > 0 {
            Some(&self.blocks[self.blocks.len() - 1])
        } else {
            None
        }
    }

    /// The most recently appended block for mutation, if any.
    pub fn get_last_block_mut(&mut self) -> (r: Option<&mut Block>)
        ensures
            r is Some <==> old(self)@.len() > 0,
            r is None ==> *final(self) == *old(self),
            (r matches Some(b) ==> {
                &&& *b == old(self)@.last()
                &&& final(self)@ == old(self)@.update(old(self)@.len() - 1, *final(b))
                &&& final(self).spec_selected() == old(self).spec_selected()
            }),
    {
        if self.blocks.len() > 0 {
            let i = self.blocks.len() - 1;
            Some(&mut self.blocks[i])
        } else {
            None
        }
    }

    /// The command text of the block carrying `id`; a missing ID yields
    /// `None`.
    pub fn copy_block_command(&self, id: &u128) -> (r: Option<String>)
        ensures
            r is Some <==> has_id(self@, *id),
            (r matches Some(s) ==> s == self@[first_idx(self@, *id)].command),
    {
        match self.get_block(id) {
            Some(b) => Some(b.command.clone()),
            None => None,
        }
    }

    /// The output text of the block carrying `id`; a missing ID yields
    /// `None`.
    pub fn copy_block_output(&self, id: &u128) -> (r: Option<String>)
        ensures
            r is Some <==> has_id(self@, *id),
            (r matches Some(s) ==> s == self@[first_idx(self@, *id)].output),
    {
        match self.get_block(id) {
            Some(b) => Some(b.output.clone()),
            None => None,
        }
    }

    /// Command, output and exit code of the block carrying `id`, rendered as
    /// one copyable text; a missing ID yields `None`.
    pub fn copy_block_full(&self, id: &u128) -> (r: Option<String>)
        ensures
            r is Some <==> has_id(self@, *id),
            (r matches Some(s) ==> s@ == full_text(self@[first_idx(self@, *id)])),
    {
        match self.get_block(id) {
            Some(b) => {
                let code: i64 = match b.exit_code {
                    Some(c) => c as i64,
                    None => -1,
                };
                let mut s = String::from_str("$ ");
                s.append(b.command.as_str());
                s.append("\n");
                s.append(b.output.as_str());
                s.append("\n[Exit code: ");
                s.append(i64_string(code).as_str());
                s.append("]");
                proof {
                    assert(s@ == full_text(self@[first_idx(self@, *id)]));
                }
                Some(s)
            },
            None => None,
        }
    }

    /// Clone the command and working directory of the block carrying `id`
    /// into a fresh `Editing` block appended at the end, leaving the original
    /// untouched; a missing ID yields `None`.
    pub fn duplicate_block_for_edit(&mut self, id: &u128) -> (r: Option<u128>)
        ensures
            r is Some <==> has_id(old(self)@, *id),
            r is None ==> *final(self) == *old(self),
            (r matches Some(new_id) ==> {
                &&& final(self)@.len() == old(self)@.len() + 1
                &&& final(self)@.take(old(self)@.len() as int) == old(self)@
                &&& final(self)@.last().id == new_id
                &&& final(self)@.last().wf()
                &&& final(self)@.last().state == BlockState::Editing
                &&& final(self)@.last().command == old(self)@[first_idx(old(self)@, *id)].command
                &&& final(self)@.last().metadata.working_directory == old(self)@[
                    first_idx(old(self)@, *id)
                ].metadata.working_directory
                &&& final(self)@.last().output@ == Seq::<char>::empty()
                &&& final(self)@.last().exit_code is None
                &&& final(self).spec_selected() == old(self).spec_selected()
            }),
    {
        let (command, wd) = match self.get_block(id) {
            Some(original) => (original.command.clone(), original.metadata.working_directory.clone()),
            None => {
                return None;
            },
        };
        let new_block = Block::new(command, wd);
        let new_id = new_block.id;
        self.blocks.push(new_block);
        proof {
            assert(self.blocks@.take(self.blocks@.len() - 1) =~= old(self)@);
        }
        Some(new_id)
    }
}

impl Default for BlockManager {
    /// The default manager is empty with no selection.
    fn default() -> (m: BlockManager)
        ensures
            m@ == Seq::<Block>::empty(),
            m.spec_selected() is None,
    {
        BlockManager::new()
    }
}

/// Selection is exclusive and idempotent: whatever was selected before,
/// selecting `a` leaves exactly the first block carrying `a` selected — and
/// selecting `b` and then `a` is the same as selecting `a` alone. (When `b`
/// is missing, the first call is a no-op by `select_block`'s contract and the
/// conclusion holds outright.)
pub proof fn lemma_select_exclusive(s: Seq<Block>, b: u128, a: u128)
    requires
        has_id(s, a),
    ensures
        forall|j: int|
            0 <= j < s.len() ==> (#[trigger] select_model(select_model(s, b), a)[j].is_selected
                <==> j == first_idx(s, a)),
        select_model(select_model(s, a), a) == select_model(s, a),
{
    let sb = select_model(s, b);
    assert forall|j: int| 0 <= j < s.len() implies #[trigger] sb[j].id == s[j].id by {}
    lemma_ids_same_first_idx(s, sb, a);
    lemma_ids_same_first_idx(s, select_model(s, a), a);
    assert(select_model(select_model(s, a), a) =~= select_model(s, a));
}

/// Two sequences with the same IDs position by position have the same first
/// occurrence of any ID.
pub proof fn lemma_ids_same_first_idx(s: Seq<Block>, t: Seq<Block>, id: u128)
    requires
        s.len() == t.len(),
        forall|j: int| 0 <= j < s.len() ==> s[j].id == #[trigger] t[j].id,
    ensures
        has_id(s, id) == has_id(t, id),
        first_idx(s, id) == first_idx(t, id),
    decreases s.len(),
{
    assert(has_id(s, id) == has_id(t, id)) by {
        if has_id(s, id) {
            let w = choose|i: int| 0 <= i < s.len() && s[i].id == id;
            assert(t[w].id == id);
        }
        if has_id(t, id) {
            let w = choose|i: int| 0 <= i < t.len() && t[i].id == id;
            assert(s[w].id == id);
        }
    }
    if s.len() > 0 && s[0].id != id {
        assert forall|j: int| 0 <= j < s.drop_first().len() implies s.drop_first()[j].id
            == #[trigger] t.drop_first()[j].id by {
            assert(s[j + 1].id == t[j + 1].id);
        }
        lemma_ids_same_first_idx(s.drop_first(), t.drop_first(), id);
    }
}

} // verus!
