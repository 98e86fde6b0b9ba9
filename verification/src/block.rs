//! The block entity and its lifecycle state machine.
//!
//! A block records one command's full execution: the command text, the
//! accumulated output, the exit code, the lifecycle state and timing
//! metadata. A block is created in `Editing` (or `PendingApproval` for
//! suggested commands awaiting confirmation), runs through `Running`, and
//! ends in exactly one terminal state.

use vstd::prelude::*;
use crate::clock::{now_millis, fresh_id, ts_in_bound};
use crate::digits::{u64_string, dec_digits};

verus! {

/// Lifecycle state of a block.
///
/// `Editing -> Running -> {Completed | Failed}`, with `Running -> Cancelled`
/// on external cancellation. `PendingApproval` is a distinct entry state for
/// suggested commands awaiting confirmation; approval leads to `Running`.
#[derive(Debug, Clone, Copy, PartialEq, Eq, Structural)]
pub enum BlockState {
    Editing,
    PendingApproval,
    Running,
    Completed,
    Failed,
    Cancelled,
}

impl BlockState {
    /// True of the states a block can never leave.
    pub open spec fn is_terminal(self) -> bool {
        self == BlockState::Completed || self == BlockState::Failed || self
            == BlockState::Cancelled
    }
}

/// Timing and context metadata of a block.
///
/// Timestamps are milliseconds since the Unix epoch; `duration` is the
/// span between `started_at` and `completed_at` in milliseconds.
#[derive(Debug)]
pub struct BlockMetadata {
    pub duration: Option<i64>,
    pub working_directory: String,
    pub environment: Vec<(String, String)>,
    pub started_at: Option<i64>,
    pub completed_at: Option<i64>,
}

/// One command's full lifecycle: identity, command text, append-only output,
/// exit code, state and metadata.
#[derive(Debug)]
pub struct Block {
    pub id: u128,
    pub timestamp: i64,
    pub command: String,
    pub output: String,
    pub exit_code: Option<i32>,
    pub state: BlockState,
    pub metadata: BlockMetadata,
    pub is_collapsed: bool,
    pub is_selected: bool,
    pub original_input: Option<String>,
}


/// Clone a list of environment entries, entry by entry.
pub fn clone_env(v: &Vec<(String, String)>) -> (r: Vec<(String, String)>)
    ensures
        r@ == v@,
{
    let mut r: Vec<(String, String)> = Vec::new();
    let mut i: usize = 0;
    while i < v.len()
        invariant
            i <= v.len(),
            r@ == v@.subrange(0, i as int),
        decreases v.len() - i,
    {
        let name = v[i].0.clone();
        let value = v[i].1.clone();
        r.push((name, value));
        proof {
            assert((name, value) == v@[i as int]);
            assert(r@ == v@.subrange(0, i + 1 as int));
        }
        i = i + 1;
    }
    proof {
        assert(v@.subrange(0, v@.len() as int) == v@);
    }
    r
}

impl BlockMetadata {
    /// Equality of everything observable: plain fields equal, the environment
    /// equal entry by entry.
    pub open spec fn eqv(self, other: BlockMetadata) -> bool {
        &&& self.duration == other.duration
        &&& self.working_directory == other.working_directory
        &&& self.environment@ == other.environment@
        &&& self.started_at == other.started_at
        &&& self.completed_at == other.completed_at
    }
}

impl Clone for BlockMetadata {
    /// A clone is observably equal to the original.
    fn clone(&self) -> (res: BlockMetadata)
        ensures
            res.eqv(*self),
    {
        BlockMetadata {
            duration: self.duration,
            working_directory: self.working_directory.clone(),
            environment: clone_env(&self.environment),
            started_at: self.started_at,
            completed_at: self.completed_at,
        }
    }
}

impl Clone for Block {
    /// A clone is observably equal to the original.
    fn clone(&self) -> (res: Block)
        ensures
            res.eqv(*self),
    {
        Block {
            id: self.id,
            timestamp: self.timestamp,
            command: self.command.clone(),
            output: self.output.clone(),
            exit_code: self.exit_code,
            state: self.state,
            metadata: self.metadata.clone(),
            is_collapsed: self.is_collapsed,
            is_selected: self.is_selected,
            original_input: match &self.original_input {
                Some(s) => Some(s.clone()),
                None => None,
            },
        }
    }
}

impl Block {
    /// Well-formedness: the exit code is present exactly in the states that an
    /// exit code produces; timestamps are in bound and ordered; the duration
    /// is present exactly when both timestamps are, and spans them exactly.
    pub open spec fn wf(self) -> bool {
        &&& self.exit_code is Some <==> (self.state == BlockState::Completed || self.state
            == BlockState::Failed)
        &&& ts_in_bound(self.timestamp)
        &&& (self.metadata.started_at matches Some(s) ==> ts_in_bound(s))
        &&& (self.metadata.completed_at matches Some(c) ==> ts_in_bound(c))
        &&& self.metadata.completed_at is Some ==> self.metadata.started_at is Some
        &&& (self.metadata.duration is Some <==> (self.metadata.started_at is Some
            && self.metadata.completed_at is Some))
        &&& (self.metadata.started_at matches Some(s) ==> (self.metadata.completed_at
            matches Some(c) ==> s <= c && self.metadata.duration == Some((c - s) as i64)))
    }

    /// Equality of everything observable, with the environment list compared
    /// entry by entry.
    pub open spec fn eqv(self, other: Block) -> bool {
        &&& self.id == other.id
        &&& self.timestamp == other.timestamp
        &&& self.command == other.command
        &&& self.output == other.output
        &&& self.exit_code == other.exit_code
        &&& self.state == other.state
        &&& self.metadata.eqv(other.metadata)
        &&& self.is_collapsed == other.is_collapsed
        &&& self.is_selected == other.is_selected
        &&& self.original_input == other.original_input
    }

    /// The fields that never change after creation or that only the manager
    /// may touch, bundled so that operation contracts can say "all else is
    /// unchanged" in one clause.
    pub open spec fn same_identity(self, other: Block) -> bool {
        &&& self.id == other.id
        &&& self.timestamp == other.timestamp
        &&& self.command == other.command
        &&& self.metadata.working_directory == other.metadata.working_directory
        &&& self.metadata.environment@ == other.metadata.environment@
        &&& self.is_collapsed == other.is_collapsed
        &&& self.is_selected == other.is_selected
        &&& self.original_input == other.original_input
    }

    /// Create a block in `Editing` with empty output and no exit code.
    pub fn new(command: String, working_directory: String) -> (b: Block)
        ensures
            b.wf(),
            b.state == BlockState::Editing,
            b.command == command,
            b.output@ == Seq::<char>::empty(),
            b.exit_code is None,
            b.metadata.working_directory == working_directory,
            b.metadata.environment@ == Seq::<(String, String)>::empty(),
            b.metadata.duration is None,
            b.metadata.started_at is None,
            b.metadata.completed_at is None,
            !b.is_collapsed,
            !b.is_selected,
            b.original_input is None,
    {
        Block {
            id: fresh_id(),
            timestamp: now_millis(),
            command,
            output: String::new(),
            exit_code: None,
            state: BlockState::Editing,
            metadata: BlockMetadata {
                duration: None,
                working_directory,
                environment: Vec::new(),
                started_at: None,
                completed_at: None,
            },
            is_collapsed: false,
            is_selected: false,
            original_input: None,
        }
    }

    /// Create a block in `PendingApproval` for a suggested command, keeping
    /// the natural-language request that produced it.
    pub fn new_pending_approval(command: String, working_directory: String, original_input: String) -> (b: Block)
        ensures
            b.wf(),
            b.state == BlockState::PendingApproval,
            b.command == command,
            b.output@ == Seq::<char>::empty(),
            b.exit_code is None,
            b.metadata.working_directory == working_directory,
            b.original_input == Some(original_input),
            !b.is_collapsed,
            !b.is_selected,
    {
        let mut b = Block::new(command, working_directory);
        b.state = BlockState::PendingApproval;
        b.original_input = Some(original_input);
        b
    }

    /// Move the block into `Running` and record the start time. Valid only
    /// from `Editing` or `PendingApproval`; the caller serializes executions.
    pub fn start_execution(&mut self)
        requires
            old(self).wf(),
            old(self).state == BlockState::Editing || old(self).state
                == BlockState::PendingApproval,
        ensures
            final(self).wf(),
            final(self).state == BlockState::Running,
            final(self).metadata.started_at is Some,
            final(self).metadata.completed_at is None,
            final(self).metadata.duration is None,
            final(self).exit_code is None,
            final(self).output == old(self).output,
            final(self).same_identity(*old(self)),
    {
        self.state = BlockState::Running;
        self.metadata.started_at = Some(now_millis());
        self.metadata.completed_at = None;
        self.metadata.duration = None;
    }

    /// Record the exit code and the completion time, compute the duration,
    /// and move to `Completed` when the exit code is zero, else to `Failed`.
    /// This exit-code bifurcation is the sole success policy. Valid only from
    /// `Running`.
    pub fn complete_execution(&mut self, exit_code: i32)
        requires
            old(self).wf(),
            old(self).state == BlockState::Running,
        ensures
            final(self).wf(),
            final(self).exit_code == Some(exit_code),
            final(self).state == (if exit_code == 0 {
                BlockState::Completed
            } else {
                BlockState::Failed
            }),
            final(self).metadata.completed_at is Some,
            old(self).metadata.started_at is Some ==> final(self).metadata.started_at == old(
                self,
            ).metadata.started_at,
            old(self).metadata.started_at is None ==> final(self).metadata.duration == Some(0i64),
            (old(self).metadata.started_at matches Some(s)
                ==> (final(self).metadata.completed_at matches Some(c) && s <= c
                    && final(self).metadata.duration == Some((c - s) as i64))),
            final(self).output == old(self).output,
            final(self).same_identity(*old(self)),
    {
        self.exit_code = Some(exit_code);
        if exit_code == 0 {
            self.state = BlockState::Completed;
        } else {
            self.state = BlockState::Failed;
        }
        let now = now_millis();
        match self.metadata.started_at {
            Some(started) => {
                // A wall clock may step backwards; completion never precedes
                // the recorded start.
                let end = if now < started {
                    started
                } else {
                    now
                };
                self.metadata.completed_at = Some(end);
                self.metadata.duration = Some(end - started);
            },
            None => {
                // A block restored in `Running` state may lack a start time;
                // record completion alone and leave the duration unknown.
                self.metadata.started_at = Some(now);
                self.metadata.completed_at = Some(now);
                self.metadata.duration = Some(0);
            },
        }
    }

    /// Append text to the output buffer. Valid only while `Running`; the
    /// executor decides the chunking.
    pub fn append_output(&mut self, text: String)
        requires
            old(self).wf(),
            old(self).state == BlockState::Running,
        ensures
            final(self).wf(),
            final(self).output@ == old(self).output@ + text@,
            final(self).state == old(self).state,
            final(self).exit_code == old(self).exit_code,
            final(self).metadata == old(self).metadata,
            final(self).same_identity(*old(self)),
    {
        self.output.append(text.as_str());
    }

    /// Cancel a running block: the state becomes `Cancelled` and the exit
    /// code stays unset. Valid only from `Running`.
    pub fn cancel(&mut self)
        requires
            old(self).wf(),
            old(self).state == BlockState::Running,
        ensures
            final(self).wf(),
            final(self).state == BlockState::Cancelled,
            final(self).exit_code is None,
            final(self).output == old(self).output,
            final(self).metadata == old(self).metadata,
            final(self).same_identity(*old(self)),
    {
        self.state = BlockState::Cancelled;
    }

    /// Flip the presentation collapse flag.
    pub fn toggle_collapsed(&mut self)
        ensures
            final(self).is_collapsed == !old(self).is_collapsed,
            *final(self) == (Block { is_collapsed: !old(self).is_collapsed, ..*old(self) }),
    {
        self.is_collapsed = !self.is_collapsed;
    }

    /// Set the presentation selection flag.
    pub fn set_selected(&mut self, selected: bool)
        ensures
            *final(self) == (Block { is_selected: selected, ..*old(self) }),
    {
        self.is_selected = selected;
    }

    /// True while the block's command is executing.
    pub fn is_running(&self) -> (r: bool)
        ensures
            r == (self.state == BlockState::Running),
    {
        match self.state {
            BlockState::Running => true,
            _ => false,
        }
    }

    /// True once the block has reached a terminal state.
    pub fn is_completed(&self) -> (r: bool)
        ensures
            r == self.state.is_terminal(),
    {
        match self.state {
            BlockState::Completed => true,
            BlockState::Failed => true,
            BlockState::Cancelled => true,
            _ => false,
        }
    }

    /// The command shortened for display: commands over 100 characters are
    /// cut to their first 97 characters plus an ellipsis.
    pub fn get_display_command(&self) -> (r: String)
        ensures
            self.command@.len() > 100 ==> r@ == self.command@.subrange(0, 97) + "..."@,
            self.command@.len() <= 100 ==> r@ == self.command@,
    {
        let len = self.command.as_str().unicode_len();
        if len > 100 {
            let head = self.command.as_str().substring_char(0, 97);
            String::from_str(head).concat("...")
        } else {
            self.command.clone()
        }
    }

    /// The output for display: empty while the block is collapsed.
    pub fn get_display_output(&self) -> (r: String)
        ensures
            self.is_collapsed ==> r@ == Seq::<char>::empty(),
            !self.is_collapsed ==> r@ == self.output@,
    {
        if self.is_collapsed {
            String::new()
        } else {
            self.output.clone()
        }
    }

    /// Render the duration: whole seconds when at least one second, else
    /// whole milliseconds, and empty when no duration is recorded.
    pub fn format_duration(&self) -> (r: String)
        requires
            self.wf(),
        ensures
            self.metadata.duration is None ==> r@ == Seq::<char>::empty(),
            (self.metadata.duration matches Some(d) ==> (if d >= 1000 {
                r@ == dec_digits(d as int / 1000) + "s"@
            } else {
                r@ == dec_digits(d as int) + "ms"@
            })),
    {
        match self.metadata.duration {
            Some(d) => {
                if d >= 1000 {
                    u64_string((d / 1000) as u64).concat("s")
                } else {
                    u64_string(d as u64).concat("ms")
                }
            },
            None => String::new(),
        }
    }
}

/// The duration invariant, stated on its own: whenever a well-formed block
/// carries a duration, both timestamps are set, the duration spans them
/// exactly, and it is never negative.
pub proof fn lemma_duration_spans(b: Block)
    requires
        b.wf(),
        b.metadata.duration is Some,
    ensures
        b.metadata.started_at is Some,
        b.metadata.completed_at is Some,
        (b.metadata.started_at matches Some(s) ==> (b.metadata.completed_at matches Some(c)
            ==> b.metadata.duration == Some((c - s) as i64) && c - s >= 0)),
{
}

} // verus!
