//! Durable row representations of blocks and sessions.
//!
//! The persistence schema has two tables; the row types here mirror their
//! columns with plain values: identifiers, text, integer milliseconds, and an
//! environment map embedded as one structured text blob. The codecs between a
//! `Block`/`Session` and its row are verified; their contracts are what the
//! round-trip guarantee of the store rests on. Malformed persisted values
//! degrade to safe defaults instead of failing a load.

use vstd::prelude::*;
use crate::block::{Block, BlockMetadata, BlockState};
use crate::clock::ts_in_bound;

verus! {

/// What `serde_json` serializes an environment to, as a function of the
/// entry list alone.
pub uninterp spec fn env_json(env: Seq<(String, String)>) -> Seq<char>;

/// Relies on `serde_json::to_string` over a `BTreeMap<String, String>`: the
/// blob is a function of the entries alone, since the map orders its keys.
#[verifier::external_body]
pub fn env_to_json(env: &Vec<(String, String)>) -> (r: String)
    ensures
        r@ == env_json(env@),
{
    let map: std::collections::BTreeMap<String, String> = env.iter().cloned().collect();
    serde_json::to_string(&map).unwrap_or_default()
}

/// The environment entries a stored blob denotes, as a function of the blob
/// alone.
pub uninterp spec fn env_of_json(s: Seq<char>) -> Seq<(String, String)>;

/// Relies on `serde_json::from_str` over a `BTreeMap<String, String>`: the
/// entries are a function of the blob alone, and an unparseable blob degrades
/// to an empty environment.
#[verifier::external_body]
pub fn env_from_json(s: &str) -> (r: Vec<(String, String)>)
    ensures
        r@ == env_of_json(s@),
{
    serde_json::from_str::<std::collections::BTreeMap<String, String>>(s)
        .map(|m| m.into_iter().collect())
        .unwrap_or_default()
}

/// Relies on chrono's `DateTime::from_timestamp_millis` and `to_rfc3339`:
/// a sortable, zone-aware text form of a bounded millisecond timestamp,
/// a function of the timestamp alone.
#[verifier::external_body]
pub fn millis_to_rfc3339(t: i64) -> (r: String)
    requires
        ts_in_bound(t),
    ensures
        r@ == rfc3339_of_millis(t as int),
{
    chrono::DateTime::<chrono::Utc>::from_timestamp_millis(t)
        .map(|dt| dt.to_rfc3339())
        .unwrap_or_default()
}

/// The RFC 3339 rendering of a bounded millisecond timestamp.
pub uninterp spec fn rfc3339_of_millis(t: int) -> Seq<char>;

/// Relies on chrono's `DateTime::parse_from_rfc3339`: the parsed timestamp in
/// milliseconds, or `None` for text that is no RFC 3339 date. Callers bound
/// and default the result themselves.
#[verifier::external_body]
pub fn parse_rfc3339_millis(s: &str) -> (r: Option<i64>)
{
    chrono::DateTime::parse_from_rfc3339(s)
        .ok()
        .map(|dt| dt.with_timezone(&chrono::Utc).timestamp_millis())
}

/// The persisted name of a block state.
pub open spec fn state_name_spec(s: BlockState) -> Seq<char> {
    match s {
        BlockState::Editing => "Editing"@,
        BlockState::PendingApproval => "PendingApproval"@,
        BlockState::Running => "Running"@,
        BlockState::Completed => "Completed"@,
        BlockState::Failed => "Failed"@,
        BlockState::Cancelled => "Cancelled"@,
    }
}

/// The state a persisted name denotes; an unknown name degrades to
/// `Completed`, the safe terminal default.
pub open spec fn state_of_name_spec(n: Seq<char>) -> BlockState {
    if n == "Editing"@ {
        BlockState::Editing
    } else if n == "PendingApproval"@ {
        BlockState::PendingApproval
    } else if n == "Running"@ {
        BlockState::Running
    } else if n == "Failed"@ {
        BlockState::Failed
    } else if n == "Cancelled"@ {
        BlockState::Cancelled
    } else {
        BlockState::Completed
    }
}

/// Encoding and decoding a state name are inverse.
pub proof fn lemma_state_name_round_trip(s: BlockState)
    ensures
        state_of_name_spec(state_name_spec(s)) == s,
{
    reveal_strlit("Editing");
    reveal_strlit("PendingApproval");
    reveal_strlit("Running");
    reveal_strlit("Completed");
    reveal_strlit("Failed");
    reveal_strlit("Cancelled");
    assert("Editing"@.len() == 7);
    assert("PendingApproval"@.len() == 15);
    assert("Running"@.len() == 7);
    assert("Completed"@.len() == 9);
    assert("Failed"@.len() == 6);
    assert("Cancelled"@.len() == 9);
    assert("Running"@ != "Editing"@) by {
        assert("Running"@[0] == 'R');
        assert("Editing"@[0] == 'E');
    }
    assert("Completed"@ != "Cancelled"@) by {
        assert("Completed"@[1] == 'o');
        assert("Cancelled"@[1] == 'a');
    }
}

/// The persisted name of a block state.
pub fn state_name(s: BlockState) -> (r: &'static str)
    ensures
        r@ == state_name_spec(s),
{
    match s {
        BlockState::Editing => "Editing",
        BlockState::PendingApproval => "PendingApproval",
        BlockState::Running => "Running",
        BlockState::Completed => "Completed",
        BlockState::Failed => "Failed",
        BlockState::Cancelled => "Cancelled",
    }
}

/// Relies on `<str as PartialEq>::eq`: character-for-character equality of
/// two string slices.
#[verifier::external_body]
fn str_eq(a: &str, b: &str) -> (r: bool)
    ensures
        r == (a@ == b@),
{
    a == b
}

/// Parse a persisted state name; an unknown name degrades to `Completed`.
pub fn state_of_name(n: &str) -> (r: BlockState)
    ensures
        r == state_of_name_spec(n@),
{
    if str_eq(n, "Editing") {
        BlockState::Editing
    } else if str_eq(n, "PendingApproval") {
        BlockState::PendingApproval
    } else if str_eq(n, "Running") {
        BlockState::Running
    } else if str_eq(n, "Failed") {
        BlockState::Failed
    } else if str_eq(n, "Cancelled") {
        BlockState::Cancelled
    } else {
        BlockState::Completed
    }
}

/// One row of the blocks table.
#[derive(Debug)]
pub struct BlockRecord {
    pub id: u128,
    pub session_id: u128,
    pub timestamp: i64,
    pub command: String,
    pub output: String,
    pub exit_code: Option<i32>,
    pub state: String,
    pub working_directory: String,
    pub environment: String,
    pub started_at: Option<i64>,
    pub completed_at: Option<i64>,
    pub duration_ms: Option<i64>,
    pub is_collapsed: bool,
    pub block_order: i64,
}

/// One row of the sessions table.
#[derive(Debug)]
pub struct SessionRecord {
    pub id: u128,
    pub name: String,
    pub created_at: i64,
    pub updated_at: i64,
    pub working_directory: String,
    pub environment: String,
    pub is_active: bool,
}

/// `rec` is the row that encodes `block` under `session_id` at position
/// `order`.
pub open spec fn encodes_block(rec: BlockRecord, block: Block, session_id: u128, order: i64) -> bool {
    &&& rec.id == block.id
    &&& rec.session_id == session_id
    &&& rec.timestamp == block.timestamp
    &&& rec.command == block.command
    &&& rec.output == block.output
    &&& rec.exit_code == block.exit_code
    &&& rec.state@ == state_name_spec(block.state)
    &&& rec.working_directory == block.metadata.working_directory
    &&& rec.environment@ == env_json(block.metadata.environment@)
    &&& rec.started_at == block.metadata.started_at
    &&& rec.completed_at == block.metadata.completed_at
    &&& rec.duration_ms == block.metadata.duration
    &&& rec.is_collapsed == block.is_collapsed
    &&& rec.block_order == order
}

/// `b` is the block that `rec` decodes to: the persisted fields carried over,
/// with malformed combinations coerced to the nearest well-formed ones, and
/// the presentation selection dropped.
pub open spec fn decodes_block(b: Block, rec: BlockRecord) -> bool {
    let state = state_of_name_spec(rec.state@);
    let started = match rec.started_at {
        Some(t) => if ts_in_bound(t) {
            Some(t)
        } else {
            None::<i64>
        },
        None => None::<i64>,
    };
    let completed = match (started, rec.completed_at) {
        (Some(s), Some(t)) => if ts_in_bound(t) && t >= s {
            Some(t)
        } else {
            None::<i64>
        },
        _ => None::<i64>,
    };
    &&& b.id == rec.id
    &&& b.timestamp == (if ts_in_bound(rec.timestamp) {
        rec.timestamp
    } else {
        0
    })
    &&& b.command == rec.command
    &&& b.output == rec.output
    &&& b.state == state
    &&& b.exit_code == (if state == BlockState::Completed {
        Some(match rec.exit_code {
            Some(c) => c,
            None => 0i32,
        })
    } else if state == BlockState::Failed {
        Some(match rec.exit_code {
            Some(c) => c,
            None => (-1i32),
        })
    } else {
        None::<i32>
    })
    &&& b.metadata.working_directory == rec.working_directory
    &&& b.metadata.environment@ == env_of_json(rec.environment@)
    &&& b.metadata.started_at == started
    &&& b.metadata.completed_at == completed
    &&& (b.metadata.duration matches Some(d) <==> (started is Some && completed is Some))
    &&& (started matches Some(s) ==> (completed matches Some(c) ==> b.metadata.duration == Some(
        (c - s) as i64,
    )))
    &&& b.is_collapsed == rec.is_collapsed
    &&& !b.is_selected
    &&& b.original_input is None
}

/// Encode a block into its row.
pub fn block_to_record(block: &Block, session_id: u128, order: i64) -> (rec: BlockRecord)
    ensures
        encodes_block(rec, *block, session_id, order),
{
    BlockRecord {
        id: block.id,
        session_id,
        timestamp: block.timestamp,
        command: block.command.clone(),
        output: block.output.clone(),
        exit_code: block.exit_code,
        state: String::from_str(state_name(block.state)),
        working_directory: block.metadata.working_directory.clone(),
        environment: env_to_json(&block.metadata.environment),
        started_at: block.metadata.started_at,
        completed_at: block.metadata.completed_at,
        duration_ms: block.metadata.duration,
        is_collapsed: block.is_collapsed,
        block_order: order,
    }
}

/// Decode a row back into a block. Whatever the row held, the result is
/// well-formed: out-of-bound or inconsistent timestamps are dropped, the
/// duration is recomputed from the timestamps, and a terminal state missing
/// its exit code receives the conventional one (`0` for `Completed`, `-1` for
/// `Failed`).
pub fn block_from_record(rec: &BlockRecord) -> (b: Block)
    ensures
        b.wf(),
        decodes_block(b, *rec),
{
    let state = state_of_name(rec.state.as_str());
    let started: Option<i64> = match rec.started_at {
        Some(t) => if -crate::clock::TS_BOUND <= t && t <= crate::clock::TS_BOUND {
            Some(t)
        } else {
            None
        },
        None => None,
    };
    let completed: Option<i64> = match (started, rec.completed_at) {
        (Some(s), Some(t)) => if -crate::clock::TS_BOUND <= t && t <= crate::clock::TS_BOUND && t
            >= s {
            Some(t)
        } else {
            None
        },
        _ => None,
    };
    let duration: Option<i64> = match (started, completed) {
        (Some(s), Some(c)) => Some(c - s),
        _ => None,
    };
    let exit_code: Option<i32> = match state {
        BlockState::Completed => Some(
            match rec.exit_code {
                Some(c) => c,
                None => 0,
            },
        ),
        BlockState::Failed => Some(
            match rec.exit_code {
                Some(c) => c,
                None => -1,
            },
        ),
        _ => None,
    };
    let timestamp: i64 = if -crate::clock::TS_BOUND <= rec.timestamp && rec.timestamp
        <= crate::clock::TS_BOUND {
        rec.timestamp
    } else {
        0
    };
    Block {
        id: rec.id,
        timestamp,
        command: rec.command.clone(),
        output: rec.output.clone(),
        exit_code,
        state,
        metadata: BlockMetadata {
            duration,
            working_directory: rec.working_directory.clone(),
            environment: env_from_json(rec.environment.as_str()),
            started_at: started,
            completed_at: completed,
        },
        is_collapsed: rec.is_collapsed,
        is_selected: false,
        original_input: None,
    }
}

/// Decoding an encoding gives back the block's persisted fields: command,
/// output, exit code, state, identity, collapse flag and timestamps.
pub proof fn lemma_block_round_trip(b: Block, rec: BlockRecord, b2: Block, session_id: u128, order: i64)
    requires
        b.wf(),
        encodes_block(rec, b, session_id, order),
        decodes_block(b2, rec),
    ensures
        b2.id == b.id,
        b2.command == b.command,
        b2.output == b.output,
        b2.exit_code == b.exit_code,
        b2.state == b.state,
        b2.timestamp == b.timestamp,
        b2.metadata.started_at == b.metadata.started_at,
        b2.metadata.completed_at == b.metadata.completed_at,
        b2.metadata.duration == b.metadata.duration,
        b2.is_collapsed == b.is_collapsed,
{
    lemma_state_name_round_trip(b.state);
}

impl Clone for BlockRecord {
    /// A clone is equal to the original, field by field.
    fn clone(&self) -> (res: BlockRecord)
        ensures
            res == *self,
    {
        BlockRecord {
            id: self.id,
            session_id: self.session_id,
            timestamp: self.timestamp,
            command: self.command.clone(),
            output: self.output.clone(),
            exit_code: self.exit_code,
            state: self.state.clone(),
            working_directory: self.working_directory.clone(),
            environment: self.environment.clone(),
            started_at: self.started_at,
            completed_at: self.completed_at,
            duration_ms: self.duration_ms,
            is_collapsed: self.is_collapsed,
            block_order: self.block_order,
        }
    }
}

impl Clone for SessionRecord {
    /// A clone is equal to the original, field by field.
    fn clone(&self) -> (res: SessionRecord)
        ensures
            res == *self,
    {
        SessionRecord {
            id: self.id,
            name: self.name.clone(),
            created_at: self.created_at,
            updated_at: self.updated_at,
            working_directory: self.working_directory.clone(),
            environment: self.environment.clone(),
            is_active: self.is_active,
        }
    }
}

/// `rec` is the row that encodes the session aggregate (without its blocks).
pub open spec fn encodes_session(rec: SessionRecord, s: crate::session::Session) -> bool {
    &&& rec.id == s.id
    &&& rec.name == s.name
    &&& rec.created_at == s.created_at
    &&& rec.updated_at == s.updated_at
    &&& rec.working_directory == s.working_directory
    &&& rec.environment@ == env_json(s.environment@)
}

/// Encode a session's own fields into its row; activity is the store's
/// affair and is set by the caller.
pub fn session_to_record(s: &crate::session::Session, is_active: bool) -> (rec: SessionRecord)
    ensures
        encodes_session(rec, *s),
        rec.is_active == is_active,
{
    SessionRecord {
        id: s.id,
        name: s.name.clone(),
        created_at: s.created_at,
        updated_at: s.updated_at,
        working_directory: s.working_directory.clone(),
        environment: env_to_json(&s.environment),
        is_active,
    }
}

} // verus!
