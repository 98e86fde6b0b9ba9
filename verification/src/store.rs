//! The in-memory model of the durable session store.
//!
//! The store holds the two tables of the persistence schema as verified row
//! collections and gives every operation of the session manager an exact
//! contract: creating, loading, touching, activating and deleting sessions,
//! and upserting and loading blocks keyed by their caller-supplied order
//! column, which is the authoritative execution order. The embedding layer
//! mirrors each operation onto the durable relational store one to one.

use vstd::prelude::*;
use crate::block::Block;
use crate::clock::{clamped_ts, ts_in_bound};
use crate::records::{
    block_from_record, block_to_record, decodes_block, encodes_block, env_from_json, env_of_json,
    BlockRecord, SessionRecord,
};
use crate::session::Session;

verus! {

/// Why a store operation was refused.
#[derive(Debug, Clone, Copy, PartialEq, Eq, Structural)]
pub enum StoreError {
    /// A session with this ID already exists.
    DuplicateSession,
}

/// True when some session row carries `id`.
pub open spec fn has_session(s: Seq<SessionRecord>, id: u128) -> bool {
    exists|i: int| 0 <= i < s.len() && s[i].id == id
}

/// The first index of the session row carrying `id`.
pub open spec fn session_idx(s: Seq<SessionRecord>, id: u128) -> int
    decreases s.len(),
{
    if s.len() == 0 {
        0
    } else if s[0].id == id {
        0
    } else {
        1 + session_idx(s.drop_first(), id)
    }
}

/// The index found by a first-match scan over session rows is `session_idx`.
pub proof fn lemma_session_idx_at(s: Seq<SessionRecord>, id: u128, i: int)
    requires
        0 <= i < s.len(),
        s[i].id == id,
        forall|j: int| 0 <= j < i ==> s[j].id != id,
    ensures
        has_session(s, id),
        session_idx(s, id) == i,
    decreases i,
{
    if i > 0 {
        lemma_session_idx_at(s.drop_first(), id, i - 1);
    }
}

/// True when some session row is marked active.
pub open spec fn has_active(s: Seq<SessionRecord>) -> bool {
    exists|i: int| 0 <= i < s.len() && s[i].is_active
}

/// The first index of an active session row.
pub open spec fn active_idx(s: Seq<SessionRecord>) -> int
    decreases s.len(),
{
    if s.len() == 0 {
        0
    } else if s[0].is_active {
        0
    } else {
        1 + active_idx(s.drop_first())
    }
}

/// The index found by a first-match scan for an active row is `active_idx`.
pub proof fn lemma_active_idx_at(s: Seq<SessionRecord>, i: int)
    requires
        0 <= i < s.len(),
        s[i].is_active,
        forall|j: int| 0 <= j < i ==> !s[j].is_active,
    ensures
        has_active(s),
        active_idx(s) == i,
    decreases i,
{
    if i > 0 {
        lemma_active_idx_at(s.drop_first(), i - 1);
    }
}

/// The session rows after activating `id`: exactly the row carrying `id` is
/// active, every other row is deactivated.
pub open spec fn activate_model(s: Seq<SessionRecord>, id: u128) -> Seq<SessionRecord> {
    Seq::new(
        s.len(),
        |j: int|
            (SessionRecord {
                is_active: s[j].id == id,
                ..s[j]
            }),
    )
}

/// No two session rows share an ID.
pub open spec fn session_ids_unique(s: Seq<SessionRecord>) -> bool {
    forall|i: int, j: int| 0 <= i < j < s.len() ==> (#[trigger] s[i]).id != (#[trigger] s[j]).id
}

/// Block rows stand in non-decreasing `block_order`.
pub open spec fn sorted_by_order(s: Seq<BlockRecord>) -> bool {
    forall|i: int, j: int|
        0 <= i < j < s.len() ==> (#[trigger] s[i]).block_order <= (#[trigger] s[j]).block_order
}

/// No two block rows share an ID.
pub open spec fn block_ids_unique(s: Seq<BlockRecord>) -> bool {
    forall|i: int, j: int| 0 <= i < j < s.len() ==> (#[trigger] s[i]).id != (#[trigger] s[j]).id
}

/// True when `r` is one of the rows of `s`.
pub open spec fn row_in(r: BlockRecord, s: Seq<BlockRecord>) -> bool {
    exists|j: int| 0 <= j < s.len() && r == #[trigger] s[j]
}

/// The rows of one session, in stored order.
pub open spec fn rows_for(s: Seq<BlockRecord>, sid: u128) -> Seq<BlockRecord>
    decreases s.len(),
{
    if s.len() == 0 {
        Seq::empty()
    } else {
        let sub = rows_for(s.drop_last(), sid);
        if s.last().session_id == sid {
            sub.push(s.last())
        } else {
            sub
        }
    }
}

/// The rows left after removing the block carrying `id`.
pub open spec fn drop_block_id(s: Seq<BlockRecord>, id: u128) -> Seq<BlockRecord>
    decreases s.len(),
{
    if s.len() == 0 {
        Seq::empty()
    } else {
        let sub = drop_block_id(s.drop_last(), id);
        if s.last().id == id {
            sub
        } else {
            sub.push(s.last())
        }
    }
}

/// The rows left after removing every block of one session.
pub open spec fn drop_session_rows(s: Seq<BlockRecord>, sid: u128) -> Seq<BlockRecord>
    decreases s.len(),
{
    if s.len() == 0 {
        Seq::empty()
    } else {
        let sub = drop_session_rows(s.drop_last(), sid);
        if s.last().session_id == sid {
            sub
        } else {
            sub.push(s.last())
        }
    }
}

/// Where a row with this order is inserted: after every row whose order is
/// not greater.
pub open spec fn insert_pos(s: Seq<BlockRecord>, order: i64) -> int
    decreases s.len(),
{
    if s.len() == 0 {
        0
    } else if s[0].block_order > order {
        0
    } else {
        1 + insert_pos(s.drop_first(), order)
    }
}

/// The position found by a first-greater scan is `insert_pos`.
pub proof fn lemma_insert_pos_at(s: Seq<BlockRecord>, order: i64, i: int)
    requires
        0 <= i <= s.len(),
        forall|j: int| 0 <= j < i ==> (#[trigger] s[j]).block_order <= order,
        i < s.len() ==> s[i].block_order > order,
    ensures
        insert_pos(s, order) == i,
    decreases i,
{
    if i > 0 {
        lemma_insert_pos_at(s.drop_first(), order, i - 1);
    }
}

/// Every element of a session's rows is an element of the table with the
/// session's ID.
pub proof fn lemma_rows_for_elems(s: Seq<BlockRecord>, sid: u128)
    ensures
        forall|m: int|
            0 <= m < rows_for(s, sid).len() ==> (#[trigger] rows_for(s, sid)[m]).session_id == sid
                && row_in(rows_for(s, sid)[m], s),
    decreases s.len(),
{
    if s.len() > 0 {
        lemma_rows_for_elems(s.drop_last(), sid);
        let sub = rows_for(s.drop_last(), sid);
        assert forall|m: int| 0 <= m < rows_for(s, sid).len() implies (#[trigger] rows_for(s, sid)[m]).session_id
            == sid && row_in(rows_for(s, sid)[m], s) by {
            if m < sub.len() {
                let j = choose|j: int| 0 <= j < s.drop_last().len() && sub[m] == #[trigger] s.drop_last()[j];
                assert(rows_for(s, sid)[m] == s[j]);
            } else {
                assert(rows_for(s, sid)[m] == s[s.len() - 1]);
            }
        }
    }
}

/// Every stored row of a session appears among that session's rows.
pub proof fn lemma_sid_rows_in_rows_for(s: Seq<BlockRecord>, sid: u128)
    ensures
        forall|k: int|
            0 <= k < s.len() && (#[trigger] s[k]).session_id == sid ==> exists|m: int|
                0 <= m < rows_for(s, sid).len() && #[trigger] rows_for(s, sid)[m] == s[k],
    decreases s.len(),
{
    if s.len() > 0 {
        lemma_sid_rows_in_rows_for(s.drop_last(), sid);
        let sub = rows_for(s.drop_last(), sid);
        assert forall|k: int|
            0 <= k < s.len() && (#[trigger] s[k]).session_id == sid implies exists|m: int|
            0 <= m < rows_for(s, sid).len() && #[trigger] rows_for(s, sid)[m] == s[k] by {
            if k < s.len() - 1 {
                assert(s.drop_last()[k] == s[k]);
                let m = choose|m: int|
                    0 <= m < sub.len() && #[trigger] sub[m] == s.drop_last()[k];
                assert(rows_for(s, sid)[m] == s[k]);
            } else {
                assert(rows_for(s, sid)[rows_for(s, sid).len() - 1] == s[k]);
            }
        }
    }
}

/// The order column is the authoritative execution order: one session's rows,
/// as every load hands them back, stand in non-decreasing `block_order` in
/// any table the store keeps — whatever their timestamps say.
pub proof fn lemma_rows_for_sorted(s: Seq<BlockRecord>, sid: u128)
    requires
        sorted_by_order(s),
    ensures
        sorted_by_order(rows_for(s, sid)),
    decreases s.len(),
{
    if s.len() > 0 {
        assert(sorted_by_order(s.drop_last()));
        lemma_rows_for_sorted(s.drop_last(), sid);
        lemma_rows_for_elems(s.drop_last(), sid);
        let sub = rows_for(s.drop_last(), sid);
        let out = rows_for(s, sid);
        if s.last().session_id == sid {
            assert forall|a: int, b: int| 0 <= a < b < out.len() implies (#[trigger] out[a]).block_order
                <= (#[trigger] out[b]).block_order by {
                if b == out.len() - 1 {
                    let j = choose|j: int|
                        0 <= j < s.drop_last().len() && sub[a] == #[trigger] s.drop_last()[j];
                    assert(out[a] == s[j]);
                    assert(out[b] == s[s.len() - 1]);
                }
            }
        }
    }
}

/// Session rows distribute over concatenation.
pub proof fn lemma_rows_for_add(a: Seq<BlockRecord>, b: Seq<BlockRecord>, sid: u128)
    ensures
        rows_for(a + b, sid) == rows_for(a, sid) + rows_for(b, sid),
    decreases b.len(),
{
    if b.len() == 0 {
        assert(a + b =~= a);
        assert(rows_for(a, sid) + rows_for(b, sid) =~= rows_for(a, sid));
    } else {
        assert((a + b).drop_last() =~= a + b.drop_last());
        assert((a + b).last() == b.last());
        lemma_rows_for_add(a, b.drop_last(), sid);
        if b.last().session_id == sid {
            assert(rows_for(a, sid) + rows_for(b.drop_last(), sid).push(b.last()) =~= (rows_for(
                a,
                sid,
            ) + rows_for(b.drop_last(), sid)).push(b.last()));
        }
    }
}

/// Removing an ID that no row carries changes nothing.
pub proof fn lemma_drop_block_id_absent(s: Seq<BlockRecord>, id: u128)
    requires
        forall|k: int| 0 <= k < s.len() ==> (#[trigger] s[k]).id != id,
    ensures
        drop_block_id(s, id) == s,
    decreases s.len(),
{
    if s.len() > 0 {
        lemma_drop_block_id_absent(s.drop_last(), id);
        assert(drop_block_id(s, id) =~= s);
    }
}

/// Removing one ID from a sorted table of unique IDs leaves a sorted table of
/// unique IDs without that ID, each of whose rows is a row of the original.
pub proof fn lemma_drop_block_id_props(s: Seq<BlockRecord>, id: u128)
    requires
        sorted_by_order(s),
        block_ids_unique(s),
    ensures
        sorted_by_order(drop_block_id(s, id)),
        block_ids_unique(drop_block_id(s, id)),
        forall|k: int| 0 <= k < drop_block_id(s, id).len() ==> (#[trigger] drop_block_id(s, id)[k]).id
            != id,
        forall|k: int|
            0 <= k < drop_block_id(s, id).len() ==> row_in(#[trigger] drop_block_id(s, id)[k], s),
    decreases s.len(),
{
    if s.len() > 0 {
        lemma_drop_block_id_props(s.drop_last(), id);
        let sub = drop_block_id(s.drop_last(), id);
        let out = drop_block_id(s, id);
        assert forall|k: int| 0 <= k < out.len() implies row_in(#[trigger] out[k], s) by {
            if k < sub.len() {
                let j = choose|j: int| 0 <= j < s.drop_last().len() && sub[k] == #[trigger] s.drop_last()[j];
                assert(out[k] == s[j]);
            } else {
                assert(out[k] == s[s.len() - 1]);
            }
        }
        if s.last().id != id {
            assert forall|k1: int, k2: int| 0 <= k1 < k2 < out.len() implies (#[trigger] out[k1]).block_order
                <= (#[trigger] out[k2]).block_order && out[k1].id != out[k2].id by {
                if k2 == out.len() - 1 {
                    let j = choose|j: int|
                        0 <= j < s.drop_last().len() && sub[k1] == #[trigger] s.drop_last()[j];
                    assert(out[k1] == s[j]);
                    assert(out[k2] == s[s.len() - 1]);
                }
            }
        }
    }
}

/// Removing a session's rows from a sorted table of unique IDs keeps it
/// sorted with unique IDs, and none of the kept rows belongs to the session.
pub proof fn lemma_drop_session_rows_props(s: Seq<BlockRecord>, sid: u128)
    requires
        sorted_by_order(s),
        block_ids_unique(s),
    ensures
        sorted_by_order(drop_session_rows(s, sid)),
        block_ids_unique(drop_session_rows(s, sid)),
        forall|k: int|
            0 <= k < drop_session_rows(s, sid).len() ==> (#[trigger] drop_session_rows(s, sid)[k]).session_id
                != sid,
        forall|k: int|
            0 <= k < drop_session_rows(s, sid).len() ==> row_in(
                #[trigger] drop_session_rows(s, sid)[k],
                s,
            ),
    decreases s.len(),
{
    if s.len() > 0 {
        lemma_drop_session_rows_props(s.drop_last(), sid);
        let sub = drop_session_rows(s.drop_last(), sid);
        let out = drop_session_rows(s, sid);
        assert forall|k: int| 0 <= k < out.len() implies row_in(#[trigger] out[k], s) by {
            if k < sub.len() {
                let j = choose|j: int| 0 <= j < s.drop_last().len() && sub[k] == #[trigger] s.drop_last()[j];
                assert(out[k] == s[j]);
            } else {
                assert(out[k] == s[s.len() - 1]);
            }
        }
        if s.last().session_id != sid {
            assert forall|k1: int, k2: int| 0 <= k1 < k2 < out.len() implies (#[trigger] out[k1]).block_order
                <= (#[trigger] out[k2]).block_order && out[k1].id != out[k2].id by {
                if k2 == out.len() - 1 {
                    let j = choose|j: int|
                        0 <= j < s.drop_last().len() && sub[k1] == #[trigger] s.drop_last()[j];
                    assert(out[k1] == s[j]);
                    assert(out[k2] == s[s.len() - 1]);
                }
            }
        }
    }
}


/// A session's headline row, without its blocks: what a session picker shows.
#[derive(Debug, Clone)]
pub struct SessionInfo {
    pub id: u128,
    pub name: String,
    pub created_at: i64,
    pub updated_at: i64,
    pub is_active: bool,
}

/// `info` is the headline of `rec`.
pub open spec fn info_of(info: SessionInfo, rec: SessionRecord) -> bool {
    &&& info.id == rec.id
    &&& info.name == rec.name
    &&& info.created_at == rec.created_at
    &&& info.updated_at == rec.updated_at
    &&& info.is_active == rec.is_active
}

/// Some entry of `r` is the headline of `row`.
pub open spec fn has_info(r: Seq<SessionInfo>, row: SessionRecord) -> bool {
    exists|k: int| 0 <= k < r.len() && #[trigger] info_of(r[k], row)
}

/// Each of the first `n` session rows has its headline among `r`.
pub open spec fn infos_cover(r: Seq<SessionInfo>, rows: Seq<SessionRecord>, n: int) -> bool {
    forall|j: int| 0 <= j < n ==> has_info(r, #[trigger] rows[j])
}

/// The two tables of the persistence schema, as one verified store.
#[derive(Debug)]
pub struct SessionStore {
    sessions: Vec<SessionRecord>,
    blocks: Vec<BlockRecord>,
}

impl SessionStore {
    /// The session rows.
    pub closed spec fn sessions_model(self) -> Seq<SessionRecord> {
        self.sessions@
    }

    /// The block rows.
    pub closed spec fn blocks_model(self) -> Seq<BlockRecord> {
        self.blocks@
    }

    /// Well-formedness: session IDs unique; block rows sorted by their order
    /// column with unique IDs.
    pub open spec fn wf(self) -> bool {
        &&& session_ids_unique(self.sessions_model())
        &&& sorted_by_order(self.blocks_model())
        &&& block_ids_unique(self.blocks_model())
    }

    /// An empty store.
    pub fn new() -> (r: SessionStore)
        ensures
            r.wf(),
            r.sessions_model() == Seq::<SessionRecord>::empty(),
            r.blocks_model() == Seq::<BlockRecord>::empty(),
    {
        SessionStore { sessions: Vec::new(), blocks: Vec::new() }
    }

    /// Insert a new session row. The row enters inactive: activation is the
    /// caller's separate `set_active_session` call. A duplicate ID is refused
    /// and changes nothing.
    pub fn create_session(&mut self, rec: SessionRecord) -> (r: Result<(), StoreError>)
        requires
            old(self).wf(),
        ensures
            final(self).wf(),
            final(self).blocks_model() == old(self).blocks_model(),
            (r matches Err(e) ==> {
                &&& e == StoreError::DuplicateSession
                &&& has_session(old(self).sessions_model(), rec.id)
                &&& final(self).sessions_model() == old(self).sessions_model()
            }),
            (r is Ok ==> {
                &&& !has_session(old(self).sessions_model(), rec.id)
                &&& final(self).sessions_model() == old(self).sessions_model().push(
                    (SessionRecord { is_active: false, ..rec }),
                )
            }),
    {
        let mut i: usize = 0;
        while i < self.sessions.len()
            invariant
                old(self).wf(),
                self.sessions@ == old(self).sessions@,
                self.blocks@ == old(self).blocks@,
                i <= self.sessions@.len(),
                forall|j: int| 0 <= j < i ==> (#[trigger] self.sessions@[j]).id != rec.id,
            decreases self.sessions@.len() - i,
        {
            if self.sessions[i].id == rec.id {
                return Err(StoreError::DuplicateSession);
            }
            i = i + 1;
        }
        let row = SessionRecord { is_active: false, ..rec };
        self.sessions.push(row);
        Ok(())
    }

    /// Mark exactly the session carrying `id` active, deactivating every
    /// other session first.
    pub fn set_active_session(&mut self, id: u128)
        requires
            old(self).wf(),
        ensures
            final(self).wf(),
            final(self).blocks_model() == old(self).blocks_model(),
            final(self).sessions_model() == activate_model(old(self).sessions_model(), id),
    {
        let ghost s0 = self.sessions@;
        let mut i: usize = 0;
        while i < self.sessions.len()
            invariant
                old(self).wf(),
                self.blocks@ == old(self).blocks@,
                i <= self.sessions@.len(),
                self.sessions@.len() == s0.len(),
                s0 == old(self).sessions@,
                forall|j: int| 0 <= j < i ==> self.sessions@[j] == (SessionRecord {
                    is_active: s0[j].id == id,
                    ..s0[j]
                }),
                forall|j: int| i <= j < s0.len() ==> self.sessions@[j] == s0[j],
            decreases self.sessions@.len() - i,
        {
            let active = self.sessions[i].id == id;
            let row = &mut self.sessions[i];
            row.is_active = active;
            i = i + 1;
        }
        proof {
            assert forall|i1: int, j1: int| 0 <= i1 < j1 < self.sessions@.len() implies (
            #[trigger] self.sessions@[i1]).id != (#[trigger] self.sessions@[j1]).id by {
                assert(s0[i1].id != s0[j1].id);
            }
            assert(self.sessions@ =~= activate_model(s0, id));
        }
    }

    /// Bump the `updated_at` of the session carrying `id` to the given clock
    /// reading, never lowering it, touching nothing else; a missing ID is a
    /// no-op.
    pub fn touch_session(&mut self, id: u128, now: i64)
        requires
            old(self).wf(),
            ts_in_bound(now),
        ensures
            final(self).wf(),
            final(self).blocks_model() == old(self).blocks_model(),
            !has_session(old(self).sessions_model(), id) ==> final(self).sessions_model() == old(
                self,
            ).sessions_model(),
            has_session(old(self).sessions_model(), id) ==> {
                let k = session_idx(old(self).sessions_model(), id);
                let before = old(self).sessions_model()[k];
                let bumped = if now >= before.updated_at {
                    now
                } else {
                    before.updated_at
                };
                final(self).sessions_model() == old(self).sessions_model().update(
                    k,
                    (SessionRecord { updated_at: bumped, ..before }),
                )
            },
    {
        let mut i: usize = 0;
        while i < self.sessions.len()
            invariant
                old(self).wf(),
                ts_in_bound(now),
                self.sessions@ == old(self).sessions@,
                self.blocks@ == old(self).blocks@,
                i <= self.sessions@.len(),
                forall|j: int| 0 <= j < i ==> (#[trigger] self.sessions@[j]).id != id,
            decreases self.sessions@.len() - i,
        {
            if self.sessions[i].id == id {
                proof {
                    lemma_session_idx_at(self.sessions@, id, i as int);
                }
                let row = &mut self.sessions[i];
                if now >= row.updated_at {
                    row.updated_at = now;
                }
                proof {
                    assert forall|i1: int, j1: int|
                        0 <= i1 < j1 < self.sessions@.len() implies (#[trigger] self.sessions@[i1]).id
                        != (#[trigger] self.sessions@[j1]).id by {
                        assert(old(self).sessions@[i1].id != old(self).sessions@[j1].id);
                    }
                }
                return ;
            }
            i = i + 1;
        }
    }

    /// Remove the session carrying `id` and every one of its blocks; a
    /// missing ID still clears any blocks stored under it.
    pub fn delete_session(&mut self, id: u128)
        requires
            old(self).wf(),
        ensures
            final(self).wf(),
            !has_session(old(self).sessions_model(), id) ==> final(self).sessions_model() == old(
                self,
            ).sessions_model(),
            has_session(old(self).sessions_model(), id) ==> final(self).sessions_model() == old(
                self,
            ).sessions_model().remove(session_idx(old(self).sessions_model(), id)),
            final(self).blocks_model() == drop_session_rows(old(self).blocks_model(), id),
            rows_for(final(self).blocks_model(), id) == Seq::<BlockRecord>::empty(),
    {
        match self.find_session(id) {
            Some(i) => {
                self.sessions.remove(i);
                proof {
                    let k = session_idx(old(self).sessions@, id);
                    assert forall|i1: int, j1: int|
                        0 <= i1 < j1 < self.sessions@.len() implies (#[trigger] self.sessions@[i1]).id
                        != (#[trigger] self.sessions@[j1]).id by {
                        let a = if i1 < k {
                            i1
                        } else {
                            i1 + 1
                        };
                        let b = if j1 < k {
                            j1
                        } else {
                            j1 + 1
                        };
                        assert(self.sessions@[i1] == old(self).sessions@[a]);
                        assert(self.sessions@[j1] == old(self).sessions@[b]);
                    }
                }
            },
            None => {},
        }
        // Cascade: drop every block row of this session.
        let ghost sfix = self.sessions@;
        let ghost b0 = self.blocks@;
        let mut kept: Vec<BlockRecord> = Vec::new();
        let mut j: usize = 0;
        proof {
            assert(drop_session_rows(b0.take(0), id) =~= Seq::<BlockRecord>::empty());
        }
        while j < self.blocks.len()
            invariant
                old(self).wf(),
                b0 == old(self).blocks@,
                self.blocks@ == b0,
                self.sessions@ == sfix,
                session_ids_unique(sfix),
                (!has_session(old(self).sessions@, id) ==> sfix == old(self).sessions@),
                (has_session(old(self).sessions@, id) ==> sfix == old(self).sessions@.remove(
                    session_idx(old(self).sessions@, id),
                )),
                j <= b0.len(),
                kept@ == drop_session_rows(b0.take(j as int), id),
            decreases b0.len() - j,
        {
            let ghost prefix = b0.take(j as int);
            if self.blocks[j].session_id != id {
                kept.push(self.blocks[j].clone());
            }
            proof {
                let t = b0.take(j + 1);
                assert(t.drop_last() =~= prefix);
                assert(t.last() == b0[j as int]);
                assert(kept@ == drop_session_rows(t, id));
            }
            j = j + 1;
        }
        proof {
            assert(b0.take(b0.len() as int) =~= b0);
        }
        self.blocks = kept;
        proof {
            lemma_drop_session_rows_props(b0, id);
            lemma_rows_for_of_dropped(self.blocks@, id);
        }
    }


    /// Every session's headline, most recently updated first.
    pub fn list_sessions(&self) -> (r: Vec<SessionInfo>)
        ensures
            r@.len() == self.sessions_model().len(),
            forall|a: int, b: int|
                0 <= a < b < r@.len() ==> (#[trigger] r@[a]).updated_at >= (
                #[trigger] r@[b]).updated_at,
            infos_cover(r@, self.sessions_model(), self.sessions_model().len() as int),
    {
        let mut r: Vec<SessionInfo> = Vec::new();
        let mut i: usize = 0;
        while i < self.sessions.len()
            invariant
                i <= self.sessions@.len(),
                r@.len() == i,
                forall|a: int, b: int|
                    0 <= a < b < r@.len() ==> (#[trigger] r@[a]).updated_at >= (
                    #[trigger] r@[b]).updated_at,
                infos_cover(r@, self.sessions@, i as int),
            decreases self.sessions@.len() - i,
        {
            let row = &self.sessions[i];
            let info = SessionInfo {
                id: row.id,
                name: row.name.clone(),
                created_at: row.created_at,
                updated_at: row.updated_at,
                is_active: row.is_active,
            };
            let ghost r0 = r@;
            // Descending insert: after every row updated at least as recently.
            let mut p: usize = 0;
            while p < r.len() && r[p].updated_at >= info.updated_at
                invariant
                    r@ == r0,
                    info_of(info, self.sessions@[i as int]),
                    i < self.sessions@.len(),
                    p <= r0.len(),
                    forall|a: int, b: int|
                        0 <= a < b < r0.len() ==> (#[trigger] r0[a]).updated_at >= (
                        #[trigger] r0[b]).updated_at,
                    forall|k: int| 0 <= k < p ==> (#[trigger] r0[k]).updated_at >= info.updated_at,
                decreases r0.len() - p,
            {
                p = p + 1;
            }
            r.insert(p, info);
            proof {
                let rn = r@;
                let pi = p as int;
                r0.insert_ensures(pi, info);
                assert forall|a: int, b: int| 0 <= a < b < rn.len() implies (#[trigger] rn[a]).updated_at
                    >= (#[trigger] rn[b]).updated_at by {
                    if a != pi && b != pi {
                        let a2 = if a < pi {
                            a
                        } else {
                            a - 1
                        };
                        let b2 = if b < pi {
                            b
                        } else {
                            b - 1
                        };
                        assert(rn[a] == r0[a2]);
                        assert(rn[b] == r0[b2]);
                    } else if a == pi {
                        assert(rn[b] == r0[b - 1]);
                        assert(r0[b - 1].updated_at < info.updated_at);
                    } else {
                        assert(rn[a] == r0[a]);
                        assert(r0[a].updated_at >= info.updated_at);
                    }
                }
                assert forall|j: int| 0 <= j < i + 1 implies has_info(rn, #[trigger] self.sessions@[j]) by {
                    if j < i {
                        assert(has_info(r0, self.sessions@[j]));
                        let k0 = choose|k: int|
                            0 <= k < r0.len() && #[trigger] info_of(r0[k], self.sessions@[j]);
                        if k0 < pi {
                            assert(info_of(rn[k0], self.sessions@[j]));
                        } else {
                            assert(rn[k0 + 1] == r0[k0]);
                            assert(info_of(rn[k0 + 1], self.sessions@[j]));
                        }
                    } else {
                        assert(info_of(rn[pi], self.sessions@[j]));
                    }
                }
            }
            i = i + 1;
        }
        r
    }

    /// The position of the session row carrying `id`, if any.
    fn find_session(&self, id: u128) -> (r: Option<usize>)
        ensures
            r is Some <==> has_session(self.sessions_model(), id),
            (r matches Some(i) ==> i == session_idx(self.sessions_model(), id)
                && i < self.sessions_model().len()),
    {
        let mut i: usize = 0;
        while i < self.sessions.len()
            invariant
                i <= self.sessions@.len(),
                forall|j: int| 0 <= j < i ==> (#[trigger] self.sessions@[j]).id != id,
            decreases self.sessions@.len() - i,
        {
            if self.sessions[i].id == id {
                proof {
                    lemma_session_idx_at(self.sessions@, id, i as int);
                }
                return Some(i);
            }
            i = i + 1;
        }
        None
    }

    /// The first session marked active, if any, as a full decoded session
    /// with its blocks.
    pub fn get_active_session(&self) -> (r: Option<Session>)
        requires
            self.wf(),
        ensures
            r is Some <==> has_active(self.sessions_model()),
            (r matches Some(s) ==> {
                let row = self.sessions_model()[active_idx(self.sessions_model())];
                &&& s.wf()
                &&& decodes_session_row(s, row)
                &&& loaded_blocks(s.blocks@, rows_for(self.blocks_model(), row.id))
            }),
    {
        let mut i: usize = 0;
        while i < self.sessions.len()
            invariant
                self.wf(),
                i <= self.sessions@.len(),
                forall|j: int| 0 <= j < i ==> !(#[trigger] self.sessions@[j]).is_active,
            decreases self.sessions@.len() - i,
        {
            if self.sessions[i].is_active {
                proof {
                    lemma_active_idx_at(self.sessions@, i as int);
                }
                let s = self.load_session_row(i);
                return Some(s);
            }
            i = i + 1;
        }
        None
    }

    /// Reconstruct the full session stored under `id`: its own row plus all
    /// its blocks, ordered by the persisted order column; a missing ID yields
    /// `None`.
    pub fn load_session(&self, id: u128) -> (r: Option<Session>)
        requires
            self.wf(),
        ensures
            r is Some <==> has_session(self.sessions_model(), id),
            (r matches Some(s) ==> {
                let row = self.sessions_model()[session_idx(self.sessions_model(), id)];
                &&& s.wf()
                &&& decodes_session_row(s, row)
                &&& loaded_blocks(s.blocks@, rows_for(self.blocks_model(), row.id))
            }),
    {
        let mut i: usize = 0;
        while i < self.sessions.len()
            invariant
                self.wf(),
                i <= self.sessions@.len(),
                forall|j: int| 0 <= j < i ==> (#[trigger] self.sessions@[j]).id != id,
            decreases self.sessions@.len() - i,
        {
            if self.sessions[i].id == id {
                proof {
                    lemma_session_idx_at(self.sessions@, id, i as int);
                }
                let s = self.load_session_row(i);
                return Some(s);
            }
            i = i + 1;
        }
        None
    }

    /// Decode the session row at a known index together with its blocks.
    fn load_session_row(&self, i: usize) -> (s: Session)
        requires
            self.wf(),
            i < self.sessions_model().len(),
        ensures
            s.wf(),
            decodes_session_row(s, self.sessions_model()[i as int]),
            loaded_blocks(s.blocks@, rows_for(self.blocks_model(), s.id)),
    {
        let row = &self.sessions[i];
        let blocks = self.load_blocks(row.id);
        let created = clamp_ts(row.created_at);
        let updated = clamp_ts(row.updated_at);
        Session {
            id: row.id,
            created_at: created,
            updated_at: if updated >= created {
                updated
            } else {
                created
            },
            name: row.name.clone(),
            blocks,
            environment: env_from_json(row.environment.as_str()),
            working_directory: row.working_directory.clone(),
        }
    }

    /// All blocks of one session, decoded, ordered by the persisted order
    /// column.
    pub fn load_blocks(&self, session_id: u128) -> (r: Vec<Block>)
        requires
            self.wf(),
        ensures
            loaded_blocks(r@, rows_for(self.blocks_model(), session_id)),
    {
        let mut r: Vec<Block> = Vec::new();
        let ghost mut acc = Seq::<BlockRecord>::empty();
        let mut i: usize = 0;
        proof {
            assert(rows_for(self.blocks@.take(0), session_id) =~= Seq::<BlockRecord>::empty());
        }
        while i < self.blocks.len()
            invariant
                i <= self.blocks@.len(),
                acc == rows_for(self.blocks@.take(i as int), session_id),
                r@.len() == acc.len(),
                forall|j: int|
                    0 <= j < r@.len() ==> decodes_block(#[trigger] r@[j], acc[j]) && r@[j].wf(),
            decreases self.blocks@.len() - i,
        {
            let ghost prefix = self.blocks@.take(i as int);
            if self.blocks[i].session_id == session_id {
                let b = block_from_record(&self.blocks[i]);
                r.push(b);
                proof {
                    acc = acc.push(self.blocks@[i as int]);
                }
            }
            proof {
                let t = self.blocks@.take(i + 1);
                assert(t.drop_last() =~= prefix);
                assert(t.last() == self.blocks@[i as int]);
                assert(acc == rows_for(t, session_id));
            }
            i = i + 1;
        }
        proof {
            assert(self.blocks@.take(self.blocks@.len() as int) =~= self.blocks@);
        }
        r
    }

    /// Upsert one block row, keyed by the block's ID: any row with that ID
    /// leaves, and the freshly encoded row enters at its place in the order
    /// column, after every row whose order is not greater.
    #[verifier::rlimit(100)]
    pub fn save_block(&mut self, session_id: u128, block: &Block, order: i64)
        requires
            old(self).wf(),
        ensures
            final(self).wf(),
            final(self).sessions_model() == old(self).sessions_model(),
            ({
                let cleaned = drop_block_id(old(self).blocks_model(), block.id);
                let p = insert_pos(cleaned, order);
                &&& final(self).blocks_model().len() == cleaned.len() + 1
                &&& (forall|j: int| 0 <= j < p ==> final(self).blocks_model()[j] == cleaned[j])
                &&& encodes_block(final(self).blocks_model()[p], *block, session_id, order)
                &&& (forall|j: int|
                    p < j < cleaned.len() + 1 ==> final(self).blocks_model()[j] == cleaned[j - 1])
            }),
    {
        let rec = block_to_record(block, session_id, order);
        let ghost b0 = self.blocks@;
        // Remove any row already stored under this block's ID.
        let mut kept: Vec<BlockRecord> = Vec::new();
        let mut j: usize = 0;
        proof {
            assert(drop_block_id(b0.take(0), rec.id) =~= Seq::<BlockRecord>::empty());
        }
        while j < self.blocks.len()
            invariant
                old(self).wf(),
                b0 == old(self).blocks@,
                self.blocks@ == b0,
                self.sessions@ == old(self).sessions@,
                rec.id == block.id,
                encodes_block(rec, *block, session_id, order),
                j <= b0.len(),
                kept@ == drop_block_id(b0.take(j as int), rec.id),
            decreases b0.len() - j,
        {
            let ghost prefix = b0.take(j as int);
            if self.blocks[j].id != rec.id {
                kept.push(self.blocks[j].clone());
            }
            proof {
                let t = b0.take(j + 1);
                assert(t.drop_last() =~= prefix);
                assert(t.last() == b0[j as int]);
                assert(kept@ == drop_block_id(t, rec.id));
            }
            j = j + 1;
        }
        proof {
            assert(b0.take(b0.len() as int) =~= b0);
            lemma_drop_block_id_props(b0, rec.id);
        }
        let ghost cleaned = kept@;
        // Find where the order column puts the new row.
        let mut p: usize = 0;
        while p < kept.len() && kept[p].block_order <= order
            invariant
                old(self).wf(),
                b0 == old(self).blocks@,
                self.blocks@ == b0,
                self.sessions@ == old(self).sessions@,
                rec.id == block.id,
                encodes_block(rec, *block, session_id, order),
                kept@ == cleaned,
                cleaned == drop_block_id(b0, rec.id),
                p <= cleaned.len(),
                forall|k: int| 0 <= k < p ==> (#[trigger] cleaned[k]).block_order <= order,
            decreases cleaned.len() - p,
        {
            p = p + 1;
        }
        proof {
            lemma_drop_block_id_props(b0, rec.id);
            lemma_insert_pos_at(cleaned, order, p as int);
            assert forall|k: int| p <= k < cleaned.len() implies (#[trigger] cleaned[k]).block_order
                > order by {
                if k > p {
                    assert(cleaned[p as int].block_order <= cleaned[k].block_order);
                }
            }
        }
        kept.insert(p, rec);
        self.blocks = kept;
        proof {
            let newv = self.blocks@;
            let pi = p as int;
            cleaned.insert_ensures(pi, rec);
            assert(newv == cleaned.insert(pi, rec));
            assert forall|i1: int, j1: int| 0 <= i1 < j1 < newv.len() implies (#[trigger] newv[i1]).block_order
                <= (#[trigger] newv[j1]).block_order && newv[i1].id != newv[j1].id by {
                if i1 != pi && j1 != pi {
                    let a2 = if i1 < pi {
                        i1
                    } else {
                        i1 - 1
                    };
                    let b2 = if j1 < pi {
                        j1
                    } else {
                        j1 - 1
                    };
                    assert(newv[i1] == cleaned[a2]);
                    assert(newv[j1] == cleaned[b2]);
                } else if i1 == pi {
                    assert(newv[i1] == rec);
                    assert(newv[j1] == cleaned[j1 - 1]);
                    assert(cleaned[j1 - 1].block_order > order);
                } else {
                    assert(newv[j1] == rec);
                    assert(newv[i1] == cleaned[i1]);
                    assert(cleaned[i1].block_order <= order);
                }
            }
        }
    }

    /// Save a whole block sequence under a session, each block at its
    /// position: the auto-save pass. Starting from a session with no stored
    /// rows and blocks whose IDs are fresh and distinct, the session's rows
    /// afterwards are exactly the encodings of the blocks, in order.
    pub fn save_blocks(&mut self, session_id: u128, blocks: &Vec<Block>)
        requires
            old(self).wf(),
            blocks@.len() <= i64::MAX,
            rows_for(old(self).blocks_model(), session_id) == Seq::<BlockRecord>::empty(),
            forall|i: int|
                0 <= i < blocks@.len() ==> !has_block_id(old(self).blocks_model(), (
                #[trigger] blocks@[i]).id),
            forall|i: int, j: int|
                0 <= i < j < blocks@.len() ==> (#[trigger] blocks@[i]).id != (
                #[trigger] blocks@[j]).id,
        ensures
            final(self).wf(),
            final(self).sessions_model() == old(self).sessions_model(),
            ({
                let rows = rows_for(final(self).blocks_model(), session_id);
                &&& rows.len() == blocks@.len()
                &&& forall|i: int|
                    0 <= i < blocks@.len() ==> encodes_block(#[trigger] rows[i], blocks@[i],
                    session_id, i as i64)
            }),
    {
        let mut i: usize = 0;
        while i < blocks.len()
            invariant
                self.wf(),
                blocks@.len() <= i64::MAX,
                self.sessions_model() == old(self).sessions_model(),
                i <= blocks@.len(),
                forall|a: int, b: int|
                    0 <= a < b < blocks@.len() ==> (#[trigger] blocks@[a]).id != (
                    #[trigger] blocks@[b]).id,
                rows_for(self.blocks_model(), session_id).len() == i,
                forall|k: int|
                    0 <= k < i ==> encodes_block(
                        #[trigger] rows_for(self.blocks_model(), session_id)[k],
                        blocks@[k],
                        session_id,
                        k as i64,
                    ),
                forall|k: int|
                    i <= k < blocks@.len() ==> !has_block_id(self.blocks_model(), (
                    #[trigger] blocks@[k]).id),
            decreases blocks@.len() - i,
        {
            let ghost pre = self.blocks_model();
            proof {
                // Every stored row of this session is one of the rows saved so
                // far, whose order column is below the next position.
                lemma_sid_rows_in_rows_for(pre, session_id);
                assert forall|k: int|
                    0 <= k < pre.len() && (#[trigger] pre[k]).session_id == session_id implies pre[k].block_order
                    < i as i64 by {
                    let m = choose|m: int|
                        0 <= m < rows_for(pre, session_id).len() && #[trigger] rows_for(
                            pre,
                            session_id,
                        )[m] == pre[k];
                    assert(encodes_block(rows_for(pre, session_id)[m], blocks@[m], session_id,
                    m as i64));
                }
            }
            let b = &blocks[i];
            self.save_block(session_id, b, i as i64);
            proof {
                lemma_save_block_appends(pre, self.blocks_model(), *b, session_id, i as i64);
                let rows = rows_for(self.blocks_model(), session_id);
                assert(rows == rows_for(pre, session_id).push(rows[i as int]));
                assert(encodes_block(rows[i as int], blocks@[i as int], session_id, i as i64));
            }
            i = i + 1;
        }
    }
}

/// True when some block row carries `id`.
pub open spec fn has_block_id(s: Seq<BlockRecord>, id: u128) -> bool {
    exists|i: int| 0 <= i < s.len() && s[i].id == id
}

/// `s` carries what the session row stores: identity, name, working
/// directory and environment as decoded from the blob, the created timestamp
/// clamped into bound, and the updated timestamp clamped and never behind the
/// created one.
pub open spec fn decodes_session_row(s: Session, row: SessionRecord) -> bool {
    let created = clamped_ts(row.created_at);
    let updated = clamped_ts(row.updated_at);
    &&& s.id == row.id
    &&& s.name == row.name
    &&& s.working_directory == row.working_directory
    &&& s.environment@ == env_of_json(row.environment@)
    &&& s.created_at == created
    &&& s.updated_at == (if updated >= created {
        updated
    } else {
        created
    })
}

/// `loaded` is the pointwise decoding of `rows`: same length, each block
/// well-formed and decoding its row.
pub open spec fn loaded_blocks(loaded: Seq<Block>, rows: Seq<BlockRecord>) -> bool {
    &&& loaded.len() == rows.len()
    &&& forall|i: int|
        0 <= i < loaded.len() ==> decodes_block(#[trigger] loaded[i], rows[i]) && loaded[i].wf()
}

/// Clamp a stored timestamp into bound; malformed values degrade to the
/// epoch.
fn clamp_ts(t: i64) -> (r: i64)
    ensures
        r == clamped_ts(t),
        ts_in_bound(r),
{
    if -crate::clock::TS_BOUND <= t && t <= crate::clock::TS_BOUND {
        t
    } else {
        0
    }
}

/// One `save_block` step of the auto-save pass appends the encoded row to the
/// session's rows and leaves other sessions' rows without the new ID.
proof fn lemma_save_block_appends(
    pre: Seq<BlockRecord>,
    post: Seq<BlockRecord>,
    b: Block,
    sid: u128,
    order: i64,
)
    requires
        sorted_by_order(pre),
        block_ids_unique(pre),
        !has_block_id(pre, b.id),
        forall|k: int|
            0 <= k < pre.len() ==> (#[trigger] pre[k]).session_id == sid ==> pre[k].block_order
                < order,
        ({
            let cleaned = drop_block_id(pre, b.id);
            let p = insert_pos(cleaned, order);
            &&& post.len() == cleaned.len() + 1
            &&& (forall|j: int| 0 <= j < p ==> post[j] == cleaned[j])
            &&& encodes_block(post[p], b, sid, order)
            &&& (forall|j: int| p < j < cleaned.len() + 1 ==> post[j] == cleaned[j - 1])
        }),
    ensures
        rows_for(post, sid) == rows_for(pre, sid).push(post[insert_pos(drop_block_id(pre, b.id),
        order)]),
        forall|id2: u128|
            !has_block_id(pre, id2) && id2 != b.id ==> !has_block_id(post, id2),
{
    lemma_drop_block_id_absent(pre, b.id);
    assert(drop_block_id(pre, b.id) == pre);
    lemma_insert_pos_props(pre, order);
    let p = insert_pos(pre, order);
    let rec = post[p];
    assert(post.len() == pre.len() + 1);
    assert(post =~= pre.take(p) + seq![rec] + pre.skip(p)) by {
        assert forall|j: int| 0 <= j < post.len() implies post[j] == (pre.take(p) + seq![rec]
            + pre.skip(p))[j] by {}
    }
    lemma_rows_for_add(pre.take(p) + seq![rec], pre.skip(p), sid);
    lemma_rows_for_add(pre.take(p), seq![rec], sid);
    assert(rows_for(seq![rec], sid) =~= seq![rec]) by {
        assert(rec.session_id == sid);
        assert(seq![rec].drop_last() =~= Seq::<BlockRecord>::empty());
        assert(rows_for(Seq::<BlockRecord>::empty(), sid) == Seq::<BlockRecord>::empty());
        assert(seq![rec].last() == rec);
    }
    // No row of this session sits at or after the insert position.
    lemma_rows_for_elems(pre.skip(p), sid);
    assert(rows_for(pre.skip(p), sid) =~= Seq::<BlockRecord>::empty()) by {
        if rows_for(pre.skip(p), sid).len() > 0 {
            assert(row_in(rows_for(pre.skip(p), sid)[0], pre.skip(p)));
            let w = choose|j: int|
                0 <= j < pre.skip(p).len() && rows_for(pre.skip(p), sid)[0] == #[trigger] pre.skip(p)[j];
            assert(pre.skip(p)[w] == pre[p + w]);
            assert(pre[p + w].session_id == sid);
            assert(pre[p + w].block_order < order);
            assert(pre[p + w].block_order > order);
        }
    }
    assert(pre.take(p) + pre.skip(p) =~= pre);
    lemma_rows_for_add(pre.take(p), pre.skip(p), sid);
    assert(rows_for(post, sid) =~= rows_for(pre, sid).push(rec));
    // Fresh foreign IDs stay absent.
    assert forall|id2: u128| !has_block_id(pre, id2) && id2 != b.id implies !has_block_id(
        post,
        id2,
    ) by {
        if has_block_id(post, id2) {
            let w = choose|j: int| 0 <= j < post.len() && post[j].id == id2;
            if w < p {
                assert(pre[w].id == id2);
            } else if w > p {
                assert(pre[w - 1].id == id2);
            }
        }
    }
}

/// Rows at or after the insert position have a greater order.
proof fn lemma_insert_pos_props(s: Seq<BlockRecord>, order: i64)
    requires
        sorted_by_order(s),
    ensures
        0 <= insert_pos(s, order) <= s.len(),
        forall|j: int|
            insert_pos(s, order) <= j < s.len() ==> (#[trigger] s[j]).block_order > order,
        forall|j: int| 0 <= j < insert_pos(s, order) ==> (#[trigger] s[j]).block_order <= order,
    decreases s.len(),
{
    if s.len() == 0 {
    } else if s[0].block_order > order {
        assert(insert_pos(s, order) == 0);
        assert forall|j: int| 0 <= j < s.len() implies (#[trigger] s[j]).block_order > order by {
            if j > 0 {
                assert(s[0].block_order <= s[j].block_order);
            }
        }
    } else {
        assert(sorted_by_order(s.drop_first())) by {
            assert forall|a: int, c: int| 0 <= a < c < s.drop_first().len() implies (
            #[trigger] s.drop_first()[a]).block_order <= (#[trigger] s.drop_first()[c]).block_order
                by {
                assert(s[a + 1].block_order <= s[c + 1].block_order);
            }
        }
        lemma_insert_pos_props(s.drop_first(), order);
        let p = insert_pos(s, order);
        assert(p == 1 + insert_pos(s.drop_first(), order));
        assert forall|j: int| p <= j < s.len() implies (#[trigger] s[j]).block_order > order by {
            assert(s.drop_first()[j - 1].block_order > order);
        }
        assert forall|j: int| 0 <= j < p implies (#[trigger] s[j]).block_order <= order by {
            if j > 0 {
                assert(s.drop_first()[j - 1].block_order <= order);
            }
        }
    }
}


/// A table whose rows all belong to other sessions has no rows for this one.
proof fn lemma_rows_for_of_dropped(s: Seq<BlockRecord>, sid: u128)
    requires
        forall|k: int| 0 <= k < s.len() ==> (#[trigger] s[k]).session_id != sid,
    ensures
        rows_for(s, sid) == Seq::<BlockRecord>::empty(),
    decreases s.len(),
{
    if s.len() > 0 {
        lemma_rows_for_of_dropped(s.drop_last(), sid);
    }
}

/// Saving a session's blocks and loading them back reproduces the blocks: the
/// same identities, commands, outputs, exit codes, states, timestamps and
/// order, position by position. The rows are what `save_blocks` guarantees
/// for a fresh session; the loaded sequence is what `load_blocks` — and with
/// it `load_session` and `get_active_session`, whose block clauses are the
/// same `loaded_blocks` relation — hands back for those rows.
pub proof fn lemma_save_load_round_trip(
    blocks: Seq<Block>,
    rows: Seq<BlockRecord>,
    loaded: Seq<Block>,
    session_id: u128,
)
    requires
        forall|i: int| 0 <= i < blocks.len() ==> (#[trigger] blocks[i]).wf(),
        rows.len() == blocks.len(),
        forall|i: int|
            0 <= i < blocks.len() ==> encodes_block(#[trigger] rows[i], blocks[i], session_id,
            i as i64),
        loaded_blocks(loaded, rows),
    ensures
        loaded.len() == blocks.len(),
        forall|i: int|
            0 <= i < blocks.len() ==> {
                &&& (#[trigger] loaded[i]).id == blocks[i].id
                &&& loaded[i].command == blocks[i].command
                &&& loaded[i].output == blocks[i].output
                &&& loaded[i].exit_code == blocks[i].exit_code
                &&& loaded[i].state == blocks[i].state
                &&& loaded[i].timestamp == blocks[i].timestamp
                &&& loaded[i].metadata.started_at == blocks[i].metadata.started_at
                &&& loaded[i].metadata.completed_at == blocks[i].metadata.completed_at
                &&& loaded[i].metadata.duration == blocks[i].metadata.duration
                &&& loaded[i].is_collapsed == blocks[i].is_collapsed
            },
{
    assert forall|i: int| 0 <= i < blocks.len() implies {
        &&& (#[trigger] loaded[i]).id == blocks[i].id
        &&& loaded[i].command == blocks[i].command
        &&& loaded[i].output == blocks[i].output
        &&& loaded[i].exit_code == blocks[i].exit_code
        &&& loaded[i].state == blocks[i].state
        &&& loaded[i].timestamp == blocks[i].timestamp
        &&& loaded[i].metadata.started_at == blocks[i].metadata.started_at
        &&& loaded[i].metadata.completed_at == blocks[i].metadata.completed_at
        &&& loaded[i].metadata.duration == blocks[i].metadata.duration
        &&& loaded[i].is_collapsed == blocks[i].is_collapsed
    } by {
        crate::records::lemma_block_round_trip(blocks[i], rows[i], loaded[i], session_id, i as i64);
    }
}

/// Activating one session deactivates every other: in the rows after
/// `set_active_session(id)`, a row is active exactly when it carries `id`,
/// so with unique IDs at most one row is active, whatever was active before.
pub proof fn lemma_active_exclusive(s: Seq<SessionRecord>, id: u128)
    requires
        session_ids_unique(s),
    ensures
        forall|j: int|
            0 <= j < s.len() ==> ((#[trigger] activate_model(s, id)[j]).is_active <==> s[j].id
                == id),
        forall|i: int, j: int|
            0 <= i < j < s.len() ==> !((#[trigger] activate_model(s, id)[i]).is_active && (
            #[trigger] activate_model(s, id)[j]).is_active),
{
}

} // verus!
