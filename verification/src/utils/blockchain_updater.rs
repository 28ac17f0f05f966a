use vstd::prelude::*;
use crate::database::{AuthenticationEntry, DatabaseState, get_waiting_for_confirmation};
use crate::utils::clock::utc_now;
use crate::utils::throttling::Timestamp;

verus! {

/// One row of the blockchain's policy table: its index and the id of the
/// authentication entry it confirms.
pub struct PolicyRow {
    pub id: u64,
    pub backend_user_id: String,
}

/// What to do with the database for one confirmed row.
pub enum RecordUpdate {
    /// Remove `key` from the entries awaiting confirmation and store `entry`
    /// under it among the confirmed ones.
    Confirm { key: String, entry: AuthenticationEntry },
    /// No entry awaits confirmation under this id; only report it.
    Unknown { backend_user_id: String },
}

/// The index from which to read the blockchain, given the stored state.
pub open spec fn next_blockchain_id(found: Option<DatabaseState>) -> u64 {
    match found {
        Some(state) => state.last_blockchain_id,
        None => 0,
    }
}

/// The index from which to read the blockchain, given the state the
/// database holds (`found`).
pub fn get_next_blockchain_id(found: Option<DatabaseState>) -> (id: u64)
    ensures
        id == next_blockchain_id(found),
{
    match found {
        Some(state) => state.last_blockchain_id,
        None => 0,
    }
}

/// The state to store after reading up to `last_blockchain_id`, given the
/// stored state (`found`) and a clock reading: the stored state with the new
/// index; or, when none is stored yet, a new one created at the reading's
/// whole seconds, if the reading is not before the epoch.
pub open spec fn state_update(found: Option<DatabaseState>, last_blockchain_id: u64, clock: Timestamp) -> Option<
    DatabaseState,
> {
    match found {
        Some(s) => Some(DatabaseState { last_blockchain_id, last_updated_at: s.last_updated_at }),
        None => if clock.secs >= 0 {
            Some(DatabaseState { last_blockchain_id, last_updated_at: clock.secs as u64 })
        } else {
            None
        },
    }
}

/// The state to store after reading up to `last_blockchain_id`, given the
/// stored state (`found`) and the clock reading `clock`.
pub fn update_last_blockchain_id_at(
    found: Option<DatabaseState>,
    last_blockchain_id: u64,
    clock: Timestamp,
) -> (r: Option<DatabaseState>)
    ensures
        r == state_update(found, last_blockchain_id, clock),
{
    match found {
        Some(mut state) => {
            state.last_blockchain_id = last_blockchain_id;
            Some(state)
        },
        None => if clock.secs >= 0 {
            Some(DatabaseState { last_blockchain_id, last_updated_at: clock.secs as u64 })
        } else {
            None
        },
    }
}

/// The state to store after reading up to `last_blockchain_id`, reading the
/// clock when no state is stored yet: the result of
/// `update_last_blockchain_id_at` for the reading (`None` only when a new
/// state is needed and the clock reads before the epoch).
pub fn update_last_blockchain_id(found: Option<DatabaseState>, last_blockchain_id: u64) -> (r:
    Option<DatabaseState>)
    ensures
        exists|clock: Timestamp| #[trigger] state_update(found, last_blockchain_id, clock) == r,
        found matches Some(s) ==> r == Some(
            DatabaseState { last_blockchain_id, last_updated_at: s.last_updated_at },
        ),
{
    match found {
        Some(_) => {
            let r = update_last_blockchain_id_at(found, last_blockchain_id, Timestamp { secs: 0, nanos: 0 });
            assert(state_update(found, last_blockchain_id, Timestamp { secs: 0, nanos: 0 }) == r);
            r
        },
        None => {
            let clock = utc_now();
            let r = update_last_blockchain_id_at(None, last_blockchain_id, clock);
            assert(state_update(found, last_blockchain_id, clock) == r);
            r
        },
    }
}

/// `entry`, confirmed at blockchain index `index`.
pub open spec fn confirmed(entry: AuthenticationEntry, index: u64) -> AuthenticationEntry {
    AuthenticationEntry { blockchain_index: Some(index), ..entry }
}

/// What to do for `row`, given the entry awaiting confirmation under its id
/// (`found`): confirm it at the row's index, or report the id as unknown.
pub fn update_record(row: &PolicyRow, found: Option<AuthenticationEntry>) -> (u: RecordUpdate)
    ensures
        match found {
            Some(entry) => u == (RecordUpdate::Confirm {
                key: row.backend_user_id,
                entry: confirmed(entry, row.id),
            }),
            None => u == (RecordUpdate::Unknown { backend_user_id: row.backend_user_id }),
        },
{
    match get_waiting_for_confirmation(found) {
        Ok(mut entry) => {
            entry.blockchain_index = Some(row.id);
            RecordUpdate::Confirm { key: row.backend_user_id.clone(), entry }
        },
        Err(_) => RecordUpdate::Unknown { backend_user_id: row.backend_user_id.clone() },
    }
}

/// Where the updater is: reading the backlog batch after batch, polling at
/// intervals once it has caught up, or stopped because the next index would
/// not fit in 64 bits.
#[derive(Clone, Copy, Debug, PartialEq, Eq, Structural)]
pub enum UpdaterPhase {
    CatchingUp,
    Polling,
    Stopped,
}

/// The next request to the blockchain: rows with indexes from `lower` to
/// `upper`, right away or after the polling pause; or none at all.
#[derive(Clone, Copy, Debug, PartialEq, Eq, Structural)]
pub enum NextFetch {
    Now { lower: u64, upper: u64 },
    AfterPause { lower: u64, upper: u64 },
    Halt,
}

/// What the updater asks for after an answer: the index to store (if any),
/// whether to apply the rows of the answer, and the next request.
#[derive(Clone, Copy, Debug, PartialEq, Eq, Structural)]
pub struct UpdaterStep {
    pub store_last_blockchain_id: Option<u64>,
    pub apply_rows: bool,
    pub next: NextFetch,
}

/// The state of the loop that copies confirmations from the blockchain.
#[derive(Clone, Copy, Debug, PartialEq, Eq, Structural)]
pub struct BlockchainUpdater {
    pub last_blockchain_index: u64,
    pub phase: UpdaterPhase,
    pub fetch_limit: u8,
}

/// The request for the `limit` rows from `index`, right away or after the
/// pause; none when `index + limit` does not fit in 64 bits.
pub open spec fn request_from(index: u64, limit: u8, pause: bool) -> NextFetch {
    if index + limit > u64::MAX {
        NextFetch::Halt
    } else if pause {
        NextFetch::AfterPause { lower: index, upper: (index + limit) as u64 }
    } else {
        NextFetch::Now { lower: index, upper: (index + limit) as u64 }
    }
}

/// The index after a batch of rows: one past the last row's, or unchanged
/// for an empty batch; `None` when it does not fit in 64 bits.
pub open spec fn index_after(index: u64, rows: Seq<PolicyRow>) -> Option<u64> {
    if rows.len() == 0 {
        Some(index)
    } else if rows.last().id == u64::MAX {
        None
    } else {
        Some((rows.last().id + 1) as u64)
    }
}

/// The phase that follows `next`: stopped when there is no next request.
pub open spec fn phase_for(phase: UpdaterPhase, next: NextFetch) -> UpdaterPhase {
    if next is Halt {
        UpdaterPhase::Stopped
    } else {
        phase
    }
}

/// The updater after a batch of rows, and what it asks for.
pub open spec fn after_batch(u: BlockchainUpdater, rows: Seq<PolicyRow>) -> (
    BlockchainUpdater,
    UpdaterStep,
) {
    if u.phase is Stopped {
        (u, UpdaterStep { store_last_blockchain_id: None, apply_rows: false, next: NextFetch::Halt })
    } else {
        match index_after(u.last_blockchain_index, rows) {
            None => (
                BlockchainUpdater { phase: UpdaterPhase::Stopped, ..u },
                UpdaterStep { store_last_blockchain_id: None, apply_rows: false, next: NextFetch::Halt },
            ),
            Some(index) => {
                let caught_up = u.phase is Polling || rows.len() < u.fetch_limit;
                let next = request_from(index, u.fetch_limit, caught_up);
                let phase = phase_for(
                    if caught_up {
                        UpdaterPhase::Polling
                    } else {
                        UpdaterPhase::CatchingUp
                    },
                    next,
                );
                (
                    BlockchainUpdater { last_blockchain_index: index, phase, fetch_limit: u.fetch_limit },
                    UpdaterStep { store_last_blockchain_id: Some(index), apply_rows: true, next },
                )
            },
        }
    }
}

/// The updater after a failed request, and what it asks for: the same rows
/// again, right away while catching up and after the pause while polling.
pub open spec fn after_failure(u: BlockchainUpdater) -> (BlockchainUpdater, UpdaterStep) {
    if u.phase is Stopped {
        (u, UpdaterStep { store_last_blockchain_id: None, apply_rows: false, next: NextFetch::Halt })
    } else {
        let next = request_from(u.last_blockchain_index, u.fetch_limit, u.phase is Polling);
        (
            BlockchainUpdater { phase: phase_for(u.phase, next), ..u },
            UpdaterStep { store_last_blockchain_id: None, apply_rows: false, next },
        )
    }
}

fn request(index: u64, limit: u8, pause: bool) -> (next: NextFetch)
    ensures
        next == request_from(index, limit, pause),
{
    if index > u64::MAX - limit as u64 {
        NextFetch::Halt
    } else if pause {
        NextFetch::AfterPause { lower: index, upper: index + limit as u64 }
    } else {
        NextFetch::Now { lower: index, upper: index + limit as u64 }
    }
}

/// The updater that starts from the state the database holds (`found`),
/// catching up `fetch_limit` rows at a time, and its first request.
pub fn start(found: Option<DatabaseState>, fetch_limit: u8) -> (r: (BlockchainUpdater, NextFetch))
    ensures
        r.1 == request_from(next_blockchain_id(found), fetch_limit, false),
        r.0 == (BlockchainUpdater {
            last_blockchain_index: next_blockchain_id(found),
            phase: phase_for(UpdaterPhase::CatchingUp, r.1),
            fetch_limit,
        }),
{
    let index = get_next_blockchain_id(found);
    let next = request(index, fetch_limit, false);
    let phase = if next == NextFetch::Halt {
        UpdaterPhase::Stopped
    } else {
        UpdaterPhase::CatchingUp
    };
    (BlockchainUpdater { last_blockchain_index: index, phase, fetch_limit }, next)
}

impl BlockchainUpdater {
    /// Takes in a batch of rows that the blockchain answered with.
    pub fn on_batch(&mut self, rows: &Vec<PolicyRow>) -> (step: UpdaterStep)
        ensures
            (*final(self), step) == after_batch(*old(self), rows@),
            !(old(self).phase is Stopped) && (rows@.len() == 0 || rows@.last().id < u64::MAX) ==> {
                &&& step.apply_rows
                &&& step.store_last_blockchain_id == Some(final(self).last_blockchain_index)
                &&& final(self).last_blockchain_index == if rows@.len() == 0 {
                    old(self).last_blockchain_index as int
                } else {
                    rows@.last().id + 1
                }
            },
            old(self).phase is Stopped || (rows@.len() > 0 && rows@.last().id == u64::MAX) ==> {
                &&& !step.apply_rows
                &&& step.store_last_blockchain_id is None
                &&& step.next is Halt
            },
    {
        if self.phase == UpdaterPhase::Stopped {
            return UpdaterStep { store_last_blockchain_id: None, apply_rows: false, next: NextFetch::Halt };
        }
        let mut index = self.last_blockchain_index;
        if rows.len() > 0 {
            let last = rows[rows.len() - 1].id;
            if last == u64::MAX {
                self.phase = UpdaterPhase::Stopped;
                return UpdaterStep {
                    store_last_blockchain_id: None,
                    apply_rows: false,
                    next: NextFetch::Halt,
                };
            }
            index = last + 1;
        }
        let caught_up = self.phase == UpdaterPhase::Polling || rows.len() < self.fetch_limit as usize;
        let next = request(index, self.fetch_limit, caught_up);
        self.last_blockchain_index = index;
        self.phase = if next == NextFetch::Halt {
            UpdaterPhase::Stopped
        } else if caught_up {
            UpdaterPhase::Polling
        } else {
            UpdaterPhase::CatchingUp
        };
        let step = UpdaterStep { store_last_blockchain_id: Some(index), apply_rows: true, next };
        proof {
            lemma_read_batches_are_applied(*old(self), rows@);
        }
        step
    }

    /// Takes in a failed request.
    pub fn on_failure(&mut self) -> (step: UpdaterStep)
        ensures
            (*final(self), step) == after_failure(*old(self)),
    {
        if self.phase == UpdaterPhase::Stopped {
            return UpdaterStep { store_last_blockchain_id: None, apply_rows: false, next: NextFetch::Halt };
        }
        let next = request(self.last_blockchain_index, self.fetch_limit, self.phase == UpdaterPhase::Polling);
        if next == NextFetch::Halt {
            self.phase = UpdaterPhase::Stopped;
        }
        UpdaterStep { store_last_blockchain_id: None, apply_rows: false, next }
    }
}

/// What is stored is what is read back: after storing the state for index
/// `id`, the updater starts again from `id`.
pub proof fn lemma_stored_index_read_back(found: Option<DatabaseState>, id: u64, clock: Timestamp)
    ensures
        state_update(found, id, clock) matches Some(s) ==> next_blockchain_id(Some(s)) == id,
{
}

/// The updater never goes back to catching up once it polls, and a stopped
/// updater stays stopped and asks for nothing.
pub proof fn lemma_phase_progress(u: BlockchainUpdater, rows: Seq<PolicyRow>)
    ensures
        u.phase is Polling ==> !(after_batch(u, rows).0.phase is CatchingUp),
        u.phase is Polling ==> !(after_failure(u).0.phase is CatchingUp),
        u.phase is Stopped ==> after_batch(u, rows).0 == u && after_batch(u, rows).1.next is Halt,
        u.phase is Stopped ==> after_failure(u).0 == u && after_failure(u).1.next is Halt,
{
}

/// No row is asked for twice: after a batch whose rows are applied, the
/// index stored is one past the last row (or unchanged for an empty batch),
/// and the next request starts exactly there.
pub proof fn lemma_next_request_follows_batch(u: BlockchainUpdater, rows: Seq<PolicyRow>)
    ensures
        ({
            let (v, step) = after_batch(u, rows);
            step.apply_rows ==> {
                &&& step.store_last_blockchain_id == Some(v.last_blockchain_index)
                &&& (rows.len() > 0 ==> v.last_blockchain_index == rows.last().id + 1)
                &&& (rows.len() == 0 ==> v.last_blockchain_index == u.last_blockchain_index)
                &&& match step.next {
                    NextFetch::Now { lower, upper } => lower == v.last_blockchain_index && upper
                        == v.last_blockchain_index + u.fetch_limit,
                    NextFetch::AfterPause { lower, upper } => lower == v.last_blockchain_index
                        && upper == v.last_blockchain_index + u.fetch_limit,
                    NextFetch::Halt => v.phase is Stopped,
                }
            }
        }),
{
}

/// Every batch a running updater reads is applied: unless the updater has
/// stopped or the batch's last row has the largest index there is, the rows
/// are applied and the index stored is one past the last row (unchanged for
/// an empty batch). A stopped updater, or a batch it cannot move past,
/// applies and stores nothing and asks for nothing more.
pub proof fn lemma_read_batches_are_applied(u: BlockchainUpdater, rows: Seq<PolicyRow>)
    ensures
        !(u.phase is Stopped) && (rows.len() == 0 || rows.last().id < u64::MAX) ==> {
            let (v, step) = after_batch(u, rows);
            &&& step.apply_rows
            &&& step.store_last_blockchain_id == Some(v.last_blockchain_index)
            &&& v.last_blockchain_index == if rows.len() == 0 {
                u.last_blockchain_index as int
            } else {
                rows.last().id + 1
            }
        },
        u.phase is Stopped || (rows.len() > 0 && rows.last().id == u64::MAX) ==> {
            let step = after_batch(u, rows).1;
            &&& !step.apply_rows
            &&& step.store_last_blockchain_id is None
            &&& step.next is Halt
        },
{
}

} // verus!
