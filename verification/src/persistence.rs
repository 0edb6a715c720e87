//! What a node saves to resume after a restart.
use crate::epoch_schedule::ValidatorInfo;
use crate::orchestrator::chain::QuorumCertificate;
use crate::text::{decimal, push_decimal};
use vstd::prelude::*;
use vstd::string::StringExecFns;

verus! {

/// The version of a snapshot's format.
pub const SNAPSHOT_VERSION: u32 = 1;

/// What a node saves: enough to resume without breaking its promises.
#[derive(Debug)]
pub struct ConsensusSnapshot {
    pub version: u32,
    pub current_view: u64,
    pub locked_qc: QuorumCertificate,
    pub last_committed_qc: QuorumCertificate,
    pub consecutive_timeouts: u32,
    /// The staged epoch: its number, its validators and its fault tolerance.
    pub scheduled_epoch_transition: Option<(u64, Vec<ValidatorInfo>, u32)>,
}

/// The message when the lock is ahead of the view.
pub open spec fn locked_message(locked: u64, current: u64) -> Seq<char> {
    "locked_qc.view ("@ + decimal(locked as int) + ") > current_view ("@ + decimal(current as int)
        + ")"@
}

/// The message when the commit is ahead of the lock.
pub open spec fn committed_message(committed: u64, locked: u64) -> Seq<char> {
    "last_committed_qc.view ("@ + decimal(committed as int) + ") > locked_qc.view ("@ + decimal(
        locked as int,
    ) + ")"@
}

impl ConsensusSnapshot {
    /// The last commit is not ahead of the lock, nor the lock of the view.
    pub open spec fn is_consistent(&self) -> bool {
        self.last_committed_qc.view <= self.locked_qc.view <= self.current_view
    }

    /// Whether the last commit, the lock and the view are in order; else what is
    /// not.
    pub fn validate(&self) -> (verdict: Result<(), String>)
        ensures
            verdict is Ok <==> self.is_consistent(),
            verdict matches Err(message) ==> message@ == if self.locked_qc.view
                > self.current_view {
                locked_message(self.locked_qc.view, self.current_view)
            } else {
                committed_message(self.last_committed_qc.view, self.locked_qc.view)
            },
    {
        if self.locked_qc.view > self.current_view {
            let mut message = String::new();
            message.append("locked_qc.view (");
            push_decimal(&mut message, self.locked_qc.view);
            message.append(") > current_view (");
            push_decimal(&mut message, self.current_view);
            message.append(")");
            assert(message@ =~= locked_message(self.locked_qc.view, self.current_view));
            return Err(message);
        }
        if self.last_committed_qc.view > self.locked_qc.view {
            let mut message = String::new();
            message.append("last_committed_qc.view (");
            push_decimal(&mut message, self.last_committed_qc.view);
            message.append(") > locked_qc.view (");
            push_decimal(&mut message, self.locked_qc.view);
            message.append(")");
            assert(message@ =~= committed_message(
                self.last_committed_qc.view,
                self.locked_qc.view,
            ));
            return Err(message);
        }
        Ok(())
    }

    /// Whether a newer node wrote the snapshot.
    pub fn is_newer(&self) -> (newer: bool)
        ensures
            newer == (self.version > SNAPSHOT_VERSION),
    {
        self.version > SNAPSHOT_VERSION
    }
}

/// The snapshot of a node's state. While it runs no timeouts are counted; at
/// shutdown the counted ones are given.
pub fn consensus_snapshot(
    current_view: u64,
    locked_qc: &QuorumCertificate,
    last_committed_qc: &QuorumCertificate,
    shutdown_timeouts: Option<u32>,
    scheduled_epoch_transition: Option<(u64, Vec<ValidatorInfo>, u32)>,
) -> (snapshot: ConsensusSnapshot)
    ensures
        snapshot.version == SNAPSHOT_VERSION,
        snapshot.current_view == current_view,
        snapshot.locked_qc@ == locked_qc@,
        snapshot.last_committed_qc@ == last_committed_qc@,
        snapshot.consecutive_timeouts == match shutdown_timeouts {
            Some(n) => n,
            None => 0,
        },
        snapshot.scheduled_epoch_transition == scheduled_epoch_transition,
{
    ConsensusSnapshot {
        version: SNAPSHOT_VERSION,
        current_view,
        locked_qc: locked_qc.duplicate(),
        last_committed_qc: last_committed_qc.duplicate(),
        consecutive_timeouts: match shutdown_timeouts {
            Some(n) => n,
            None => 0,
        },
        scheduled_epoch_transition,
    }
}

} // verus!
