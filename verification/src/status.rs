//! Connection statuses, and the table through which a session shares its own
//! with the tasks that talk to the other machines.

use crate::frame::{Frame, NULL_FRAME};
use parking_lot::RwLock;
use vstd::prelude::*;

verus! {

/// What is known of one player's connection.
#[derive(Clone, Copy, Debug, PartialEq, Eq, Structural)]
pub struct ConnectionStatus {
    /// Whether the player has left the game.
    pub disconnected: bool,
    /// The last frame for which the player's input is known.
    pub last_frame: Frame,
}

/// The status of a player of whom nothing has been heard yet.
pub open spec fn fresh_status() -> ConnectionStatus {
    ConnectionStatus { disconnected: false, last_frame: NULL_FRAME }
}

impl Default for ConnectionStatus {
    fn default() -> (status: Self)
        ensures
            status == fresh_status(),
    {
        ConnectionStatus { disconnected: false, last_frame: NULL_FRAME }
    }
}

/// The reader-writer lock type behind `parking_lot::RwLock`.
#[verifier::external_type_specification]
#[verifier::external_body]
#[verifier::reject_recursive_types(R)]
#[verifier::reject_recursive_types(T)]
pub struct ExRwLock<R, T: ?Sized>(parking_lot::lock_api::RwLock<R, T>);

/// The raw lock that `parking_lot::RwLock` is built on.
#[verifier::external_type_specification]
#[verifier::external_body]
pub struct ExRawRwLock(parking_lot::RawRwLock);

/// The status that `parking_lot::RwLock::new` was given when it made `cell`.
pub uninterp spec fn first_status(cell: RwLock<ConnectionStatus>) -> ConnectionStatus;

/// The statuses that `cell` guards at one time or another: the one it is made with and
/// those that any task writes to it.
pub uninterp spec fn guarded_statuses(cell: RwLock<ConnectionStatus>) -> Set<ConnectionStatus>;

/// Calls `parking_lot::RwLock::new`: an unlocked lock around `status`. Claimed is only
/// that it was made with `status`, and so guards it at first: what it guards changes
/// whenever some task writes to it.
#[verifier::external_body]
fn lock_status(status: ConnectionStatus) -> (cell: RwLock<ConnectionStatus>)
    ensures
        first_status(cell) == status,
        guarded_statuses(cell).contains(status),
{
    RwLock::new(status)
}

/// Calls `parking_lot::RwLock::read` and copies out the guarded status. Claimed is that
/// it is one that this lock guards at one time or another; which one is left open, as
/// any task may have written last.
#[verifier::external_body]
fn read_status(cell: &RwLock<ConnectionStatus>) -> (status: ConnectionStatus)
    ensures
        guarded_statuses(*cell).contains(status),
{
    *cell.read()
}

/// Calls `parking_lot::RwLock::write`, stores `status` and hands it back. Claimed is that
/// it is one that this lock guards at one time or another; what a later read sees also
/// depends on the other tasks.
#[verifier::external_body]
fn write_status(cell: &RwLock<ConnectionStatus>, status: ConnectionStatus) -> (stored:
    ConnectionStatus)
    ensures
        stored == status,
        guarded_statuses(*cell).contains(stored),
{
    *cell.write() = status;
    status
}

/// One status for each player, behind a lock each: read and written by the
/// session, by its peers and by its synchronizer.
pub struct StatusTable {
    cells: Vec<RwLock<ConnectionStatus>>,
}

impl StatusTable {
    /// The number of players in the table.
    pub closed spec fn size(&self) -> nat {
        self.cells@.len()
    }

    /// The status with which the table was made for the player at `queue`.
    pub closed spec fn first(&self, queue: int) -> ConnectionStatus {
        first_status(self.cells@[queue])
    }

    /// The statuses that the table has for the player at `queue` at one time or another.
    pub closed spec fn held(&self, queue: int) -> Set<ConnectionStatus> {
        guarded_statuses(self.cells@[queue])
    }

    /// Makes a table with a fresh status for each of `player_count` players.
    pub fn new(player_count: usize) -> (table: StatusTable)
        ensures
            table.size() == player_count,
            forall|queue: int|
                0 <= queue < player_count ==> #[trigger] table.first(queue) == fresh_status(),
            forall|queue: int|
                0 <= queue < player_count ==> #[trigger] table.held(queue).contains(fresh_status()),
    {
        let mut cells: Vec<RwLock<ConnectionStatus>> = Vec::new();
        for i in 0..player_count
            invariant
                cells@.len() == i,
                forall|queue: int|
                    0 <= queue < i ==> first_status(#[trigger] cells@[queue]) == fresh_status()
                        && guarded_statuses(cells@[queue]).contains(fresh_status()),
        {
            cells.push(lock_status(ConnectionStatus::default()));
        }
        StatusTable { cells }
    }

    /// Returns the number of players in the table.
    pub fn len(&self) -> (n: usize)
        ensures
            n == self.size(),
    {
        self.cells.len()
    }

    /// Reads one player's status as it stands at this moment.
    pub fn read(&self, queue: usize) -> (status: ConnectionStatus)
        requires
            queue < self.size(),
        ensures
            self.held(queue as int).contains(status),
    {
        read_status(&self.cells[queue])
    }

    /// Replaces one player's status.
    pub fn write(&self, queue: usize, status: ConnectionStatus)
        requires
            queue < self.size(),
        ensures
            self.held(queue as int).contains(status),
    {
        write_status(&self.cells[queue], status);
    }

    /// Reads every player's status, one after the other.
    pub fn read_all(&self) -> (statuses: Vec<ConnectionStatus>)
        ensures
            statuses@.len() == self.size(),
            forall|queue: int|
                #![trigger statuses@[queue]]
                0 <= queue < self.size() ==> self.held(queue).contains(statuses@[queue]),
    {
        let mut statuses: Vec<ConnectionStatus> = Vec::new();
        for i in 0..self.cells.len()
            invariant
                statuses@.len() == i,
                forall|queue: int|
                    #![trigger statuses@[queue]]
                    0 <= queue < i ==> self.held(queue).contains(statuses@[queue]),
        {
            statuses.push(read_status(&self.cells[i]));
        }
        statuses
    }
}

} // verus!
