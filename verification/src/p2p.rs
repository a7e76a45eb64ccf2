//! Building and running a peer-to-peer session.

use crate::action::{Action, BackrollError, BackrollResult, Next, PollOutcome, Turn};
use crate::frame::{earlier_frame, is_null, BackrollConfig, Frame, FrameInput};
use crate::history::{after, asks, Call};
use crate::laws::{disconnecting_twice_is_refused, first_drop_is_first, the_gone_stay_gone};
use crate::model::{
    broadcast, handles, longest_delay, notifications, queues_of, SessionModel, FEW_PLAYERS,
    RECOMMENDATION_INTERVAL,
};
use crate::peer::{no_stats, BackrollPeer, BackrollPeerConfig, NetworkStats, PeerRequest};
use crate::player::{BackrollPlayer, BackrollPlayerHandle, Kind, Player};
use crate::status::{fresh_status, ConnectionStatus, StatusTable};
use std::marker::PhantomData;
use std::time::Duration;
use vstd::prelude::*;

verus! {

/// After how many milliseconds of silence a player counts as gone, by default.
pub const DEFAULT_DISCONNECT_TIMEOUT_MILLIS: u64 = 5000;

/// After how many milliseconds of silence a warning is given, by default.
pub const DEFAULT_DISCONNECT_NOTIFY_START_MILLIS: u64 = 750;

/// The length of time that `Duration::from_millis` makes of `millis`.
pub uninterp spec fn duration_of_millis(millis: u64) -> Duration;

/// `Duration::from_millis` gives, for the same number of milliseconds, always the
/// same length of time, which is named `duration_of_millis`.
pub assume_specification[ Duration::from_millis ](millis: u64) -> (duration: Duration)
    ensures
        duration == duration_of_millis(millis),
;

/// What a builder has gathered.
pub struct BuilderModel<P> {
    /// The players, in the order in which they were added.
    pub players: Seq<BackrollPlayer<P>>,
    /// After how much silence a player counts as gone.
    pub disconnect_timeout: Duration,
    /// After how much silence a warning is given.
    pub disconnect_notify_start: Duration,
}

/// Gathers what a session is made of.
pub struct P2PSessionBuilder<T: BackrollConfig> {
    players: Vec<BackrollPlayer<T::Peer>>,
    disconnect_timeout: Duration,
    disconnect_notify_start: Duration,
}

impl<T: BackrollConfig> View for P2PSessionBuilder<T> {
    type V = BuilderModel<T::Peer>;

    closed spec fn view(&self) -> BuilderModel<T::Peer> {
        BuilderModel {
            players: self.players@,
            disconnect_timeout: self.disconnect_timeout,
            disconnect_notify_start: self.disconnect_notify_start,
        }
    }
}

impl<T: BackrollConfig> P2PSessionBuilder<T> {
    /// A builder without players and with the default times.
    pub fn new() -> (builder: Self)
        ensures
            builder@.players == Seq::<BackrollPlayer<T::Peer>>::empty(),
            builder@.disconnect_timeout == duration_of_millis(DEFAULT_DISCONNECT_TIMEOUT_MILLIS),
            builder@.disconnect_notify_start == duration_of_millis(
                DEFAULT_DISCONNECT_NOTIFY_START_MILLIS,
            ),
    {
        P2PSessionBuilder {
            players: Vec::new(),
            disconnect_timeout: Duration::from_millis(DEFAULT_DISCONNECT_TIMEOUT_MILLIS),
            disconnect_notify_start: Duration::from_millis(DEFAULT_DISCONNECT_NOTIFY_START_MILLIS),
        }
    }

    /// Sets after how much silence a player counts as gone.
    pub fn with_disconnect_timeout(self, timeout: Duration) -> (builder: Self)
        ensures
            builder@ == (BuilderModel { disconnect_timeout: timeout, ..self@ }),
    {
        P2PSessionBuilder { disconnect_timeout: timeout, ..self }
    }

    /// Sets, as [`Self::with_disconnect_timeout`] does, after how much silence a
    /// player counts as gone; the time of the warning stays as it is.
    pub fn with_disconnect_notify_start(self, timeout: Duration) -> (builder: Self)
        ensures
            builder@ == (BuilderModel { disconnect_timeout: timeout, ..self@ }),
    {
        P2PSessionBuilder { disconnect_timeout: timeout, ..self }
    }

    /// Adds a player and returns the handle that names it in the session.
    pub fn add_player(&mut self, player: BackrollPlayer<T::Peer>) -> (handle: BackrollPlayerHandle)
        ensures
            handle.0 == old(self)@.players.len(),
            final(self)@ == (BuilderModel {
                players: old(self)@.players.push(player),
                ..old(self)@
            }),
    {
        let id: usize = self.players.len();
        self.players.push(player);
        BackrollPlayerHandle(id)
    }

    /// Starts the session.
    pub fn start(self) -> (startup: Startup<T>)
        ensures
            startup.starts(self@),
    {
        P2PSession::new_internal(self)
    }
}

/// Where a player that is added is, and what it does there.
pub open spec fn kind_of<P>(player: BackrollPlayer<P>) -> Kind {
    match player {
        BackrollPlayer::Local => Kind::Local,
        BackrollPlayer::Remote(_) => Kind::Remote,
        BackrollPlayer::Spectator(_) => Kind::Spectator,
    }
}

/// The connection to a player that is added, if it is not local.
pub open spec fn connection_of<P>(player: BackrollPlayer<P>) -> Option<P> {
    match player {
        BackrollPlayer::Local => None,
        BackrollPlayer::Remote(peer) => Some(peer),
        BackrollPlayer::Spectator(peer) => Some(peer),
    }
}

/// Whether `request` asks for the endpoint of the player that was added at `queue`:
/// over a clone of its connection and with the builder's times, or for none if the
/// player is local.
pub open spec fn requests<P: Clone>(
    builder: BuilderModel<P>,
    queue: usize,
    player: BackrollPlayer<P>,
    request: Option<PeerRequest<P>>,
) -> bool {
    match (connection_of(player), request) {
        (Some(connection), Some(request)) => {
            &&& request.queue == queue
            &&& cloned(connection, request.config.peer)
            &&& request.config.disconnect_timeout == builder.disconnect_timeout
            &&& request.config.disconnect_notify_start == builder.disconnect_notify_start
        },
        (None, None) => true,
        _ => false,
    }
}

/// A session that has just been started, and what it needs to run.
pub struct Startup<T: BackrollConfig> {
    /// The session.
    pub session: P2PSession<T>,
    /// For each queue the endpoint to open, if the player is not local.
    pub peers: Vec<Option<PeerRequest<T::Peer>>>,
    /// The statuses that the session shares with its endpoints.
    pub connect_status: StatusTable,
}

impl<T: BackrollConfig> Startup<T> {
    /// Whether this is what `builder` describes: the players in the order in which
    /// they were added, nothing heard of any of them yet, at the first frame, and
    /// synchronizing unless all of them are local.
    pub open spec fn starts(&self, builder: BuilderModel<T::Peer>) -> bool {
        let n = builder.players.len();
        let session = self.session@;
        &&& self.session.wf()
        &&& session.players.len() == n
        &&& forall|i: int|
            #![trigger session.players[i]]
            0 <= i < n ==> {
                &&& session.players[i].kind_view() == kind_of(builder.players[i])
                &&& session.players[i].peer_view() matches Some(peer) ==> peer.is_fresh(n)
            }
        &&& session.status == Seq::new(n, |i: int| fresh_status())
        &&& session.left == Seq::new(n, |i: int| false)
        &&& session.frame_count == 0
        &&& !session.in_rollback
        &&& session.synchronizing == exists|i: int|
            #![trigger builder.players[i]]
            0 <= i < n && !(builder.players[i] is Local)
        &&& session.next_recommended_sleep == 0
        &&& session.next_spectator_frame == 0
        &&& self.peers@.len() == n
        &&& forall|i: int|
            #![trigger self.peers@[i]]
            0 <= i < n ==> requests(builder, i as usize, builder.players[i], self.peers@[i])
        &&& self.connect_status.size() == n
        &&& forall|i: int| 0 <= i < n ==> #[trigger] self.connect_status.first(i) == fresh_status()
    }
}

impl Player {
    /// The player that `player` becomes at `queue` of the session that is being
    /// built, and the endpoint to open for it.
    pub fn new<T: BackrollConfig>(
        queue: usize,
        player: &BackrollPlayer<T::Peer>,
        builder: &P2PSessionBuilder<T>,
    ) -> (made: (Player, Option<PeerRequest<T::Peer>>))
        ensures
            made.0.kind_view() == kind_of(*player),
            made.0.peer_view() matches Some(peer) ==> peer.is_fresh(builder@.players.len()),
            requests(builder@, queue, *player, made.1),
    {
        match player {
            BackrollPlayer::Local => (Player::Local, None),
            BackrollPlayer::Remote(peer) => {
                let (peer, request) = Player::make_peer(queue, peer, builder);
                (Player::Remote { peer }, Some(request))
            },
            BackrollPlayer::Spectator(peer) => {
                let (peer, request) = Player::make_peer(queue, peer, builder);
                (Player::Spectator { peer }, Some(request))
            },
        }
    }

    /// An endpoint of which nothing has been observed yet, and the request to open it.
    fn make_peer<T: BackrollConfig>(
        queue: usize,
        peer: &T::Peer,
        builder: &P2PSessionBuilder<T>,
    ) -> (made: (BackrollPeer, PeerRequest<T::Peer>))
        ensures
            made.0.is_fresh(builder@.players.len()),
            made.1.queue == queue,
            cloned(*peer, made.1.config.peer),
            made.1.config.disconnect_timeout == builder@.disconnect_timeout,
            made.1.config.disconnect_notify_start == builder@.disconnect_notify_start,
    {
        let config = BackrollPeerConfig {
            peer: peer.clone(),
            disconnect_timeout: builder.disconnect_timeout,
            disconnect_notify_start: builder.disconnect_notify_start,
        };
        (BackrollPeer::new(builder.players.len()), PeerRequest { queue, config })
    }
}

/// A session with remote players.
///
/// It works on what was last observed of its surroundings: [`Self::observe_sync`],
/// [`Self::observe_peer`] and [`Self::observe_status`] bring it up to date.
pub struct P2PSession<T: BackrollConfig> {
    players: Vec<Player>,
    local_connect_status: Vec<ConnectionStatus>,
    left: Vec<bool>,
    frame_count: Frame,
    rolling_back: bool,
    synchronizing: bool,
    next_recommended_sleep: Frame,
    next_spectator_frame: Frame,
    marker: PhantomData<T>,
}

impl<T: BackrollConfig> View for P2PSession<T> {
    type V = SessionModel;

    closed spec fn view(&self) -> SessionModel {
        SessionModel {
            players: self.players@,
            status: self.local_connect_status@,
            left: self.left@,
            frame_count: self.frame_count,
            in_rollback: self.rolling_back,
            synchronizing: self.synchronizing,
            next_recommended_sleep: self.next_recommended_sleep,
            next_spectator_frame: self.next_spectator_frame,
        }
    }
}

impl<T: BackrollConfig> P2PSession<T> {
    /// Whether the session's parts fit together.
    pub open spec fn wf(&self) -> bool {
        self@.wf()
    }

    /// Starts to build a session.
    pub fn build() -> (builder: P2PSessionBuilder<T>)
        ensures
            builder@.players == Seq::<BackrollPlayer<T::Peer>>::empty(),
            builder@.disconnect_timeout == duration_of_millis(DEFAULT_DISCONNECT_TIMEOUT_MILLIS),
            builder@.disconnect_notify_start == duration_of_millis(
                DEFAULT_DISCONNECT_NOTIFY_START_MILLIS,
            ),
    {
        P2PSessionBuilder::new()
    }

    fn new_internal(builder: P2PSessionBuilder<T>) -> (startup: Startup<T>)
        ensures
            startup.starts(builder@),
    {
        let player_count: usize = builder.players.len();
        let mut players: Vec<Player> = Vec::new();
        let mut peers: Vec<Option<PeerRequest<T::Peer>>> = Vec::new();
        let mut local_connect_status: Vec<ConnectionStatus> = Vec::new();
        let mut left: Vec<bool> = Vec::new();
        let mut synchronizing = false;
        for i in 0..player_count
            invariant
                player_count == builder@.players.len(),
                builder@.players == builder.players@,
                players@.len() == i,
                peers@.len() == i,
                local_connect_status@ == Seq::new(i as nat, |j: int| fresh_status()),
                left@ == Seq::new(i as nat, |j: int| false),
                synchronizing == exists|j: int|
                    #![trigger builder@.players[j]]
                    0 <= j < i && !(builder@.players[j] is Local),
                forall|j: int|
                    #![trigger players@[j]]
                    0 <= j < i ==> {
                        &&& players@[j].kind_view() == kind_of(builder@.players[j])
                        &&& players@[j].peer_view() matches Some(peer) ==> peer.is_fresh(
                            player_count as nat,
                        )
                    },
                forall|j: int|
                    #![trigger peers@[j]]
                    0 <= j < i ==> requests(
                        builder@,
                        j as usize,
                        builder@.players[j],
                        peers@[j],
                    ),
        {
            let (player, request) = Player::new(i, &builder.players[i], &builder);
            if !player.is_local() {
                synchronizing = true;
            }
            players.push(player);
            peers.push(request);
            local_connect_status.push(ConnectionStatus::default());
            left.push(false);
        }
        let session = P2PSession {
            players,
            local_connect_status,
            left,
            frame_count: 0,
            rolling_back: false,
            synchronizing,
            next_recommended_sleep: 0,
            next_spectator_frame: 0,
            marker: PhantomData,
        };
        proof {
            if synchronizing {
                let j = choose|j: int|
                    #![trigger builder@.players[j]]
                    0 <= j < player_count && !(builder@.players[j] is Local);
                assert(session@.players[j].has_peer());
            }
        }
        Startup { session, peers, connect_status: StatusTable::new(player_count) }
    }

    // Looking at the queues.

    /// Looks at the queues from `from` on when there are few remote players.
    fn poll_2_players(&self, from: usize, start: Frame) -> (outcome: PollOutcome)
        requires
            self.wf(),
            from <= self@.players.len(),
        ensures
            outcome == self@.poll_outcome(true, from as int, start),
    {
        let mut min_frame: Frame = start;
        let mut queue: usize = from;
        while queue < self.players.len()
            invariant
                self.wf(),
                from <= queue <= self@.players.len(),
                self@.first_drop(true, from as int) == self@.first_drop(true, queue as int),
                min_frame == self@.least_bound(true, from as int, queue as int, start),
            decreases self.players.len() - queue,
        {
            let mut queue_connected = true;
            if let Some(peer) = self.players[queue].peer() {
                if peer.is_running() {
                    queue_connected = !peer.get_peer_connect_status(queue).disconnected;
                }
            }
            let local_status = self.local_connect_status[queue];
            if !local_status.disconnected {
                min_frame = earlier_frame(local_status.last_frame, min_frame);
            }
            if !queue_connected && !local_status.disconnected {
                return PollOutcome::Drop { queue, syncto: min_frame, min_frame };
            }
            queue = queue + 1;
        }
        PollOutcome::Complete { min_frame }
    }

    /// Looks at the queues from `from` on when there are many remote players.
    fn poll_n_players(&self, from: usize, start: Frame) -> (outcome: PollOutcome)
        requires
            self.wf(),
            from <= self@.players.len(),
        ensures
            outcome == self@.poll_outcome(false, from as int, start),
    {
        let mut min_frame: Frame = start;
        let mut queue: usize = from;
        while queue < self.players.len()
            invariant
                self.wf(),
                from <= queue <= self@.players.len(),
                self@.first_drop(false, from as int) == self@.first_drop(false, queue as int),
                min_frame == self@.least_bound(false, from as int, queue as int, start),
            decreases self.players.len() - queue,
        {
            let mut queue_connected = true;
            let mut queue_min_confirmed: Frame = Frame::MAX;
            // The last frame that everyone has of this queue, over what each running
            // endpoint reports of it.
            for i in 0..self.players.len()
                invariant
                    self.wf(),
                    queue < self@.players.len(),
                    queue_connected == forall|j: int|
                        #![trigger self@.players[j]]
                        0 <= j < i && self@.players[j].running() ==> !self@.players[j].report(
                            queue as int,
                        ).disconnected,
                    queue_min_confirmed == self@.reported_frame(queue as int, i as int),
            {
                if let Some(peer) = self.players[i].peer() {
                    if peer.is_running() {
                        let status = peer.get_peer_connect_status(queue);
                        queue_connected = queue_connected && !status.disconnected;
                        queue_min_confirmed = earlier_frame(status.last_frame, queue_min_confirmed);
                    }
                }
            }
            let local_status = self.local_connect_status[queue];
            // Merge in our own status only if we are still connected.
            if !local_status.disconnected {
                queue_min_confirmed = earlier_frame(local_status.last_frame, queue_min_confirmed);
            }
            if queue_connected {
                min_frame = earlier_frame(queue_min_confirmed, min_frame);
            } else if !local_status.disconnected || local_status.last_frame
                > queue_min_confirmed {
                // This notification may be further back than our own: we may notice the
                // disconnect at one frame and learn later that others have less.
                return PollOutcome::Drop { queue, syncto: queue_min_confirmed, min_frame };
            }
            queue = queue + 1;
        }
        PollOutcome::Complete { min_frame }
    }

    // What the session tells about itself.

    /// The number of players in the session, those that are already disconnected
    /// included.
    pub fn player_count(&self) -> (count: usize)
        ensures
            count == self@.players.len(),
    {
        self.players.len()
    }

    /// Whether the session is in the middle of a rollback.
    pub fn in_rollback(&self) -> (rolling_back: bool)
        ensures
            rolling_back == self@.in_rollback,
    {
        self.rolling_back
    }

    /// The current frame of the game.
    pub fn current_frame(&self) -> (frame: Frame)
        ensures
            frame == self@.frame_count,
    {
        self.frame_count
    }

    /// The queues of the players of one kind, in ascending order.
    fn queues(&self, kind: Kind) -> (queues: Vec<usize>)
        ensures
            queues@ == queues_of(self@.players, kind),
    {
        let mut queues: Vec<usize> = Vec::new();
        for i in 0..self.players.len()
            invariant
                queues@ == queues_of(self.players@.take(i as int), kind),
        {
            if self.players[i].kind() == kind {
                queues.push(i);
            }
            assert(self.players@.take(i + 1).drop_last() =~= self.players@.take(i as int));
        }
        assert(self.players@.take(self.players@.len() as int) =~= self.players@);
        queues
    }

    /// The queues of the remote players.
    fn players(&self) -> (queues: Vec<usize>)
        ensures
            queues@ == queues_of(self@.players, Kind::Remote),
    {
        self.queues(Kind::Remote)
    }

    /// The queues of the spectators.
    fn spectators(&self) -> (queues: Vec<usize>)
        ensures
            queues@ == queues_of(self@.players, Kind::Spectator),
    {
        self.queues(Kind::Spectator)
    }

    /// The handles of the players at `queues`.
    fn handles_of(queues: Vec<usize>) -> (players: Vec<BackrollPlayerHandle>)
        ensures
            players@ == handles(queues@),
    {
        let mut players: Vec<BackrollPlayerHandle> = Vec::new();
        for i in 0..queues.len()
            invariant
                players@ == handles(queues@.take(i as int)),
        {
            players.push(BackrollPlayerHandle(queues[i]));
        }
        players
    }

    /// The players on this machine, in ascending order.
    pub fn local_players(&self) -> (players: Vec<BackrollPlayerHandle>)
        ensures
            players@ == handles(queues_of(self@.players, Kind::Local)),
    {
        Self::handles_of(self.queues(Kind::Local))
    }

    /// The players on other machines, in ascending order.
    pub fn remote_players(&self) -> (players: Vec<BackrollPlayerHandle>)
        ensures
            players@ == handles(queues_of(self@.players, Kind::Remote)),
    {
        Self::handles_of(self.players())
    }

    /// Whether every player that is not local is ready, or disconnected. With none but
    /// local players this is always so.
    pub fn is_synchronized(&self) -> (synchronized: bool)
        requires
            self@.fits_together(),
        ensures
            synchronized == self@.is_synchronized(),
    {
        for i in 0..self.players.len()
            invariant
                self@.fits_together(),
                forall|j: int|
                    #![trigger self@.players[j]]
                    0 <= j < i && self@.players[j].has_peer() ==> self@.players[j].running()
                        || self@.status[j].disconnected,
        {
            if !self.players[i].is_local() && !self.players[i].is_synchronized()
                && !self.local_connect_status[i].disconnected {
                return false;
            }
        }
        true
    }

    /// The statistics of the connection to a player; those of a connection that
    /// carries nothing for a local one.
    ///
    /// # Errors
    /// [`BackrollError::InvalidPlayer`] if the handle names no player.
    pub fn get_network_stats(&self, player: BackrollPlayerHandle) -> (stats: BackrollResult<
        NetworkStats,
    >)
        ensures
            stats == if player.0 < self@.players.len() {
                Ok(
                    match self@.players[player.0 as int].stats_view() {
                        Some(stats) => stats,
                        None => no_stats(),
                    },
                )
            } else {
                Err(BackrollError::InvalidPlayer(player))
            },
    {
        let queue: usize = self.player_handle_to_queue(player)?;
        match self.players[queue].get_network_stats() {
            Some(stats) => Ok(stats),
            None => Ok(NetworkStats::default()),
        }
    }

    /// The queue of the player that a handle names.
    fn player_handle_to_queue(&self, player: BackrollPlayerHandle) -> (queue: BackrollResult<usize>)
        ensures
            queue == if player.0 < self@.players.len() {
                Ok(player.0)
            } else {
                Err(BackrollError::InvalidPlayer(player))
            },
    {
        let offset: usize = player.0;
        if offset >= self.player_count() {
            return Err(BackrollError::InvalidPlayer(player));
        }
        Ok(offset)
    }

    /// The longest wait that any remote player's endpoint recommends.
    fn recommended_interval(&self) -> (interval: Option<Frame>)
        ensures
            interval == longest_delay(self@.players),
    {
        let mut interval: Option<Frame> = None;
        for i in 0..self.players.len()
            invariant
                interval == longest_delay(self.players@.take(i as int)),
        {
            if let Player::Remote { peer } = &self.players[i] {
                let delay: Frame = peer.recommend_frame_delay();
                interval = match interval {
                    Some(longest) if longest > delay => Some(longest),
                    _ => Some(delay),
                };
            }
            assert(self.players@.take(i + 1).drop_last() =~= self.players@.take(i as int));
        }
        assert(self.players@.take(self.players@.len() as int) =~= self.players@);
        interval
    }

    // What the session learns of its surroundings.

    /// Takes note of the synchronizer's frame, and of whether it is replaying.
    pub fn observe_sync(&mut self, frame_count: Frame, in_rollback: bool)
        ensures
            final(self)@ == old(self)@.observe_sync(frame_count, in_rollback),
            final(self)@ == after(
                old(self)@,
                Call::<T::Input>::ObserveSync { frame_count, in_rollback },
            ),
    {
        self.frame_count = frame_count;
        self.rolling_back = in_rollback;
    }

    /// Takes note of the endpoint of a player that is not local. If it was the last one
    /// to get ready, the session has synchronized.
    pub fn observe_peer(&mut self, queue: usize, peer: BackrollPeer)
        requires
            old(self).wf(),
            old(self)@.fits(queue as int, peer),
        ensures
            final(self).wf(),
            final(self)@ == old(self)@.observe_peer(queue as int, peer),
            final(self)@ == after(old(self)@, Call::<T::Input>::ObservePeer { queue, peer }),
    {
        let player = match self.players[queue].kind() {
            Kind::Local => Player::Local,
            Kind::Remote => Player::Remote { peer },
            Kind::Spectator => Player::Spectator { peer },
        };
        self.players.set(queue, player);
        self.check_initial_sync();
    }

    /// Takes note of the statuses that stand in the shared table at this moment, each
    /// for its own player. If nobody is left to wait for, the session has synchronized.
    pub fn observe_status(&mut self, table: &StatusTable)
        requires
            old(self).wf(),
            table.size() == old(self)@.players.len(),
        ensures
            final(self).wf(),
            final(self)@ == old(self)@.observe_status(final(self)@.status),
            final(self)@ == after(
                old(self)@,
                Call::<T::Input>::ObserveStatus { status: final(self)@.status },
            ),
            forall|queue: int|
                #![trigger final(self)@.status[queue]]
                0 <= queue < old(self)@.players.len() ==> table.held(queue).contains(
                    final(self)@.status[queue],
                ),
    {
        self.set_status(table.read_all());
    }

    /// Takes note of one status for each player. If nobody is left to wait for, the
    /// session has synchronized.
    pub fn set_status(&mut self, statuses: Vec<ConnectionStatus>)
        requires
            old(self).wf(),
            statuses@.len() == old(self)@.players.len(),
        ensures
            final(self).wf(),
            final(self)@ == old(self)@.observe_status(statuses@),
            final(self)@ == after(
                old(self)@,
                Call::<T::Input>::ObserveStatus { status: statuses@ },
            ),
    {
        self.local_connect_status = statuses;
        self.check_initial_sync();
    }

    // What is asked of the session.

    /// Takes an input of a local player for the current frame: the synchronizer has to
    /// be handed it. With the synchronizer's answer, go on at
    /// [`Self::local_input_added`].
    ///
    /// For a correct simulation, this must be called for all local players every frame
    /// before [`Self::advance_frame`].
    ///
    /// # Errors
    /// [`BackrollError::InRollback`] in the middle of a rollback.
    ///
    /// [`BackrollError::NotSynchronized`] if not all players are ready yet.
    ///
    /// [`BackrollError::InvalidPlayer`] if the handle names no player.
    pub fn add_local_input(&self, player: BackrollPlayerHandle, input: T::Input) -> (action:
        BackrollResult<Action<T::Input>>)
        ensures
            action == match self@.input_refusal(player) {
                Some(error) => Err(error),
                None => Ok(Action::AddLocalInput { queue: player.0, input }),
            },
            asks(self@, Call::AddLocalInput { player, input }) == match action {
                Ok(action) => seq![action],
                Err(_) => Seq::empty(),
            },
    {
        if self.in_rollback() {
            return Err(BackrollError::InRollback);
        }
        if self.synchronizing {
            return Err(BackrollError::NotSynchronized);
        }
        let queue: usize = self.player_handle_to_queue(player)?;
        Ok(Action::AddLocalInput { queue, input })
    }

    /// Goes on after the synchronizer was handed an input: unless it refused it or
    /// placed it at no frame, the input is sent to every player that is not local.
    ///
    /// # Errors
    /// Whatever error the synchronizer gave.
    pub fn local_input_added<E>(&self, added: Result<Frame, E>, input: T::Input) -> (actions:
        Result<Vec<Action<T::Input>>, E>)
        ensures
            match added {
                Err(error) => actions == Err::<Vec<Action<T::Input>>, E>(error),
                Ok(frame) => {
                    &&& actions is Ok
                    &&& actions->Ok_0@ == if frame < 0 {
                        Seq::empty()
                    } else {
                        broadcast(self@.players, FrameInput { frame, input })
                    }
                    &&& actions->Ok_0@ == asks(
                        self@,
                        Call::LocalInputAdded { frame: Some(frame), input },
                    )
                },
            },
    {
        let frame: Frame = match added {
            Ok(frame) => frame,
            Err(error) => {
                return Err(error);
            },
        };
        let mut actions: Vec<Action<T::Input>> = Vec::new();
        if !is_null(frame) {
            let frame_input = FrameInput { frame, input };
            for i in 0..self.players.len()
                invariant
                    actions@ == broadcast(self.players@.take(i as int), frame_input),
            {
                if let Some(action) = self.players[i].send_input(i, frame_input) {
                    actions.push(action);
                }
                assert(self.players@.take(i + 1).drop_last() =~= self.players@.take(i as int));
            }
            assert(self.players@.take(self.players@.len() as int) =~= self.players@);
        }
        Ok(actions)
    }

    /// Sets the frame delay of a player.
    ///
    /// # Errors
    /// [`BackrollError::InvalidPlayer`] if the handle names no player.
    pub fn set_frame_delay(&self, player: BackrollPlayerHandle, delay: Frame) -> (action:
        BackrollResult<Action<T::Input>>)
        ensures
            action == if player.0 < self@.players.len() {
                Ok(Action::<T::Input>::SetFrameDelay { queue: player.0, delay })
            } else {
                Err(BackrollError::InvalidPlayer(player))
            },
            asks(self@, Call::<T::Input>::SetFrameDelay { player, delay }) == match action {
                Ok(action) => seq![action],
                Err(_) => Seq::empty(),
            },
    {
        let queue: usize = self.player_handle_to_queue(player)?;
        Ok(Action::SetFrameDelay { queue, delay })
    }

    /// Advances the simulation by a single frame, then polls.
    ///
    /// For a correct simulation, [`Self::add_local_input`] must be called for all local
    /// players every frame before this.
    pub fn advance_frame(&self) -> (turn: Turn<T::Input>)
        ensures
            turn.actions@ == seq![Action::<T::Input>::IncrementFrame],
            turn.actions@ == asks(self@, Call::<T::Input>::AdvanceFrame),
            turn.next == Next::Poll,
    {
        Turn { actions: vec![Action::IncrementFrame], next: Next::Poll }
    }

    /// Disconnects a player from the game: on a local player, this client from all the
    /// others, on any other player, only that one.
    ///
    /// # Errors
    /// [`BackrollError::InvalidPlayer`] if the handle names no player.
    ///
    /// [`BackrollError::PlayerDisconnected`] if the player is already disconnected.
    pub fn disconnect_player(&mut self, player: BackrollPlayerHandle) -> (turn: BackrollResult<
        Turn<T::Input>,
    >)
        requires
            old(self).wf(),
        ensures
            final(self).wf(),
            match old(self)@.disconnect_refusal(player) {
                Some(error) => turn == Err::<Turn<T::Input>, BackrollError>(error) && final(self)@
                    == old(self)@,
                None => {
                    let transition = old(self)@.disconnect::<T::Input>(player.0 as int);
                    &&& turn is Ok
                    &&& turn->Ok_0.takes(transition)
                    &&& final(self)@ == transition.state
                    &&& final(self)@.disconnect_refusal(player) == Some(
                        BackrollError::PlayerDisconnected(player),
                    )
                },
            },
            final(self)@ == after(old(self)@, Call::<T::Input>::DisconnectPlayer { player }),
            asks(old(self)@, Call::<T::Input>::DisconnectPlayer { player }) == match turn {
                Ok(turn) => turn.actions@,
                Err(_) => Seq::empty(),
            },
    {
        let queue: usize = self.player_handle_to_queue(player)?;
        if self.local_connect_status[queue].disconnected || self.left[queue] {
            return Err(BackrollError::PlayerDisconnected(player));
        }
        proof {
            disconnecting_twice_is_refused::<T::Input>(self@, player);
        }
        let last_frame: Frame = self.local_connect_status[queue].last_frame;
        if self.players[queue].is_local() {
            // The player is local: disconnect this client from the rest of the game.
            let current_frame: Frame = self.frame_count;
            self.left.set(queue, true);
            Ok(self.disconnect_others(current_frame, 0))
        } else {
            let actions = self.disconnect_player_queue(queue, last_frame);
            Ok(Turn { actions, next: Next::Finished })
        }
    }

    /// Whether the session can go on at `next`; see [`SessionModel::can_resume`].
    pub fn can_resume(&self, next: Next) -> (possible: bool)
        ensures
            possible == self@.can_resume(next),
    {
        match next {
            Next::Queues { queue, .. } => queue <= self.players.len(),
            Next::Sweep { queue, .. } => queue <= self.players.len(),
            Next::Confirm { current_frame, min_frame } => {
                if min_frame == Frame::MAX {
                    false
                } else if current_frame > self.next_recommended_sleep
                    && self.recommended_interval().is_some() {
                    current_frame <= Frame::MAX - RECOMMENDATION_INTERVAL
                } else {
                    true
                }
            },
            _ => true,
        }
    }

    /// Goes on at `next`, once the actions that were handed out with it are performed
    /// and what came of them is observed.
    pub fn resume(&mut self, next: Next) -> (turn: Turn<T::Input>)
        requires
            old(self).wf(),
            old(self)@.can_resume(next),
        ensures
            final(self).wf(),
            turn.takes(old(self)@.resume::<T::Input>(next)),
            final(self)@ == old(self)@.resume::<T::Input>(next).state,
            final(self)@.remembers(old(self)@),
            final(self)@ == after(old(self)@, Call::<T::Input>::Resume { next }),
            turn.actions@ == asks(old(self)@, Call::<T::Input>::Resume { next }),
    {
        proof {
            the_gone_stay_gone::<T::Input>(self@, next);
        }
        match next {
            Next::Finished => Turn { actions: Vec::new(), next: Next::Finished },
            Next::Poll => self.do_poll(),
            Next::Notify => self.notify_players(),
            Next::Queues { current_frame, queue, min_frame } => self.poll_players(
                current_frame,
                queue,
                min_frame,
            ),
            Next::Confirm { current_frame, min_frame } => self.confirm_frame(
                current_frame,
                min_frame,
            ),
            Next::Sweep { syncto, queue } => self.disconnect_others(syncto, queue),
        }
    }

    // The steps that a session goes through.

    /// Starts a poll, unless the session is replaying or still synchronizing.
    fn do_poll(&self) -> (turn: Turn<T::Input>)
        ensures
            turn.takes(self@.poll::<T::Input>()),
    {
        if self.in_rollback() || self.synchronizing {
            return Turn { actions: Vec::new(), next: Next::Finished };
        }
        let actions: Vec<Action<T::Input>> = vec![Action::CheckSimulation];
        assert(actions@ =~= seq![Action::<T::Input>::CheckSimulation]);
        Turn { actions, next: Next::Notify }
    }

    /// Notifies all remote players of the frame, for their next report on the quality
    /// of the connection.
    fn notify_players(&self) -> (turn: Turn<T::Input>)
        ensures
            turn.takes(self@.notify::<T::Input>()),
    {
        let current_frame: Frame = self.frame_count;
        let players = self.players();
        let mut actions: Vec<Action<T::Input>> = Vec::new();
        for i in 0..players.len()
            invariant
                actions@ == notifications::<T::Input>(players@.take(i as int), current_frame),
        {
            actions.push(Action::SetLocalFrameNumber { queue: players[i], frame: current_frame });
        }
        assert(players@.take(players@.len() as int) =~= players@);
        Turn { actions, next: Next::Queues { current_frame, queue: 0, min_frame: Frame::MAX } }
    }

    /// Looks at the queues from `from` on, and drops the first that has to be dropped.
    fn poll_players(&mut self, current_frame: Frame, from: usize, start: Frame) -> (turn: Turn<
        T::Input,
    >)
        requires
            old(self).wf(),
            from <= old(self)@.players.len(),
        ensures
            final(self).wf(),
            turn.takes(old(self)@.look::<T::Input>(current_frame, from as int, start)),
            final(self)@ == old(self)@.look::<T::Input>(current_frame, from as int, start).state,
    {
        let outcome = if self.players().len() <= FEW_PLAYERS {
            self.poll_2_players(from, start)
        } else {
            self.poll_n_players(from, start)
        };
        proof {
            first_drop_is_first(self@, self@.few(), from as int);
        }
        match outcome {
            PollOutcome::Drop { queue, syncto, min_frame } => {
                let actions = self.disconnect_player_queue(queue, syncto);
                Turn {
                    actions,
                    next: Next::Queues { current_frame, queue: queue + 1, min_frame },
                }
            },
            PollOutcome::Complete { min_frame } => Turn {
                actions: Vec::new(),
                next: Next::Confirm { current_frame, min_frame },
            },
        }
    }

    /// Ends a poll that began at `current_frame`, with `min_frame` confirmed by all.
    fn confirm_frame(&mut self, current_frame: Frame, min_frame: Frame) -> (turn: Turn<T::Input>)
        requires
            old(self).wf(),
            old(self)@.can_resume(Next::Confirm { current_frame, min_frame }),
        ensures
            final(self).wf(),
            turn.takes(old(self)@.confirm::<T::Input>(current_frame, min_frame)),
            final(self)@ == old(self)@.confirm::<T::Input>(current_frame, min_frame).state,
    {
        let mut actions: Vec<Action<T::Input>> = Vec::new();
        if min_frame >= 0 {
            if self.spectators().len() > 0 && self.next_spectator_frame <= min_frame {
                self.next_spectator_frame = min_frame + 1;
            }
            actions.push(Action::SetLastConfirmedFrame { frame: min_frame });
        }
        // Recommend to wait, if now is the proper time.
        if current_frame > self.next_recommended_sleep {
            if let Some(_interval) = self.recommended_interval() {
                self.next_recommended_sleep = current_frame + RECOMMENDATION_INTERVAL;
            }
        }
        Turn { actions, next: Next::Finished }
    }

    /// Drops the first player from `from` on that is not local.
    fn disconnect_others(&mut self, syncto: Frame, from: usize) -> (turn: Turn<T::Input>)
        requires
            old(self).wf(),
            from <= old(self)@.players.len(),
        ensures
            final(self).wf(),
            turn.takes(old(self)@.sweep::<T::Input>(syncto, from as int)),
            final(self)@ == old(self)@.sweep::<T::Input>(syncto, from as int).state,
    {
        let mut queue: usize = from;
        while queue < self.players.len()
            invariant
                self.wf(),
                *self == *old(self),
                from <= queue <= self@.players.len(),
                self@.first_peer(from as int) == self@.first_peer(queue as int),
            decreases self.players.len() - queue,
        {
            if !self.players[queue].is_local() {
                let actions = self.disconnect_player_queue(queue, syncto);
                return Turn { actions, next: Next::Sweep { syncto, queue: queue + 1 } };
            }
            queue = queue + 1;
        }
        Turn { actions: Vec::new(), next: Next::Finished }
    }

    /// Notes that the player at `queue` is gone since `syncto`, and says what follows
    /// from it.
    fn disconnect_player_queue(&mut self, queue: usize, syncto: Frame) -> (actions: Vec<
        Action<T::Input>,
    >)
        requires
            old(self).wf(),
            queue < old(self)@.players.len(),
        ensures
            final(self).wf(),
            final(self)@ == old(self)@.dropped(queue as int, syncto),
            actions@ == old(self)@.drop_actions::<T::Input>(queue as int, syncto),
    {
        let frame_count: Frame = self.frame_count;
        let mut actions: Vec<Action<T::Input>> = Vec::new();
        self.players[queue].disconnect(queue, &mut actions);
        let status = ConnectionStatus { disconnected: true, last_frame: syncto };
        self.local_connect_status.set(queue, status);
        self.left.set(queue, true);
        actions.push(Action::SetStatus { queue, status });
        if syncto < frame_count {
            actions.push(Action::AdjustSimulation { frame: syncto });
        }
        self.check_initial_sync();
        actions
    }

    /// Notes the end of the initial synchronization, if it is over.
    fn check_initial_sync(&mut self)
        requires
            old(self)@.fits_together(),
        ensures
            final(self).wf(),
            final(self)@ == old(self)@.check_initial_sync(),
    {
        if self.synchronizing && self.is_synchronized() {
            self.synchronizing = false;
        }
    }
}

} // verus!
