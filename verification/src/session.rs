//! The session manager: from matchmaking to an active two-peer session.
//!
//! The manager decides; the host acts. The host opens the rendezvous channel
//! when told to, polls the signaling side for the peers that are present and
//! hands each result to `poll`. As soon as exactly two peers are present,
//! this side included, the manager assigns the player handles by ascending
//! peer address, so that both sides arrive at the same mapping without
//! talking about it, and the session is active for good.

use vstd::prelude::*;
use crate::error::SyncError;
use crate::scheduler::{FrameScheduler, MAX_INPUT_DELAY};
use crate::state::{PlayerHandle, SimulationState, NUM_PLAYERS};

verus! {

/// Frames of delay for local input unless configured otherwise.
pub const DEFAULT_INPUT_DELAY: u32 = 2;

/// Frames of snapshots kept behind the confirmed frame unless configured
/// otherwise.
pub const DEFAULT_MAX_ROLLBACK: u32 = 8;

/// The network identity of a peer. It serves to tell peers apart during
/// matchmaking and to order them; nothing else is read from it.
#[derive(Clone, Copy, Debug, PartialEq, Eq, Hash, Structural)]
pub struct PeerAddress(pub u128);

/// What a session is configured with.
#[derive(Clone, Copy, Debug, PartialEq, Eq, Structural)]
pub struct SessionConfig {
    /// The number of players asked for; only two is supported.
    pub num_players: usize,
    /// Frames by which local input is delayed, at most `MAX_INPUT_DELAY`;
    /// must be the same on both peers.
    pub input_delay: u32,
    /// Frames of snapshots kept behind the confirmed frame.
    pub max_rollback: u32,
    /// The number of polls that matchmaking may take before each further
    /// poll without success reports `PeerUnavailable`; no limit where absent.
    pub poll_limit: Option<u32>,
}

impl Default for SessionConfig {
    fn default() -> (config: SessionConfig)
        ensures
            config == (SessionConfig {
                num_players: NUM_PLAYERS,
                input_delay: DEFAULT_INPUT_DELAY,
                max_rollback: DEFAULT_MAX_ROLLBACK,
                poll_limit: None,
            }),
    {
        SessionConfig {
            num_players: NUM_PLAYERS,
            input_delay: DEFAULT_INPUT_DELAY,
            max_rollback: DEFAULT_MAX_ROLLBACK,
            poll_limit: None,
        }
    }
}

/// Where the session manager stands.
#[derive(Clone, Copy, Debug, PartialEq, Eq, Structural)]
pub enum SessionPhase {
    Idle,
    Matchmaking,
    Active,
}

/// What the host has to do next.
#[derive(Clone, Copy, Debug, PartialEq, Eq, Structural)]
pub enum SessionAction {
    /// Nothing.
    Wait,
    /// Open the rendezvous channel and start polling for peers.
    OpenChannel,
    /// Poll again later.
    KeepPolling,
    /// Hand the channel to the frame scheduler: the session is active.
    StartSession,
}

/// An active session: who plays under which handle, and the input delay.
#[derive(Clone, Copy, Debug, PartialEq, Eq, Structural)]
pub struct Session {
    pub local_handle: PlayerHandle,
    pub local: PeerAddress,
    pub remote: PeerAddress,
    pub input_delay: u32,
    pub max_rollback: u32,
}

/// The session of the peers `local` and `remote`: the peer with the lower
/// address plays under handle 0, the other under handle 1.
pub open spec fn session_of(
    config: SessionConfig,
    local: PeerAddress,
    remote: PeerAddress,
) -> Session {
    Session {
        local_handle: if local.0 < remote.0 {
            0
        } else {
            1
        },
        local,
        remote,
        input_delay: config.input_delay,
        max_rollback: config.max_rollback,
    }
}

/// Whether `remote` is the one peer present besides `local`: it is among
/// `discovered`, and `discovered` names nobody but the two.
pub open spec fn is_only_peer(
    local: PeerAddress,
    discovered: Seq<PeerAddress>,
    remote: PeerAddress,
) -> bool {
    &&& remote != local
    &&& discovered.contains(remote)
    &&& forall|i: int|
        0 <= i < discovered.len() ==> #[trigger] discovered[i] == local || discovered[i] == remote
}

/// Whether exactly two peers are present, `local` included.
pub open spec fn exactly_two_present(local: PeerAddress, discovered: Seq<PeerAddress>) -> bool {
    exists|remote: PeerAddress| is_only_peer(local, discovered, remote)
}

/// Both peers assign the same handles: what one side takes for its own
/// handle, the other side takes for its remote handle.
pub proof fn handles_agree_across_peers(config: SessionConfig, a: PeerAddress, b: PeerAddress)
    requires
        a != b,
    ensures
        session_of(config, a, b).local_handle + session_of(config, b, a).local_handle == 1,
        session_of(config, a, b).local_handle < NUM_PLAYERS,
{
}

impl Session {
    /// The two peers differ, the handles follow the order of their
    /// addresses, and the input delay is within its limit.
    pub open spec fn wf(self) -> bool {
        &&& self.local != self.remote
        &&& self.input_delay <= MAX_INPUT_DELAY
        &&& self.local_handle == if self.local.0 < self.remote.0 {
            0usize
        } else {
            1usize
        }
    }

    /// The handle of the remote player.
    pub fn remote_handle(&self) -> (handle: PlayerHandle)
        requires
            self.wf(),
        ensures
            handle == 1 - self.local_handle,
    {
        1 - self.local_handle
    }

    /// The address of the peer that plays under `handle`, if there is one.
    pub fn peer_of(&self, handle: PlayerHandle) -> (peer: Option<PeerAddress>)
        requires
            self.wf(),
        ensures
            peer == if handle == self.local_handle {
                Some(self.local)
            } else if handle < NUM_PLAYERS {
                Some(self.remote)
            } else {
                None
            },
    {
        if handle == self.local_handle {
            Some(self.local)
        } else if handle < NUM_PLAYERS {
            Some(self.remote)
        } else {
            None
        }
    }

    /// The handle under which `peer` plays, if it takes part in the session.
    pub fn handle_of(&self, peer: PeerAddress) -> (handle: Option<PlayerHandle>)
        requires
            self.wf(),
        ensures
            handle == if peer == self.local {
                Some(self.local_handle)
            } else if peer == self.remote {
                Some((1 - self.local_handle) as usize)
            } else {
                None
            },
    {
        if peer.0 == self.local.0 {
            Some(self.local_handle)
        } else if peer.0 == self.remote.0 {
            Some(1 - self.local_handle)
        } else {
            None
        }
    }

    /// The frame scheduler of this session, at the start of the simulation.
    /// Fails with `ConfigurationError` exactly when `initial` has a number of
    /// players other than two.
    pub fn start_scheduler(&self, initial: SimulationState) -> (result: Result<
        FrameScheduler,
        SyncError,
    >)
        requires
            self.wf(),
            initial.wf(),
        ensures
            match result {
                Ok(scheduler) => {
                    &&& initial@.players.len() == NUM_PLAYERS
                    &&& scheduler.wf()
                    &&& scheduler.in_sync()
                    &&& scheduler@.origin == initial@
                    &&& scheduler@.state == initial@
                    &&& scheduler@.local_handle == self.local_handle
                    &&& scheduler@.input_delay == self.input_delay
                    &&& scheduler@.max_rollback == self.max_rollback
                    &&& scheduler@.current_frame == 1
                    &&& scheduler@.confirmed_frame == 0
                },
                Err(e) => initial@.players.len() != NUM_PLAYERS
                    && e == (SyncError::ConfigurationError {
                    num_players: initial@.players.len() as usize,
                    input_delay: self.input_delay,
                }),
            },
    {
        FrameScheduler::new(self.local_handle, self.input_delay, self.max_rollback, initial)
    }
}

/// A session manager as a mathematical value.
pub struct SessionManagerView {
    pub config: SessionConfig,
    pub phase: SessionPhase,
    /// The polls that matchmaking has taken without success.
    pub polls: nat,
    pub session: Option<Session>,
}

/// The state machine `Idle -> Matchmaking -> Active`.
#[derive(Debug)]
pub struct SessionManager {
    config: SessionConfig,
    phase: SessionPhase,
    polls: u32,
    session: Option<Session>,
}

impl View for SessionManager {
    type V = SessionManagerView;

    closed spec fn view(&self) -> SessionManagerView {
        SessionManagerView {
            config: self.config,
            phase: self.phase,
            polls: self.polls as nat,
            session: self.session,
        }
    }
}

/// Whether matchmaking has used up its polls.
pub open spec fn timed_out(config: SessionConfig, polls: nat) -> bool {
    match config.poll_limit {
        Some(limit) => polls > limit,
        None => false,
    }
}

/// The number of unsuccessful polls after one more.
pub open spec fn next_polls(polls: nat) -> nat {
    if polls < u32::MAX {
        polls + 1
    } else {
        polls
    }
}

impl SessionManagerView {
    /// The manager is configured for two players and an input delay within
    /// its limit, and it holds a session exactly while it is active.
    pub open spec fn wf(self) -> bool {
        &&& self.config.num_players == NUM_PLAYERS
        &&& self.config.input_delay <= MAX_INPUT_DELAY
        &&& self.polls <= u32::MAX
        &&& (self.phase == SessionPhase::Active) == (self.session is Some)
        &&& self.session matches Some(session) ==> session.wf() && session.input_delay
            == self.config.input_delay && session.max_rollback == self.config.max_rollback
    }
}

impl SessionManager {
    /// The manager's invariant.
    pub open spec fn wf(&self) -> bool {
        self@.wf()
    }

    /// An idle manager. Fails with `ConfigurationError` exactly when the
    /// configuration asks for a number of players other than two or for an
    /// input delay beyond `MAX_INPUT_DELAY`.
    pub fn new(config: SessionConfig) -> (result: Result<SessionManager, SyncError>)
        ensures
            match result {
                Ok(manager) => config.num_players == NUM_PLAYERS && config.input_delay
                    <= MAX_INPUT_DELAY && manager.wf() && manager@ == (
                SessionManagerView { config, phase: SessionPhase::Idle, polls: 0, session: None }),
                Err(e) => (config.num_players != NUM_PLAYERS
                    || config.input_delay > MAX_INPUT_DELAY)
                    && e == (SyncError::ConfigurationError {
                    num_players: config.num_players,
                    input_delay: config.input_delay,
                }),
            },
    {
        if config.num_players != NUM_PLAYERS || config.input_delay > MAX_INPUT_DELAY {
            return Err(
                SyncError::ConfigurationError {
                    num_players: config.num_players,
                    input_delay: config.input_delay,
                },
            );
        }
        Ok(SessionManager { config, phase: SessionPhase::Idle, polls: 0, session: None })
    }

    /// Where the manager stands.
    pub fn phase(&self) -> (phase: SessionPhase)
        ensures
            phase == self@.phase,
    {
        self.phase
    }

    /// The configuration.
    pub fn config(&self) -> (config: SessionConfig)
        ensures
            config == self@.config,
    {
        self.config
    }

    /// The session, once the manager is active.
    pub fn session(&self) -> (session: Option<Session>)
        ensures
            session == self@.session,
    {
        self.session
    }

    /// `Idle -> Matchmaking`: an idle manager enters matchmaking and tells
    /// the host to open the rendezvous channel. In any other phase nothing
    /// changes and there is nothing to do.
    pub fn start_matchmaking(&mut self) -> (action: SessionAction)
        requires
            old(self).wf(),
        ensures
            final(self).wf(),
            old(self)@.phase == SessionPhase::Idle ==> action == SessionAction::OpenChannel
                && final(self)@ == (SessionManagerView {
                phase: SessionPhase::Matchmaking,
                polls: 0,
                ..old(self)@
            }),
            old(self)@.phase != SessionPhase::Idle ==> action == SessionAction::Wait
                && final(self)@ == old(self)@,
    {
        match self.phase {
            SessionPhase::Idle => {
                self.phase = SessionPhase::Matchmaking;
                self.polls = 0;
                SessionAction::OpenChannel
            },
            _ => SessionAction::Wait,
        }
    }

    /// One poll of matchmaking. `local` is this peer's address and
    /// `discovered` the peers that the signaling side reports as present; the
    /// list is read as a set, and it may or may not name `local`.
    ///
    /// While matchmaking: with exactly two peers present, `local` included,
    /// the manager becomes active with the session of the two and tells the
    /// host to start it. With any other number it stays in matchmaking and
    /// counts the poll; once the count has passed the poll limit it reports
    /// `PeerUnavailable`, and polling may still go on. In any other phase
    /// nothing changes and there is nothing to do.
    pub fn poll(&mut self, local: PeerAddress, discovered: &Vec<PeerAddress>) -> (result: Result<
        SessionAction,
        SyncError,
    >)
        requires
            old(self).wf(),
        ensures
            final(self).wf(),
            final(self)@.config == old(self)@.config,
            old(self)@.phase != SessionPhase::Matchmaking ==> result == Ok::<
                SessionAction,
                SyncError,
            >(SessionAction::Wait) && final(self)@ == old(self)@,
            old(self)@.phase == SessionPhase::Matchmaking && exactly_two_present(
                local,
                discovered@,
            ) ==> {
                &&& result == Ok::<SessionAction, SyncError>(SessionAction::StartSession)
                &&& final(self)@.phase == SessionPhase::Active
                &&& final(self)@.polls == old(self)@.polls
                &&& final(self)@.session matches Some(session)
                &&& is_only_peer(local, discovered@, session.remote)
                &&& session == session_of(old(self)@.config, local, session.remote)
            },
            old(self)@.phase == SessionPhase::Matchmaking && !exactly_two_present(
                local,
                discovered@,
            ) ==> {
                &&& final(self)@ == (SessionManagerView {
                    polls: next_polls(old(self)@.polls),
                    ..old(self)@
                })
                &&& result == if timed_out(final(self)@.config, final(self)@.polls) {
                    Err::<SessionAction, SyncError>(SyncError::PeerUnavailable)
                } else {
                    Ok::<SessionAction, SyncError>(SessionAction::KeepPolling)
                }
            },
    {
        match self.phase {
            SessionPhase::Matchmaking => {},
            _ => {
                return Ok(SessionAction::Wait);
            },
        }
        match only_peer(local, discovered) {
            Some(remote) => {
                let session = Session {
                    local_handle: if local.0 < remote.0 {
                        0
                    } else {
                        1
                    },
                    local,
                    remote,
                    input_delay: self.config.input_delay,
                    max_rollback: self.config.max_rollback,
                };
                self.session = Some(session);
                self.phase = SessionPhase::Active;
                Ok(SessionAction::StartSession)
            },
            None => {
                if self.polls < u32::MAX {
                    self.polls = self.polls + 1;
                }
                match self.config.poll_limit {
                    Some(limit) => {
                        if self.polls > limit {
                            Err(SyncError::PeerUnavailable)
                        } else {
                            Ok(SessionAction::KeepPolling)
                        }
                    },
                    None => Ok(SessionAction::KeepPolling),
                }
            },
        }
    }

    /// The loss of the connection to the peer. During an active session it is
    /// the fatal `PeerDisconnected`; before that it is no failure. The phase
    /// stays as it is: an active session never leaves `Active`.
    pub fn connection_lost(&self) -> (result: Result<(), SyncError>)
        ensures
            result == if self@.phase == SessionPhase::Active {
                Err::<(), SyncError>(SyncError::PeerDisconnected)
            } else {
                Ok::<(), SyncError>(())
            },
    {
        match self.phase {
            SessionPhase::Active => Err(SyncError::PeerDisconnected),
            _ => Ok(()),
        }
    }
}

/// The one peer present besides `local`, where exactly two are present.
pub fn only_peer(local: PeerAddress, discovered: &Vec<PeerAddress>) -> (found: Option<PeerAddress>)
    ensures
        match found {
            Some(remote) => is_only_peer(local, discovered@, remote),
            None => !exactly_two_present(local, discovered@),
        },
{
    let mut found: Option<PeerAddress> = None;
    let mut i: usize = 0;
    while i < discovered.len()
        invariant
            i <= discovered.len(),
            match found {
                Some(remote) => {
                    &&& remote != local
                    &&& exists|j: int| 0 <= j < i && discovered@[j] == remote
                    &&& forall|j: int|
                        0 <= j < i ==> #[trigger] discovered@[j] == local || discovered@[j]
                            == remote
                },
                None => forall|j: int| 0 <= j < i ==> #[trigger] discovered@[j] == local,
            },
        decreases discovered.len() - i,
    {
        let peer = discovered[i];
        if peer.0 != local.0 {
            match found {
                Some(remote) => {
                    if peer.0 != remote.0 {
                        proof {
                            let first = choose|j: int| 0 <= j < i && discovered@[j] == remote;
                            assert forall|other: PeerAddress| !is_only_peer(
                                local,
                                discovered@,
                                other,
                            ) by {
                                if is_only_peer(local, discovered@, other) {
                                    assert(discovered@[first] == local || discovered@[first]
                                        == other);
                                    assert(discovered@[i as int] == local || discovered@[i as int]
                                        == other);
                                }
                            }
                        }
                        return None;
                    }
                },
                None => {
                    found = Some(peer);
                },
            }
        }
        i += 1;
    }
    proof {
        match found {
            Some(remote) => {
                let first = choose|j: int| 0 <= j < i && discovered@[j] == remote;
                assert(discovered@[first] == remote);
            },
            None => {
                assert forall|other: PeerAddress| !is_only_peer(local, discovered@, other) by {
                    if is_only_peer(local, discovered@, other) {
                        let j = choose|j: int|
                            0 <= j < discovered@.len() && discovered@[j] == other;
                        assert(discovered@[j] == local);
                    }
                }
            },
        }
    }
    found
}

} // verus!
