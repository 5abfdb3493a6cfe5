use rollback_core::error::SyncError;
use rollback_core::scheduler::MAX_INPUT_DELAY;
use rollback_core::session::{
    only_peer, PeerAddress, Session, SessionAction, SessionConfig, SessionManager, SessionPhase,
    DEFAULT_INPUT_DELAY, DEFAULT_MAX_ROLLBACK,
};
use rollback_core::state::SimulationState;

fn active(local: u128, remote: u128) -> SessionManager {
    let mut manager = SessionManager::new(SessionConfig::default()).unwrap();
    manager.start_matchmaking();
    manager.poll(PeerAddress(local), &vec![PeerAddress(remote)]).unwrap();
    manager
}

#[test]
fn the_default_configuration_is_two_players_with_two_frames_of_delay() {
    let config = SessionConfig::default();
    assert_eq!(config.num_players, 2);
    assert_eq!(config.input_delay, 2);
    assert_eq!(config.input_delay, DEFAULT_INPUT_DELAY);
    assert_eq!(config.max_rollback, DEFAULT_MAX_ROLLBACK);
    assert_eq!(config.poll_limit, None);
}

#[test]
fn another_number_of_players_is_a_configuration_error() {
    for n in [0usize, 1, 3, 4] {
        let config = SessionConfig { num_players: n, ..SessionConfig::default() };
        assert_eq!(
            SessionManager::new(config).err(),
            Some(SyncError::ConfigurationError { num_players: n, input_delay: 2 })
        );
    }
}

#[test]
fn an_input_delay_beyond_the_limit_is_a_configuration_error() {
    let config = SessionConfig { input_delay: MAX_INPUT_DELAY, ..SessionConfig::default() };
    assert!(SessionManager::new(config).is_ok());
    let config = SessionConfig { input_delay: MAX_INPUT_DELAY + 1, ..SessionConfig::default() };
    assert_eq!(
        SessionManager::new(config).err(),
        Some(SyncError::ConfigurationError { num_players: 2, input_delay: 61 })
    );
}

#[test]
fn the_manager_goes_from_idle_through_matchmaking_to_active() {
    let mut manager = SessionManager::new(SessionConfig::default()).unwrap();
    assert_eq!(manager.phase(), SessionPhase::Idle);
    assert_eq!(manager.session(), None);
    assert_eq!(manager.poll(PeerAddress(1), &vec![PeerAddress(2)]), Ok(SessionAction::Wait));
    assert_eq!(manager.phase(), SessionPhase::Idle);
    assert_eq!(manager.start_matchmaking(), SessionAction::OpenChannel);
    assert_eq!(manager.phase(), SessionPhase::Matchmaking);
    assert_eq!(manager.start_matchmaking(), SessionAction::Wait);
    assert_eq!(manager.poll(PeerAddress(1), &vec![]), Ok(SessionAction::KeepPolling));
    assert_eq!(manager.poll(PeerAddress(1), &vec![PeerAddress(1)]), Ok(SessionAction::KeepPolling));
    assert_eq!(manager.phase(), SessionPhase::Matchmaking);
    assert_eq!(
        manager.poll(PeerAddress(1), &vec![PeerAddress(9)]),
        Ok(SessionAction::StartSession)
    );
    assert_eq!(manager.phase(), SessionPhase::Active);
    assert_eq!(manager.poll(PeerAddress(1), &vec![]), Ok(SessionAction::Wait));
    assert_eq!(manager.start_matchmaking(), SessionAction::Wait);
    assert_eq!(manager.phase(), SessionPhase::Active);
}

#[test]
fn handles_follow_the_order_of_the_addresses() {
    let low = active(3, 8).session().unwrap();
    let high = active(8, 3).session().unwrap();
    assert_eq!(low.local_handle, 0);
    assert_eq!(high.local_handle, 1);
    assert_eq!(low.remote_handle(), 1);
    assert_eq!(high.remote_handle(), 0);
    assert_eq!(low.peer_of(0), Some(PeerAddress(3)));
    assert_eq!(low.peer_of(1), Some(PeerAddress(8)));
    assert_eq!(high.peer_of(0), Some(PeerAddress(3)));
    assert_eq!(high.peer_of(1), Some(PeerAddress(8)));
    assert_eq!(low.peer_of(2), None);
    assert_eq!(high.handle_of(PeerAddress(3)), Some(0));
    assert_eq!(high.handle_of(PeerAddress(8)), Some(1));
    assert_eq!(high.handle_of(PeerAddress(5)), None);
    assert_eq!(
        low,
        Session {
            local_handle: 0,
            local: PeerAddress(3),
            remote: PeerAddress(8),
            input_delay: 2,
            max_rollback: 8,
        }
    );
}

#[test]
fn more_than_two_peers_keep_the_manager_in_matchmaking() {
    let mut manager = SessionManager::new(SessionConfig::default()).unwrap();
    manager.start_matchmaking();
    let crowd = vec![PeerAddress(2), PeerAddress(3)];
    assert_eq!(manager.poll(PeerAddress(1), &crowd), Ok(SessionAction::KeepPolling));
    assert_eq!(manager.phase(), SessionPhase::Matchmaking);
    assert_eq!(only_peer(PeerAddress(1), &crowd), None);
}

#[test]
fn the_discovered_peers_are_read_as_a_set() {
    let listed = vec![PeerAddress(1), PeerAddress(7), PeerAddress(7), PeerAddress(1)];
    assert_eq!(only_peer(PeerAddress(1), &listed), Some(PeerAddress(7)));
    assert_eq!(only_peer(PeerAddress(7), &listed), Some(PeerAddress(1)));
    assert_eq!(only_peer(PeerAddress(2), &listed), None);
    assert_eq!(only_peer(PeerAddress(1), &vec![]), None);
}

#[test]
fn matchmaking_reports_a_timeout_and_goes_on_polling() {
    let config = SessionConfig { poll_limit: Some(2), ..SessionConfig::default() };
    let mut manager = SessionManager::new(config).unwrap();
    manager.start_matchmaking();
    assert_eq!(manager.poll(PeerAddress(1), &vec![]), Ok(SessionAction::KeepPolling));
    assert_eq!(manager.poll(PeerAddress(1), &vec![]), Ok(SessionAction::KeepPolling));
    assert_eq!(manager.poll(PeerAddress(1), &vec![]), Err(SyncError::PeerUnavailable));
    assert_eq!(manager.poll(PeerAddress(1), &vec![]), Err(SyncError::PeerUnavailable));
    assert_eq!(manager.phase(), SessionPhase::Matchmaking);
    assert_eq!(
        manager.poll(PeerAddress(1), &vec![PeerAddress(2)]),
        Ok(SessionAction::StartSession)
    );
    assert_eq!(manager.phase(), SessionPhase::Active);
}

#[test]
fn losing_the_peer_is_fatal_only_in_an_active_session() {
    let mut manager = SessionManager::new(SessionConfig::default()).unwrap();
    assert_eq!(manager.connection_lost(), Ok(()));
    manager.start_matchmaking();
    assert_eq!(manager.connection_lost(), Ok(()));
    manager.poll(PeerAddress(4), &vec![PeerAddress(2)]).unwrap();
    assert_eq!(manager.connection_lost(), Err(SyncError::PeerDisconnected));
    assert_eq!(manager.phase(), SessionPhase::Active);
}

#[test]
fn a_session_starts_its_scheduler_with_its_own_handle_and_delay() {
    let config = SessionConfig { input_delay: 3, ..SessionConfig::default() };
    let mut manager = SessionManager::new(config).unwrap();
    manager.start_matchmaking();
    manager.poll(PeerAddress(40), &vec![PeerAddress(20)]).unwrap();
    let session = manager.session().unwrap();
    let mut scheduler = session.start_scheduler(SimulationState::two_player_start()).unwrap();
    assert_eq!(scheduler.local_player_handle(), 1);
    assert_eq!(scheduler.input_delay(), 3);
    assert_eq!(scheduler.tick(0).frame, 4);
    assert_eq!(manager.config(), config);
}
