use rollback_core::arena::Position;
use rollback_core::error::SyncError;
use rollback_core::input::{
    Direction, Keys, INPUT_FIRE, INPUT_LEFT, INPUT_NEUTRAL, INPUT_RIGHT, INPUT_UP,
};
use rollback_core::scheduler::{FrameScheduler, InputMessage, InputStatus};
use rollback_core::state::{PlayerState, SimulationState};
use rollback_core::step::step;
use rollback_core::wire::{decode_message, encode_message};

fn scheduler(local_handle: usize, input_delay: u32, max_rollback: u32) -> FrameScheduler {
    FrameScheduler::new(
        local_handle,
        input_delay,
        max_rollback,
        SimulationState::two_player_start(),
    )
    .unwrap()
}

/// Steps from the start with handle 0's and handle 1's symbols for frames 1, 2, ...
fn direct(zero: &[u8], one: &[u8]) -> SimulationState {
    let mut state = SimulationState::two_player_start();
    for (a, b) in zero.iter().zip(one.iter()) {
        step(&mut state, &vec![*a, *b]);
    }
    state
}

fn lcg(seed: &mut u64) -> u64 {
    *seed = seed.wrapping_mul(6364136223846793005).wrapping_add(1442695040888963407);
    *seed >> 33
}

#[test]
fn a_new_scheduler_stands_before_frame_one() {
    let s = scheduler(0, 2, 8);
    assert_eq!(s.current_frame(), 1);
    assert_eq!(s.confirmed_frame(), 0);
    assert_eq!(s.local_player_handle(), 0);
    assert_eq!(s.remote_player_handle(), 1);
    assert_eq!(s.input_delay(), 2);
    assert!(s.current_confirmed_state().same_as(&SimulationState::two_player_start()));
    assert!(s.snapshot(0).unwrap().same_as(&SimulationState::two_player_start()));
    assert_eq!(s.snapshot(1).unwrap_err(), SyncError::SnapshotMiss { frame: 1 });
    assert!(!s.at_frame_limit());
}

#[test]
fn a_state_with_three_players_is_a_configuration_error() {
    let p = PlayerState {
        position: Position { x: 0, y: 0 },
        move_dir: Direction::Up,
        bullet_ready: true,
    };
    let result = FrameScheduler::new(0, 2, 8, SimulationState::new(vec![p, p, p]));
    assert_eq!(
        result.err(),
        Some(SyncError::ConfigurationError { num_players: 3, input_delay: 2 })
    );
    let result = FrameScheduler::new(1, 2, 8, SimulationState::new(vec![]));
    assert_eq!(
        result.err(),
        Some(SyncError::ConfigurationError { num_players: 0, input_delay: 2 })
    );
}

#[test]
fn without_delay_the_local_symbol_acts_at_once() {
    let mut s = scheduler(0, 0, 8);
    let message = s.tick(INPUT_RIGHT);
    assert_eq!(message, InputMessage { sender: 0, frame: 1, symbol: INPUT_RIGHT });
    assert_eq!(s.current_frame(), 2);
    assert_eq!(
        s.current_confirmed_state().player(0).unwrap().position,
        Position { x: -113, y: 0 }
    );
}

#[test]
fn the_local_symbol_acts_after_the_input_delay() {
    let mut s = scheduler(1, 2, 8);
    let message = s.tick(INPUT_LEFT);
    assert_eq!(message, InputMessage { sender: 1, frame: 3, symbol: INPUT_LEFT });
    assert_eq!(s.current_confirmed_state().player(1).unwrap().position, Position { x: 120, y: 0 });
    s.tick(INPUT_NEUTRAL);
    assert_eq!(s.current_confirmed_state().player(1).unwrap().position, Position { x: 120, y: 0 });
    let message = s.tick(INPUT_NEUTRAL);
    assert_eq!(message.frame, 5);
    assert_eq!(s.current_confirmed_state().player(1).unwrap().position, Position { x: 113, y: 0 });
    s.tick(INPUT_NEUTRAL);
    assert_eq!(s.current_confirmed_state().player(1).unwrap().position, Position { x: 113, y: 0 });
}

#[test]
fn frames_within_the_delay_are_confirmed_from_the_start() {
    let mut s = scheduler(0, 2, 8);
    s.tick(INPUT_NEUTRAL);
    assert_eq!(s.confirmed_frame(), 1);
    s.tick(INPUT_NEUTRAL);
    assert_eq!(s.confirmed_frame(), 2);
    s.tick(INPUT_NEUTRAL);
    assert_eq!(s.confirmed_frame(), 2);
    assert_eq!(s.remote_input(2), InputStatus::Confirmed(INPUT_NEUTRAL));
    assert_eq!(s.remote_input(3), InputStatus::Predicted(INPUT_NEUTRAL));
    assert!(!s.add_remote_input(2, INPUT_UP));
    assert!(!s.add_remote_input(0, INPUT_UP));
}

#[test]
fn a_missing_remote_symbol_is_held_from_the_frame_before() {
    let mut s = scheduler(0, 0, 8);
    assert!(s.add_remote_input(1, INPUT_UP));
    s.tick(INPUT_NEUTRAL);
    s.tick(INPUT_NEUTRAL);
    s.tick(INPUT_NEUTRAL);
    assert_eq!(s.remote_input(1), InputStatus::Confirmed(INPUT_UP));
    assert_eq!(s.remote_input(2), InputStatus::Predicted(INPUT_UP));
    assert_eq!(s.remote_input(3), InputStatus::Predicted(INPUT_UP));
    assert_eq!(s.current_confirmed_state().player(1).unwrap().position, Position { x: 120, y: 21 });
    assert_eq!(s.confirmed_frame(), 1);
}

#[test]
fn a_late_symbol_that_differs_from_the_prediction_is_rolled_in() {
    let mut s = scheduler(0, 2, 8);
    for frame in 3..10 {
        assert!(s.add_remote_input(frame, INPUT_NEUTRAL));
    }
    for _ in 1..=12 {
        s.tick(INPUT_NEUTRAL);
    }
    assert_eq!(s.current_frame(), 13);
    assert_eq!(s.confirmed_frame(), 9);
    assert_eq!(s.remote_input(10), InputStatus::Predicted(INPUT_NEUTRAL));
    assert_eq!(s.current_confirmed_state().player(1).unwrap().position, Position { x: 120, y: 0 });

    assert!(s.add_remote_input(10, INPUT_UP));
    assert!(s.add_remote_input(11, INPUT_UP));
    assert!(s.add_remote_input(12, INPUT_UP));
    s.tick(INPUT_NEUTRAL);

    let neutral = [INPUT_NEUTRAL; 13];
    let mut remote = [INPUT_NEUTRAL; 13];
    for frame in 10..=13 {
        remote[frame - 1] = INPUT_UP;
    }
    let expected = direct(&neutral, &remote);
    assert!(s.current_confirmed_state().same_as(&expected));
    assert_eq!(s.current_confirmed_state().player(1).unwrap().position, Position { x: 120, y: 28 });
    assert_eq!(s.confirmed_frame(), 12);
    assert_eq!(s.remote_input(12), InputStatus::Confirmed(INPUT_UP));
    assert_eq!(s.remote_input(13), InputStatus::Predicted(INPUT_UP));
    assert!(s.snapshot(10).unwrap().same_as(&direct(&neutral[..10], &remote[..10])));
    assert!(s.snapshot(9).unwrap().same_as(&direct(&neutral[..9], &remote[..9])));
}

#[test]
fn a_late_symbol_that_matches_the_prediction_changes_nothing() {
    let mut s = scheduler(0, 0, 8);
    s.add_remote_input(1, INPUT_RIGHT);
    for _ in 0..5 {
        s.tick(INPUT_UP);
    }
    let before = s.current_confirmed_state().duplicate();
    assert!(s.add_remote_input(3, INPUT_RIGHT));
    assert!(s.add_remote_input(2, INPUT_RIGHT));
    assert!(s.current_confirmed_state().same_as(&before));
    s.tick(INPUT_UP);
    let expected = direct(&[INPUT_UP; 6], &[INPUT_RIGHT; 6]);
    assert!(s.current_confirmed_state().same_as(&expected));
    assert_eq!(s.confirmed_frame(), 3);
}

#[test]
fn a_repeated_confirmation_is_a_no_op() {
    let mut s = scheduler(0, 0, 8);
    assert!(s.add_remote_input(1, INPUT_UP));
    assert!(!s.add_remote_input(1, INPUT_LEFT));
    s.tick(INPUT_NEUTRAL);
    assert!(!s.add_remote_input(1, INPUT_LEFT));
    s.tick(INPUT_NEUTRAL);
    assert_eq!(s.remote_input(1), InputStatus::Confirmed(INPUT_UP));
    assert_eq!(s.current_confirmed_state().player(1).unwrap().position, Position { x: 120, y: 14 });
}

#[test]
fn symbols_may_arrive_ahead_of_their_frame_and_out_of_order() {
    let mut s = scheduler(0, 0, 8);
    assert!(s.add_remote_input(4, INPUT_LEFT));
    assert!(s.add_remote_input(2, INPUT_UP));
    for _ in 0..5 {
        s.tick(INPUT_NEUTRAL);
    }
    let remote = [INPUT_NEUTRAL, INPUT_UP, INPUT_UP, INPUT_LEFT, INPUT_LEFT];
    assert!(s.current_confirmed_state().same_as(&direct(&[INPUT_NEUTRAL; 5], &remote)));
    assert_eq!(s.confirmed_frame(), 0);
    assert!(s.add_remote_input(1, INPUT_NEUTRAL));
    assert!(s.add_remote_input(3, INPUT_FIRE));
    s.tick(INPUT_NEUTRAL);
    assert_eq!(s.confirmed_frame(), 4);
    let remote = [INPUT_NEUTRAL, INPUT_UP, INPUT_FIRE, INPUT_LEFT, INPUT_LEFT, INPUT_LEFT];
    assert!(s.current_confirmed_state().same_as(&direct(&[INPUT_NEUTRAL; 6], &remote)));
}

#[test]
fn messages_of_other_senders_are_ignored() {
    let mut s = scheduler(0, 0, 8);
    assert!(!s.receive(InputMessage { sender: 0, frame: 1, symbol: INPUT_UP }));
    assert!(!s.receive(InputMessage { sender: 2, frame: 1, symbol: INPUT_UP }));
    assert!(s.receive(InputMessage { sender: 1, frame: 1, symbol: INPUT_RIGHT }));
    assert!(!s.receive(InputMessage { sender: 1, frame: 1, symbol: INPUT_RIGHT }));
    s.tick(INPUT_NEUTRAL);
    assert_eq!(s.remote_input(1), InputStatus::Confirmed(INPUT_RIGHT));
}

#[test]
fn snapshots_older_than_the_rollback_window_are_evicted() {
    let mut s = scheduler(0, 0, 3);
    for frame in 1..=10 {
        s.add_remote_input(frame, INPUT_NEUTRAL);
        s.tick(INPUT_NEUTRAL);
    }
    assert_eq!(s.confirmed_frame(), 10);
    assert_eq!(s.snapshot(6).unwrap_err(), SyncError::SnapshotMiss { frame: 6 });
    assert_eq!(s.snapshot(0).unwrap_err(), SyncError::SnapshotMiss { frame: 0 });
    for frame in 7..=10 {
        assert!(s.snapshot(frame).is_ok());
    }
    assert_eq!(s.snapshot(11).unwrap_err(), SyncError::SnapshotMiss { frame: 11 });
}

#[test]
fn every_snapshot_since_the_confirmed_frame_is_kept_however_long_the_peer_is_silent() {
    let mut s = scheduler(0, 0, 2);
    for _ in 0..50 {
        s.tick(INPUT_RIGHT);
    }
    assert_eq!(s.confirmed_frame(), 0);
    for frame in 0..=50 {
        assert!(s.snapshot(frame).is_ok());
    }
    assert!(s.add_remote_input(1, INPUT_UP));
    s.tick(INPUT_RIGHT);
    assert_eq!(s.confirmed_frame(), 1);
    assert_eq!(
        s.current_confirmed_state().player(1).unwrap().position,
        Position { x: 120, y: 7 * 51 }
    );
}

#[test]
fn rollback_gives_what_direct_simulation_gives() {
    for case in 0..20u64 {
        let mut seed = 1000 + case;
        let frames = 120usize;
        let delay = (case % 4) as u32;
        let local_handle = (case % 2) as usize;
        let local: Vec<u8> = (0..frames).map(|_| lcg(&mut seed) as u8 & 31).collect();
        let remote: Vec<u8> = (0..frames).map(|_| lcg(&mut seed) as u8 & 31).collect();
        let mut arrival: Vec<(usize, u32)> = (delay as usize + 1..=frames)
            .map(|frame| (frame + (lcg(&mut seed) % 9) as usize, frame as u32))
            .collect();
        arrival.sort();
        let mut s = scheduler(local_handle, delay, 4);
        let mut next = 0;
        for tick in 1..=frames {
            while next < arrival.len() && arrival[next].0 <= tick {
                let frame = arrival[next].1;
                s.add_remote_input(frame, remote[frame as usize - 1]);
                if lcg(&mut seed) % 3 == 0 {
                    assert!(!s.add_remote_input(frame, lcg(&mut seed) as u8));
                }
                next += 1;
            }
            if tick == frames {
                while next < arrival.len() {
                    let frame = arrival[next].1;
                    s.add_remote_input(frame, remote[frame as usize - 1]);
                    next += 1;
                }
            }
            let message = s.tick(local[tick - 1]);
            assert_eq!(message.frame, tick as u32 + delay);
        }
        let effective = |symbols: &Vec<u8>, frame: usize| -> u8 {
            if frame <= delay as usize {
                INPUT_NEUTRAL
            } else {
                symbols[frame - 1 - delay as usize]
            }
        };
        let mut mine = Vec::new();
        let mut theirs = Vec::new();
        for frame in 1..=frames {
            mine.push(effective(&local, frame));
            theirs.push(if frame <= delay as usize { INPUT_NEUTRAL } else { remote[frame - 1] });
        }
        let expected =
            if local_handle == 0 { direct(&mine, &theirs) } else { direct(&theirs, &mine) };
        assert!(s.current_confirmed_state().same_as(&expected));
        assert_eq!(s.confirmed_frame(), frames as u32);
        assert_eq!(s.current_frame(), frames as u32 + 1);
    }
}

#[test]
fn two_peers_agree_on_every_confirmed_frame() {
    let mut seed = 5u64;
    let delay = 2u32;
    let mut a = scheduler(0, delay, 8);
    let mut b = scheduler(1, delay, 8);
    let mut to_a: Vec<(u64, Vec<u8>)> = Vec::new();
    let mut to_b: Vec<(u64, Vec<u8>)> = Vec::new();
    for now in 0..300u64 {
        to_a.retain(|(due, bytes)| {
            if *due <= now {
                a.receive(decode_message(bytes).unwrap());
                false
            } else {
                true
            }
        });
        to_b.retain(|(due, bytes)| {
            if *due <= now {
                b.receive(decode_message(bytes).unwrap());
                false
            } else {
                true
            }
        });
        let from_a = encode_message(a.tick(lcg(&mut seed) as u8 & 31));
        let from_b = encode_message(b.tick(lcg(&mut seed) as u8 & 31));
        to_b.push((now + 1 + lcg(&mut seed) % 7, from_a.clone()));
        to_b.push((now + 1 + lcg(&mut seed) % 7, from_a));
        to_a.push((now + 1 + lcg(&mut seed) % 7, from_b));
    }
    let confirmed = a.confirmed_frame().min(b.confirmed_frame());
    assert!(confirmed > 250);
    let low = a.confirmed_frame().max(b.confirmed_frame()).saturating_sub(8);
    for frame in low..=confirmed {
        assert!(a.snapshot(frame).unwrap().same_as(&b.snapshot(frame).unwrap()));
    }
}

#[test]
fn a_rollback_is_pending_from_the_contradiction_to_the_next_tick() {
    let mut s = scheduler(0, 0, 8);
    for _ in 0..4 {
        s.tick(INPUT_NEUTRAL);
    }
    assert!(!s.rollback_pending());
    assert!(s.add_remote_input(9, INPUT_UP));
    assert!(!s.rollback_pending());
    assert!(s.add_remote_input(2, INPUT_NEUTRAL));
    assert!(!s.rollback_pending());
    assert!(s.add_remote_input(3, INPUT_FIRE));
    assert!(s.rollback_pending());
    assert!(s.add_remote_input(1, INPUT_NEUTRAL));
    assert!(s.rollback_pending());
    s.tick(INPUT_NEUTRAL);
    assert!(!s.rollback_pending());
    assert_eq!(s.current_confirmed_state().projectiles.live_count(), 1);
    assert_eq!(s.confirmed_frame(), 3);
}

#[test]
fn equal_checksums_pass_and_other_checksums_are_a_desync() {
    let mut a = scheduler(0, 0, 8);
    let mut b = scheduler(1, 0, 8);
    for frame in 1..=6u32 {
        let from_a = a.tick(INPUT_RIGHT);
        let from_b = b.tick(INPUT_UP | INPUT_FIRE);
        assert_eq!(from_a.frame, frame);
        assert!(a.receive(from_b));
        assert!(b.receive(from_a));
    }
    a.tick(INPUT_NEUTRAL);
    b.tick(INPUT_NEUTRAL);
    assert_eq!(a.confirmed_frame(), 6);
    let (frame, sum) = b.confirmed_checksum();
    assert_eq!(frame, 6);
    assert_eq!(sum, a.snapshot(6).unwrap().checksum());
    assert!(a.confirmed_state().same_as(&b.confirmed_state()));
    assert!(!a.confirmed_state().same_as(a.current_confirmed_state()));
    assert_eq!(a.check_remote_checksum(6, sum), Ok(true));
    assert_eq!(
        a.check_remote_checksum(6, sum ^ 1),
        Err(SyncError::DesyncDetected { frame: 6 })
    );
    assert_eq!(a.check_remote_checksum(7, sum), Ok(false));
    assert_eq!(a.check_remote_checksum(7, 0), Ok(false));
}

#[test]
fn a_checksum_of_an_evicted_frame_is_a_snapshot_miss() {
    let mut s = scheduler(0, 0, 2);
    for frame in 1..=9 {
        s.add_remote_input(frame, INPUT_NEUTRAL);
        s.tick(INPUT_NEUTRAL);
    }
    assert_eq!(s.check_remote_checksum(3, 0), Err(SyncError::SnapshotMiss { frame: 3 }));
    assert_eq!(s.check_remote_checksum(6, 0), Err(SyncError::SnapshotMiss { frame: 6 }));
    assert_eq!(s.check_remote_checksum(7, 0), Err(SyncError::DesyncDetected { frame: 7 }));
    assert_eq!(s.confirmed_checksum(), (9, s.snapshot(9).unwrap().checksum()));
}

#[test]
fn an_input_delay_beyond_the_limit_is_refused() {
    assert!(FrameScheduler::new(0, 60, 8, SimulationState::two_player_start()).is_ok());
    let result = FrameScheduler::new(0, 61, 8, SimulationState::two_player_start());
    assert_eq!(
        result.err(),
        Some(SyncError::ConfigurationError { num_players: 2, input_delay: 61 })
    );
}

#[test]
fn the_frame_limit_is_far_away_at_the_start() {
    let mut s = scheduler(0, 60, 8);
    assert!(!s.at_frame_limit());
    assert_eq!(s.tick(INPUT_UP).frame, 61);
    assert!(!s.at_frame_limit());
}

#[test]
fn a_tick_with_keys_queues_the_symbol_of_the_keys() {
    let mut s = scheduler(0, 1, 8);
    let keys = Keys { up: true, down: false, left: true, right: true, fire: true };
    let message = s.tick_with_keys(keys);
    assert_eq!(message, InputMessage { sender: 0, frame: 2, symbol: INPUT_LEFT | INPUT_FIRE });
    s.tick_with_keys(Keys { up: false, down: false, left: false, right: false, fire: false });
    let state = s.current_confirmed_state();
    assert_eq!(state.player(0).unwrap().position, Position { x: -127, y: 0 });
    assert_eq!(state.projectiles.live_count(), 1);
}
