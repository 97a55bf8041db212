use aura::playback::{
    Action, Playback, EMPTY_QUEUE_NOTICE, NOTHING_PLAYABLE_NOTICE, PENDING_SEEK_TRIES,
    RESUME_THRESHOLD_MS,
};
use aura::snapshot::{MiniSnapshot, MiniTrack, LOOP_ONE, LOOP_SEQUENCE, LOOP_SHUFFLE};

const SEED: u64 = 0x9E3779B97F4A7C15;

fn snapshot(count: usize) -> MiniSnapshot {
    MiniSnapshot {
        tracks: (0..count)
            .map(|i| MiniTrack {
                id: i.to_string(),
                title: format!("t{i}"),
                source: "kuwo".to_string(),
                local_path: Some(format!("/tmp/{i}.mp3")),
                ..Default::default()
            })
            .collect(),
        ..Default::default()
    }
}

fn playback(count: usize) -> Playback {
    Playback::new(snapshot(count), SEED)
}

fn loaded_index(actions: &[Action]) -> Option<i64> {
    actions.iter().find_map(|action| match action {
        Action::Load { index } => Some(*index),
        _ => None,
    })
}

#[test]
fn sequence_mode_wraps_at_both_ends() {
    let mut p = playback(3);
    assert_eq!(p.index(), 0);
    p.step(1, true);
    assert_eq!(p.index(), 1);
    p.step(1, true);
    assert_eq!(p.index(), 2);
    p.step(1, true);
    assert_eq!(p.index(), 0);
    p.step(-1, true);
    assert_eq!(p.index(), 2);
}

#[test]
fn single_track_queue_stays_on_itself() {
    let mut p = playback(1);
    p.step(1, true);
    assert_eq!(p.index(), 0);
    p.step(-1, true);
    assert_eq!(p.index(), 0);
}

#[test]
fn empty_queue_produces_no_actions_and_halts() {
    let mut p = playback(0);
    assert!(p.step(1, true).is_empty());
    let actions = p.begin_current(false);
    assert!(actions.contains(&Action::Halt(EMPTY_QUEUE_NOTICE)));
    assert!(loaded_index(&actions).is_none());
    assert!(p.notice().is_some());
}

#[test]
fn loop_one_reloads_instead_of_advancing() {
    let mut p = playback(3);
    p.snapshot_mut().loop_mode = LOOP_ONE;
    let actions = p.on_ended();
    assert_eq!(loaded_index(&actions), Some(0));
    assert!(actions.contains(&Action::Play));
    assert_eq!(p.index(), 0);
    assert_eq!(p.snapshot().position_ms, 0);
}

#[test]
fn sequence_mode_advances_when_a_track_ends() {
    let mut p = playback(3);
    p.on_ended();
    assert_eq!(p.index(), 1);
}

#[test]
fn shuffle_only_kicks_in_for_automatic_forward_steps() {
    let mut p = playback(10);
    p.snapshot_mut().loop_mode = LOOP_SHUFFLE;
    p.step(1, true);
    assert_eq!(p.index(), 1);
    p.step(-1, true);
    assert_eq!(p.index(), 0);
}

#[test]
fn shuffle_is_deterministic_for_a_given_seed() {
    let sequence = |seed: u64| {
        let mut p = Playback::new(snapshot(10), seed);
        p.snapshot_mut().loop_mode = LOOP_SHUFFLE;
        (0..8)
            .map(|_| {
                p.step(1, false);
                p.index()
            })
            .collect::<Vec<_>>()
    };
    assert_eq!(sequence(SEED), sequence(SEED));
    assert_ne!(sequence(SEED), sequence(0x1234_5678_9ABC_DEF0));
}

#[test]
fn shuffle_never_replays_the_same_track() {
    let mut p = playback(5);
    p.snapshot_mut().loop_mode = LOOP_SHUFFLE;
    for _ in 0..200 {
        let before = p.index();
        p.step(1, false);
        assert_ne!(p.index(), before);
    }
}

#[test]
fn shuffle_on_a_single_track_returns_zero() {
    let mut p = playback(1);
    p.snapshot_mut().loop_mode = LOOP_SHUFFLE;
    p.step(1, false);
    assert_eq!(p.index(), 0);
}

#[test]
fn three_consecutive_failures_halt_instead_of_skipping_forever() {
    let mut p = playback(10);
    let first = p.on_load_failed();
    assert!(loaded_index(&first).is_some());
    let second = p.on_load_failed();
    assert!(loaded_index(&second).is_some());
    let third = p.on_load_failed();
    assert!(third.contains(&Action::Halt(NOTHING_PLAYABLE_NOTICE)));
    assert!(third.contains(&Action::Pause));
    assert!(loaded_index(&third).is_none());
    assert!(p.notice().is_some());
}

#[test]
fn a_single_track_queue_halts_on_the_first_failure() {
    let mut p = playback(1);
    let actions = p.on_load_failed();
    assert!(actions.contains(&Action::Halt(NOTHING_PLAYABLE_NOTICE)));
    assert!(loaded_index(&actions).is_none());
}

#[test]
fn a_successful_load_resets_the_failure_counter() {
    let mut p = playback(10);
    p.on_load_failed();
    p.on_load_failed();
    assert_eq!(p.failures(), 2);
    p.on_load_ok();
    assert!(p.notice().is_none());
    p.step(1, true);
    assert_eq!(p.failures(), 0);
    p.on_load_failed();
    assert_eq!(p.failures(), 1);
    p.on_ended();
    assert_eq!(p.failures(), 0);
}

#[test]
fn retrying_after_a_halt_clears_the_notice_and_reloads() {
    let mut p = playback(1);
    p.on_load_failed();
    assert!(p.notice().is_some());
    let actions = p.toggle_play(false);
    assert!(p.notice().is_none());
    assert_eq!(p.failures(), 0);
    assert_eq!(loaded_index(&actions), Some(0));
}

#[test]
fn toggle_play_follows_the_engine_when_nothing_is_wrong() {
    let mut p = playback(3);
    assert_eq!(p.toggle_play(true), vec![Action::Pause]);
    assert_eq!(p.toggle_play(false), vec![Action::Play]);
}

#[test]
fn resume_defers_the_seek_until_the_source_is_open() {
    let mut snap = snapshot(3);
    snap.position_ms = 42000;
    let mut p = Playback::new(snap, SEED);
    p.begin_current(true);
    assert!(p.has_pending_seek());
    assert_eq!(p.take_pending_seek(true, 0), None);
    assert!(p.has_pending_seek());
    assert_eq!(p.take_pending_seek(false, 180000), Some(42000));
    assert!(!p.has_pending_seek());
}

#[test]
fn a_source_that_never_opens_gives_up_after_a_second() {
    let mut snap = snapshot(3);
    snap.position_ms = 42000;
    let mut p = Playback::new(snap, SEED);
    p.begin_current(true);
    for _ in 0..PENDING_SEEK_TRIES {
        assert_eq!(p.take_pending_seek(true, 0), None);
    }
    assert_eq!(p.take_pending_seek(true, 0), None);
    assert!(!p.has_pending_seek());
}

#[test]
fn a_tiny_resume_position_is_not_worth_a_seek() {
    let mut snap = snapshot(3);
    snap.position_ms = RESUME_THRESHOLD_MS;
    let mut p = Playback::new(snap, SEED);
    p.begin_current(true);
    assert!(!p.has_pending_seek());
}

#[test]
fn changing_track_drops_a_stale_pending_seek() {
    let mut snap = snapshot(3);
    snap.position_ms = 42000;
    let mut p = Playback::new(snap, SEED);
    p.begin_current(true);
    assert!(p.has_pending_seek());
    p.step(1, true);
    assert!(!p.has_pending_seek());
}

#[test]
fn scrub_wins_over_the_engine_position_while_dragging() {
    let mut p = playback(3);
    p.set_position(30000);
    assert_eq!(p.display_position(), 30000);
    p.set_scrub(Some(90000));
    assert_eq!(p.display_position(), 90000);
    p.set_scrub(None);
    assert_eq!(p.display_position(), 30000);
}

#[test]
fn dragging_the_volume_slider_also_unmutes() {
    let mut p = playback(3);
    p.snapshot_mut().muted = true;
    let actions = p.set_volume_from_ratio(500);
    assert_eq!(p.volume(), 500);
    assert!(!p.muted());
    assert!(actions.contains(&Action::SetMuted(false)));
    assert!(actions.contains(&Action::SetVolume(500)));
}

#[test]
fn volume_is_clamped_from_both_directions() {
    let mut p = playback(3);
    p.set_volume_from_ratio(5000);
    assert_eq!(p.volume(), 1000);
    p.set_volume_from_ratio(-5000);
    assert_eq!(p.volume(), 0);
    p.adjust_volume(300);
    assert_eq!(p.volume(), 300);
    p.adjust_volume(10000);
    assert_eq!(p.volume(), 1000);
    p.adjust_volume(-10000);
    assert_eq!(p.volume(), 0);
}

#[test]
fn scrolling_the_volume_does_not_unmute() {
    let mut p = playback(3);
    p.snapshot_mut().muted = true;
    p.adjust_volume(100);
    assert!(p.muted());
}

#[test]
fn loop_mode_cycles_through_three_states_and_back() {
    let mut p = playback(3);
    assert_eq!(p.loop_mode(), LOOP_SEQUENCE);
    assert_eq!(p.cycle_loop_mode(), LOOP_ONE);
    assert_eq!(p.cycle_loop_mode(), LOOP_SHUFFLE);
    assert_eq!(p.cycle_loop_mode(), LOOP_SEQUENCE);
}

#[test]
fn jump_to_ignores_out_of_range_indices() {
    let mut p = playback(3);
    assert!(p.jump_to(-1).is_empty());
    assert!(p.jump_to(3).is_empty());
    assert_eq!(p.index(), 0);
    assert_eq!(loaded_index(&p.jump_to(2)), Some(2));
    assert_eq!(p.index(), 2);
}

#[test]
fn begin_current_always_pushes_volume_and_mute_first() {
    let mut p = playback(3);
    let actions = p.begin_current(false);
    assert_eq!(actions[0], Action::SetVolume(p.volume()));
    assert_eq!(actions[1], Action::SetMuted(p.muted()));
}

#[test]
fn shuffle_steps_by_any_forward_delta_stay_in_the_queue() {
    let mut s = snapshot(4);
    s.loop_mode = LOOP_SHUFFLE;
    let mut p = Playback::new(s, SEED);
    for _ in 0..20 {
        let before = p.index();
        let actions = p.step(i64::MAX, false);
        assert!(0 <= p.index() && p.index() < 4);
        assert_ne!(p.index(), before);
        assert_eq!(loaded_index(&actions), Some(p.index()));
    }
}
