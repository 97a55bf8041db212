//! The lite player's playback state machine: queue position, loop modes,
//! shuffle, backing off after failed loads, and the resume seek.
//!
//! It never touches audio itself. Its methods return the `Action`s that the
//! caller carries out in order; the caller reports load results back through
//! `on_load_ok` / `on_load_failed`.
use vstd::prelude::*;
use crate::snapshot::{
    current_spec, normalize_spec, normalized, MiniSnapshot, LOOP_ONE, LOOP_SEQUENCE, LOOP_SHUFFLE,
};

verus! {

/// Consecutive failed loads after which the player stops trying.
pub const MAX_FAILURES: u32 = 3;

/// A resume position at or below this is not worth a seek.
pub const RESUME_THRESHOLD_MS: u64 = 500;

/// Ticks to wait for the source to open before giving up the resume seek.
pub const PENDING_SEEK_TRIES: u32 = 10;

pub const EMPTY_QUEUE_NOTICE: &'static str = "播放列表是空的，回到完整模式选歌";

pub const NOTHING_PLAYABLE_NOTICE: &'static str = "无可播放的曲目，回到完整模式重新解析";

/// What the state machine asks its caller to do.
#[derive(Debug, Clone, Copy, PartialEq)]
pub enum Action {
    /// Volume in thousandths.
    SetVolume(u32),
    SetMuted(bool),
    /// Load track `index`. Failing to resolve it counts as a failed load.
    Load { index: i64 },
    Play,
    Pause,
    /// Stop and show the notice; do not go on to another track.
    Halt(&'static str),
}

/// The playback state machine.
pub struct Playback {
    snapshot: MiniSnapshot,
    failures: u32,
    notice: Option<&'static str>,
    scrub: Option<u64>,
    pending_seek: Option<(u64, u32)>,
    rng: u64,
}

/// The state of a `Playback`.
pub struct PlaybackView {
    pub snapshot: MiniSnapshot,
    /// Consecutive failed loads.
    pub failures: u32,
    /// Why playback stopped; the next play request retries.
    pub notice: Option<&'static str>,
    /// Position shown while the progress bar is dragged.
    pub scrub: Option<u64>,
    /// Resume seek waiting for the source to open: target and ticks waited.
    pub pending_seek: Option<(u64, u32)>,
    /// xorshift state for shuffle.
    pub rng: u64,
}

impl View for Playback {
    type V = PlaybackView;

    closed spec fn view(&self) -> PlaybackView {
        PlaybackView {
            snapshot: self.snapshot,
            failures: self.failures,
            notice: self.notice,
            scrub: self.scrub,
            pending_seek: self.pending_seek,
            rng: self.rng,
        }
    }
}

/// One xorshift64 step.
pub open spec fn xorshift(x: u64) -> u64 {
    let a = x ^ (x << 13u64);
    let b = a ^ (a >> 7u64);
    b ^ (b << 17u64)
}

/// Shuffle's pick for a queue of `count` tracks: the next random state and
/// the index, never the current one when there is another.
pub open spec fn random_spec(v: PlaybackView, count: int) -> (u64, i64) {
    if count <= 1 {
        (v.rng, 0)
    } else {
        let r = xorshift(v.rng);
        let pick = (r % (count as u64)) as int;
        (
            r,
            (if pick == v.snapshot.index {
                (pick + 1) % count
            } else {
                pick
            }) as i64,
        )
    }
}

/// Starting the current track.
pub open spec fn begin_spec(v: PlaybackView, resume: bool) -> (PlaybackView, Seq<Action>) {
    let pre = seq![Action::SetVolume(v.snapshot.volume_permille), Action::SetMuted(v.snapshot.muted)];
    let base = PlaybackView { scrub: None, pending_seek: None, ..v };
    if current_spec(v.snapshot) is None {
        (
            PlaybackView { notice: Some(EMPTY_QUEUE_NOTICE), ..base },
            pre.push(Action::Halt(EMPTY_QUEUE_NOTICE)),
        )
    } else {
        let pending = if resume && v.snapshot.position_ms > RESUME_THRESHOLD_MS {
            Some((v.snapshot.position_ms, 0u32))
        } else {
            None
        };
        (
            PlaybackView { pending_seek: pending, ..base },
            pre.push(Action::Load { index: v.snapshot.index }).push(Action::Play),
        )
    }
}

/// Whether a step by `delta` moves by adding to the index: in a non-empty
/// queue, unless it is an automatic forward step in shuffle mode (which
/// picks at random instead).
pub open spec fn step_adds(v: PlaybackView, delta: i64, user: bool) -> bool {
    v.snapshot.tracks@.len() > 0 && !(v.snapshot.loop_mode == LOOP_SHUFFLE && !user && delta > 0)
}

/// Changing track by `delta`.
pub open spec fn step_spec(v: PlaybackView, delta: i64, user: bool) -> (PlaybackView, Seq<Action>) {
    let count = v.snapshot.tracks@.len() as int;
    if count == 0 {
        (v, Seq::empty())
    } else {
        let v1 = if user {
            PlaybackView { failures: 0, ..v }
        } else {
            v
        };
        let picked: (u64, i64) = if v.snapshot.loop_mode == LOOP_SHUFFLE && !user && delta > 0 {
            random_spec(v1, count)
        } else {
            (v1.rng, ((v.snapshot.index + delta) % count) as i64)
        };
        begin_spec(
            PlaybackView {
                rng: picked.0,
                snapshot: MiniSnapshot { index: picked.1, position_ms: 0, ..v.snapshot },
                ..v1
            },
            false,
        )
    }
}

/// A failed load.
pub open spec fn load_failed_spec(v: PlaybackView) -> (PlaybackView, Seq<Action>) {
    let f = (v.failures + 1) as u32;
    if f >= MAX_FAILURES || v.snapshot.tracks@.len() <= 1 {
        (
            PlaybackView { failures: f, notice: Some(NOTHING_PLAYABLE_NOTICE), ..v },
            seq![Action::Pause, Action::Halt(NOTHING_PLAYABLE_NOTICE)],
        )
    } else {
        step_spec(PlaybackView { failures: f, ..v }, 1, false)
    }
}

/// A track that played to its end.
pub open spec fn ended_spec(v: PlaybackView) -> (PlaybackView, Seq<Action>) {
    let v1 = PlaybackView { failures: 0, ..v };
    if v.snapshot.loop_mode == LOOP_ONE {
        begin_spec(
            PlaybackView { snapshot: MiniSnapshot { position_ms: 0, ..v.snapshot }, ..v1 },
            false,
        )
    } else {
        step_spec(v1, 1, false)
    }
}

pub open spec fn clamp_volume(x: int) -> u32 {
    if x < 0 {
        0
    } else if x > 1000 {
        1000
    } else {
        x as u32
    }
}

/// The loop mode after `cycle_loop_mode`.
pub open spec fn next_loop_mode(m: u8) -> u8 {
    if m == LOOP_SEQUENCE {
        LOOP_ONE
    } else if m == LOOP_ONE {
        LOOP_SHUFFLE
    } else {
        LOOP_SEQUENCE
    }
}

proof fn lemma_euclid_neg(a: int, m: int)
    requires
        a < 0,
        m > 0,
    ensures
        a % m == m - 1 - ((-a - 1) % m),
{
    let b = -a - 1;
    let q = b / m;
    let r = b % m;
    vstd::arithmetic::div_mod::lemma_fundamental_div_mod(b, m);
    assert(0 <= r < m);
    assert(a == (-q - 1) * m + (m - 1 - r)) by (nonlinear_arith)
        requires
            b == m * q + r,
            a == -b - 1,
    ;
    vstd::arithmetic::div_mod::lemma_fundamental_div_mod_converse(a, m, -q - 1, m - 1 - r);
}

/// `a.rem_euclid(m)`.
fn rem_euclid(a: i64, m: i64) -> (r: i64)
    requires
        m > 0,
    ensures
        r == a % m,
        0 <= r < m,
{
    if a >= 0 {
        ((a as u64) % (m as u64)) as i64
    } else {
        let b = (-(a + 1)) as u64;
        proof {
            lemma_euclid_neg(a as int, m as int);
        }
        m - 1 - ((b % (m as u64)) as i64)
    }
}

fn xorshift_exec(x: u64) -> (r: u64)
    ensures
        r == xorshift(x),
{
    let a = x ^ (x << 13u64);
    let b = a ^ (a >> 7u64);
    b ^ (b << 17u64)
}

impl Playback {
    /// A state machine for `snapshot`, normalized. `seed` is made odd, since
    /// xorshift stays at zero once there.
    pub fn new(snapshot: MiniSnapshot, seed: u64) -> (p: Self)
        requires
            snapshot.tracks@.len() <= i64::MAX,
        ensures
            p@ == (PlaybackView {
                snapshot: normalize_spec(snapshot),
                failures: 0,
                notice: None,
                scrub: None,
                pending_seek: None,
                rng: seed | 1u64,
            }),
    {
        let mut snapshot = snapshot;
        snapshot.normalize();
        Playback { snapshot, failures: 0, notice: None, scrub: None, pending_seek: None, rng: seed | 1 }
    }

    pub fn snapshot(&self) -> (r: &MiniSnapshot)
        ensures
            *r == self@.snapshot,
    {
        &self.snapshot
    }

    /// The snapshot, for fields such as `saved_at`. Change the index and the
    /// position through the methods, which reset what goes with them.
    pub fn snapshot_mut(&mut self) -> (r: &mut MiniSnapshot)
        ensures
            *r == old(self)@.snapshot,
            final(self)@ == (PlaybackView { snapshot: *final(r), ..old(self)@ }),
    {
        &mut self.snapshot
    }

    pub fn index(&self) -> (r: i64)
        ensures
            r == self@.snapshot.index,
    {
        self.snapshot.index
    }

    /// Consecutive failed loads.
    pub fn failures(&self) -> (r: u32)
        ensures
            r == self@.failures,
    {
        self.failures
    }

    pub fn count(&self) -> (r: i64)
        requires
            self@.snapshot.tracks@.len() <= i64::MAX,
        ensures
            r == self@.snapshot.tracks@.len(),
    {
        self.snapshot.tracks.len() as i64
    }

    pub fn notice(&self) -> (r: Option<&'static str>)
        ensures
            r == self@.notice,
    {
        self.notice
    }

    pub fn volume(&self) -> (r: u32)
        ensures
            r == self@.snapshot.volume_permille,
    {
        self.snapshot.volume_permille
    }

    pub fn muted(&self) -> (r: bool)
        ensures
            r == self@.snapshot.muted,
    {
        self.snapshot.muted
    }

    pub fn loop_mode(&self) -> (r: u8)
        ensures
            r == self@.snapshot.loop_mode,
    {
        self.snapshot.loop_mode
    }

    /// The position to show: the dragged one while the bar is dragged.
    pub fn display_position(&self) -> (r: u64)
        ensures
            r == (match self@.scrub {
                Some(s) => s,
                None => self@.snapshot.position_ms,
            }),
    {
        match self.scrub {
            Some(s) => s,
            None => self.snapshot.position_ms,
        }
    }

    pub fn scrub(&self) -> (r: Option<u64>)
        ensures
            r == self@.scrub,
    {
        self.scrub
    }

    pub fn set_scrub(&mut self, position: Option<u64>)
        ensures
            final(self)@ == (PlaybackView { scrub: position, ..old(self)@ }),
    {
        self.scrub = position;
    }

    /// The engine's position. Not to be called while the bar is dragged.
    pub fn set_position(&mut self, position: u64)
        ensures
            final(self)@ == (PlaybackView {
                snapshot: MiniSnapshot { position_ms: position, ..old(self)@.snapshot },
                ..old(self)@
            }),
    {
        self.snapshot.position_ms = position;
    }

    /// Starts the current track. With `resume` (just taken over from the
    /// full player) a position past half a second is sought once the source
    /// is open.
    pub fn begin_current(&mut self, resume: bool) -> (r: Vec<Action>)
        ensures
            (final(self)@, r@) == begin_spec(old(self)@, resume),
    {
        self.scrub = None;
        self.pending_seek = None;
        let mut actions = vec![
            Action::SetVolume(self.snapshot.volume_permille),
            Action::SetMuted(self.snapshot.muted),
        ];
        if self.snapshot.current().is_none() {
            self.notice = Some(EMPTY_QUEUE_NOTICE);
            actions.push(Action::Halt(EMPTY_QUEUE_NOTICE));
            return actions;
        }
        if resume && self.snapshot.position_ms > RESUME_THRESHOLD_MS {
            self.pending_seek = Some((self.snapshot.position_ms, 0));
        }
        actions.push(Action::Load { index: self.snapshot.index });
        actions.push(Action::Play);
        actions
    }

    /// A load succeeded: the notice goes.
    pub fn on_load_ok(&mut self)
        ensures
            final(self)@ == (PlaybackView { notice: None, ..old(self)@ }),
    {
        self.notice = None;
    }

    /// A load failed. The player moves on to the next track, and stops with a
    /// notice at the third failure in a row or when there is no other track.
    pub fn on_load_failed(&mut self) -> (r: Vec<Action>)
        requires
            old(self)@.failures < u32::MAX,
            old(self)@.snapshot.tracks@.len() <= i64::MAX,
            old(self)@.snapshot.index < i64::MAX,
        ensures
            (final(self)@, r@) == load_failed_spec(old(self)@),
    {
        self.failures = self.failures + 1;
        if self.failures >= MAX_FAILURES || self.snapshot.tracks.len() <= 1 {
            self.notice = Some(NOTHING_PLAYABLE_NOTICE);
            return vec![Action::Pause, Action::Halt(NOTHING_PLAYABLE_NOTICE)];
        }
        self.step(1, false)
    }

    /// Moves by `delta` tracks, wrapping around. `user` (the listener asked)
    /// clears the failure count and never shuffles; shuffle applies to
    /// automatic forward steps. An empty queue does nothing.
    pub fn step(&mut self, delta: i64, user: bool) -> (r: Vec<Action>)
        requires
            old(self)@.snapshot.tracks@.len() <= i64::MAX,
            step_adds(old(self)@, delta, user) ==> i64::MIN <= old(self)@.snapshot.index + delta
                <= i64::MAX,
        ensures
            (final(self)@, r@) == step_spec(old(self)@, delta, user),
    {
        let count = self.snapshot.tracks.len() as i64;
        if count == 0 {
            return Vec::new();
        }
        if user {
            self.failures = 0;
        }
        self.snapshot.index = if self.snapshot.loop_mode == LOOP_SHUFFLE && !user && delta > 0 {
            self.random_index(count)
        } else {
            rem_euclid(self.snapshot.index + delta, count)
        };
        self.snapshot.position_ms = 0;
        self.begin_current(false)
    }

    /// Jumps to track `index` (a click in the queue). Out of range does nothing.
    pub fn jump_to(&mut self, index: i64) -> (r: Vec<Action>)
        requires
            old(self)@.snapshot.tracks@.len() <= i64::MAX,
        ensures
            (index < 0 || index >= old(self)@.snapshot.tracks@.len()) ==> final(self)@ == old(self)@
                && r@.len() == 0,
            (0 <= index < old(self)@.snapshot.tracks@.len()) ==> (final(self)@, r@) == begin_spec(
                PlaybackView {
                    failures: 0,
                    snapshot: MiniSnapshot { index: index, position_ms: 0, ..old(self)@.snapshot },
                    ..old(self)@
                },
                false,
            ),
    {
        let count = self.snapshot.tracks.len() as i64;
        if count == 0 || index < 0 || index >= count {
            return Vec::new();
        }
        self.failures = 0;
        self.snapshot.index = index;
        self.snapshot.position_ms = 0;
        self.begin_current(false)
    }

    /// A track ended: repeat-one loads it again from the start, any other
    /// mode moves on one track.
    pub fn on_ended(&mut self) -> (r: Vec<Action>)
        requires
            old(self)@.snapshot.tracks@.len() <= i64::MAX,
            old(self)@.snapshot.index < i64::MAX,
        ensures
            (final(self)@, r@) == ended_spec(old(self)@),
    {
        self.failures = 0;
        if self.snapshot.loop_mode == LOOP_ONE {
            self.snapshot.position_ms = 0;
            return self.begin_current(false);
        }
        self.step(1, false)
    }

    /// Play/pause. After a stop with a notice it retries the current track.
    pub fn toggle_play(&mut self, is_playing: bool) -> (r: Vec<Action>)
        ensures
            old(self)@.notice is Some ==> (final(self)@, r@) == begin_spec(
                PlaybackView { failures: 0, notice: None, ..old(self)@ },
                false,
            ),
            old(self)@.notice is None ==> final(self)@ == old(self)@ && r@ == (if is_playing {
                seq![Action::Pause]
            } else {
                seq![Action::Play]
            }),
    {
        if self.notice.is_some() {
            self.failures = 0;
            self.notice = None;
            return self.begin_current(false);
        }
        if is_playing {
            vec![Action::Pause]
        } else {
            vec![Action::Play]
        }
    }

    /// Sequence, then repeat-one, then shuffle, then sequence again.
    pub fn cycle_loop_mode(&mut self) -> (r: u8)
        ensures
            r == next_loop_mode(old(self)@.snapshot.loop_mode),
            final(self)@ == (PlaybackView {
                snapshot: MiniSnapshot { loop_mode: r, ..old(self)@.snapshot },
                ..old(self)@
            }),
    {
        self.snapshot.loop_mode = if self.snapshot.loop_mode == LOOP_SEQUENCE {
            LOOP_ONE
        } else if self.snapshot.loop_mode == LOOP_ONE {
            LOOP_SHUFFLE
        } else {
            LOOP_SEQUENCE
        };
        self.snapshot.loop_mode
    }

    /// The resume seek to do now, if any: once the source is open (not busy,
    /// a known duration). After ten ticks of waiting it is given up.
    pub fn take_pending_seek(&mut self, busy: bool, duration_ms: u64) -> (r: Option<u64>)
        ensures
            match old(self)@.pending_seek {
                None => r is None && final(self)@ == old(self)@,
                Some((target, tries)) => if !busy && duration_ms > 0 {
                    r == Some(target) && final(self)@ == (PlaybackView {
                        pending_seek: None,
                        ..old(self)@
                    })
                } else if tries >= PENDING_SEEK_TRIES {
                    r is None && final(self)@ == (PlaybackView { pending_seek: None, ..old(self)@ })
                } else {
                    r is None && final(self)@ == (PlaybackView {
                        pending_seek: Some((target, (tries + 1) as u32)),
                        ..old(self)@
                    })
                },
            },
    {
        let (target, tries) = match self.pending_seek {
            Some(p) => p,
            None => {
                return None;
            },
        };
        if !busy && duration_ms > 0 {
            self.pending_seek = None;
            return Some(target);
        }
        if tries >= PENDING_SEEK_TRIES {
            self.pending_seek = None;
        } else {
            self.pending_seek = Some((target, tries + 1));
        }
        None
    }

    pub fn has_pending_seek(&self) -> (r: bool)
        ensures
            r == (self@.pending_seek is Some),
    {
        self.pending_seek.is_some()
    }

    /// Dragging the volume slider: the volume, clamped to 0..=1000, and
    /// unmuted, since dragging means "I want to hear it".
    pub fn set_volume_from_ratio(&mut self, ratio: i64) -> (r: Vec<Action>)
        ensures
            final(self)@ == (PlaybackView {
                snapshot: MiniSnapshot {
                    volume_permille: clamp_volume(ratio as int),
                    muted: false,
                    ..old(self)@.snapshot
                },
                ..old(self)@
            }),
            r@ == seq![Action::SetMuted(false), Action::SetVolume(clamp_volume(ratio as int))],
    {
        let v: u32 = if ratio < 0 {
            0
        } else if ratio > 1000 {
            1000
        } else {
            ratio as u32
        };
        self.snapshot.volume_permille = v;
        self.snapshot.muted = false;
        vec![Action::SetMuted(false), Action::SetVolume(v)]
    }

    /// The mouse wheel: volume moved by `delta`, clamped; mute is untouched.
    pub fn adjust_volume(&mut self, delta: i64) -> (r: Vec<Action>)
        ensures
            final(self)@ == (PlaybackView {
                snapshot: MiniSnapshot {
                    volume_permille: clamp_volume(old(self)@.snapshot.volume_permille + delta),
                    ..old(self)@.snapshot
                },
                ..old(self)@
            }),
            r@ == seq![
                Action::SetVolume(clamp_volume(old(self)@.snapshot.volume_permille + delta)),
            ],
    {
        let cur = self.snapshot.volume_permille as i64;
        let v: u32 = if delta < -cur {
            0
        } else if delta > 1000 - cur {
            1000
        } else {
            (cur + delta) as u32
        };
        self.snapshot.volume_permille = v;
        vec![Action::SetVolume(v)]
    }

    pub fn toggle_muted(&mut self) -> (r: Vec<Action>)
        ensures
            final(self)@ == (PlaybackView {
                snapshot: MiniSnapshot { muted: !old(self)@.snapshot.muted, ..old(self)@.snapshot },
                ..old(self)@
            }),
            r@ == seq![Action::SetMuted(!old(self)@.snapshot.muted)],
    {
        self.snapshot.muted = !self.snapshot.muted;
        vec![Action::SetMuted(self.snapshot.muted)]
    }

    fn random_index(&mut self, count: i64) -> (r: i64)
        requires
            count > 0,
        ensures
            (final(self).rng, r) == random_spec(old(self)@, count as int),
            final(self)@ == (PlaybackView { rng: final(self).rng, ..old(self)@ }),
    {
        if count <= 1 {
            return 0;
        }
        self.rng = xorshift_exec(self.rng);
        let mut pick = (self.rng % (count as u64)) as i64;
        if pick == self.snapshot.index {
            pick = (pick + 1) % count;
        }
        pick
    }
}

/// Shuffle on a queue of two or more tracks always picks another track in
/// the queue: it never replays the current one.
pub proof fn lemma_shuffle_never_replays(v: PlaybackView, count: int)
    requires
        count >= 2,
        count <= i64::MAX,
    ensures
        0 <= random_spec(v, count).1 < count,
        random_spec(v, count).1 != v.snapshot.index,
{
    let r = xorshift(v.rng);
    let pick = (r % (count as u64)) as int;
    assert(0 <= pick < count);
    if pick + 1 < count {
        vstd::arithmetic::div_mod::lemma_small_mod((pick + 1) as nat, count as nat);
    } else {
        vstd::arithmetic::div_mod::lemma_fundamental_div_mod_converse(pick + 1, count, 1, 0);
    }
}

/// Every track change (a step, a jump, an end, a failed load) leaves the
/// index inside a non-empty queue, drops the position, the scrub and any
/// resume seek of the previous track, and starts with the volume and the
/// mute state.
pub proof fn lemma_step_stays_in_queue(v: PlaybackView, delta: i64, user: bool)
    requires
        v.snapshot.tracks@.len() > 0,
        v.snapshot.tracks@.len() <= i64::MAX,
        normalized(v.snapshot),
        step_adds(v, delta, user) ==> i64::MIN <= v.snapshot.index + delta <= i64::MAX,
    ensures
        0 <= step_spec(v, delta, user).0.snapshot.index < v.snapshot.tracks@.len(),
        step_spec(v, delta, user).0.snapshot.position_ms == 0,
        (step_spec(v, delta, user).0.scrub is None),
        (step_spec(v, delta, user).0.pending_seek is None),
        step_spec(v, delta, user).1 == seq![
            Action::SetVolume(v.snapshot.volume_permille),
            Action::SetMuted(v.snapshot.muted),
            Action::Load { index: step_spec(v, delta, user).0.snapshot.index },
            Action::Play,
        ],
        user ==> step_spec(v, delta, user).0.failures == 0,
{
    let count = v.snapshot.tracks@.len() as int;
    if v.snapshot.loop_mode == LOOP_SHUFFLE && !user && delta > 0 {
        if count >= 2 {
            lemma_shuffle_never_replays(v, count);
        }
    }
}

/// An automatic forward step in shuffle mode, whatever `delta` is, lands
/// inside the queue on another track than the current one (the only one in
/// a queue of one), and loads it.
pub proof fn lemma_shuffle_step_moves(v: PlaybackView, delta: i64)
    requires
        v.snapshot.tracks@.len() > 0,
        v.snapshot.tracks@.len() <= i64::MAX,
        normalized(v.snapshot),
        v.snapshot.loop_mode == LOOP_SHUFFLE,
        delta > 0,
    ensures
        0 <= step_spec(v, delta, false).0.snapshot.index < v.snapshot.tracks@.len(),
        v.snapshot.tracks@.len() >= 2 ==> step_spec(v, delta, false).0.snapshot.index
            != v.snapshot.index,
        v.snapshot.tracks@.len() == 1 ==> step_spec(v, delta, false).0.snapshot.index == 0,
        step_spec(v, delta, false).1.contains(
            Action::Load { index: step_spec(v, delta, false).0.snapshot.index },
        ),
{
    lemma_step_stays_in_queue(v, delta, false);
    let count = v.snapshot.tracks@.len() as int;
    if count >= 2 {
        lemma_shuffle_never_replays(v, count);
    }
    assert(step_spec(v, delta, false).1[2] == Action::Load {
        index: step_spec(v, delta, false).0.snapshot.index,
    });
}

/// In sequence mode a step wraps around at both ends of the queue.
pub proof fn lemma_sequence_wraps(v: PlaybackView)
    requires
        v.snapshot.tracks@.len() > 0,
        v.snapshot.tracks@.len() <= i64::MAX,
        normalized(v.snapshot),
        v.snapshot.loop_mode == LOOP_SEQUENCE,
    ensures
        v.snapshot.index == v.snapshot.tracks@.len() - 1 ==> step_spec(v, 1, false).0.snapshot.index
            == 0,
        v.snapshot.index == 0 ==> step_spec(v, -1i64, true).0.snapshot.index
            == v.snapshot.tracks@.len() - 1,
{
    let count = v.snapshot.tracks@.len() as int;
    if v.snapshot.index == 0 {
        assert((0 + (-1)) % count == count - 1) by {
            vstd::arithmetic::div_mod::lemma_fundamental_div_mod_converse(-1, count, -1, count - 1);
        }
    }
    if v.snapshot.index == count - 1 {
        assert((count - 1 + 1) % count == 0) by {
            vstd::arithmetic::div_mod::lemma_fundamental_div_mod_converse(count, count, 1, 0);
        }
    }
}

/// The third failed load in a row stops the player with a notice instead of
/// skipping through the whole queue; so does any failure on a queue of one.
pub proof fn lemma_failures_halt(v: PlaybackView)
    requires
        v.failures < u32::MAX,
        v.failures + 1 >= MAX_FAILURES || v.snapshot.tracks@.len() <= 1,
    ensures
        load_failed_spec(v).1 == seq![Action::Pause, Action::Halt(NOTHING_PLAYABLE_NOTICE)],
        load_failed_spec(v).0.notice == Some(NOTHING_PLAYABLE_NOTICE),
        load_failed_spec(v).0.snapshot == v.snapshot,
{
}

/// Before the third failure in a row, a failed load moves on to another
/// track and counts the failure.
pub proof fn lemma_failure_skips(v: PlaybackView)
    requires
        v.failures + 1 < MAX_FAILURES,
        v.snapshot.tracks@.len() >= 2,
        v.snapshot.tracks@.len() <= i64::MAX,
        normalized(v.snapshot),
    ensures
        load_failed_spec(v).0.failures == v.failures + 1,
        load_failed_spec(v).0.snapshot.index != v.snapshot.index,
        load_failed_spec(v).1[2] == (Action::Load { index: load_failed_spec(v).0.snapshot.index }),
{
    let w = PlaybackView { failures: (v.failures + 1) as u32, ..v };
    let count = v.snapshot.tracks@.len() as int;
    lemma_step_stays_in_queue(w, 1, false);
    if v.snapshot.loop_mode == LOOP_SHUFFLE {
        lemma_shuffle_never_replays(w, count);
    } else {
        let i = v.snapshot.index as int;
        if i + 1 < count {
            vstd::arithmetic::div_mod::lemma_small_mod((i + 1) as nat, count as nat);
        } else {
            vstd::arithmetic::div_mod::lemma_fundamental_div_mod_converse(i + 1, count, 1, 0);
        }
    }
}

/// Three turns of the loop-mode button come back to the same mode.
pub proof fn lemma_loop_mode_cycle(m: u8)
    requires
        m <= 2,
    ensures
        next_loop_mode(next_loop_mode(next_loop_mode(m))) == m,
        next_loop_mode(m) != m,
{
}

/// Retrying after a stop clears the notice and the failure count and loads
/// the current track again.
pub proof fn lemma_retry_after_halt(v: PlaybackView)
    requires
        (v.notice is Some),
        (current_spec(v.snapshot) is Some),
    ensures
        (begin_spec((PlaybackView { failures: 0, notice: None, ..v }), false).0.notice is None),
        begin_spec((PlaybackView { failures: 0, notice: None, ..v }), false).0.failures == 0,
        begin_spec((PlaybackView { failures: 0, notice: None, ..v }), false).1[2] == (Action::Load {
            index: v.snapshot.index,
        }),
{
}

} // verus!
