//! The audio engine as a state machine. The engine decides which tracks
//! sound, at what volume, and which have ended; the players themselves
//! live with the caller, who knows each by the handle that the engine gave
//! it, carries the engine's orders out and reports what the players say.
//!
//! Volumes are thousandths (see `level`), times are milliseconds.

use crate::dmx_types::{AudioAction, AudioTrack};
use crate::level::LEVEL_FULL;
use crate::search::{first_match, is_first, lemma_first_match_none, lemma_first_match_some};
use crate::text::{decimal_digits, decimal_string};
use crate::ui::ConsoleState;
use vstd::prelude::*;
use vstd::string::*;

verus! {

/// The time between two steps of a fade-in.
pub const RAMP_STEP: u32 = 200;

/// A track that sounds.
#[derive(Clone, Copy, Debug, PartialEq, Eq, Structural)]
pub struct ActivePlayback {
    /// The name of its player.
    pub handle: u64,
    pub track_id: u32,
    /// The track's own volume.
    pub volume: u32,
    pub master_volume: u32,
    pub action: AudioAction,
}

/// What a player says of itself.
#[derive(Clone, Copy, Debug, PartialEq, Eq, Structural)]
pub struct PlayerStatus {
    pub handle: u64,
    pub paused: bool,
    /// Whether the player has played all it was given.
    pub empty: bool,
    /// How far into the track the player is.
    pub position: u32,
}

/// A rise of the volume from silence to `target` over `duration`, in
/// steps of `step`.
#[derive(Clone, Copy, Debug, PartialEq, Eq, Structural)]
pub struct Ramp {
    pub target: u32,
    pub duration: u32,
    pub step: u32,
}

/// The order to set a player's volume.
#[derive(Clone, Copy, Debug, PartialEq, Eq, Structural)]
pub struct VolumeOrder {
    pub handle: u64,
    pub volume: u32,
}

/// The order to start a track: which players to halt first, the handle
/// of the new player, the volume it starts at, where in the track it
/// starts, and the fade-in, if there is one.
#[derive(Debug)]
pub struct PlayOrder {
    pub halt: Vec<u64>,
    pub handle: u64,
    pub initial_volume: u32,
    pub seek: u32,
    pub ramp: Option<Ramp>,
}

/// A track's volume under the master: their product, held to the largest
/// number a volume can be.
pub open spec fn effective_volume(volume: u32, master: u32) -> u32 {
    let v = (volume as nat * master as nat) / (LEVEL_FULL as nat);
    if v > u32::MAX {
        u32::MAX
    } else {
        v as u32
    }
}

/// Computes a track's volume under the master.
pub fn effective(volume: u32, master: u32) -> (r: u32)
    ensures
        r == effective_volume(volume, master),
{
    assert((volume as u64) * (master as u64) <= 0xffff_ffff * 0xffff_ffff) by (nonlinear_arith)
        requires
            volume <= 0xffff_ffff,
            master <= 0xffff_ffff,
    ;
    let v = (volume as u64) * (master as u64) / (LEVEL_FULL as u64);
    if v > u32::MAX as u64 {
        u32::MAX
    } else {
        v as u32
    }
}

/// The statuses of the player `handle`.
pub open spec fn status_with(handle: u64) -> spec_fn(PlayerStatus) -> bool {
    |s: PlayerStatus| s.handle == handle
}

/// What the player `handle` says, by the first status that is its own.
pub open spec fn status_of(statuses: Seq<PlayerStatus>, handle: u64) -> Option<PlayerStatus> {
    match first_match(statuses, status_with(handle)) {
        Some(i) => Some(statuses[i]),
        None => None,
    }
}

/// Whether a playback has come to its end: its player is not paused and
/// has played all.
pub open spec fn finished(p: ActivePlayback, statuses: Seq<PlayerStatus>) -> bool {
    match status_of(statuses, p.handle) {
        Some(s) => !s.paused && s.empty,
        None => false,
    }
}

/// Whether a playback sounds: its player is neither paused nor through.
pub open spec fn sounding(p: ActivePlayback, statuses: Seq<PlayerStatus>) -> bool {
    match status_of(statuses, p.handle) {
        Some(s) => !s.paused && !s.empty,
        None => false,
    }
}

/// The playbacks that have not come to their end.
pub open spec fn unfinished(statuses: Seq<PlayerStatus>) -> spec_fn(ActivePlayback) -> bool {
    |p: ActivePlayback| !finished(p, statuses)
}

/// The playbacks that have come to their end.
pub open spec fn done(statuses: Seq<PlayerStatus>) -> spec_fn(ActivePlayback) -> bool {
    |p: ActivePlayback| finished(p, statuses)
}

/// The playbacks that sound.
pub open spec fn live(statuses: Seq<PlayerStatus>) -> spec_fn(ActivePlayback) -> bool {
    |p: ActivePlayback| sounding(p, statuses)
}

/// The playbacks of another track than `track_id`.
pub open spec fn other_than(track_id: u32) -> spec_fn(ActivePlayback) -> bool {
    |p: ActivePlayback| p.track_id != track_id
}

/// The playbacks of the track `track_id`.
pub open spec fn of_track(track_id: u32) -> spec_fn(ActivePlayback) -> bool {
    |p: ActivePlayback| p.track_id == track_id
}

/// The handle of a playback.
pub open spec fn handle_of() -> spec_fn(ActivePlayback) -> u64 {
    |p: ActivePlayback| p.handle
}

/// The notice that a playback has ended.
pub open spec fn notice_of() -> spec_fn(ActivePlayback) -> (u32, AudioAction) {
    |p: ActivePlayback| (p.track_id, p.action)
}

/// The order that gives a playback its volume under the master.
pub open spec fn order_of() -> spec_fn(ActivePlayback) -> VolumeOrder {
    |p: ActivePlayback|
        VolumeOrder { handle: p.handle, volume: effective_volume(p.volume, p.master_volume) }
}

/// A playback under another master volume.
pub open spec fn under(master: u32) -> spec_fn(ActivePlayback) -> ActivePlayback {
    |p: ActivePlayback| ActivePlayback { master_volume: master, ..p }
}

/// Where the player of a playback is, by the statuses; 0 without a
/// status.
pub open spec fn position_of(statuses: Seq<PlayerStatus>) -> spec_fn(ActivePlayback) -> u32 {
    |p: ActivePlayback|
        match status_of(statuses, p.handle) {
            Some(s) => s.position,
            None => 0u32,
        }
}

/// Whether one of `active` is a sounding playback of `track_id`.
pub open spec fn playing(active: Seq<ActivePlayback>, track_id: u32, statuses: Seq<PlayerStatus>) -> bool {
    exists|i: int|
        0 <= i < active.len() && (#[trigger] active[i]).track_id == track_id && sounding(
            active[i],
            statuses,
        )
}

/// The order that starts `track` under `master` on the player `handle`,
/// but for the players to halt: a track without fade-in starts at its
/// volume under the master at once; one with a fade-in starts silent and
/// rises there.
pub open spec fn start_of(track: AudioTrack, master: u32, handle: u64, order: PlayOrder) -> bool {
    let target = effective_volume(track.volume, master);
    &&& order.handle == handle
    &&& order.seek == track.start_point
    &&& track.fade_in == 0 ==> order.initial_volume == target && order.ramp is None
    &&& track.fade_in > 0 ==> order.initial_volume == 0 && order.ramp == Some(
        Ramp { target, duration: track.fade_in, step: RAMP_STEP },
    )
}

fn look_up(statuses: &Vec<PlayerStatus>, handle: u64) -> (r: Option<PlayerStatus>)
    ensures
        r == status_of(statuses@, handle),
{
    let mut i: usize = 0;
    while i < statuses.len()
        invariant
            i <= statuses@.len(),
            forall|j: int| 0 <= j < i ==> !status_with(handle)(#[trigger] statuses@[j]),
        decreases statuses@.len() - i,
    {
        if statuses[i].handle == handle {
            proof {
                assert(is_first(statuses@, status_with(handle), i as int));
                lemma_first_match_some(statuses@, status_with(handle), i as int);
            }
            return Some(statuses[i]);
        }
        i = i + 1;
    }
    proof {
        lemma_first_match_none(statuses@, status_with(handle));
    }
    None
}

/// The engine: the playbacks that sound, in the order they were started,
/// and the notices of those that ended and were not fetched yet.
#[derive(Clone, Debug)]
pub struct AudioEngine {
    active_players: Vec<ActivePlayback>,
    ended_tracks: Vec<(u32, AudioAction)>,
    next_handle: u64,
}

impl AudioEngine {
    /// The playbacks that sound.
    pub closed spec fn active(&self) -> Seq<ActivePlayback> {
        self.active_players@
    }

    /// The notices that wait to be fetched.
    pub closed spec fn ended(&self) -> Seq<(u32, AudioAction)> {
        self.ended_tracks@
    }

    /// The handle that the next playback gets.
    pub closed spec fn upcoming(&self) -> u64 {
        self.next_handle
    }

    /// Every playback's handle was given out before the upcoming one, and
    /// a playback that was started later has the higher handle. So no two
    /// playbacks share a handle.
    pub open spec fn wf(&self) -> bool {
        &&& below(self.active(), self.upcoming())
        &&& rising(self.active())
    }

    /// An engine without playbacks and notices.
    pub fn new() -> (r: Result<AudioEngine, String>)
        ensures
            r matches Ok(e) && e.active() == Seq::<ActivePlayback>::empty() && e.ended() == Seq::<
                (u32, AudioAction),
            >::empty() && e.upcoming() == 0 && e.wf(),
    {
        Ok(AudioEngine { active_players: Vec::new(), ended_tracks: Vec::new(), next_handle: 0 })
    }

    /// Ends every playback of the track `track_id`. Returns the handles of
    /// the players to halt and let go. After this the track does not
    /// play, whatever its players say.
    pub fn stop(&mut self, track_id: u32) -> (halt: Vec<u64>)
        ensures
            final(self).active() == old(self).active().filter(other_than(track_id)),
            halt@ == old(self).active().filter(of_track(track_id)).map_values(handle_of()),
            final(self).ended() == old(self).ended(),
            final(self).upcoming() == old(self).upcoming(),
            old(self).wf() ==> final(self).wf(),
            forall|statuses: Seq<PlayerStatus>| !playing(final(self).active(), track_id, statuses),
    {
        let ghost before = self.active_players@;
        let mut kept: Vec<ActivePlayback> = Vec::new();
        let mut halt: Vec<u64> = Vec::new();
        let mut i: usize = 0;
        proof {
            reveal(Seq::filter);
            assert(before.take(0).filter(other_than(track_id)) =~= Seq::empty());
            assert(before.take(0).filter(of_track(track_id)).map_values(handle_of()) =~= Seq::empty(
            ));
        }
        while i < self.active_players.len()
            invariant
                i <= before.len(),
                self.active_players@ == before,
                kept@ == before.take(i as int).filter(other_than(track_id)),
                halt@ == before.take(i as int).filter(of_track(track_id)).map_values(handle_of()),
            decreases before.len() - i,
        {
            let p = self.active_players[i];
            proof {
                reveal(Seq::filter);
                assert(before.take(i + 1).drop_last() =~= before.take(i as int));
                assert(before.take(i + 1).last() == p);
            }
            if p.track_id == track_id {
                halt.push(p.handle);
                assert(halt@ =~= before.take(i + 1).filter(of_track(track_id)).map_values(
                    handle_of(),
                ));
            } else {
                kept.push(p);
            }
            i = i + 1;
        }
        assert(before.take(i as int) =~= before);
        proof {
            lemma_filter_keeps(before, other_than(track_id), self.next_handle);
            assert forall|statuses: Seq<PlayerStatus>| !playing(kept@, track_id, statuses) by {
                assert forall|j: int| 0 <= j < kept@.len() implies (#[trigger] kept@[j]).track_id
                    != track_id by {
                    before.lemma_filter_pred(other_than(track_id), j);
                }
            }
        }
        self.active_players = kept;
        halt
    }

    /// Ends every playback. Returns the handles of the players to halt
    /// and let go.
    pub fn stop_all(&mut self) -> (halt: Vec<u64>)
        ensures
            final(self).active() == Seq::<ActivePlayback>::empty(),
            halt@ == old(self).active().map_values(handle_of()),
            final(self).ended() == old(self).ended(),
            final(self).upcoming() == old(self).upcoming(),
            final(self).wf(),
    {
        let mut halt: Vec<u64> = Vec::new();
        let mut i: usize = 0;
        while i < self.active_players.len()
            invariant
                i <= self.active_players@.len(),
                self.active_players@ == old(self).active_players@,
                halt@ == self.active_players@.take(i as int).map_values(handle_of()),
            decreases self.active_players@.len() - i,
        {
            halt.push(self.active_players[i].handle);
            assert(halt@ =~= self.active_players@.take(i + 1).map_values(handle_of()));
            i = i + 1;
        }
        assert(self.active_players@.take(i as int) =~= self.active_players@);
        self.active_players.clear();
        halt
    }

    /// Starts `track` under the master volume `master_volume`: playbacks
    /// of the same track end, and a new one begins on a fresh handle. The
    /// order says what the new player is to do. Nothing happens, and
    /// nothing is ordered, once all handles are given out.
    pub fn play(&mut self, track: &AudioTrack, master_volume: u32) -> (order: Option<PlayOrder>)
        ensures
            final(self).ended() == old(self).ended(),
            old(self).upcoming() == u64::MAX ==> order is None && final(self).active() == old(
                self,
            ).active() && final(self).upcoming() == old(self).upcoming(),
            old(self).upcoming() < u64::MAX ==> {
                &&& order matches Some(o)
                &&& start_of(*track, master_volume, old(self).upcoming(), o)
                &&& o.halt@ == old(self).active().filter(of_track(track.id)).map_values(handle_of())
                &&& final(self).upcoming() == old(self).upcoming() + 1
                &&& final(self).active() == old(self).active().filter(other_than(track.id)).push(
                    ActivePlayback {
                        handle: old(self).upcoming(),
                        track_id: track.id,
                        volume: track.volume,
                        master_volume,
                        action: track.action,
                    },
                )
            },
            old(self).wf() ==> final(self).wf(),
    {
        if self.next_handle == u64::MAX {
            return None;
        }
        let halt = self.stop(track.id);
        let handle = self.next_handle;
        self.next_handle = handle + 1;
        let target = effective(track.volume, master_volume);
        let (initial_volume, ramp) = if track.fade_in > 0 {
            (0, Some(Ramp { target, duration: track.fade_in, step: RAMP_STEP }))
        } else {
            (target, None)
        };
        self.active_players.push(
            ActivePlayback {
                handle,
                track_id: track.id,
                volume: track.volume,
                master_volume,
                action: track.action,
            },
        );
        Some(PlayOrder { halt, handle, initial_volume, seek: track.start_point, ramp })
    }

    /// One tick. By what the players say, playbacks that came to their
    /// end leave, each with a notice in the order they were started;
    /// those that sound get their volume under the master ordered anew.
    /// A playback that is paused, or of whose player nothing is said,
    /// stays as it is.
    pub fn update(&mut self, statuses: &Vec<PlayerStatus>) -> (orders: Vec<VolumeOrder>)
        ensures
            final(self).active() == old(self).active().filter(unfinished(statuses@)),
            final(self).ended() == old(self).ended() + old(self).active().filter(
                done(statuses@),
            ).map_values(notice_of()),
            orders@ == old(self).active().filter(live(statuses@)).map_values(order_of()),
            final(self).upcoming() == old(self).upcoming(),
            old(self).wf() ==> final(self).wf(),
    {
        let ghost before = self.active_players@;
        let ghost waiting = self.ended_tracks@;
        proof {
            lemma_filter_keeps(before, unfinished(statuses@), self.next_handle);
        }
        let mut kept: Vec<ActivePlayback> = Vec::new();
        let mut orders: Vec<VolumeOrder> = Vec::new();
        let mut i: usize = 0;
        proof {
            reveal(Seq::filter);
            assert(before.take(0).filter(unfinished(statuses@)) =~= Seq::empty());
            assert(before.take(0).filter(live(statuses@)).map_values(order_of()) =~= Seq::empty());
            assert(waiting + before.take(0).filter(done(statuses@)).map_values(notice_of())
                =~= waiting);
        }
        while i < self.active_players.len()
            invariant
                i <= before.len(),
                self.active_players@ == before,
                self.next_handle == old(self).next_handle,
                kept@ == before.take(i as int).filter(unfinished(statuses@)),
                orders@ == before.take(i as int).filter(live(statuses@)).map_values(order_of()),
                self.ended_tracks@ == waiting + before.take(i as int).filter(
                    done(statuses@),
                ).map_values(notice_of()),
            decreases before.len() - i,
        {
            let p = self.active_players[i];
            proof {
                reveal(Seq::filter);
                assert(before.take(i + 1).drop_last() =~= before.take(i as int));
                assert(before.take(i + 1).last() == p);
            }
            match look_up(statuses, p.handle) {
                Some(s) => {
                    if s.paused {
                        kept.push(p);
                    } else if s.empty {
                        self.ended_tracks.push((p.track_id, p.action));
                        assert(self.ended_tracks@ =~= waiting + before.take(i + 1).filter(
                            done(statuses@),
                        ).map_values(notice_of()));
                    } else {
                        orders.push(
                            VolumeOrder {
                                handle: p.handle,
                                volume: effective(p.volume, p.master_volume),
                            },
                        );
                        assert(orders@ =~= before.take(i + 1).filter(live(statuses@)).map_values(
                            order_of(),
                        ));
                        kept.push(p);
                    }
                },
                None => {
                    kept.push(p);
                },
            }
            i = i + 1;
        }
        assert(before.take(i as int) =~= before);
        self.active_players = kept;
        orders
    }

    /// Puts every playback under the master volume `volume` and orders
    /// each player's volume accordingly.
    pub fn set_master_volume(&mut self, volume: u32) -> (orders: Vec<VolumeOrder>)
        ensures
            final(self).active() == old(self).active().map_values(under(volume)),
            orders@ == final(self).active().map_values(order_of()),
            final(self).ended() == old(self).ended(),
            final(self).upcoming() == old(self).upcoming(),
            old(self).wf() ==> final(self).wf(),
    {
        let ghost before = self.active_players@;
        let mut orders: Vec<VolumeOrder> = Vec::new();
        let mut i: usize = 0;
        while i < self.active_players.len()
            invariant
                i <= before.len(),
                self.active_players@.len() == before.len(),
                self.next_handle == old(self).next_handle,
                self.ended_tracks@ == old(self).ended_tracks@,
                forall|j: int|
                    0 <= j < before.len() ==> #[trigger] self.active_players@[j] == if j < i {
                        under(volume)(before[j])
                    } else {
                        before[j]
                    },
                orders@.len() == i,
                forall|j: int|
                    0 <= j < i ==> #[trigger] orders@[j] == order_of()(under(volume)(before[j])),
            decreases before.len() - i,
        {
            self.active_players[i].master_volume = volume;
            let p = self.active_players[i];
            orders.push(VolumeOrder { handle: p.handle, volume: effective(p.volume, volume) });
            i = i + 1;
        }
        assert(self.active_players@ =~= before.map_values(under(volume)));
        assert(orders@ =~= self.active_players@.map_values(order_of()));
        orders
    }

    /// How far each playback is, in the order they were started, by what
    /// the players say.
    pub fn get_current_playback(&self, statuses: &Vec<PlayerStatus>) -> (positions: Vec<u32>)
        ensures
            positions@ == self.active().map_values(position_of(statuses@)),
    {
        let mut positions: Vec<u32> = Vec::new();
        let mut i: usize = 0;
        while i < self.active_players.len()
            invariant
                i <= self.active_players@.len(),
                positions@ == self.active_players@.take(i as int).map_values(
                    position_of(statuses@),
                ),
            decreases self.active_players@.len() - i,
        {
            let position = match look_up(statuses, self.active_players[i].handle) {
                Some(s) => s.position,
                None => 0,
            };
            positions.push(position);
            assert(positions@ =~= self.active_players@.take(i + 1).map_values(
                position_of(statuses@),
            ));
            i = i + 1;
        }
        assert(self.active_players@.take(i as int) =~= self.active_players@);
        positions
    }

    /// Fetches the notices of the playbacks that ended: each is handed
    /// out once, so a second call straight after brings none.
    pub fn get_ended_tracks(&mut self) -> (notices: Vec<(u32, AudioAction)>)
        ensures
            notices@ == old(self).ended(),
            final(self).ended() == Seq::<(u32, AudioAction)>::empty(),
            final(self).active() == old(self).active(),
            final(self).upcoming() == old(self).upcoming(),
    {
        let mut notices: Vec<(u32, AudioAction)> = Vec::new();
        std::mem::swap(&mut notices, &mut self.ended_tracks);
        notices
    }

    /// Whether the track `track_id` plays: one of its playbacks sounds.
    pub fn is_playing(&self, track_id: u32, statuses: &Vec<PlayerStatus>) -> (r: bool)
        ensures
            r == playing(self.active(), track_id, statuses@),
    {
        let mut i: usize = 0;
        while i < self.active_players.len()
            invariant
                i <= self.active_players@.len(),
                forall|j: int|
                    0 <= j < i ==> !((#[trigger] self.active_players@[j]).track_id == track_id
                        && sounding(self.active_players@[j], statuses@)),
            decreases self.active_players@.len() - i,
        {
            let p = self.active_players[i];
            if p.track_id == track_id {
                match look_up(statuses, p.handle) {
                    Some(s) => {
                        if !s.paused && !s.empty {
                            return true;
                        }
                    },
                    None => {},
                }
            }
            i = i + 1;
        }
        false
    }
}

/// Every handle of `active` lies below `bound`.
pub open spec fn below(active: Seq<ActivePlayback>, bound: u64) -> bool {
    forall|i: int| 0 <= i < active.len() ==> (#[trigger] active[i]).handle < bound
}

/// The handles of `active` go up from each playback to the next.
pub open spec fn rising(active: Seq<ActivePlayback>) -> bool {
    forall|i: int, j: int|
        0 <= i < j < active.len() ==> (#[trigger] active[i]).handle < (#[trigger] active[j]).handle
}

/// Leaving playbacks out keeps the handles below their bound and rising.
pub proof fn lemma_filter_keeps(
    active: Seq<ActivePlayback>,
    p: spec_fn(ActivePlayback) -> bool,
    bound: u64,
)
    ensures
        below(active, bound) ==> below(active.filter(p), bound),
        rising(active) ==> rising(active.filter(p)),
    decreases active.len(),
{
    reveal(Seq::filter);
    if active.len() > 0 {
        let rest = active.drop_last();
        let f = rest.filter(p);
        lemma_filter_keeps(rest, p, bound);
        if below(active, bound) {
            assert forall|i: int| 0 <= i < rest.len() implies (#[trigger] rest[i]).handle
                < bound by {
                assert(rest[i] == active[i]);
            }
            assert forall|i: int| 0 <= i < active.filter(p).len() implies (
            #[trigger] active.filter(p)[i]).handle < bound by {
                if i < f.len() {
                } else {
                    assert(active.filter(p)[i] == active[active.len() - 1]);
                }
            }
        }
        if rising(active) {
            assert forall|i: int, j: int| 0 <= i < j < rest.len() implies (#[trigger] rest[i]).handle
                < (#[trigger] rest[j]).handle by {
                assert(rest[i] == active[i]);
                assert(rest[j] == active[j]);
            }
            assert forall|i: int, j: int| 0 <= i < j < active.filter(p).len() implies (
            #[trigger] active.filter(p)[i]).handle < (#[trigger] active.filter(p)[j]).handle by {
                if j < f.len() {
                } else {
                    rest.lemma_filter_contains_rev(p, f[i]);
                    let k = choose|k: int| 0 <= k < rest.len() && rest[k] == f[i];
                    assert(active[k] == f[i]);
                    assert(active[k].handle < active[active.len() - 1].handle);
                }
            }
        }
    }
}

/// Of the playbacks that a tick looks at, one that came to its end is
/// among those that the tick gives notice of, and not among those that it
/// keeps.
pub proof fn lemma_ended_once(
    active: Seq<ActivePlayback>,
    statuses: Seq<PlayerStatus>,
    k: int,
)
    requires
        0 <= k < active.len(),
        finished(active[k], statuses),
    ensures
        active.filter(done(statuses)).map_values(notice_of()).contains(
            (active[k].track_id, active[k].action),
        ),
        !active.filter(unfinished(statuses)).contains(active[k]),
{
    let ended = active.filter(done(statuses));
    active.lemma_filter_contains_rev(done(statuses), active[k]);
    assert(active.contains(active[k]));
    lemma_filter_has(active, done(statuses), k);
    let at = choose|at: int| 0 <= at < ended.len() && ended[at] == active[k];
    assert(ended.map_values(notice_of())[at] == (active[k].track_id, active[k].action));
    if active.filter(unfinished(statuses)).contains(active[k]) {
        let kept = active.filter(unfinished(statuses));
        let j = choose|j: int| 0 <= j < kept.len() && kept[j] == active[k];
        active.lemma_filter_pred(unfinished(statuses), j);
    }
}

proof fn lemma_filter_has(s: Seq<ActivePlayback>, p: spec_fn(ActivePlayback) -> bool, k: int)
    requires
        0 <= k < s.len(),
        p(s[k]),
    ensures
        exists|at: int| 0 <= at < s.filter(p).len() && s.filter(p)[at] == s[k],
    decreases s.len(),
{
    reveal(Seq::filter);
    if k == s.len() - 1 {
        let f = s.drop_last().filter(p);
        assert(s.filter(p) == f.push(s.last()));
        assert(s.filter(p)[f.len() as int] == s[k]);
    } else {
        lemma_filter_has(s.drop_last(), p, k);
        let f = s.drop_last().filter(p);
        let at = choose|at: int| 0 <= at < f.len() && f[at] == s.drop_last()[k];
        assert(s.filter(p)[at] == s[k]);
    }
}

/// The tracks with the identifier `id`.
pub open spec fn track_with(id: u32) -> spec_fn(AudioTrack) -> bool {
    |t: AudioTrack| t.id == id
}

/// The place of the track that follows the track `track_id`: the one
/// after the first track with that identifier, the first after the last.
pub open spec fn follower(tracks: Seq<AudioTrack>, track_id: u32) -> Option<int> {
    match first_match(tracks, track_with(track_id)) {
        Some(i) => Some((i + 1) % (tracks.len() as int)),
        None => None,
    }
}

/// Where the track lies that follows the track `track_id`.
pub fn next_track_after(tracks: &Vec<AudioTrack>, track_id: u32) -> (r: Option<usize>)
    ensures
        match r {
            Some(i) => follower(tracks@, track_id) == Some(i as int) && i < tracks@.len(),
            None => follower(tracks@, track_id) is None,
        },
{
    let mut i: usize = 0;
    while i < tracks.len()
        invariant
            i <= tracks@.len(),
            forall|j: int| 0 <= j < i ==> !track_with(track_id)(#[trigger] tracks@[j]),
        decreases tracks@.len() - i,
    {
        if tracks[i].id == track_id {
            proof {
                assert(is_first(tracks@, track_with(track_id), i as int));
                lemma_first_match_some(tracks@, track_with(track_id), i as int);
            }
            let next = if i + 1 == tracks.len() {
                0
            } else {
                i + 1
            };
            proof {
                if i + 1 == tracks@.len() {
                    vstd::arithmetic::div_mod::lemma_mod_self_0(tracks@.len() as int);
                } else {
                    vstd::arithmetic::div_mod::lemma_small_mod(
                        (i + 1) as nat,
                        tracks@.len() as nat,
                    );
                }
            }
            return Some(next);
        }
        i = i + 1;
    }
    proof {
        lemma_first_match_none(tracks@, track_with(track_id));
    }
    None
}

/// The places of the tracks that the first `count` notices start: for
/// each notice of a track that is to be followed, the track after it.
pub open spec fn followers(tracks: Seq<AudioTrack>, notices: Seq<(u32, AudioAction)>, count: int) -> Seq<
    usize,
>
    decreases count,
{
    if count <= 0 {
        Seq::empty()
    } else {
        let before = followers(tracks, notices, count - 1);
        match follower(tracks, notices[count - 1].0) {
            Some(next) if notices[count - 1].1 == AudioAction::Follow => before.push(next as usize),
            _ => before,
        }
    }
}

/// Every notice of a track that is to be followed, and is in the list,
/// starts the track after it.
pub proof fn lemma_followed_starts_next(
    tracks: Seq<AudioTrack>,
    notices: Seq<(u32, AudioAction)>,
    count: int,
    k: int,
)
    requires
        0 <= k < count <= notices.len(),
        notices[k].1 == AudioAction::Follow,
        follower(tracks, notices[k].0) is Some,
    ensures
        followers(tracks, notices, count).contains(follower(tracks, notices[k].0)->0 as usize),
    decreases count,
{
    let before = followers(tracks, notices, count - 1);
    let all = followers(tracks, notices, count);
    if k == count - 1 {
        assert(all == before.push(follower(tracks, notices[k].0)->0 as usize));
        assert(all[before.len() as int] == follower(tracks, notices[k].0)->0 as usize);
    } else {
        lemma_followed_starts_next(tracks, notices, count - 1, k);
        let at = choose|at: int|
            0 <= at < before.len() && before[at] == follower(tracks, notices[k].0)->0 as usize;
        assert(all[at] == before[at]);
    }
}

/// A track that is to be followed starts the next one exactly once: the
/// fetch that brings its notice alone starts that one track, and a fetch
/// that brings nothing starts none.
pub proof fn lemma_follow_once(tracks: Seq<AudioTrack>, track_id: u32)
    requires
        follower(tracks, track_id) is Some,
    ensures
        followers(tracks, seq![(track_id, AudioAction::Follow)], 1) == seq![
            follower(tracks, track_id)->0 as usize,
        ],
        followers(tracks, Seq::<(u32, AudioAction)>::empty(), 0) == Seq::<usize>::empty(),
{
    let notices = seq![(track_id, AudioAction::Follow)];
    assert(followers(tracks, notices, 0) == Seq::<usize>::empty());
    assert(followers(tracks, notices, 1) == followers(tracks, notices, 0).push(
        follower(tracks, track_id)->0 as usize,
    ));
    assert(followers(tracks, notices, 1) =~= seq![follower(tracks, track_id)->0 as usize]);
}

/// Follows ended tracks. Returns the places of the tracks to start now,
/// one for each notice of a track that is to be followed and is still in
/// the list; the last of them becomes the track that the next start
/// takes.
pub fn audio_follow(state: &mut ConsoleState, notices: &Vec<(u32, AudioAction)>) -> (start: Vec<
    usize,
>)
    ensures
        start@ == followers(old(state).audio_tracks@, notices@, notices@.len() as int),
        *final(state) == (ConsoleState {
            audio_index: if start@.len() > 0 {
                start@.last()
            } else {
                old(state).audio_index
            },
            ..*old(state)
        }),
        forall|i: int| 0 <= i < start@.len() ==> #[trigger] start@[i] < old(state).audio_tracks@.len(),
{
    let mut start: Vec<usize> = Vec::new();
    let mut i: usize = 0;
    while i < notices.len()
        invariant
            i <= notices@.len(),
            start@ == followers(old(state).audio_tracks@, notices@, i as int),
            *state == (ConsoleState {
                audio_index: if start@.len() > 0 {
                    start@.last()
                } else {
                    old(state).audio_index
                },
                ..*old(state)
            }),
            forall|j: int|
                0 <= j < start@.len() ==> #[trigger] start@[j] < old(state).audio_tracks@.len(),
        decreases notices@.len() - i,
    {
        let notice = notices[i];
        match notice.1 {
            AudioAction::Follow => {
                match next_track_after(&state.audio_tracks, notice.0) {
                    Some(next) => {
                        start.push(next);
                        state.audio_index = next;
                    },
                    None => {},
                }
            },
            _ => {},
        }
        i = i + 1;
    }
    start
}

/// The place that a start moves on to from `index` among `track_count`
/// tracks.
pub open spec fn index_after(index: usize, track_count: usize) -> int {
    (if index == usize::MAX {
        usize::MAX as int
    } else {
        index + 1
    }) % (track_count as int)
}

/// Moves the place of the next start one on, around the end.
pub fn increment_audio_index(state: &mut ConsoleState, track_count: usize)
    requires
        track_count > 0,
    ensures
        *final(state) == (ConsoleState {
            audio_index: index_after(old(state).audio_index, track_count) as usize,
            ..*old(state)
        }),
{
    state.audio_index = state.audio_index.saturating_add(1) % track_count;
}

/// Moves the place of the next start one back, around the beginning.
pub fn decrement_audio_index(state: &mut ConsoleState, track_count: usize)
    requires
        track_count > 0,
    ensures
        *final(state) == (ConsoleState {
            audio_index: if old(state).audio_index == 0 {
                (track_count - 1) as usize
            } else {
                (old(state).audio_index - 1) as usize
            },
            ..*old(state)
        }),
{
    if state.audio_index == 0 {
        state.audio_index = track_count - 1;
    } else {
        state.audio_index = state.audio_index - 1;
    }
}

/// The places of the tracks that a start at `index` sets off: the track
/// there, and the one after it where the first is to continue into it.
pub open spec fn set_off(tracks: Seq<AudioTrack>, index: usize) -> Seq<usize> {
    if index < tracks.len() {
        if tracks[index as int].action == AudioAction::Continue && index + 1 < tracks.len() {
            seq![index, (index + 1) as usize]
        } else {
            seq![index]
        }
    } else {
        Seq::empty()
    }
}

/// The start button. Returns the places of the tracks to start now and
/// moves the place of the next start one on. Without tracks nothing
/// happens.
pub fn audio_go(state: &mut ConsoleState, track_count: usize) -> (start: Vec<usize>)
    ensures
        track_count == 0 ==> start@.len() == 0 && *final(state) == *old(state),
        track_count > 0 ==> start@ == set_off(old(state).audio_tracks@, old(state).audio_index)
            && *final(state) == (ConsoleState {
            audio_index: index_after(old(state).audio_index, track_count) as usize,
            ..*old(state)
        }),
{
    let mut start: Vec<usize> = Vec::new();
    if track_count > 0 {
        let index = state.audio_index;
        if index < state.audio_tracks.len() {
            start.push(index);
            match state.audio_tracks[index].action {
                AudioAction::Continue => {
                    if index + 1 < state.audio_tracks.len() {
                        start.push(index + 1);
                    }
                },
                _ => {},
            }
        }
        assert(start@ =~= set_off(old(state).audio_tracks@, old(state).audio_index));
        increment_audio_index(state, track_count);
    }
    start
}

/// A time as minutes and seconds: the minutes, a colon and the seconds in
/// two digits.
pub open spec fn duration_text(millis: u32) -> Seq<char> {
    let seconds = (millis / 1000) as nat;
    decimal_digits(seconds / 60) + seq![':'] + (if seconds % 60 < 10 {
        seq!['0']
    } else {
        Seq::<char>::empty()
    }) + decimal_digits(seconds % 60)
}

/// Renders a time as minutes and seconds.
pub fn format_duration(millis: u32) -> (s: String)
    ensures
        s@ == duration_text(millis),
{
    let seconds = (millis / 1000) as u64;
    let mut s = decimal_string(seconds / 60);
    proof {
        reveal_strlit(":");
        reveal_strlit("0");
    }
    s.append(":");
    if seconds % 60 < 10 {
        s.append("0");
    }
    let rest = decimal_string(seconds % 60);
    s.append(rest.as_str());
    assert(s@ =~= duration_text(millis));
    s
}

} // verus!
