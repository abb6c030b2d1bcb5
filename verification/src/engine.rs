//! The audio engine's control state machine.
//!
//! The engine thread alternates between outside work (receiving commands,
//! decoding, writing samples to the device) and decisions. The decisions live
//! here as a function from the control state and one event to the next
//! control state and the actions the engine thread must carry out.

use vstd::prelude::*;

verus! {

/// One of the two decks.
#[derive(Clone, Copy, Debug, PartialEq, Eq, Structural)]
pub enum DeckSlot {
    A,
    B,
}

/// Everything the engine thread reports to the control state machine: the
/// commands sent from the user interface (without their sample-level
/// payloads) and the outcomes of the engine's own work.
#[derive(Clone, Copy, Debug, PartialEq, Eq, Structural)]
pub enum EngineEvent {
    /// A command asked to load a file into a deck.
    LoadRequested(DeckSlot),
    /// Loading a file into the deck succeeded.
    LoadSucceeded(DeckSlot),
    Play,
    Pause,
    Stop,
    Seek,
    SetVolume,
    SetPlaybackRate,
    StartCrossfade,
    CancelCrossfade,
    SetVisualization(bool),
    Shutdown,
    /// The crossfade position reached its end.
    CrossfadeFinished,
    /// The shared visualization flag as read at the start of a batch.
    VisualizationFlag(bool),
}

/// Work that the engine thread carries out for an event, in order.
#[derive(Clone, Copy, Debug, PartialEq, Eq, Structural)]
pub enum EngineAction {
    /// Signal the deck's decoder to stop.
    StopDeck(DeckSlot),
    /// Open the requested file into the deck; report `LoadSucceeded` on success.
    LoadDeck(DeckSlot),
    ResumeOutput,
    PauseOutput,
    /// Release both decks and their sample streams.
    DropDecks,
    /// Store the requested master volume (clamped to [0, 1]).
    StoreVolume,
    /// Store the requested playback rate (clamped to [0.5, 2]).
    StorePlaybackRate,
    /// Reset the crossfade position and set up the band crossfader and tempo matching.
    BeginCrossfade,
    /// Reset the crossfade position and release the band crossfader and tempo matching.
    ResetCrossfade,
    /// Clear the analysis buffer and the spectrum.
    ClearSpectrum,
    /// Clear the analysis buffer only.
    ClearFftBuffer,
    /// Deck B becomes deck A; the crossfade helpers are released.
    PromoteDeckB,
    /// Leave the engine loop.
    Exit,
}

/// The control state of the engine thread.
#[derive(Clone, Copy, Debug, PartialEq, Eq, Structural)]
pub struct EngineControl {
    pub playing: bool,
    pub deck_a_loaded: bool,
    pub deck_b_loaded: bool,
    pub crossfade_active: bool,
    pub visualization_active: bool,
    pub running: bool,
}

/// The actions that stop every loaded deck, deck A first.
pub open spec fn stop_loaded(s: EngineControl) -> Seq<EngineAction> {
    (if s.deck_a_loaded { seq![EngineAction::StopDeck(DeckSlot::A)] } else { Seq::empty() })
        + (if s.deck_b_loaded { seq![EngineAction::StopDeck(DeckSlot::B)] } else { Seq::empty() })
}

pub open spec fn slot_loaded(s: EngineControl, slot: DeckSlot) -> bool {
    match slot {
        DeckSlot::A => s.deck_a_loaded,
        DeckSlot::B => s.deck_b_loaded,
    }
}

pub open spec fn with_slot_loaded(s: EngineControl, slot: DeckSlot) -> EngineControl {
    match slot {
        DeckSlot::A => EngineControl { deck_a_loaded: true, ..s },
        DeckSlot::B => EngineControl { deck_b_loaded: true, ..s },
    }
}

/// The state machine: the next control state and the actions for one event.
pub open spec fn engine_step(s: EngineControl, e: EngineEvent) -> (EngineControl, Seq<EngineAction>) {
    match e {
        EngineEvent::LoadRequested(slot) => (
            s,
            (if slot_loaded(s, slot) { seq![EngineAction::StopDeck(slot)] } else { Seq::empty() })
                .push(EngineAction::LoadDeck(slot)),
        ),
        EngineEvent::LoadSucceeded(slot) => (with_slot_loaded(s, slot), Seq::empty()),
        EngineEvent::Play => (
            EngineControl { playing: true, ..s },
            seq![EngineAction::ResumeOutput],
        ),
        EngineEvent::Pause => (
            EngineControl { playing: false, ..s },
            seq![EngineAction::PauseOutput],
        ),
        EngineEvent::Stop => (
            EngineControl {
                playing: false,
                deck_a_loaded: false,
                deck_b_loaded: false,
                crossfade_active: false,
                ..s
            },
            seq![EngineAction::PauseOutput] + stop_loaded(s) + seq![EngineAction::DropDecks],
        ),
        EngineEvent::Seek => (s, Seq::empty()),
        EngineEvent::SetVolume => (s, seq![EngineAction::StoreVolume]),
        EngineEvent::SetPlaybackRate => (s, seq![EngineAction::StorePlaybackRate]),
        EngineEvent::StartCrossfade => (
            EngineControl { crossfade_active: true, ..s },
            seq![EngineAction::BeginCrossfade],
        ),
        EngineEvent::CancelCrossfade => (
            EngineControl { crossfade_active: false, ..s },
            seq![EngineAction::ResetCrossfade],
        ),
        EngineEvent::SetVisualization(active) => (
            EngineControl { visualization_active: active, ..s },
            if active { Seq::empty() } else { seq![EngineAction::ClearSpectrum] },
        ),
        EngineEvent::Shutdown => (
            EngineControl { running: false, ..s },
            stop_loaded(s).push(EngineAction::Exit),
        ),
        EngineEvent::CrossfadeFinished => (
            EngineControl {
                crossfade_active: false,
                deck_a_loaded: s.deck_b_loaded,
                deck_b_loaded: false,
                ..s
            },
            seq![EngineAction::PromoteDeckB],
        ),
        EngineEvent::VisualizationFlag(flag) => if flag == s.visualization_active {
            (s, Seq::empty())
        } else {
            (
                EngineControl { visualization_active: flag, ..s },
                if flag { Seq::empty() } else { seq![EngineAction::ClearFftBuffer] },
            )
        },
    }
}

impl EngineControl {
    /// The state of a freshly started engine: idle, no decks, no crossfade.
    pub fn new() -> (r: EngineControl)
        ensures
            r == (EngineControl {
                playing: false,
                deck_a_loaded: false,
                deck_b_loaded: false,
                crossfade_active: false,
                visualization_active: false,
                running: true,
            }),
    {
        EngineControl {
            playing: false,
            deck_a_loaded: false,
            deck_b_loaded: false,
            crossfade_active: false,
            visualization_active: false,
            running: true,
        }
    }

    fn push_stop_loaded(&self, actions: &mut Vec<EngineAction>)
        ensures
            final(actions)@ == old(actions)@ + stop_loaded(*self),
    {
        if self.deck_a_loaded {
            actions.push(EngineAction::StopDeck(DeckSlot::A));
        }
        if self.deck_b_loaded {
            actions.push(EngineAction::StopDeck(DeckSlot::B));
        }
    }

    /// Applies one event; returns the actions to carry out, in order.
    pub fn handle(&mut self, e: EngineEvent) -> (actions: Vec<EngineAction>)
        ensures
            (*final(self), actions@) == engine_step(*old(self), e),
    {
        let mut actions: Vec<EngineAction> = Vec::new();
        match e {
            EngineEvent::LoadRequested(slot) => {
                let loaded = match slot {
                    DeckSlot::A => self.deck_a_loaded,
                    DeckSlot::B => self.deck_b_loaded,
                };
                if loaded {
                    actions.push(EngineAction::StopDeck(slot));
                }
                actions.push(EngineAction::LoadDeck(slot));
            },
            EngineEvent::LoadSucceeded(slot) => {
                match slot {
                    DeckSlot::A => self.deck_a_loaded = true,
                    DeckSlot::B => self.deck_b_loaded = true,
                }
            },
            EngineEvent::Play => {
                self.playing = true;
                actions.push(EngineAction::ResumeOutput);
            },
            EngineEvent::Pause => {
                self.playing = false;
                actions.push(EngineAction::PauseOutput);
            },
            EngineEvent::Stop => {
                actions.push(EngineAction::PauseOutput);
                self.push_stop_loaded(&mut actions);
                actions.push(EngineAction::DropDecks);
                self.playing = false;
                self.deck_a_loaded = false;
                self.deck_b_loaded = false;
                self.crossfade_active = false;
            },
            EngineEvent::Seek => {},
            EngineEvent::SetVolume => {
                actions.push(EngineAction::StoreVolume);
            },
            EngineEvent::SetPlaybackRate => {
                actions.push(EngineAction::StorePlaybackRate);
            },
            EngineEvent::StartCrossfade => {
                self.crossfade_active = true;
                actions.push(EngineAction::BeginCrossfade);
            },
            EngineEvent::CancelCrossfade => {
                self.crossfade_active = false;
                actions.push(EngineAction::ResetCrossfade);
            },
            EngineEvent::SetVisualization(active) => {
                self.visualization_active = active;
                if !active {
                    actions.push(EngineAction::ClearSpectrum);
                }
            },
            EngineEvent::Shutdown => {
                self.push_stop_loaded(&mut actions);
                actions.push(EngineAction::Exit);
                self.running = false;
            },
            EngineEvent::CrossfadeFinished => {
                self.crossfade_active = false;
                self.deck_a_loaded = self.deck_b_loaded;
                self.deck_b_loaded = false;
                actions.push(EngineAction::PromoteDeckB);
            },
            EngineEvent::VisualizationFlag(flag) => {
                if flag != self.visualization_active {
                    self.visualization_active = flag;
                    if !flag {
                        actions.push(EngineAction::ClearFftBuffer);
                    }
                }
            },
        }
        actions
    }
}

/// The deck a load command targets: "b" or "B" selects deck B, anything
/// else (or nothing) deck A.
pub fn deck_for(deck: Option<&str>) -> (r: DeckSlot)
    ensures
        r == (if deck is Some && (deck->0@ == seq!['b'] || deck->0@ == seq!['B']) {
            DeckSlot::B
        } else {
            DeckSlot::A
        }),
{
    match deck {
        Some(d) => {
            let chars = crate::text::chars_of(d);
            if chars.len() == 1 && (chars[0] == 'b' || chars[0] == 'B') {
                assert(d@ == seq![chars@[0]]);
                DeckSlot::B
            } else {
                DeckSlot::A
            }
        },
        None => DeckSlot::A,
    }
}

/// Stereo frames mixed per batch: half the free output slots, at most 512.
pub fn frames_per_batch(free_slots: usize) -> (r: usize)
    ensures
        r == (if free_slots / 2 < 512 { free_slots / 2 } else { 512 }),
{
    let available = free_slots / 2;
    if available < 512 {
        available
    } else {
        512
    }
}

/// How long (in milliseconds) the engine sleeps after a batch while playing:
/// 5 while the output buffer holds more than half of its 192000 slots, 1 while
/// it runs low, 10 when there is no output buffer.
pub fn pause_after_batch(free_slots: Option<usize>) -> (ms: u64)
    ensures
        ms == match free_slots {
            Some(f) => if f < 96_000 { 5u64 } else { 1u64 },
            None => 10u64,
        },
{
    match free_slots {
        Some(f) => if f < 96_000 {
            5
        } else {
            1
        },
        None => 10,
    }
}

/// How long the engine blocks waiting for the first command of a round:
/// 50 ms when idle; not at all (`None`) while playing.
pub fn command_wait(playing: bool) -> (ms: Option<u64>)
    ensures
        ms == (if playing { None } else { Some(50u64) }),
{
    if playing {
        None
    } else {
        Some(50)
    }
}

/// Whether to publish a playback state: only while playing or crossfading,
/// and at most every 33 ms.
pub fn should_publish_state(playing: bool, crossfade_active: bool, elapsed_nanos: u128) -> (r: bool)
    ensures
        r == ((playing || crossfade_active) && elapsed_nanos >= 33_000_000),
{
    (playing || crossfade_active) && elapsed_nanos >= 33_000_000
}

/// Stopping twice is the same as stopping once.
pub proof fn lemma_stop_idempotent(s: EngineControl)
    ensures
        engine_step(engine_step(s, EngineEvent::Stop).0, EngineEvent::Stop).0
            == engine_step(s, EngineEvent::Stop).0,
{
}

/// After a stop, nothing plays, no deck is loaded and no crossfade runs; every
/// deck that was loaded is told to stop before the decks are released.
pub proof fn lemma_stop_releases_everything(s: EngineControl)
    ensures
        ({
            let (t, acts) = engine_step(s, EngineEvent::Stop);
            &&& !t.playing && !t.deck_a_loaded && !t.deck_b_loaded && !t.crossfade_active
            &&& s.deck_a_loaded ==> acts.contains(EngineAction::StopDeck(DeckSlot::A))
            &&& s.deck_b_loaded ==> acts.contains(EngineAction::StopDeck(DeckSlot::B))
            &&& acts.last() == EngineAction::DropDecks
        }),
{
    let acts = engine_step(s, EngineEvent::Stop).1;
    if s.deck_a_loaded {
        assert(acts[1] == EngineAction::StopDeck(DeckSlot::A));
    }
    if s.deck_b_loaded {
        let i: int = if s.deck_a_loaded { 2 } else { 1 };
        assert(acts[i] == EngineAction::StopDeck(DeckSlot::B));
    }
}

/// A finished crossfade makes the incoming deck the primary one and leaves
/// deck B empty.
pub proof fn lemma_crossfade_finish_promotes(s: EngineControl)
    ensures
        engine_step(s, EngineEvent::CrossfadeFinished).0.deck_a_loaded == s.deck_b_loaded,
        !engine_step(s, EngineEvent::CrossfadeFinished).0.deck_b_loaded,
        !engine_step(s, EngineEvent::CrossfadeFinished).0.crossfade_active,
{
}

/// Play followed by pause leaves the engine paused with everything else as
/// it was.
pub proof fn lemma_play_then_pause(s: EngineControl)
    ensures
        engine_step(engine_step(s, EngineEvent::Play).0, EngineEvent::Pause).0
            == (EngineControl { playing: false, ..s }),
{
}

/// A load request never marks a deck loaded by itself, and it stops a deck
/// that is loaded before loading into it.
pub proof fn lemma_load_stops_previous(s: EngineControl, slot: DeckSlot)
    ensures
        engine_step(s, EngineEvent::LoadRequested(slot)).0 == (s),
        slot_loaded(s, slot) ==> engine_step(s, EngineEvent::LoadRequested(slot)).1
            == seq![EngineAction::StopDeck(slot), EngineAction::LoadDeck(slot)],
        !slot_loaded(s, slot) ==> engine_step(s, EngineEvent::LoadRequested(slot)).1
            == seq![EngineAction::LoadDeck(slot)],
{
}

/// Shutting down stops every loaded deck and then leaves the loop.
pub proof fn lemma_shutdown_exits(s: EngineControl)
    ensures
        !engine_step(s, EngineEvent::Shutdown).0.running,
        engine_step(s, EngineEvent::Shutdown).1 == stop_loaded(s).push(EngineAction::Exit),
{
}

/// Cancelling a crossfade ends it and changes nothing else; the only action
/// is to reset the crossfade.
pub proof fn lemma_cancel_crossfade(s: EngineControl)
    ensures
        !engine_step(s, EngineEvent::CancelCrossfade).0.crossfade_active,
        engine_step(s, EngineEvent::CancelCrossfade).0 == (EngineControl { crossfade_active: false, ..s }),
        engine_step(s, EngineEvent::CancelCrossfade).1 == seq![EngineAction::ResetCrossfade],
{
}

/// Starting a crossfade and cancelling it leaves the engine as it was, but
/// with no crossfade running.
pub proof fn lemma_start_then_cancel(s: EngineControl)
    ensures
        engine_step(engine_step(s, EngineEvent::StartCrossfade).0, EngineEvent::CancelCrossfade).0
            == (EngineControl { crossfade_active: false, ..s }),
        engine_step(s, EngineEvent::StartCrossfade).0.crossfade_active,
{
}

/// A crossfade runs after an event exactly when the event starts one, or one
/// was running and the event is not a cancel, a stop or the crossfade's end.
pub proof fn lemma_crossfade_flag(s: EngineControl, e: EngineEvent)
    ensures
        engine_step(s, e).0.crossfade_active == (e == EngineEvent::StartCrossfade || (s.crossfade_active
            && e != EngineEvent::CancelCrossfade && e != EngineEvent::Stop && e != EngineEvent::CrossfadeFinished)),
{
}

/// The engine plays after an event exactly when the event is play, or it was
/// playing and the event is neither pause nor stop.
pub proof fn lemma_playing_flag(s: EngineControl, e: EngineEvent)
    ensures
        engine_step(s, e).0.playing == (e == EngineEvent::Play || (s.playing && e != EngineEvent::Pause
            && e != EngineEvent::Stop)),
{
}

/// Only a shutdown ends the engine loop, and it always does: the loop keeps
/// running after every other event, and the exit action comes exactly with a
/// shutdown.
pub proof fn lemma_running_flag(s: EngineControl, e: EngineEvent)
    ensures
        engine_step(s, e).0.running == (s.running && e != EngineEvent::Shutdown),
        engine_step(s, e).1.contains(EngineAction::Exit) == (e == EngineEvent::Shutdown),
{
    lemma_stop_loaded_only_stops(s);
    let acts = engine_step(s, e).1;
    if e == EngineEvent::Shutdown {
        assert(acts[acts.len() - 1] == EngineAction::Exit);
    } else if e == EngineEvent::Stop {
        assert forall|i: int| 0 <= i < acts.len() implies acts[i] != EngineAction::Exit by {
            if 1 <= i < acts.len() - 1 {
                assert(acts[i] == stop_loaded(s)[i - 1]);
            }
        }
    } else if let EngineEvent::LoadRequested(slot) = e {
        assert forall|i: int| 0 <= i < acts.len() implies acts[i] != EngineAction::Exit by {}
    }
}

proof fn lemma_stop_loaded_only_stops(s: EngineControl)
    ensures
        forall|i: int| 0 <= i < stop_loaded(s).len() ==> (#[trigger] stop_loaded(s)[i]) is StopDeck,
        stop_loaded(s).len() <= 2,
{
}

/// Deck A holds a track after an event exactly when a load into A succeeded,
/// or a finished crossfade moved deck B's track into it, or it held one and
/// the event is neither a stop nor a finished crossfade. Deck B holds one
/// exactly when a load into B succeeded, or it held one and the event is
/// neither a stop nor a finished crossfade.
pub proof fn lemma_loaded_flags(s: EngineControl, e: EngineEvent)
    ensures
        engine_step(s, e).0.deck_a_loaded == (e == EngineEvent::LoadSucceeded(DeckSlot::A)
            || (e == EngineEvent::CrossfadeFinished && s.deck_b_loaded)
            || (s.deck_a_loaded && e != EngineEvent::Stop && e != EngineEvent::CrossfadeFinished)),
        engine_step(s, e).0.deck_b_loaded == (e == EngineEvent::LoadSucceeded(DeckSlot::B)
            || (s.deck_b_loaded && e != EngineEvent::Stop && e != EngineEvent::CrossfadeFinished)),
{
}

/// Visualization is on after an event exactly when the event switched it on
/// (by command or by the shared flag), or it was on and the event did not
/// switch it off.
pub proof fn lemma_visualization_flag(s: EngineControl, e: EngineEvent)
    ensures
        engine_step(s, e).0.visualization_active == (match e {
            EngineEvent::SetVisualization(a) => a,
            EngineEvent::VisualizationFlag(f) => f,
            _ => s.visualization_active,
        }),
{
}

/// Output is resumed exactly on play and paused exactly on pause or stop;
/// the decks are released exactly on stop.
pub proof fn lemma_output_actions(s: EngineControl, e: EngineEvent)
    ensures
        engine_step(s, e).1.contains(EngineAction::ResumeOutput) == (e == EngineEvent::Play),
        engine_step(s, e).1.contains(EngineAction::PauseOutput) == (e == EngineEvent::Pause || e == EngineEvent::Stop),
        engine_step(s, e).1.contains(EngineAction::DropDecks) == (e == EngineEvent::Stop),
{
    lemma_stop_loaded_only_stops(s);
    let acts = engine_step(s, e).1;
    if e == EngineEvent::Stop {
        assert(acts[0] == EngineAction::PauseOutput);
        assert(acts[acts.len() - 1] == EngineAction::DropDecks);
        assert forall|i: int| 0 <= i < acts.len() implies acts[i] != EngineAction::ResumeOutput by {
            if 1 <= i < acts.len() - 1 {
                assert(acts[i] == stop_loaded(s)[i - 1]);
            }
        }
    } else if e == EngineEvent::Shutdown {
        assert forall|i: int| 0 <= i < acts.len() implies acts[i] is StopDeck || acts[i] == EngineAction::Exit by {
            if i < acts.len() - 1 {
                assert(acts[i] == stop_loaded(s)[i]);
            }
        }
    } else if e == EngineEvent::Play {
        assert(acts[0] == EngineAction::ResumeOutput);
    } else if e == EngineEvent::Pause {
        assert(acts[0] == EngineAction::PauseOutput);
    } else if let EngineEvent::LoadRequested(slot) = e {
        assert forall|i: int| 0 <= i < acts.len() implies acts[i] is StopDeck || acts[i] is LoadDeck by {}
    }
}

} // verus!
