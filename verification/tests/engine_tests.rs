use lightseek::engine::{
    command_wait, deck_for, frames_per_batch, pause_after_batch, should_publish_state, DeckSlot,
    EngineAction, EngineControl, EngineEvent,
};

#[test]
fn new_engine_is_idle() {
    let c = EngineControl::new();
    assert!(!c.playing);
    assert!(!c.deck_a_loaded && !c.deck_b_loaded);
    assert!(!c.crossfade_active);
    assert!(!c.visualization_active);
    assert!(c.running);
}

#[test]
fn load_into_empty_deck_only_loads() {
    let mut c = EngineControl::new();
    let acts = c.handle(EngineEvent::LoadRequested(DeckSlot::A));
    assert_eq!(acts, vec![EngineAction::LoadDeck(DeckSlot::A)]);
    assert!(!c.deck_a_loaded);
    let acts = c.handle(EngineEvent::LoadSucceeded(DeckSlot::A));
    assert!(acts.is_empty());
    assert!(c.deck_a_loaded);
}

#[test]
fn load_into_loaded_deck_stops_it_first() {
    let mut c = EngineControl::new();
    c.handle(EngineEvent::LoadSucceeded(DeckSlot::B));
    let acts = c.handle(EngineEvent::LoadRequested(DeckSlot::B));
    assert_eq!(acts, vec![EngineAction::StopDeck(DeckSlot::B), EngineAction::LoadDeck(DeckSlot::B)]);
}

#[test]
fn stop_releases_both_decks() {
    let mut c = EngineControl::new();
    c.handle(EngineEvent::LoadSucceeded(DeckSlot::A));
    c.handle(EngineEvent::LoadSucceeded(DeckSlot::B));
    c.handle(EngineEvent::Play);
    c.handle(EngineEvent::StartCrossfade);
    let acts = c.handle(EngineEvent::Stop);
    assert_eq!(
        acts,
        vec![
            EngineAction::PauseOutput,
            EngineAction::StopDeck(DeckSlot::A),
            EngineAction::StopDeck(DeckSlot::B),
            EngineAction::DropDecks
        ]
    );
    assert!(!c.playing && !c.deck_a_loaded && !c.deck_b_loaded && !c.crossfade_active);
    let again = c.handle(EngineEvent::Stop);
    assert_eq!(again, vec![EngineAction::PauseOutput, EngineAction::DropDecks]);
}

#[test]
fn crossfade_finish_promotes_deck_b() {
    let mut c = EngineControl::new();
    c.handle(EngineEvent::LoadSucceeded(DeckSlot::B));
    c.handle(EngineEvent::StartCrossfade);
    assert!(c.crossfade_active);
    let acts = c.handle(EngineEvent::CrossfadeFinished);
    assert_eq!(acts, vec![EngineAction::PromoteDeckB]);
    assert!(c.deck_a_loaded && !c.deck_b_loaded && !c.crossfade_active);
}

#[test]
fn visualization_switches() {
    let mut c = EngineControl::new();
    assert!(c.handle(EngineEvent::SetVisualization(true)).is_empty());
    assert!(c.visualization_active);
    assert_eq!(c.handle(EngineEvent::SetVisualization(false)), vec![EngineAction::ClearSpectrum]);
    assert!(c.handle(EngineEvent::VisualizationFlag(false)).is_empty());
    assert!(c.handle(EngineEvent::VisualizationFlag(true)).is_empty());
    assert!(c.visualization_active);
    assert_eq!(c.handle(EngineEvent::VisualizationFlag(false)), vec![EngineAction::ClearFftBuffer]);
}

#[test]
fn shutdown_stops_loaded_decks_and_exits() {
    let mut c = EngineControl::new();
    c.handle(EngineEvent::LoadSucceeded(DeckSlot::A));
    let acts = c.handle(EngineEvent::Shutdown);
    assert_eq!(acts, vec![EngineAction::StopDeck(DeckSlot::A), EngineAction::Exit]);
    assert!(!c.running);
}

#[test]
fn seek_and_levels() {
    let mut c = EngineControl::new();
    assert!(c.handle(EngineEvent::Seek).is_empty());
    assert_eq!(c.handle(EngineEvent::SetVolume), vec![EngineAction::StoreVolume]);
    assert_eq!(c.handle(EngineEvent::SetPlaybackRate), vec![EngineAction::StorePlaybackRate]);
    assert_eq!(c.handle(EngineEvent::CancelCrossfade), vec![EngineAction::ResetCrossfade]);
    assert_eq!(c.handle(EngineEvent::Play), vec![EngineAction::ResumeOutput]);
    assert!(c.playing);
    assert_eq!(c.handle(EngineEvent::Pause), vec![EngineAction::PauseOutput]);
    assert!(!c.playing);
}

#[test]
fn deck_selection() {
    assert_eq!(deck_for(Some("b")), DeckSlot::B);
    assert_eq!(deck_for(Some("B")), DeckSlot::B);
    assert_eq!(deck_for(Some("a")), DeckSlot::A);
    assert_eq!(deck_for(Some("bb")), DeckSlot::A);
    assert_eq!(deck_for(Some("")), DeckSlot::A);
    assert_eq!(deck_for(None), DeckSlot::A);
}

#[test]
fn batch_sizes_and_pauses() {
    assert_eq!(frames_per_batch(0), 0);
    assert_eq!(frames_per_batch(101), 50);
    assert_eq!(frames_per_batch(1024), 512);
    assert_eq!(frames_per_batch(192_000), 512);
    assert_eq!(pause_after_batch(Some(95_999)), 5);
    assert_eq!(pause_after_batch(Some(96_000)), 1);
    assert_eq!(pause_after_batch(None), 10);
    assert_eq!(command_wait(false), Some(50));
    assert_eq!(command_wait(true), None);
    assert!(should_publish_state(true, false, 33_000_000));
    assert!(!should_publish_state(true, false, 32_999_999));
    assert!(should_publish_state(false, true, 40_000_000));
    assert!(!should_publish_state(false, false, 40_000_000));
}
