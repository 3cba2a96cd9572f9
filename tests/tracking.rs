use cobra::state::{BeatmapStatus, GameState};
use cobra::tracker::{recovery_for, Fault, Phase, Recovery, ResultStep, Stage, Tracker};

#[test]
fn game_state_codes() {
    let codes = [0u32, 2, 5, 7, 99];
    let states: Vec<GameState> = codes.iter().map(|c| GameState::from(*c)).collect();
    assert_eq!(
        states,
        vec![
            GameState::PreSongSelect,
            GameState::Playing,
            GameState::SongSelect,
            GameState::ResultScreen,
            GameState::Unknown
        ]
    );
    assert_eq!(GameState::from_code(4), GameState::EditorSongSelect);
    assert_eq!(GameState::from_code(11), GameState::MultiplayerLobbySelect);
    assert_eq!(GameState::from_code(12), GameState::MultiplayerLobby);
    assert_eq!(GameState::from_code(14), GameState::MultiplayerResultScreen);
    assert_eq!(GameState::from_code(u32::MAX), GameState::Unknown);
    assert_eq!(GameState::default(), GameState::Unknown);
}

#[test]
fn beatmap_status_codes() {
    assert_eq!(BeatmapStatus::from(4i16), BeatmapStatus::Ranked);
    assert_eq!(BeatmapStatus::from(7i16), BeatmapStatus::Loved);
    assert_eq!(BeatmapStatus::from(0i16), BeatmapStatus::Unknown);
    assert_eq!(BeatmapStatus::from(-3i16), BeatmapStatus::Unknown);
    assert_eq!(BeatmapStatus::default(), BeatmapStatus::Unknown);
}

#[test]
fn retry_during_play_abandons_it() {
    let mut t = Tracker::new();
    assert!(t.play_started(GameState::Playing));
    t.begin_play(2);
    assert!(t.play_status(GameState::Playing));
    assert!(!t.play_sample(1000, 2));
    assert!(t.play_status(GameState::Playing));
    assert!(t.play_sample(1200, 3));
    assert_eq!(t.phase, Phase::Idle);
}

#[test]
fn retry_after_a_lower_reading_abandons_the_play() {
    let mut t = Tracker::new();
    t.begin_play(10);
    assert!(!t.play_sample(1000, 5));
    assert_eq!(t.last_retries, 5);
    assert!(t.play_sample(1100, 6));
    assert_eq!(t.phase, Phase::Idle);
}

#[test]
fn finished_play_reaches_result_screen() {
    let mut t = Tracker::new();
    t.begin_play(0);
    assert!(!t.play_sample(500, 0));
    assert!(!t.play_status(GameState::ResultScreen));
    assert_eq!(t.phase, Phase::AwaitingResult);
    assert_eq!(t.result_status(GameState::ResultScreen), ResultStep::Submit);
    assert_eq!(t.phase, Phase::Idle);
}

#[test]
fn play_left_for_song_select_gives_no_result() {
    let mut t = Tracker::new();
    t.begin_play(0);
    assert!(!t.play_status(GameState::SongSelect));
    assert_eq!(t.result_status(GameState::Playing), ResultStep::Wait);
    assert_eq!(t.phase, Phase::AwaitingResult);
    assert_eq!(t.result_status(GameState::SongSelect), ResultStep::NoResult);
    assert_eq!(t.phase, Phase::Idle);
}

#[test]
fn pause_is_recorded_once() {
    let mut t = Tracker::new();
    t.begin_play(0);
    t.play_sample(1000, 0);
    t.play_sample(1010, 0);
    assert_eq!(t.last_paused, 1010);
    t.play_sample(2000, 0);
    assert_eq!(t.last_paused, 1010);
    assert_eq!(t.last_time, 2000);
}

#[test]
fn beatmap_harvested_once_per_checksum() {
    let mut t = Tracker::new();
    let a = String::from("0123456789abcdef");
    let b = String::from("fedcba9876543210");
    assert!(t.beatmap_changed(&a));
    assert!(!t.beatmap_changed(&a));
    assert!(t.beatmap_changed(&b));
    assert!(t.beatmap_changed(&a));
    assert!(!t.beatmap_changed(&a));
}

#[test]
fn recovery_decisions() {
    assert_eq!(recovery_for(Stage::Track, Fault::ProcessNotFound), Recovery::Reattach);
    assert_eq!(recovery_for(Stage::Track, Fault::PlatformReadError), Recovery::Reattach);
    assert_eq!(recovery_for(Stage::Track, Fault::MemoryReadError), Recovery::ResumeIdle);
    assert_eq!(recovery_for(Stage::Resolve, Fault::SignatureNotFound), Recovery::Reattach);
    assert_eq!(recovery_for(Stage::Attach, Fault::MemoryReadError), Recovery::Reattach);
    let mut t = Tracker::new();
    t.begin_play(0);
    assert_eq!(t.fault(Fault::MemoryReadError), Recovery::ResumeIdle);
    assert_eq!(t.phase, Phase::Idle);
}
