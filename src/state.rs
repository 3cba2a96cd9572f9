//! The game's status codes and the closed set of states they map to.
use vstd::prelude::*;

verus! {

/// What the game client is showing, decoded from its raw status code.
#[derive(Debug, PartialEq, Eq, Structural, Clone, Copy)]
pub enum GameState {
    PreSongSelect,
    Playing,
    SongSelect,
    EditorSongSelect,
    ResultScreen,
    MultiplayerLobbySelect,
    MultiplayerLobby,
    MultiplayerResultScreen,
    Unknown,
}

/// The total decoding of a raw status code; codes without a state are `Unknown`.
pub open spec fn game_state_of(code: u32) -> GameState {
    if code == 0 {
        GameState::PreSongSelect
    } else if code == 2 {
        GameState::Playing
    } else if code == 4 {
        GameState::EditorSongSelect
    } else if code == 5 {
        GameState::SongSelect
    } else if code == 7 {
        GameState::ResultScreen
    } else if code == 11 {
        GameState::MultiplayerLobbySelect
    } else if code == 12 {
        GameState::MultiplayerLobby
    } else if code == 14 {
        GameState::MultiplayerResultScreen
    } else {
        GameState::Unknown
    }
}

impl GameState {
    /// Decodes a raw status code. Never fails: unmapped codes give `Unknown`.
    pub fn from_code(code: u32) -> (r: GameState)
        ensures
            r == game_state_of(code),
    {
        match code {
            0 => GameState::PreSongSelect,
            2 => GameState::Playing,
            4 => GameState::EditorSongSelect,
            5 => GameState::SongSelect,
            7 => GameState::ResultScreen,
            11 => GameState::MultiplayerLobbySelect,
            12 => GameState::MultiplayerLobby,
            14 => GameState::MultiplayerResultScreen,
            _ => GameState::Unknown,
        }
    }

    pub fn is_playing(&self) -> (r: bool)
        ensures
            r == (*self == GameState::Playing),
    {
        matches!(self, GameState::Playing)
    }
}

impl From<u32> for GameState {
    fn from(value: u32) -> (r: GameState) {
        GameState::from_code(value)
    }
}

impl vstd::std_specs::convert::FromSpecImpl<u32> for GameState {
    open spec fn obeys_from_spec() -> bool {
        true
    }

    open spec fn from_spec(v: u32) -> GameState {
        game_state_of(v)
    }
}

impl Default for GameState {
    fn default() -> (r: GameState)
        ensures
            r == GameState::Unknown,
    {
        GameState::Unknown
    }
}

/// The ranking status of a beatmap, decoded from its raw code.
#[derive(Debug, PartialEq, Eq, Structural, Clone, Copy)]
pub enum BeatmapStatus {
    Unknown,
    Unsubmitted,
    Unranked,
    Unused,
    Ranked,
    Approved,
    Qualified,
    Loved,
}

/// The total decoding of a beatmap status code; other codes are `Unknown`.
pub open spec fn beatmap_status_of(code: i16) -> BeatmapStatus {
    if code == 1 {
        BeatmapStatus::Unsubmitted
    } else if code == 2 {
        BeatmapStatus::Unranked
    } else if code == 3 {
        BeatmapStatus::Unused
    } else if code == 4 {
        BeatmapStatus::Ranked
    } else if code == 5 {
        BeatmapStatus::Approved
    } else if code == 6 {
        BeatmapStatus::Qualified
    } else if code == 7 {
        BeatmapStatus::Loved
    } else {
        BeatmapStatus::Unknown
    }
}

impl BeatmapStatus {
    pub fn from_code(code: i16) -> (r: BeatmapStatus)
        ensures
            r == beatmap_status_of(code),
    {
        match code {
            1 => BeatmapStatus::Unsubmitted,
            2 => BeatmapStatus::Unranked,
            3 => BeatmapStatus::Unused,
            4 => BeatmapStatus::Ranked,
            5 => BeatmapStatus::Approved,
            6 => BeatmapStatus::Qualified,
            7 => BeatmapStatus::Loved,
            _ => BeatmapStatus::Unknown,
        }
    }
}

impl From<i16> for BeatmapStatus {
    fn from(value: i16) -> (r: BeatmapStatus) {
        BeatmapStatus::from_code(value)
    }
}

impl vstd::std_specs::convert::FromSpecImpl<i16> for BeatmapStatus {
    open spec fn obeys_from_spec() -> bool {
        true
    }

    open spec fn from_spec(v: i16) -> BeatmapStatus {
        beatmap_status_of(v)
    }
}

impl Default for BeatmapStatus {
    fn default() -> (r: BeatmapStatus)
        ensures
            r == BeatmapStatus::Unknown,
    {
        BeatmapStatus::Unknown
    }
}

} // verus!
