//! Telemetry extraction and state tracking for a running rhythm-game client.
//!
//! The library holds the decisions and computations of the engine: signature
//! parsing and scanning, pointer-chain walking, the game-state machine, beatmap
//! metrics, accuracy, and the payloads sent to the score service. Reading the
//! observed process, timing and transport are left to the caller.
pub mod config;
pub mod decimal;
pub mod score;
pub mod signature;
pub mod state;
pub mod submit;
pub mod text;
pub mod tracker;
pub mod nps;
pub mod notes;
pub mod patterns;
pub mod memory;
