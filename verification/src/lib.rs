//! Local speech synthesis: the decisions behind choosing a voice model,
//! guessing a language, reading WAV headers and managing voice presets.

pub mod text;
pub mod language;
pub mod order;
pub mod voices;
pub mod paths;
pub mod wav;
pub mod stamps;
pub mod presets;
pub mod json;
pub mod synth;
pub mod mcp;
pub mod session;

pub use language::{detect_language, kokoro_voice_lang};
pub use paths::{models_dir, models_dirs, repo_path};
pub use presets::{applies_to, voice_preset_support, EngineSupport};
pub use voices::{has_own_voice, kokoro_voices_in_repo, list_usable_voices, list_voices, resolve_engine, Engine};
pub use json::json_str;
