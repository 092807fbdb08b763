//! Settings of the application, their defaults and their validation.
//!
//! Reading and writing the settings file happens outside; so does the
//! comparison of the (floating-point) silence threshold with its bounds,
//! whose outcome validation takes as a [`ThresholdCheck`].

use vstd::prelude::*;
use vstd::string::*;

verus! {

/// The global hotkeys, as written in the settings file (`"Cmd+Shift+T"`).
#[derive(Debug, Clone)]
pub struct HotkeyConfig {
    pub start_transcription: String,
    pub stop_transcription: String,
}

/// The default hotkey that starts transcription.
pub fn default_start_hotkey() -> (r: String)
    ensures
        r@ == "Cmd+Shift+T"@,
{
    String::from_str("Cmd+Shift+T")
}

/// The default hotkey that stops transcription.
pub fn default_stop_hotkey() -> (r: String)
    ensures
        r@ == "Cmd+Shift+S"@,
{
    String::from_str("Cmd+Shift+S")
}

impl Default for HotkeyConfig {
    fn default() -> (r: Self)
        ensures
            r.start_transcription@ == "Cmd+Shift+T"@,
            r.stop_transcription@ == "Cmd+Shift+S"@,
    {
        HotkeyConfig {
            start_transcription: default_start_hotkey(),
            stop_transcription: default_stop_hotkey(),
        }
    }
}

/// Transcription settings. The silence threshold is kept by the caller.
#[derive(Debug, Clone)]
pub struct TranscriptionConfig {
    pub model: String,
    pub language: String,
    pub use_gpu: bool,
    pub streaming: bool,
    pub chunk_duration_ms: u64,
}

/// The default model.
pub fn default_model() -> (r: String)
    ensures
        r@ == "small.en"@,
{
    String::from_str("small.en")
}

/// The default language code.
pub fn default_language() -> (r: String)
    ensures
        r@ == "en"@,
{
    String::from_str("en")
}

/// Whether the GPU is used by default.
pub fn default_use_gpu() -> (r: bool)
    ensures
        r,
{
    true
}

/// Whether streaming mode is on by default.
pub fn default_streaming() -> (r: bool)
    ensures
        r,
{
    true
}

/// The default chunk duration, in milliseconds: short for low latency.
pub fn default_chunk_duration() -> (r: u64)
    ensures
        r == 300,
{
    300
}

impl Default for TranscriptionConfig {
    fn default() -> (r: Self)
        ensures
            r.model@ == "small.en"@,
            r.language@ == "en"@,
            r.use_gpu,
            r.streaming,
            r.chunk_duration_ms == 300,
    {
        TranscriptionConfig {
            model: default_model(),
            language: default_language(),
            use_gpu: default_use_gpu(),
            streaming: default_streaming(),
            chunk_duration_ms: default_chunk_duration(),
        }
    }
}

/// All settings.
#[derive(Debug, Clone)]
pub struct Config {
    pub hotkeys: HotkeyConfig,
    pub transcription: TranscriptionConfig,
}

impl Default for Config {
    fn default() -> (r: Self)
        ensures
            r.hotkeys.start_transcription@ == "Cmd+Shift+T"@,
            r.hotkeys.stop_transcription@ == "Cmd+Shift+S"@,
            r.transcription.model@ == "small.en"@,
            r.transcription.language@ == "en"@,
            r.transcription.use_gpu,
            r.transcription.streaming,
            r.transcription.chunk_duration_ms == 300,
    {
        Config { hotkeys: HotkeyConfig::default(), transcription: TranscriptionConfig::default() }
    }
}

/// Where the silence threshold lies with respect to its bounds 0 and 1.
#[derive(Debug, Clone, Copy, PartialEq, Eq, Structural)]
pub enum ThresholdCheck {
    /// Within [0, 1].
    InRange,
    /// Below 0.
    Negative,
    /// Above 1.
    AboveOne,
}

/// Why a configuration is refused.
#[derive(Debug, Clone, Copy, PartialEq, Eq, Structural)]
pub enum ConfigError {
    ChunkDurationZero,
    ChunkDurationTooLong,
    ThresholdNegative,
    ThresholdAboveOne,
    EmptyModel,
    EmptyLanguage,
    EmptyStartHotkey,
    EmptyStopHotkey,
}

/// Longest accepted chunk duration, in milliseconds.
pub const MAX_CHUNK_DURATION_MS: u64 = 5000;

/// The sentence that says what `e` finds wrong.
pub open spec fn config_error_text(e: ConfigError) -> Seq<char> {
    match e {
        ConfigError::ChunkDurationZero => "chunk_duration_ms must be greater than 0"@,
        ConfigError::ChunkDurationTooLong => "chunk_duration_ms must be <= 5000 (5 seconds)"@,
        ConfigError::ThresholdNegative => "silence_threshold must be >= 0.0"@,
        ConfigError::ThresholdAboveOne => "silence_threshold must be <= 1.0"@,
        ConfigError::EmptyModel => "model name cannot be empty"@,
        ConfigError::EmptyLanguage => "language code cannot be empty"@,
        ConfigError::EmptyStartHotkey => "start_transcription hotkey cannot be empty"@,
        ConfigError::EmptyStopHotkey => "stop_transcription hotkey cannot be empty"@,
    }
}

impl ConfigError {
    /// A sentence that says what is wrong.
    pub fn message(&self) -> (r: String)
        ensures
            r@ == config_error_text(*self),
    {
        let text = match self {
            ConfigError::ChunkDurationZero => "chunk_duration_ms must be greater than 0",
            ConfigError::ChunkDurationTooLong => "chunk_duration_ms must be <= 5000 (5 seconds)",
            ConfigError::ThresholdNegative => "silence_threshold must be >= 0.0",
            ConfigError::ThresholdAboveOne => "silence_threshold must be <= 1.0",
            ConfigError::EmptyModel => "model name cannot be empty",
            ConfigError::EmptyLanguage => "language code cannot be empty",
            ConfigError::EmptyStartHotkey => "start_transcription hotkey cannot be empty",
            ConfigError::EmptyStopHotkey => "stop_transcription hotkey cannot be empty",
        };
        String::from_str(text)
    }
}

/// The first rule that `config` breaks, in the order they are checked:
/// chunk duration, silence threshold, model, language, start and stop
/// hotkeys.
pub open spec fn first_violation(config: Config, threshold: ThresholdCheck) -> Option<ConfigError> {
    if config.transcription.chunk_duration_ms == 0 {
        Some(ConfigError::ChunkDurationZero)
    } else if config.transcription.chunk_duration_ms > MAX_CHUNK_DURATION_MS {
        Some(ConfigError::ChunkDurationTooLong)
    } else if threshold == ThresholdCheck::Negative {
        Some(ConfigError::ThresholdNegative)
    } else if threshold == ThresholdCheck::AboveOne {
        Some(ConfigError::ThresholdAboveOne)
    } else if config.transcription.model@.len() == 0 {
        Some(ConfigError::EmptyModel)
    } else if config.transcription.language@.len() == 0 {
        Some(ConfigError::EmptyLanguage)
    } else if config.hotkeys.start_transcription@.len() == 0 {
        Some(ConfigError::EmptyStartHotkey)
    } else if config.hotkeys.stop_transcription@.len() == 0 {
        Some(ConfigError::EmptyStopHotkey)
    } else {
        None
    }
}

impl Config {
    /// Checks the settings; `threshold` says where the silence threshold
    /// lies. Fails with the first rule broken.
    pub fn validate(&self, threshold: ThresholdCheck) -> (r: Result<(), ConfigError>)
        ensures
            r is Ok <==> first_violation(*self, threshold) is None,
            r matches Err(e) ==> first_violation(*self, threshold) == Some(e),
    {
        if self.transcription.chunk_duration_ms == 0 {
            return Err(ConfigError::ChunkDurationZero);
        }
        if self.transcription.chunk_duration_ms > MAX_CHUNK_DURATION_MS {
            return Err(ConfigError::ChunkDurationTooLong);
        }
        match threshold {
            ThresholdCheck::Negative => {
                return Err(ConfigError::ThresholdNegative);
            },
            ThresholdCheck::AboveOne => {
                return Err(ConfigError::ThresholdAboveOne);
            },
            ThresholdCheck::InRange => {},
        }
        if self.transcription.model.as_str().is_empty() {
            return Err(ConfigError::EmptyModel);
        }
        if self.transcription.language.as_str().is_empty() {
            return Err(ConfigError::EmptyLanguage);
        }
        if self.hotkeys.start_transcription.as_str().is_empty() {
            return Err(ConfigError::EmptyStartHotkey);
        }
        if self.hotkeys.stop_transcription.as_str().is_empty() {
            return Err(ConfigError::EmptyStopHotkey);
        }
        Ok(())
    }
}

} // verus!
