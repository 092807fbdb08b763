use live_transcribe::config::{
    default_chunk_duration, default_language, default_model, default_start_hotkey, default_stop_hotkey,
    default_streaming, default_use_gpu, Config, ConfigError, ThresholdCheck,
};

#[test]
fn defaults_are_the_documented_values() {
    assert_eq!(default_start_hotkey(), "Cmd+Shift+T");
    assert_eq!(default_stop_hotkey(), "Cmd+Shift+S");
    assert_eq!(default_model(), "small.en");
    assert_eq!(default_language(), "en");
    assert!(default_use_gpu());
    assert!(default_streaming());
    assert_eq!(default_chunk_duration(), 300);
    let config = Config::default();
    assert_eq!(config.hotkeys.start_transcription, "Cmd+Shift+T");
    assert_eq!(config.transcription.model, "small.en");
    assert_eq!(config.transcription.chunk_duration_ms, 300);
}

#[test]
fn default_config_validates() {
    assert_eq!(Config::default().validate(ThresholdCheck::InRange), Ok(()));
}

#[test]
fn each_rule_has_its_error() {
    let mut c = Config::default();
    c.transcription.chunk_duration_ms = 0;
    assert_eq!(c.validate(ThresholdCheck::InRange), Err(ConfigError::ChunkDurationZero));
    c.transcription.chunk_duration_ms = 5001;
    assert_eq!(c.validate(ThresholdCheck::InRange), Err(ConfigError::ChunkDurationTooLong));
    c.transcription.chunk_duration_ms = 5000;
    assert_eq!(c.validate(ThresholdCheck::InRange), Ok(()));
    assert_eq!(c.validate(ThresholdCheck::Negative), Err(ConfigError::ThresholdNegative));
    assert_eq!(c.validate(ThresholdCheck::AboveOne), Err(ConfigError::ThresholdAboveOne));
    c.transcription.model = String::new();
    assert_eq!(c.validate(ThresholdCheck::InRange), Err(ConfigError::EmptyModel));
    c.transcription.model = "base".to_string();
    c.transcription.language = String::new();
    assert_eq!(c.validate(ThresholdCheck::InRange), Err(ConfigError::EmptyLanguage));
    c.transcription.language = "en".to_string();
    c.hotkeys.start_transcription = String::new();
    assert_eq!(c.validate(ThresholdCheck::InRange), Err(ConfigError::EmptyStartHotkey));
    c.hotkeys.start_transcription = "Cmd+T".to_string();
    c.hotkeys.stop_transcription = String::new();
    assert_eq!(c.validate(ThresholdCheck::InRange), Err(ConfigError::EmptyStopHotkey));
}

#[test]
fn first_broken_rule_wins() {
    let mut c = Config::default();
    c.transcription.chunk_duration_ms = 0;
    c.transcription.model = String::new();
    assert_eq!(c.validate(ThresholdCheck::Negative), Err(ConfigError::ChunkDurationZero));
}

#[test]
fn error_messages() {
    assert_eq!(ConfigError::ChunkDurationZero.message(), "chunk_duration_ms must be greater than 0");
    assert_eq!(ConfigError::EmptyStopHotkey.message(), "stop_transcription hotkey cannot be empty");
}
