//! Streaming transcription correction engine.
//!
//! - [`text_diff`]: the minimal delete/type edit between two texts.
//! - [`transcription_state`]: the correction state machine, which decides
//!   when to ask for a preview or a commit transcription and which edit to
//!   apply when a result comes back.
//! - [`transcription_worker`]: what each request lane decides about the
//!   messages it dequeues and the results it sends.
//! - [`audio`], [`config`], [`hotkey`], [`model_download`], [`recording`],
//!   [`tray`], [`transcription`]: the plain-value logic of the application around the
//!   engine.
//! - [`hybrid_vad`], [`streaming`]: offline replays of a recording.
//! - [`text`]: text primitives, among them the calls into std that the
//!   rest relies on.

pub mod audio;
pub mod config;
pub mod constants;
pub mod hotkey;
pub mod hybrid_vad;
pub mod model_download;
pub mod recording;
pub mod streaming;
pub mod text;
pub mod text_diff;
pub mod transcription;
pub mod transcription_state;
pub mod transcription_worker;
pub mod tray;
