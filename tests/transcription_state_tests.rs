use live_transcribe::hybrid_vad::{replay_keyboard_actions, KeyboardAction};
use live_transcribe::transcription_state::{Action, TranscriptionState};

const CHUNK: usize = 4800;

fn speech_chunk() -> Vec<f32> {
    vec![0.1; CHUNK]
}

fn silence_chunk() -> Vec<f32> {
    vec![0.001; CHUNK]
}

/// Feeds one speech chunk, then silent chunks until a commit request comes
/// out; returns its id.
fn request_commit(state: &mut TranscriptionState<f32>) -> u64 {
    state.process_audio_chunk(&speech_chunk(), false);
    for _ in 0..10 {
        for action in state.process_audio_chunk(&silence_chunk(), true) {
            if let Action::SubmitVadRequest { request_id, .. } = action {
                return request_id;
            }
        }
    }
    panic!("no commit request");
}

/// Feeds speech chunks until a live request comes out; returns its id.
fn request_preview(state: &mut TranscriptionState<f32>) -> u64 {
    for _ in 0..10 {
        for action in state.process_audio_chunk(&speech_chunk(), false) {
            if let Action::SubmitLiveRequest { request_id, .. } = action {
                return request_id;
            }
        }
    }
    panic!("no live request");
}

fn keyboard(action: &Action<f32>) -> Option<KeyboardAction> {
    match action {
        Action::AppendText(text) => Some(KeyboardAction { delete_count: 0, type_text: text.clone() }),
        Action::ReplaceText { chars_to_delete, new_text } => Some(KeyboardAction {
            delete_count: *chars_to_delete,
            type_text: new_text.clone(),
        }),
        _ => None,
    }
}

#[test]
fn test_reset_clears_all_state() {
    let mut state = TranscriptionState::with_texts("test".to_string(), "test".to_string(), 0.0f32);
    request_commit(&mut state);
    state.process_audio_chunk(&[1.0, 2.0, 3.0], false);
    for _ in 0..5 {
        state.process_audio_chunk(&silence_chunk(), true);
    }
    assert!(!state.buffered_audio().is_empty());
    assert_eq!(state.committed_text(), "test");
    assert_eq!(state.preview_text(), "test");
    assert_eq!(state.silence_streak(), 5);

    state.reset();

    assert!(state.buffered_audio().is_empty());
    assert!(state.committed_text().is_empty());
    assert!(state.preview_text().is_empty());
    assert_eq!(state.silence_streak(), 0);
    assert_eq!(state.pending_vad_request(), None);
    assert_eq!(state.pending_live_request(), None);
}

#[test]
fn test_vad_commit_append() {
    let mut state = TranscriptionState::with_texts(String::new(), "Hello".to_string(), 0.0f32);
    let id = request_commit(&mut state);
    assert_eq!(id, 1);

    let action = state.process_vad_result("Hello world".to_string(), 1);

    match action {
        Action::AppendText(text) => {
            assert_eq!(text, " world ");
        }
        _ => panic!("Expected AppendText action, got {:?}", action),
    }
    assert_eq!(state.committed_text(), "Hello world ");
    assert_eq!(state.preview_text(), "Hello world ");
}

#[test]
fn test_vad_commit_replace() {
    let mut state = TranscriptionState::with_texts(String::new(), "Hello world".to_string(), 0.0f32);
    let id = request_commit(&mut state);
    assert_eq!(id, 1);

    let action = state.process_vad_result("Hello there".to_string(), 1);

    match action {
        Action::ReplaceText { chars_to_delete, new_text } => {
            assert_eq!(chars_to_delete, 5);
            assert_eq!(new_text, "there ");
        }
        _ => panic!("Expected ReplaceText action, got {:?}", action),
    }
}

#[test]
fn test_live_preview_append() {
    let mut state = TranscriptionState::with_texts("Hello".to_string(), "Hello".to_string(), 0.0f32);
    let id = request_preview(&mut state);
    assert_eq!(id, 1);

    let action = state.process_live_result(" world".to_string(), 1);

    match action {
        Action::AppendText(text) => {
            assert_eq!(text, " world");
        }
        _ => panic!("Expected AppendText action, got {:?}", action),
    }
    assert_eq!(state.preview_text(), "Hello world");
}

#[test]
fn test_request_id_ignored_if_not_pending() {
    let mut state = TranscriptionState::new(0.0f32);
    let id = request_commit(&mut state);
    assert_eq!(id, 1);

    let action = state.process_vad_result("test".to_string(), 2);

    assert_eq!(action, Action::NoAction);
    assert_eq!(state.pending_vad_request(), Some(1));
    assert_eq!(state.committed_text(), "");
}

#[test]
fn commit_over_live_preview_through_the_lanes() {
    let mut state = TranscriptionState::new(0.0f32);
    let live = request_preview(&mut state);
    state.process_live_result("Hello".to_string(), live);
    let id = request_commit(&mut state);
    let action = state.process_vad_result("Hello world".to_string(), id);
    assert_eq!(action, Action::AppendText(" world ".to_string()));
    assert_eq!(state.committed_text(), "Hello world ");
}

#[test]
fn stale_live_result_changes_nothing() {
    let mut state = TranscriptionState::new(0.0f32);
    let live = request_preview(&mut state);
    let action = state.process_live_result("ghost".to_string(), live + 7);
    assert_eq!(action, Action::NoAction);
    assert_eq!(state.pending_live_request(), Some(live));
    assert_eq!(state.preview_text(), "");
}

#[test]
fn live_result_walked_back_deletes_surplus() {
    let mut state = TranscriptionState::new(0.0f32);
    let first = request_preview(&mut state);
    state.process_live_result("Hello world".to_string(), first);
    let second = request_preview(&mut state);
    let action = state.process_live_result("Hello".to_string(), second);
    assert_eq!(
        action,
        Action::ReplaceText { chars_to_delete: 6, new_text: String::new() }
    );
    assert_eq!(state.preview_text(), "Hello");
}

#[test]
fn live_result_diverging_uses_minimal_diff() {
    let mut state = TranscriptionState::new(0.0f32);
    let first = request_preview(&mut state);
    state.process_live_result("Hello world".to_string(), first);
    let second = request_preview(&mut state);
    let action = state.process_live_result("Hello there".to_string(), second);
    assert_eq!(
        action,
        Action::ReplaceText { chars_to_delete: 5, new_text: "there".to_string() }
    );
}

#[test]
fn empty_commit_clears_slot_only() {
    let mut state = TranscriptionState::new(0.0f32);
    let id = request_commit(&mut state);
    assert_eq!(state.process_vad_result(String::new(), id), Action::NoAction);
    assert_eq!(state.pending_vad_request(), None);
    assert_eq!(state.committed_text(), "");
}

#[test]
fn error_clears_only_matching_slot() {
    let mut state = TranscriptionState::new(0.0f32);
    let live = request_preview(&mut state);
    let commit = request_commit(&mut state);
    assert_eq!(state.pending_live_request(), None);
    let live_again = request_preview(&mut state);
    assert!(live_again > commit && commit > live);
    state.process_error(commit);
    assert_eq!(state.pending_vad_request(), None);
    assert_eq!(state.pending_live_request(), Some(live_again));
    state.process_error(live_again);
    assert_eq!(state.pending_live_request(), None);
}

#[test]
fn silence_commit_cancels_pending_live_in_same_batch() {
    let mut state = TranscriptionState::new(0.0f32);
    let live = request_preview(&mut state);
    for _ in 0..4 {
        assert!(state.process_audio_chunk(&silence_chunk(), true).is_empty());
    }
    let actions = state.process_audio_chunk(&silence_chunk(), true);
    assert_eq!(actions.len(), 2);
    match &actions[0] {
        Action::SubmitVadRequest { audio, request_id } => {
            assert_eq!(*request_id, live + 1);
            // Five speech chunks and two trailing silent chunks.
            assert_eq!(audio.len(), 7 * CHUNK);
        }
        other => panic!("Expected SubmitVadRequest, got {:?}", other),
    }
    assert_eq!(actions[1], Action::CancelLiveRequest);
    assert_eq!(state.pending_live_request(), None);
    assert_eq!(state.pending_vad_request(), Some(live + 1));
    assert!(state.buffered_audio().is_empty());
}

#[test]
fn silence_commit_without_live_has_no_cancel() {
    let mut state = TranscriptionState::new(0.0f32);
    state.process_audio_chunk(&speech_chunk(), false);
    let mut submits = 0;
    let mut cancels = 0;
    for _ in 0..5 {
        for action in state.process_audio_chunk(&silence_chunk(), true) {
            match action {
                Action::SubmitVadRequest { audio, .. } => {
                    submits += 1;
                    // Padded up to the engine's minimum with the padding sample.
                    assert_eq!(audio.len(), 24000);
                    assert_eq!(audio[3 * CHUNK], 0.0);
                }
                Action::CancelLiveRequest => cancels += 1,
                _ => {}
            }
        }
    }
    assert_eq!(submits, 1);
    assert_eq!(cancels, 0);
}

#[test]
fn no_commit_while_one_is_pending() {
    let mut state = TranscriptionState::new(0.0f32);
    request_commit(&mut state);
    state.process_audio_chunk(&speech_chunk(), false);
    for _ in 0..8 {
        assert!(state.process_audio_chunk(&silence_chunk(), true).is_empty());
    }
}

#[test]
fn commits_replay_without_duplication() {
    let mut state = TranscriptionState::new(0.0f32);
    let mut keys = Vec::new();
    for text in ["Okay.", "that.", "Okay.", "and more"] {
        let id = request_commit(&mut state);
        let action = state.process_vad_result(text.to_string(), id);
        keys.extend(keyboard(&action));
    }
    assert_eq!(replay_keyboard_actions(&keys), "Okay. that. Okay. and more ");
    assert_eq!(state.committed_text(), "Okay. that. Okay. and more ");
}
