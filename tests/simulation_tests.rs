use live_transcribe::hybrid_vad::{replay_keyboard_actions, HybridVadSimulator, KeyboardAction, SimulationRequest};
use live_transcribe::streaming::{word_matches, StreamingSimulator};

#[test]
fn replay_deletes_then_types() {
    let actions = vec![
        KeyboardAction { delete_count: 0, type_text: "Hello wörld".to_string() },
        KeyboardAction { delete_count: 5, type_text: "there".to_string() },
        KeyboardAction { delete_count: 50, type_text: "x".to_string() },
    ];
    assert_eq!(replay_keyboard_actions(&actions[..2]), "Hello there");
    assert_eq!(replay_keyboard_actions(&actions), "x");
    assert_eq!(replay_keyboard_actions(&[]), "");
}

#[test]
fn hybrid_simulation_commits_after_three_silent_chunks() {
    let mut sim = HybridVadSimulator::new(0.0f32);
    let speech = vec![0.2f32; 4800];
    let silence = vec![0.0f32; 4800];
    assert!(matches!(sim.feed_chunk(&speech, false), SimulationRequest::Nothing));
    assert!(matches!(sim.feed_chunk(&speech, false), SimulationRequest::Nothing));
    match sim.feed_chunk(&speech, false) {
        SimulationRequest::Preview(window) => assert_eq!(window.len(), 16000),
        other => panic!("unexpected {:?}", other),
    }
    sim.accept_preview("  Hello  ");
    assert!(matches!(sim.feed_chunk(&silence, true), SimulationRequest::Nothing));
    assert!(matches!(sim.feed_chunk(&silence, true), SimulationRequest::Nothing));
    match sim.feed_chunk(&silence, true) {
        SimulationRequest::Commit(audio) => {
            assert_eq!(audio.len(), 24000);
            assert_eq!(audio[3 * 4800 - 1], 0.2);
        }
        other => panic!("unexpected {:?}", other),
    }
    sim.accept_commit(" Hello world ");
    assert!(matches!(sim.feed_chunk(&speech, false), SimulationRequest::Nothing));
    let audio = sim.final_request().unwrap();
    assert_eq!(audio.len(), 24000);
    sim.accept_final_commit("Bye");
    let result = sim.into_result();
    assert_eq!(result.vad_transcriptions, vec!["Hello world".to_string(), "Bye".to_string()]);
    assert_eq!(result.live_transcriptions, vec!["Hello".to_string()]);
    assert_eq!(result.final_text, "Hello world Bye");
    assert_eq!(result.chunks_processed, 7);
    assert_eq!(result.keyboard_actions.len(), 3);
    assert_eq!(result.keyboard_actions[1].delete_count, 5);
    assert_eq!(result.simulated_screen_text, "Hello world Bye");
}

#[test]
fn words_match_ignoring_punctuation_and_ascii_case() {
    assert!(word_matches("Hello,", "hello"));
    assert!(word_matches("DON'T", "dont"));
    assert!(!word_matches("hello", "help"));
    assert!(word_matches("...", "!"));
}

#[test]
fn streaming_corrects_pending_words() {
    let mut sim = StreamingSimulator::new();
    sim.on_speech();
    let u = sim.on_transcription("Hello world").unwrap();
    assert_eq!(u.typed, vec!["Hello".to_string(), "world".to_string()]);
    assert!(u.deleted.is_empty());
    let u = sim.on_transcription("hello, there friend").unwrap();
    assert_eq!(u.deleted, vec!["world".to_string()]);
    assert_eq!(u.typed, vec!["there".to_string(), "friend".to_string()]);
    assert!(sim.on_transcription("   ").is_none());
    assert_eq!(sim.on_silence(), 0);
    assert_eq!(sim.on_silence(), 3);
    // Committed words are never taken back.
    let u = sim.on_transcription("Something else").unwrap();
    assert!(u.lost_track);
    assert!(u.deleted.is_empty());
    assert_eq!(
        sim.final_words(),
        vec!["Hello", "there", "friend", "Something", "else"].iter().map(|s| s.to_string()).collect::<Vec<_>>()
    );
}

#[test]
fn streaming_commits_many_pending_words() {
    let mut sim = StreamingSimulator::new();
    let u = sim.on_transcription("one two three four five six seven eight").unwrap();
    assert_eq!(u.committed_now, 5);
    assert_eq!(sim.final_words().len(), 8);
}
