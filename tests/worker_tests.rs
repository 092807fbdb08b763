use live_transcribe::transcription_worker::{Lane, LaneStep, LaneWorker, TranscriptionResult, WorkerMessage};

#[test]
fn uncancelled_request_runs() {
    let mut w = LaneWorker::new(Lane::Live);
    match w.handle_message(WorkerMessage::Transcribe { audio: vec![1.0f32, 2.0], request_id: 4 }) {
        LaneStep::Run { audio, request_id } => {
            assert_eq!(audio, vec![1.0, 2.0]);
            assert_eq!(request_id, 4);
        }
        other => panic!("unexpected {:?}", other),
    }
}

#[test]
fn cancelled_request_is_skipped_once() {
    let mut w = LaneWorker::new(Lane::Live);
    assert!(matches!(w.handle_message(WorkerMessage::<f32>::Cancel { request_id: 9 }), LaneStep::Idle));
    assert!(matches!(
        w.handle_message(WorkerMessage::Transcribe { audio: vec![0.0f32], request_id: 9 }),
        LaneStep::Skip { request_id: 9 }
    ));
    assert!(matches!(
        w.handle_message(WorkerMessage::Transcribe { audio: vec![0.0f32], request_id: 9 }),
        LaneStep::Run { request_id: 9, .. }
    ));
}

#[test]
fn cancel_all_before_clears_bookkeeping() {
    let mut w = LaneWorker::new(Lane::Commit);
    w.handle_message(WorkerMessage::<f32>::Cancel { request_id: 1 });
    w.handle_message(WorkerMessage::<f32>::CancelAllBefore { request_id: u64::MAX });
    assert!(matches!(
        w.handle_message(WorkerMessage::Transcribe { audio: vec![0.0f32], request_id: 1 }),
        LaneStep::Run { .. }
    ));
}

#[test]
fn bookkeeping_drops_least_id_beyond_bound() {
    let mut w = LaneWorker::new(Lane::Live);
    for id in 1..=101u64 {
        w.handle_message(WorkerMessage::<f32>::Cancel { request_id: id });
    }
    // Id 1 was the least and fell out; 2 is still cancelled.
    assert!(matches!(
        w.handle_message(WorkerMessage::Transcribe { audio: vec![0.0f32], request_id: 1 }),
        LaneStep::Run { .. }
    ));
    assert!(matches!(
        w.handle_message(WorkerMessage::Transcribe { audio: vec![0.0f32], request_id: 2 }),
        LaneStep::Skip { .. }
    ));
}

#[test]
fn results_are_trimmed_and_tagged() {
    let live = LaneWorker::new(Lane::Live);
    assert_eq!(
        live.finish(Ok("  hello there \n".to_string()), 3),
        TranscriptionResult::LivePreview { text: "hello there".to_string(), request_id: 3 }
    );
    let commit = LaneWorker::new(Lane::Commit);
    assert_eq!(
        commit.finish(Ok(" done ".to_string()), 8),
        TranscriptionResult::VadCommit { text: "done".to_string(), request_id: 8 }
    );
    assert_eq!(
        commit.finish(Err("boom".to_string()), 8),
        TranscriptionResult::Error { error: "VAD commit error: boom".to_string(), request_id: 8 }
    );
    assert_eq!(
        live.finish(Err("x".to_string()), 1),
        TranscriptionResult::Error { error: "Live preview error: x".to_string(), request_id: 1 }
    );
}
