//! The request lanes' own decisions: which queued requests a lane worker
//! runs or skips, how it keeps its cancelled ids, and the result message it
//! sends back after a run.
//!
//! Queues, threads and the inference engine stay outside; a worker hands
//! each dequeued message to [`LaneWorker::handle_message`] and each
//! inference outcome to [`LaneWorker::finish`].

use std::collections::HashSet;
use vstd::prelude::*;
use vstd::string::*;
use vstd::std_specs::iter::IteratorSpec;
use crate::constants::MAX_CANCELLED_IDS;
use crate::text::{trim_of, trimmed};

verus! {

broadcast use vstd::std_specs::hash::group_hash_axioms;

/// A unit of work sent to a lane. `S` is the type of one audio sample.
#[derive(Debug)]
pub enum WorkerMessage<S> {
    /// Transcribe `audio` under `request_id`.
    Transcribe { audio: Vec<S>, request_id: u64 },
    /// Cancel one request.
    Cancel { request_id: u64 },
    /// Cancel every request sent before `request_id`.
    CancelAllBefore { request_id: u64 },
}

/// What a lane sends back after a run.
#[derive(Debug, Clone, PartialEq, Eq)]
pub enum TranscriptionResult {
    /// Live preview text.
    LivePreview { text: String, request_id: u64 },
    /// Commit text.
    VadCommit { text: String, request_id: u64 },
    /// The run failed.
    Error { error: String, request_id: u64 },
}

/// The two lanes.
#[derive(Debug, Clone, Copy, PartialEq, Eq, Structural)]
pub enum Lane {
    /// Fast, low-confidence previews.
    Live,
    /// Slow, high-confidence commits.
    Commit,
}

/// What a worker does with one dequeued message.
#[derive(Debug)]
pub enum LaneStep<S> {
    /// Run inference on `audio`, then send one result tagged `request_id`.
    Run { audio: Vec<S>, request_id: u64 },
    /// The request was cancelled: send nothing.
    Skip { request_id: u64 },
    /// Bookkeeping only: nothing to run or send.
    Idle,
}

/// `m` is the least element of `s`.
pub open spec fn is_least(s: Set<u64>, m: u64) -> bool {
    s.contains(m) && forall|x: u64| s.contains(x) ==> m <= x
}

/// The worker state of one lane: the ids cancelled before they were run.
pub struct LaneWorker {
    lane: Lane,
    cancelled_ids: HashSet<u64>,
}

impl LaneWorker {
    /// The ids cancelled and not yet seen again.
    pub closed spec fn cancelled(&self) -> Set<u64> {
        self.cancelled_ids@
    }

    /// The lane this worker serves.
    pub closed spec fn lane_spec(&self) -> Lane {
        self.lane
    }

    /// Bookkeeping stays within its bound.
    pub open spec fn wf(&self) -> bool {
        self.cancelled().finite() && self.cancelled().len() <= MAX_CANCELLED_IDS
    }

    /// A worker for `lane` with nothing cancelled.
    pub fn new(lane: Lane) -> (w: Self)
        ensures
            w.wf(),
            w.lane_spec() == lane,
            w.cancelled() == Set::<u64>::empty(),
    {
        LaneWorker { lane, cancelled_ids: HashSet::new() }
    }

    /// The lane this worker serves.
    pub fn lane(&self) -> (l: Lane)
        ensures
            l == self.lane_spec(),
    {
        self.lane
    }

    /// The least cancelled id, if any.
    fn least_cancelled(&self) -> (r: Option<u64>)
        ensures
            r is None <==> self.cancelled().len() == 0,
            r matches Some(m) ==> is_least(self.cancelled(), m),
    {
        let mut least: Option<u64> = None;
        let ghost keys = self.cancelled_ids.iter();
        assert(keys.remaining().unref().to_set() == self.cancelled());
        assert(keys.remaining().len() == self.cancelled().len());
        let ghost mut seen: int = 0;
        for x in it: self.cancelled_ids.iter()
            invariant
                seen == it.index(),
                it.seq() == keys.remaining(),
                it.seq().unref().to_set() == self.cancelled(),
                it.seq().len() == self.cancelled().len(),
                least is None <==> it.index() == 0,
                least matches Some(m) ==> {
                    &&& exists|j: int| 0 <= j < seen && *keys.remaining()[j] == m
                    &&& forall|j: int| 0 <= j < seen ==> m <= *keys.remaining()[j]
                },
        {
            least = match least {
                Some(m) => if *x < m {
                    Some(*x)
                } else {
                    Some(m)
                },
                None => Some(*x),
            };
            proof {
                seen = seen + 1;
            }
        }
        proof {
            let sq = keys.remaining().unref();
            assert(seen == sq.len());
            if let Some(m) = least {
                assert forall|x: u64| self.cancelled().contains(x) implies m <= x by {
                    assert(sq.to_set().contains(x));
                    let j = choose|j: int| 0 <= j < sq.len() && sq[j] == x;
                    assert(*keys.remaining()[j] == sq[j]);
                }
                let j = choose|j: int| 0 <= j < seen && *keys.remaining()[j] == m;
                assert(sq[j] == m);
                assert(sq.to_set().contains(m));
            }
        }
        least
    }

    /// Handles one dequeued message.
    ///
    /// A transcription request whose id was cancelled is skipped, and its id
    /// leaves the bookkeeping; any other is run. `Cancel` records its id; when
    /// that overflows the bound, the least recorded id is dropped.
    /// `CancelAllBefore` clears the bookkeeping: requests are handled in
    /// submission order, so "all before" is "all outstanding".
    pub fn handle_message<S>(&mut self, message: WorkerMessage<S>) -> (step: LaneStep<S>)
        requires
            old(self).wf(),
        ensures
            final(self).wf(),
            final(self).lane_spec() == old(self).lane_spec(),
            match message {
                WorkerMessage::Transcribe { audio, request_id } => if old(
                    self,
                ).cancelled().contains(request_id) {
                    &&& step matches LaneStep::Skip { request_id: r } && r == request_id
                    &&& final(self).cancelled() == old(self).cancelled().remove(request_id)
                } else {
                    &&& step matches LaneStep::Run { audio: a, request_id: r } && a@ == audio@ && r
                        == request_id
                    &&& final(self).cancelled() == old(self).cancelled()
                },
                WorkerMessage::Cancel { request_id } => {
                    let grown = old(self).cancelled().insert(request_id);
                    &&& step is Idle
                    &&& grown.len() <= MAX_CANCELLED_IDS ==> final(self).cancelled() == grown
                    &&& grown.len() > MAX_CANCELLED_IDS ==> exists|m: u64|
                        is_least(grown, m) && final(self).cancelled() == grown.remove(m)
                },
                WorkerMessage::CancelAllBefore { .. } => step is Idle && final(self).cancelled()
                    == Set::<u64>::empty(),
            },
    {
        match message {
            WorkerMessage::Transcribe { audio, request_id } => {
                if self.cancelled_ids.contains(&request_id) {
                    self.cancelled_ids.remove(&request_id);
                    LaneStep::Skip { request_id }
                } else {
                    LaneStep::Run { audio, request_id }
                }
            },
            WorkerMessage::Cancel { request_id } => {
                self.cancelled_ids.insert(request_id);
                if self.cancelled_ids.len() > MAX_CANCELLED_IDS {
                    if let Some(least) = self.least_cancelled() {
                        self.cancelled_ids.remove(&least);
                    }
                }
                LaneStep::Idle
            },
            WorkerMessage::CancelAllBefore { request_id: _ } => {
                self.cancelled_ids.clear();
                LaneStep::Idle
            },
        }
    }

    /// The result message for a run of `request_id`: the trimmed text on
    /// success, tagged with this worker's lane, or the lane's error message.
    pub fn finish(&self, outcome: Result<String, String>, request_id: u64) -> (r: TranscriptionResult)
        ensures
            match outcome {
                Ok(text) => match self.lane_spec() {
                    Lane::Live => r matches TranscriptionResult::LivePreview { text: t, request_id: i }
                        && t@ == trim_of(text@) && i == request_id,
                    Lane::Commit => r matches TranscriptionResult::VadCommit { text: t, request_id: i }
                        && t@ == trim_of(text@) && i == request_id,
                },
                Err(e) => r matches TranscriptionResult::Error { error, request_id: i } && error@
                    == lane_error_prefix(self.lane_spec()) + e@ && i == request_id,
            },
    {
        match outcome {
            Ok(text) => {
                let text = trimmed(text.as_str());
                match self.lane {
                    Lane::Live => TranscriptionResult::LivePreview { text, request_id },
                    Lane::Commit => TranscriptionResult::VadCommit { text, request_id },
                }
            },
            Err(e) => {
                let prefix = match self.lane {
                    Lane::Live => "Live preview error: ",
                    Lane::Commit => "VAD commit error: ",
                };
                let error = String::from_str(prefix).concat(e.as_str());
                TranscriptionResult::Error { error, request_id }
            },
        }
    }
}

/// The prefix of the error messages of `lane`.
pub open spec fn lane_error_prefix(lane: Lane) -> Seq<char> {
    match lane {
        Lane::Live => "Live preview error: "@,
        Lane::Commit => "VAD commit error: "@,
    }
}

} // verus!
