//! Offline replay of a recording through the hybrid commit + preview scheme,
//! and the replay of keyboard edits onto a text surface.
//!
//! [`HybridVadSimulator`] holds the decisions of the simulation; whoever
//! drives it classifies chunks, runs the inference engine on the audio it
//! asks for, and hands the text back.

use vstd::prelude::*;
use vstd::string::*;
use crate::constants::{
    MIN_WHISPER_SAMPLES, SAMPLE_RATE, SIMULATION_COMMIT_SILENCE_CHUNKS,
    SIMULATION_PREVIEW_DELAY_CHUNKS, CONTEXT_WINDOW_SAMPLES,
};
use crate::transcription_state::{append_samples, counted, edit_surface, padded, padded_copy};
use crate::text::{trim_of, trimmed};

verus! {

/// Delete `delete_count` trailing characters, then type `type_text`.
#[derive(Debug, Clone)]
pub struct KeyboardAction {
    pub delete_count: usize,
    pub type_text: String,
}

/// The surface after performing `actions` in order on an empty surface.
pub open spec fn replayed_keyboard(actions: Seq<KeyboardAction>) -> Seq<char>
    decreases actions.len(),
{
    if actions.len() == 0 {
        Seq::empty()
    } else {
        edit_surface(
            replayed_keyboard(actions.drop_last()),
            actions.last().delete_count as nat,
            actions.last().type_text@,
        )
    }
}

/// What appears on a surface, initially empty, after the keyboard `actions`:
/// each deletes trailing characters (no more than there are) and types its
/// text.
pub fn replay_keyboard_actions(actions: &[KeyboardAction]) -> (screen: String)
    ensures
        screen@ == replayed_keyboard(actions@),
{
    let mut screen = String::new();
    let mut i: usize = 0;
    while i < actions.len()
        invariant
            i <= actions@.len(),
            screen@ == replayed_keyboard(actions@.take(i as int)),
        decreases actions@.len() - i,
    {
        let action = &actions[i];
        let ghost before = screen@;
        if action.delete_count > 0 {
            let len = screen.as_str().unicode_len();
            let keep = if action.delete_count <= len {
                len - action.delete_count
            } else {
                0
            };
            screen = String::from_str(screen.as_str().substring_char(0, keep));
        }
        screen.append(action.type_text.as_str());
        assert(actions@.take(i + 1).drop_last() =~= actions@.take(i as int));
        assert(screen@ =~= edit_surface(before, action.delete_count as nat, action.type_text@));
        i = i + 1;
    }
    assert(actions@.take(i as int) =~= actions@);
    screen
}

/// Everything a simulation run produced.
pub struct HybridVadResult {
    /// Ground truth from the commits, in order.
    pub vad_transcriptions: Vec<String>,
    /// Live preview outputs, in order.
    pub live_transcriptions: Vec<String>,
    /// The committed text, trimmed.
    pub final_text: String,
    /// Number of chunks fed.
    pub chunks_processed: usize,
    /// Every keyboard action taken.
    pub keyboard_actions: Vec<KeyboardAction>,
    /// What the surface shows after replaying the keyboard actions.
    pub simulated_screen_text: String,
}

/// The audio the simulation wants transcribed after a chunk.
#[derive(Debug)]
pub enum SimulationRequest<S> {
    /// Commit the utterance in this (padded) buffer.
    Commit(Vec<S>),
    /// Preview the (padded) context window.
    Preview(Vec<S>),
    /// Nothing to transcribe.
    Nothing,
}

/// Number of samples in a chunk of `chunk_duration_ms` milliseconds.
pub fn samples_per_chunk(chunk_duration_ms: u64) -> (n: usize)
    requires
        chunk_duration_ms * 16 <= usize::MAX,
    ensures
        n == SAMPLE_RATE * chunk_duration_ms / 1000,
{
    assert(SAMPLE_RATE * chunk_duration_ms / 1000 == chunk_duration_ms * 16) by (nonlinear_arith);
    (chunk_duration_ms * 16) as usize
}

/// The context window after `chunk` arrives: the newest samples, at most
/// [`CONTEXT_WINDOW_SAMPLES`] of them.
pub open spec fn slid<S>(window: Seq<S>, chunk: Seq<S>) -> Seq<S> {
    let w = window + chunk;
    if w.len() > CONTEXT_WINDOW_SAMPLES {
        w.skip(w.len() - CONTEXT_WINDOW_SAMPLES)
    } else {
        w
    }
}

/// The abstract state of a [`HybridVadSimulator`].
pub struct SimulationView<S> {
    pub buffer: Seq<S>,
    pub window: Seq<S>,
    pub committed: Seq<char>,
    pub preview: Seq<char>,
    pub commits: Seq<Seq<char>>,
    pub previews: Seq<Seq<char>>,
    pub actions: Seq<KeyboardAction>,
    pub silence_streak: nat,
    pub speech_chunks: nat,
    pub chunks: nat,
    pub padding: S,
}

/// The decisions of an offline simulation of the hybrid scheme. Every
/// keyboard action deletes the whole surface and types it anew.
pub struct HybridVadSimulator<S> {
    vad_buffer: Vec<S>,
    sliding_window: Vec<S>,
    vad_committed_text: String,
    live_preview_text: String,
    vad_transcriptions: Vec<String>,
    live_transcriptions: Vec<String>,
    keyboard_actions: Vec<KeyboardAction>,
    silence_streak: usize,
    chunks_since_vad_commit: usize,
    chunk_num: usize,
    padding: S,
}

/// The views of a sequence of strings.
pub open spec fn texts_of(v: Seq<String>) -> Seq<Seq<char>> {
    v.map_values(|s: String| s@)
}

impl<S> View for HybridVadSimulator<S> {
    type V = SimulationView<S>;

    closed spec fn view(&self) -> SimulationView<S> {
        SimulationView {
            buffer: self.vad_buffer@,
            window: self.sliding_window@,
            committed: self.vad_committed_text@,
            preview: self.live_preview_text@,
            commits: texts_of(self.vad_transcriptions@),
            previews: texts_of(self.live_transcriptions@),
            actions: self.keyboard_actions@,
            silence_streak: self.silence_streak as nat,
            speech_chunks: self.chunks_since_vad_commit as nat,
            chunks: self.chunk_num as nat,
            padding: self.padding,
        }
    }
}

/// `v` without its first `n` samples.
pub(crate) fn drop_front<S: Copy>(v: &Vec<S>, n: usize) -> (r: Vec<S>)
    requires
        n <= v@.len(),
    ensures
        r@ == v@.skip(n as int),
{
    let mut r: Vec<S> = Vec::new();
    let mut i: usize = n;
    while i < v.len()
        invariant
            n <= i <= v@.len(),
            r@ == v@.subrange(n as int, i as int),
        decreases v@.len() - i,
    {
        r.push(v[i]);
        i = i + 1;
        assert(r@ =~= v@.subrange(n as int, i as int));
    }
    assert(r@ =~= v@.skip(n as int));
    r
}

/// `after` holds one more keyboard action than `before`: one that deletes
/// `delete_count` characters and types `text`.
pub open spec fn one_more_action(
    before: Seq<KeyboardAction>,
    after: Seq<KeyboardAction>,
    delete_count: nat,
    text: Seq<char>,
) -> bool {
    &&& after.len() == before.len() + 1
    &&& after.drop_last() == before
    &&& after.last().delete_count == delete_count
    &&& after.last().type_text@ == text
}

impl<S: Copy> HybridVadSimulator<S> {
    /// Replaying the keyboard actions gives what the surface shows.
    pub open spec fn wf(&self) -> bool {
        replayed_keyboard(self@.actions) == self@.preview
    }

    /// A fresh simulation that pads short buffers with `padding`.
    pub fn new(padding: S) -> (sim: Self)
        ensures
            sim.wf(),
            sim@ == (SimulationView {
                buffer: Seq::empty(),
                window: Seq::empty(),
                committed: Seq::empty(),
                preview: Seq::empty(),
                commits: Seq::empty(),
                previews: Seq::empty(),
                actions: Seq::empty(),
                silence_streak: 0,
                speech_chunks: 0,
                chunks: 0,
                padding,
            }),
    {
        let sim = HybridVadSimulator {
            vad_buffer: Vec::new(),
            sliding_window: Vec::new(),
            vad_committed_text: String::new(),
            live_preview_text: String::new(),
            vad_transcriptions: Vec::new(),
            live_transcriptions: Vec::new(),
            keyboard_actions: Vec::new(),
            silence_streak: 0,
            chunks_since_vad_commit: 0,
            chunk_num: 0,
            padding,
        };
        assert(sim@.commits =~= Seq::<Seq<char>>::empty());
        assert(sim@.previews =~= Seq::<Seq<char>>::empty());
        sim
    }

    /// Feeds one chunk, already classified as silence or speech.
    ///
    /// The chunk always enters the context window. After enough consecutive
    /// silent chunks with speech buffered, the padded buffer is to be
    /// committed and the buffer starts over; silent chunks never join it. A
    /// speech chunk joins the buffer, and after enough speech chunks the
    /// padded window is to be previewed.
    pub fn feed_chunk(&mut self, chunk: &[S], is_silence: bool) -> (request: SimulationRequest<S>)
        requires
            old(self).wf(),
        ensures
            final(self).wf(),
            ({
                let before = old(self)@;
                let window = slid(before.window, chunk@);
                let chunks = counted(before.chunks);
                if is_silence {
                    let streak = counted(before.silence_streak);
                    if streak >= SIMULATION_COMMIT_SILENCE_CHUNKS as nat && before.buffer.len() > 0 {
                        &&& final(self)@ == SimulationView {
                            buffer: Seq::empty(),
                            window,
                            silence_streak: streak,
                            speech_chunks: 0,
                            chunks,
                            ..before
                        }
                        &&& request matches SimulationRequest::Commit(a) && a@ == padded(
                            before.buffer,
                            MIN_WHISPER_SAMPLES as nat,
                            before.padding,
                        )
                    } else {
                        &&& final(self)@ == SimulationView {
                            window,
                            silence_streak: streak,
                            chunks,
                            ..before
                        }
                        &&& request is Nothing
                    }
                } else {
                    let speech = counted(before.speech_chunks);
                    &&& final(self)@ == SimulationView {
                        buffer: before.buffer + chunk@,
                        window,
                        silence_streak: 0,
                        speech_chunks: speech,
                        chunks,
                        ..before
                    }
                    &&& if speech >= SIMULATION_PREVIEW_DELAY_CHUNKS as nat {
                        request matches SimulationRequest::Preview(a) && a@ == padded(
                            window,
                            SAMPLE_RATE as nat,
                            before.padding,
                        )
                    } else {
                        request is Nothing
                    }
                }
            }),
    {
        append_samples(&mut self.sliding_window, chunk);
        if self.sliding_window.len() > CONTEXT_WINDOW_SAMPLES {
            let excess = self.sliding_window.len() - CONTEXT_WINDOW_SAMPLES;
            self.sliding_window = drop_front(&self.sliding_window, excess);
        }
        if self.chunk_num < usize::MAX {
            self.chunk_num = self.chunk_num + 1;
        }
        if is_silence {
            if self.silence_streak < usize::MAX {
                self.silence_streak = self.silence_streak + 1;
            }
            if self.silence_streak >= SIMULATION_COMMIT_SILENCE_CHUNKS && self.vad_buffer.len() > 0 {
                let audio = padded_copy(&self.vad_buffer, MIN_WHISPER_SAMPLES, self.padding);
                self.vad_buffer.clear();
                self.chunks_since_vad_commit = 0;
                return SimulationRequest::Commit(audio);
            }
            return SimulationRequest::Nothing;
        }
        self.silence_streak = 0;
        if self.chunks_since_vad_commit < usize::MAX {
            self.chunks_since_vad_commit = self.chunks_since_vad_commit + 1;
        }
        append_samples(&mut self.vad_buffer, chunk);
        if self.chunks_since_vad_commit >= SIMULATION_PREVIEW_DELAY_CHUNKS {
            SimulationRequest::Preview(padded_copy(&self.sliding_window, SAMPLE_RATE, self.padding))
        } else {
            SimulationRequest::Nothing
        }
    }

    /// Records a keyboard action that retypes the whole surface as `text`,
    /// which the surface then shows.
    fn retype(&mut self, text: &String)
        requires
            old(self).wf(),
        ensures
            final(self).wf(),
            final(self)@ == (SimulationView {
                preview: text@,
                actions: final(self)@.actions,
                ..old(self)@
            }),
            one_more_action(old(self)@.actions, final(self)@.actions, old(self)@.preview.len(), text@),
    {
        let delete_count = self.live_preview_text.as_str().unicode_len();
        let ghost before = self.keyboard_actions@;
        self.keyboard_actions.push(KeyboardAction { delete_count, type_text: text.clone() });
        assert(self.keyboard_actions@.drop_last() =~= before);
        assert(old(self)@.preview.take(0) + text@ =~= text@);
        self.live_preview_text = text.clone();
    }

    /// Takes the text of a commit: trimmed and not empty, it becomes ground
    /// truth followed by a space, and the surface is retyped to show it.
    pub fn accept_commit(&mut self, text: &str)
        requires
            old(self).wf(),
        ensures
            final(self).wf(),
            ({
                let before = old(self)@;
                let t = trim_of(text@);
                let target = before.committed + t + seq![' '];
                if t.len() == 0 {
                    final(self)@ == before
                } else {
                    &&& final(self)@ == SimulationView {
                        committed: target,
                        preview: target,
                        commits: before.commits.push(t),
                        actions: final(self)@.actions,
                        ..before
                    }
                    &&& one_more_action(before.actions, final(self)@.actions, before.preview.len(), target)
                }
            }),
    {
        let t = trimmed(text);
        if t.as_str().is_empty() {
            return;
        }
        let new_committed = self.vad_committed_text.clone().concat(t.as_str()).concat(" ");
        proof {
            reveal_strlit(" ");
        }
        assert(new_committed@ =~= self@.committed + t@ + seq![' ']);
        let ghost commits = self@.commits;
        self.vad_transcriptions.push(t);
        assert(self@.commits =~= commits.push(trim_of(text@)));
        self.retype(&new_committed);
        self.vad_committed_text = new_committed;
    }

    /// Takes the text of a preview: trimmed and not empty, the surface is
    /// retyped to show the committed text followed by it.
    pub fn accept_preview(&mut self, text: &str)
        requires
            old(self).wf(),
        ensures
            final(self).wf(),
            ({
                let before = old(self)@;
                let t = trim_of(text@);
                let target = before.committed + t;
                if t.len() == 0 {
                    final(self)@ == before
                } else {
                    &&& final(self)@ == SimulationView {
                        preview: target,
                        previews: before.previews.push(t),
                        actions: final(self)@.actions,
                        ..before
                    }
                    &&& one_more_action(before.actions, final(self)@.actions, before.preview.len(), target)
                }
            }),
    {
        let t = trimmed(text);
        if t.as_str().is_empty() {
            return;
        }
        let full_live_text = self.vad_committed_text.clone().concat(t.as_str());
        let ghost previews = self@.previews;
        self.live_transcriptions.push(t);
        assert(self@.previews =~= previews.push(trim_of(text@)));
        self.retype(&full_live_text);
    }

    /// At the end of the recording: the padded rest of the buffer, if any
    /// speech is left, to commit; the buffer is then empty.
    pub fn final_request(&mut self) -> (audio: Option<Vec<S>>)
        requires
            old(self).wf(),
        ensures
            final(self).wf(),
            old(self)@.buffer.len() == 0 ==> audio is None && final(self)@ == old(self)@,
            old(self)@.buffer.len() > 0 ==> final(self)@ == (SimulationView {
                buffer: Seq::empty(),
                ..old(self)@
            }),
            old(self)@.buffer.len() > 0 ==> (audio matches Some(a) && a@ == padded(
                old(self)@.buffer,
                MIN_WHISPER_SAMPLES as nat,
                old(self)@.padding,
            )),
    {
        if self.vad_buffer.len() == 0 {
            return None;
        }
        let audio = padded_copy(&self.vad_buffer, MIN_WHISPER_SAMPLES, self.padding);
        self.vad_buffer.clear();
        Some(audio)
    }

    /// Takes the text of the final commit: trimmed and not empty, it is
    /// appended to the ground truth with no trailing space, and the surface
    /// is retyped to show it.
    pub fn accept_final_commit(&mut self, text: &str)
        requires
            old(self).wf(),
        ensures
            final(self).wf(),
            ({
                let before = old(self)@;
                let t = trim_of(text@);
                let target = before.committed + t;
                if t.len() == 0 {
                    final(self)@ == before
                } else {
                    &&& final(self)@ == SimulationView {
                        committed: target,
                        preview: target,
                        commits: before.commits.push(t),
                        actions: final(self)@.actions,
                        ..before
                    }
                    &&& one_more_action(before.actions, final(self)@.actions, before.preview.len(), target)
                }
            }),
    {
        let t = trimmed(text);
        if t.as_str().is_empty() {
            return;
        }
        let new_committed = self.vad_committed_text.clone().concat(t.as_str());
        let ghost commits = self@.commits;
        self.vad_transcriptions.push(t);
        assert(self@.commits =~= commits.push(trim_of(text@)));
        self.retype(&new_committed);
        self.vad_committed_text = new_committed;
    }

    /// The outcome of the run: the transcriptions, the trimmed ground truth,
    /// the chunk count, the keyboard actions and what replaying them shows.
    pub fn into_result(self) -> (r: HybridVadResult)
        requires
            self.wf(),
        ensures
            texts_of(r.vad_transcriptions@) == self@.commits,
            texts_of(r.live_transcriptions@) == self@.previews,
            r.final_text@ == trim_of(self@.committed),
            r.chunks_processed == self@.chunks,
            r.keyboard_actions@ == self@.actions,
            r.simulated_screen_text@ == replayed_keyboard(self@.actions),
            r.simulated_screen_text@ == self@.preview,
    {
        let simulated_screen_text = replay_keyboard_actions(self.keyboard_actions.as_slice());
        let final_text = trimmed(self.vad_committed_text.as_str());
        HybridVadResult {
            vad_transcriptions: self.vad_transcriptions,
            live_transcriptions: self.live_transcriptions,
            final_text,
            chunks_processed: self.chunk_num,
            keyboard_actions: self.keyboard_actions,
            simulated_screen_text,
        }
    }
}

} // verus!
