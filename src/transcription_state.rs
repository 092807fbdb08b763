//! The correction state machine: it decides what audio to keep, when to ask
//! for a fast preview or a slow commit transcription, and which edit to apply
//! to the text surface when a result comes back.
//!
//! Committed text only ever grows; the surface always shows the committed
//! text followed by at most one preview suffix.

use vstd::prelude::*;
use vstd::string::*;
use crate::constants::{
    COMMIT_SILENCE_CHUNKS, LIVE_PREVIEW_DELAY_CHUNKS, MAX_TRAILING_SILENCE_CHUNKS,
    MIN_WHISPER_SAMPLES,
};
use crate::text::chars_of;
use crate::text_diff::{
    common_prefix_len, compute_append, compute_text_diff, is_char_prefix,
    lemma_common_prefix_len_props,
};

verus! {

/// What the state machine wants performed. `S` is the type of one audio sample.
#[derive(Debug, Clone, PartialEq)]
pub enum Action<S> {
    /// Type new text after what the surface shows.
    AppendText(String),
    /// Delete characters from the end of the surface, then type new text.
    ReplaceText { chars_to_delete: usize, new_text: String },
    /// Ask the commit lane to transcribe a complete utterance.
    SubmitVadRequest { audio: Vec<S>, request_id: u64 },
    /// Ask the live lane for a preview of the speech so far.
    SubmitLiveRequest { audio: Vec<S>, request_id: u64 },
    /// Cancel the outstanding live request: a commit supersedes it.
    CancelLiveRequest,
    /// Nothing to do.
    NoAction,
}

/// The surface `screen` after deleting `chars_to_delete` trailing characters
/// (all of them if there are fewer) and typing `text`.
pub open spec fn edit_surface(screen: Seq<char>, chars_to_delete: nat, text: Seq<char>) -> Seq<char> {
    let keep: int = if chars_to_delete <= screen.len() {
        screen.len() - chars_to_delete
    } else {
        0
    };
    screen.take(keep) + text
}

/// The surface `screen` after performing `action`; actions that do not edit
/// text leave it as it is.
pub open spec fn applied<S>(screen: Seq<char>, action: Action<S>) -> Seq<char> {
    match action {
        Action::AppendText(t) => screen + t@,
        Action::ReplaceText { chars_to_delete, new_text } => edit_surface(
            screen,
            chars_to_delete as nat,
            new_text@,
        ),
        _ => screen,
    }
}

/// `target` is `screen` followed by at least one more character.
pub open spec fn extends(screen: Seq<char>, target: Seq<char>) -> bool {
    screen.is_prefix_of(target) && target.len() > screen.len()
}

/// `action` is the smallest edit from `screen` to `target`: an append when
/// `target` extends `screen`, nothing when they are equal, and otherwise the
/// deletion of what follows their longest common prefix and the typing of the
/// rest of `target`.
pub open spec fn is_minimal_edit<S>(action: Action<S>, screen: Seq<char>, target: Seq<char>) -> bool {
    let p = common_prefix_len(screen, target);
    if extends(screen, target) {
        match action {
            Action::AppendText(t) => t@ == target.skip(screen.len() as int),
            _ => false,
        }
    } else if p == screen.len() && p == target.len() {
        action is NoAction
    } else {
        match action {
            Action::ReplaceText { chars_to_delete, new_text } => chars_to_delete == screen.len()
                - p && new_text@ == target.skip(p as int),
            _ => false,
        }
    }
}

/// The edit for a preview result: when the new preview is a prefix of what
/// the surface shows (the engine walked its hypothesis back), delete the
/// surplus and type nothing; otherwise the minimal edit.
pub open spec fn is_preview_edit<S>(action: Action<S>, screen: Seq<char>, target: Seq<char>) -> bool {
    if target.is_prefix_of(screen) {
        match action {
            Action::ReplaceText { chars_to_delete, new_text } => chars_to_delete == screen.len()
                - target.len() && new_text@.len() == 0,
            _ => false,
        }
    } else {
        is_minimal_edit(action, screen, target)
    }
}

/// `action` asks the commit lane to transcribe `audio` under `id`.
pub open spec fn submits_commit<S>(action: Action<S>, audio: Seq<S>, id: u64) -> bool {
    match action {
        Action::SubmitVadRequest { audio: a, request_id } => a@ == audio && request_id == id,
        _ => false,
    }
}

/// `action` asks the live lane to transcribe `audio` under `id`.
pub open spec fn submits_preview<S>(action: Action<S>, audio: Seq<S>, id: u64) -> bool {
    match action {
        Action::SubmitLiveRequest { audio: a, request_id } => a@ == audio && request_id == id,
        _ => false,
    }
}

/// `samples`, padded with `fill` up to `min_len` samples when shorter.
pub open spec fn padded<S>(samples: Seq<S>, min_len: nat, fill: S) -> Seq<S> {
    if samples.len() >= min_len {
        samples
    } else {
        samples + Seq::new((min_len - samples.len()) as nat, |i: int| fill)
    }
}

/// The request id minted after `id`; ids wrap around on overflow.
pub open spec fn following_id(id: u64) -> u64 {
    if id == u64::MAX {
        0
    } else {
        (id + 1) as u64
    }
}

/// A chunk counter one step further; it stays put at the largest `usize`.
pub open spec fn counted(n: nat) -> nat {
    if n < usize::MAX {
        n + 1
    } else {
        n
    }
}

/// The abstract state of a [`TranscriptionState`].
pub struct StateView<S> {
    /// Speech accumulated since the last commit.
    pub buffer: Seq<S>,
    /// Ground-truth text, append-only.
    pub committed: Seq<char>,
    /// What the text surface shows: the committed text and a preview suffix.
    pub preview: Seq<char>,
    /// Consecutive silent chunks.
    pub silence_streak: nat,
    /// Speech chunks since the last commit.
    pub speech_chunks: nat,
    /// Outstanding request of the commit lane.
    pub pending_commit: Option<u64>,
    /// Outstanding request of the live lane.
    pub pending_live: Option<u64>,
    /// The next request id to mint.
    pub next_id: u64,
    /// The sample used to pad short buffers (silence).
    pub padding: S,
}

/// How the state moves on one audio chunk, and which actions it emits.
pub open spec fn chunk_outcome<S>(
    before: StateView<S>,
    chunk: Seq<S>,
    is_silence: bool,
    after: StateView<S>,
    actions: Seq<Action<S>>,
) -> bool {
    if is_silence {
        let streak = counted(before.silence_streak);
        let buffer = if before.buffer.len() > 0 && streak <= MAX_TRAILING_SILENCE_CHUNKS as nat {
            before.buffer + chunk
        } else {
            before.buffer
        };
        if streak >= COMMIT_SILENCE_CHUNKS as nat && buffer.len() > 0 && before.pending_commit is None {
            let id = before.next_id;
            &&& after == StateView {
                buffer: Seq::empty(),
                silence_streak: streak,
                speech_chunks: 0,
                pending_commit: Some(id),
                pending_live: None,
                next_id: following_id(id),
                ..before
            }
            &&& actions.len() == (if before.pending_live is Some { 2int } else { 1int })
            &&& submits_commit(actions[0], padded(buffer, MIN_WHISPER_SAMPLES as nat, before.padding), id)
            &&& before.pending_live is Some ==> actions[1] is CancelLiveRequest
        } else {
            &&& after == StateView { buffer, silence_streak: streak, ..before }
            &&& actions.len() == 0
        }
    } else {
        let speech = counted(before.speech_chunks);
        let buffer = before.buffer + chunk;
        if speech >= LIVE_PREVIEW_DELAY_CHUNKS as nat && before.pending_live is None {
            let id = before.next_id;
            &&& after == StateView {
                buffer,
                silence_streak: 0,
                speech_chunks: speech,
                pending_live: Some(id),
                next_id: following_id(id),
                ..before
            }
            &&& actions.len() == 1
            &&& submits_preview(actions[0], padded(buffer, MIN_WHISPER_SAMPLES as nat, before.padding), id)
        } else {
            &&& after == StateView { buffer, silence_streak: 0, speech_chunks: speech, ..before }
            &&& actions.len() == 0
        }
    }
}

/// How the state moves when a commit result with a non-empty `text` is
/// accepted, and the edit it emits.
pub open spec fn commit_outcome<S>(
    before: StateView<S>,
    text: Seq<char>,
    action: Action<S>,
    after: StateView<S>,
) -> bool {
    let target = before.committed + text + seq![' '];
    &&& after == StateView {
        committed: target,
        preview: target,
        pending_commit: None,
        ..before
    }
    &&& is_minimal_edit(action, before.preview, target)
}

/// How the state moves when a preview result with a non-empty `text` is
/// accepted, and the edit it emits.
pub open spec fn preview_outcome<S>(
    before: StateView<S>,
    text: Seq<char>,
    action: Action<S>,
    after: StateView<S>,
) -> bool {
    let target = before.committed + text;
    &&& after == StateView { preview: target, pending_live: None, ..before }
    &&& is_preview_edit(action, before.preview, target)
}

/// Performing the minimal edit from `screen` to `target` on a surface that
/// shows `screen` leaves it showing `target`.
pub proof fn lemma_minimal_edit_applies<S>(action: Action<S>, screen: Seq<char>, target: Seq<char>)
    requires
        is_minimal_edit(action, screen, target),
    ensures
        applied(screen, action) == target,
{
    let p = common_prefix_len(screen, target);
    lemma_common_prefix_len_props(screen, target);
    if extends(screen, target) {
        assert(screen + target.skip(screen.len() as int) =~= target);
    } else if p == screen.len() && p == target.len() {
        assert(screen =~= screen.take(p as int));
        assert(target =~= target.take(p as int));
    } else {
        assert(screen.take(p as int) + target.skip(p as int) =~= target) by {
            assert(target =~= target.take(p as int) + target.skip(p as int));
        }
    }
}

/// Deleting what the diff says to delete from the old text and typing what
/// it says to type gives exactly the new text, for any two texts.
pub proof fn law_diff_reconstructs_new_text(old_text: Seq<char>, new_text: Seq<char>)
    ensures
        edit_surface(
            old_text,
            (old_text.len() - common_prefix_len(old_text, new_text)) as nat,
            new_text.skip(common_prefix_len(old_text, new_text) as int),
        ) == new_text,
{
    let p = common_prefix_len(old_text, new_text);
    lemma_common_prefix_len_props(old_text, new_text);
    assert(old_text.take(p as int) + new_text.skip(p as int) =~= new_text) by {
        assert(new_text =~= new_text.take(p as int) + new_text.skip(p as int));
    }
}

/// Performing the preview edit from `screen` to `target` on a surface that
/// shows `screen` leaves it showing `target`.
pub proof fn lemma_preview_edit_applies<S>(action: Action<S>, screen: Seq<char>, target: Seq<char>)
    requires
        is_preview_edit(action, screen, target),
    ensures
        applied(screen, action) == target,
{
    if target.is_prefix_of(screen) {
        assert(screen.take(target.len() as int) + Seq::<char>::empty() =~= target);
        match action {
            Action::ReplaceText { chars_to_delete, new_text } => {
                assert(new_text@ =~= Seq::<char>::empty());
            },
            _ => {},
        }
    } else {
        lemma_minimal_edit_applies(action, screen, target);
    }
}

/// The surface after performing `actions` in order on a surface that shows
/// `screen`.
pub open spec fn replayed<S>(screen: Seq<char>, actions: Seq<Action<S>>) -> Seq<char>
    decreases actions.len(),
{
    if actions.len() == 0 {
        screen
    } else {
        applied(replayed(screen, actions.drop_last()), actions.last())
    }
}

/// Each text of `texts` in order, each followed by a space.
pub open spec fn joined_commits(texts: Seq<Seq<char>>) -> Seq<char>
    decreases texts.len(),
{
    if texts.len() == 0 {
        Seq::empty()
    } else {
        joined_commits(texts.drop_last()) + texts.last() + seq![' ']
    }
}

/// The first `k` commits of a run replay to the first `k` texts joined.
proof fn lemma_commit_run_prefix<S>(
    texts: Seq<Seq<char>>,
    actions: Seq<Action<S>>,
    befores: Seq<StateView<S>>,
    afters: Seq<StateView<S>>,
    k: int,
)
    requires
        0 <= k <= texts.len(),
        actions.len() == texts.len(),
        befores.len() == texts.len(),
        afters.len() == texts.len(),
        texts.len() > 0 ==> befores[0].committed.len() == 0 && befores[0].preview.len() == 0,
        forall|i: int| 0 <= i < texts.len() ==> commit_outcome(befores[i], texts[i], actions[i], afters[i]),
        forall|i: int|
            0 < i < texts.len() ==> befores[i].committed == afters[i - 1].committed
                && befores[i].preview == afters[i - 1].preview,
    ensures
        replayed(Seq::empty(), actions.take(k)) == joined_commits(texts.take(k)),
        k > 0 ==> afters[k - 1].committed == joined_commits(texts.take(k)),
        k > 0 ==> afters[k - 1].preview == joined_commits(texts.take(k)),
    decreases k,
{
    if k == 0 {
        assert(actions.take(0) =~= Seq::<Action<S>>::empty());
        assert(texts.take(0) =~= Seq::<Seq<char>>::empty());
    } else {
        lemma_commit_run_prefix(texts, actions, befores, afters, k - 1);
        let i = k - 1;
        assert(actions.take(k).drop_last() =~= actions.take(i));
        assert(texts.take(k).drop_last() =~= texts.take(i));
        let screen = replayed(Seq::<char>::empty(), actions.take(i));
        assert(screen == befores[i].preview);
        assert(joined_commits(texts.take(i)) == befores[i].committed) by {
            if i == 0 {
                assert(texts.take(0) =~= Seq::<Seq<char>>::empty());
                assert(befores[0].committed =~= Seq::<char>::empty());
            }
        }
        let target = befores[i].committed + texts[i] + seq![' '];
        lemma_minimal_edit_applies(actions[i], befores[i].preview, target);
    }
}

/// Commit results fed one after another, with no preview result in between,
/// replay from an empty surface to exactly the texts joined, each followed
/// by a space; the committed text is that same text. Audio chunks and errors
/// between the results may move the state, but not its texts.
pub proof fn law_commits_replay_to_joined_text<S>(
    texts: Seq<Seq<char>>,
    actions: Seq<Action<S>>,
    befores: Seq<StateView<S>>,
    afters: Seq<StateView<S>>,
)
    requires
        actions.len() == texts.len(),
        befores.len() == texts.len(),
        afters.len() == texts.len(),
        texts.len() > 0 ==> befores[0].committed.len() == 0 && befores[0].preview.len() == 0,
        forall|i: int| 0 <= i < texts.len() ==> commit_outcome(befores[i], texts[i], actions[i], afters[i]),
        forall|i: int|
            0 < i < texts.len() ==> befores[i].committed == afters[i - 1].committed
                && befores[i].preview == afters[i - 1].preview,
    ensures
        replayed(Seq::empty(), actions) == joined_commits(texts),
        texts.len() > 0 ==> afters.last().committed == joined_commits(texts),
{
    lemma_commit_run_prefix(texts, actions, befores, afters, texts.len() as int);
    assert(actions.take(texts.len() as int) =~= actions);
    assert(texts.take(texts.len() as int) =~= texts);
}

/// A commit that arrives while a preview shows, whatever its wording, leaves
/// the surface showing exactly the new committed text, which extends the old
/// one; a preview result after it keeps all of that committed text on the
/// surface and does not change it.
pub proof fn law_commit_supersedes_preview<S>(
    before: StateView<S>,
    text: Seq<char>,
    action: Action<S>,
    after: StateView<S>,
    later_text: Seq<char>,
    later_action: Action<S>,
    later: StateView<S>,
)
    requires
        commit_outcome(before, text, action, after),
        preview_outcome(after, later_text, later_action, later),
    ensures
        applied(before.preview, action) == after.committed,
        before.committed.is_prefix_of(after.committed),
        later.committed == after.committed,
        after.committed.is_prefix_of(applied(applied(before.preview, action), later_action)),
{
    let target = before.committed + text + seq![' '];
    lemma_minimal_edit_applies(action, before.preview, target);
    assert(before.committed =~= after.committed.subrange(0, before.committed.len() as int));
    lemma_preview_edit_applies(later_action, after.preview, after.committed + later_text);
    assert(after.committed =~= (after.committed + later_text).subrange(
        0,
        after.committed.len() as int,
    ));
}

/// The correction state machine. `S` is the type of one audio sample.
pub struct TranscriptionState<S> {
    vad_buffer: Vec<S>,
    vad_committed_text: String,
    live_preview_text: String,
    silence_streak: usize,
    chunks_since_vad_commit: usize,
    pending_vad_request: Option<u64>,
    pending_live_request: Option<u64>,
    next_request_id: u64,
    padding: S,
}

impl<S> View for TranscriptionState<S> {
    type V = StateView<S>;

    closed spec fn view(&self) -> StateView<S> {
        StateView {
            buffer: self.vad_buffer@,
            committed: self.vad_committed_text@,
            preview: self.live_preview_text@,
            silence_streak: self.silence_streak as nat,
            speech_chunks: self.chunks_since_vad_commit as nat,
            pending_commit: self.pending_vad_request,
            pending_live: self.pending_live_request,
            next_id: self.next_request_id,
            padding: self.padding,
        }
    }
}

/// Appends the samples of `chunk` to `buffer`.
pub(crate) fn append_samples<S: Copy>(buffer: &mut Vec<S>, chunk: &[S])
    ensures
        final(buffer)@ == old(buffer)@ + chunk@,
{
    let mut i: usize = 0;
    while i < chunk.len()
        invariant
            i <= chunk@.len(),
            buffer@ == old(buffer)@ + chunk@.take(i as int),
        decreases chunk@.len() - i,
    {
        buffer.push(chunk[i]);
        i = i + 1;
        assert(buffer@ =~= old(buffer)@ + chunk@.take(i as int));
    }
    assert(chunk@.take(i as int) =~= chunk@);
}

/// A copy of `samples`, padded with `fill` up to `min_len` samples.
pub(crate) fn padded_copy<S: Copy>(samples: &Vec<S>, min_len: usize, fill: S) -> (r: Vec<S>)
    ensures
        r@ == padded(samples@, min_len as nat, fill),
{
    let mut r: Vec<S> = Vec::new();
    append_samples(&mut r, samples.as_slice());
    assert(r@ =~= samples@);
    while r.len() < min_len
        invariant
            r@.len() >= samples@.len(),
            r@.subrange(0, samples@.len() as int) == samples@,
            forall|j: int| samples@.len() <= j < r@.len() ==> r@[j] == fill,
            r@.len() > samples@.len() ==> r@.len() <= min_len,
        decreases min_len - r@.len(),
    {
        r.push(fill);
        assert(r@.subrange(0, samples@.len() as int) =~= samples@);
    }
    if samples.len() < min_len {
        assert(r@ =~= padded(samples@, min_len as nat, fill));
    } else {
        assert(r@ =~= samples@);
    }
    r
}

impl<S: Copy> TranscriptionState<S> {
    /// Well-formedness: the surface shows the committed text followed by a
    /// preview suffix.
    pub open spec fn wf(&self) -> bool {
        self@.committed.is_prefix_of(self@.preview)
    }

    /// A fresh state machine that pads short buffers with `padding`.
    pub fn new(padding: S) -> (state: Self)
        ensures
            state.wf(),
            state@ == (StateView {
                buffer: Seq::empty(),
                committed: Seq::empty(),
                preview: Seq::empty(),
                silence_streak: 0,
                speech_chunks: 0,
                pending_commit: None,
                pending_live: None,
                next_id: 1,
                padding,
            }),
    {
        let state = TranscriptionState {
            vad_buffer: Vec::new(),
            vad_committed_text: String::new(),
            live_preview_text: String::new(),
            silence_streak: 0,
            chunks_since_vad_commit: 0,
            pending_vad_request: None,
            pending_live_request: None,
            next_request_id: 1,
            padding,
        };
        assert(state@.committed =~= state@.preview.subrange(0, 0));
        state
    }

    /// A state machine resumed on a surface that already shows `preview`, of
    /// which `committed` is the ground-truth beginning; nothing is pending.
    pub fn with_texts(committed: String, preview: String, padding: S) -> (state: Self)
        requires
            committed@.is_prefix_of(preview@),
        ensures
            state.wf(),
            state@ == (StateView {
                buffer: Seq::empty(),
                committed: committed@,
                preview: preview@,
                silence_streak: 0,
                speech_chunks: 0,
                pending_commit: None,
                pending_live: None,
                next_id: 1,
                padding,
            }),
    {
        TranscriptionState {
            vad_buffer: Vec::new(),
            vad_committed_text: committed,
            live_preview_text: preview,
            silence_streak: 0,
            chunks_since_vad_commit: 0,
            pending_vad_request: None,
            pending_live_request: None,
            next_request_id: 1,
            padding,
        }
    }

    /// Clears every buffer, both texts, both pending slots and the counters,
    /// for a new recording session.
    pub fn reset(&mut self)
        ensures
            final(self).wf(),
            final(self)@ == (StateView {
                buffer: Seq::empty(),
                committed: Seq::empty(),
                preview: Seq::empty(),
                silence_streak: 0,
                speech_chunks: 0,
                pending_commit: None,
                pending_live: None,
                ..old(self)@
            }),
    {
        self.vad_buffer.clear();
        self.vad_committed_text = String::new();
        self.live_preview_text = String::new();
        self.silence_streak = 0;
        self.chunks_since_vad_commit = 0;
        self.pending_vad_request = None;
        self.pending_live_request = None;
        assert(self@.committed =~= self@.preview.subrange(0, 0));
    }

    /// Mints a new request id.
    fn generate_request_id(&mut self) -> (id: u64)
        ensures
            id == old(self).next_request_id,
            *final(self) == (TranscriptionState { next_request_id: following_id(id), ..*old(self) }),
    {
        let id = self.next_request_id;
        self.next_request_id = if id == u64::MAX {
            0
        } else {
            id + 1
        };
        id
    }

    /// Feeds one audio chunk, already classified as silence or speech, and
    /// returns the requests to submit.
    ///
    /// A silent chunk lengthens the silence streak and, within the trailing
    /// allowance, still joins the buffer. Once the streak reaches the commit
    /// threshold with speech buffered and no commit pending, the buffer is
    /// padded and submitted to the commit lane, and a pending live request is
    /// cancelled. A speech chunk resets the streak and joins the buffer; after
    /// enough speech chunks with no live request pending, a padded copy of the
    /// buffer is submitted to the live lane.
    pub fn process_audio_chunk(&mut self, new_audio: &[S], is_silence: bool) -> (actions: Vec<Action<S>>)
        requires
            old(self).wf(),
        ensures
            final(self).wf(),
            chunk_outcome(old(self)@, new_audio@, is_silence, final(self)@, actions@),
    {
        let mut actions: Vec<Action<S>> = Vec::new();
        if is_silence {
            if self.silence_streak < usize::MAX {
                self.silence_streak = self.silence_streak + 1;
            }
            if self.vad_buffer.len() > 0 && self.silence_streak <= MAX_TRAILING_SILENCE_CHUNKS {
                append_samples(&mut self.vad_buffer, new_audio);
            }
            if self.silence_streak >= COMMIT_SILENCE_CHUNKS && self.vad_buffer.len() > 0
                && self.pending_vad_request.is_none() {
                let audio = padded_copy(&self.vad_buffer, MIN_WHISPER_SAMPLES, self.padding);
                let request_id = self.generate_request_id();
                actions.push(Action::SubmitVadRequest { audio, request_id });
                self.pending_vad_request = Some(request_id);
                if self.pending_live_request.is_some() {
                    actions.push(Action::CancelLiveRequest);
                    self.pending_live_request = None;
                }
                self.vad_buffer.clear();
                self.chunks_since_vad_commit = 0;
            }
            return actions;
        }
        self.silence_streak = 0;
        if self.chunks_since_vad_commit < usize::MAX {
            self.chunks_since_vad_commit = self.chunks_since_vad_commit + 1;
        }
        append_samples(&mut self.vad_buffer, new_audio);
        if self.chunks_since_vad_commit >= LIVE_PREVIEW_DELAY_CHUNKS
            && self.pending_live_request.is_none() {
            let audio = padded_copy(&self.vad_buffer, MIN_WHISPER_SAMPLES, self.padding);
            let request_id = self.generate_request_id();
            actions.push(Action::SubmitLiveRequest { audio, request_id });
            self.pending_live_request = Some(request_id);
        }
        actions
    }

    /// Handles the result of a commit request.
    ///
    /// A result whose id is not the pending commit id is stale and changes
    /// nothing. Otherwise the commit slot is cleared and, if `text` is not
    /// empty, the committed text grows by `text` and a space; the surface is
    /// edited from what it showed to exactly that text, and both texts become
    /// it.
    pub fn process_vad_result(&mut self, text: String, request_id: u64) -> (action: Action<S>)
        requires
            old(self).wf(),
        ensures
            final(self).wf(),
            old(self)@.pending_commit != Some(request_id) ==> action is NoAction && final(self)@
                == old(self)@,
            old(self)@.pending_commit == Some(request_id) && text@.len() == 0 ==> action is NoAction
                && final(self)@ == (StateView { pending_commit: None, ..old(self)@ }),
            old(self)@.pending_commit == Some(request_id) && text@.len() > 0 ==> commit_outcome(
                old(self)@,
                text@,
                action,
                final(self)@,
            ),
            applied(old(self)@.preview, action) == final(self)@.preview,
    {
        let is_pending = match self.pending_vad_request {
            Some(id) => id == request_id,
            None => false,
        };
        if !is_pending {
            return Action::NoAction;
        }
        self.pending_vad_request = None;
        if text.as_str().is_empty() {
            return Action::NoAction;
        }
        let new_vad_committed = self.vad_committed_text.clone().concat(text.as_str()).concat(" ");
        proof {
            reveal_strlit(" ");
        }
        let ghost screen = self.live_preview_text@;
        let ghost target = new_vad_committed@;
        assert(target =~= self.vad_committed_text@ + text@ + seq![' ']);
        let action = match compute_append(self.live_preview_text.as_str(), new_vad_committed.as_str()) {
            Some(suffix) => Action::AppendText(suffix),
            None => {
                if !self.live_preview_text.as_str().is_empty() {
                    let diff = compute_text_diff(
                        self.live_preview_text.as_str(),
                        new_vad_committed.as_str(),
                    );
                    proof {
                        lemma_common_prefix_len_props(screen, target);
                        let p = common_prefix_len(screen, target);
                        if p == screen.len() && p == target.len() {
                            assert(target.skip(p as int) =~= Seq::<char>::empty());
                        }
                    }
                    if diff.chars_to_delete > 0 || !diff.suffix_to_type.as_str().is_empty() {
                        Action::ReplaceText {
                            chars_to_delete: diff.chars_to_delete,
                            new_text: diff.suffix_to_type,
                        }
                    } else {
                        Action::NoAction
                    }
                } else {
                    assert(screen =~= target.subrange(0, 0));
                    Action::AppendText(new_vad_committed.clone())
                }
            },
        };
        proof {
            lemma_minimal_edit_applies(action, screen, target);
        }
        self.vad_committed_text = new_vad_committed.clone();
        self.live_preview_text = new_vad_committed;
        assert(self@.committed =~= self@.preview.subrange(0, self@.committed.len() as int));
        action
    }

    /// Handles the result of a live preview request.
    ///
    /// A result whose id is not the pending live id is stale and changes
    /// nothing. Otherwise the live slot is cleared and, if `text` is not
    /// empty, the surface is edited to show the committed text followed by
    /// `text`, which becomes the preview; the committed text is untouched.
    pub fn process_live_result(&mut self, text: String, request_id: u64) -> (action: Action<S>)
        requires
            old(self).wf(),
        ensures
            final(self).wf(),
            old(self)@.pending_live != Some(request_id) ==> action is NoAction && final(self)@
                == old(self)@,
            old(self)@.pending_live == Some(request_id) && text@.len() == 0 ==> action is NoAction
                && final(self)@ == (StateView { pending_live: None, ..old(self)@ }),
            old(self)@.pending_live == Some(request_id) && text@.len() > 0 ==> preview_outcome(
                old(self)@,
                text@,
                action,
                final(self)@,
            ),
            applied(old(self)@.preview, action) == final(self)@.preview,
    {
        let is_pending = match self.pending_live_request {
            Some(id) => id == request_id,
            None => false,
        };
        if !is_pending {
            return Action::NoAction;
        }
        self.pending_live_request = None;
        if text.as_str().is_empty() {
            return Action::NoAction;
        }
        let full_live_text = self.vad_committed_text.clone().concat(text.as_str());
        let ghost screen = self.live_preview_text@;
        let ghost target = full_live_text@;
        let action = match compute_append(self.live_preview_text.as_str(), full_live_text.as_str()) {
            Some(suffix) => Action::AppendText(suffix),
            None => {
                let screen_chars = chars_of(self.live_preview_text.as_str());
                let target_chars = chars_of(full_live_text.as_str());
                if is_char_prefix(&target_chars, &screen_chars) {
                    Action::ReplaceText {
                        chars_to_delete: screen_chars.len() - target_chars.len(),
                        new_text: String::new(),
                    }
                } else {
                    let diff = compute_text_diff(
                        self.live_preview_text.as_str(),
                        full_live_text.as_str(),
                    );
                    proof {
                        lemma_common_prefix_len_props(screen, target);
                        let p = common_prefix_len(screen, target);
                        if p == screen.len() && p == target.len() {
                            assert(target.skip(p as int) =~= Seq::<char>::empty());
                            assert(target =~= screen.subrange(0, target.len() as int));
                        }
                    }
                    if diff.chars_to_delete > 0 || !diff.suffix_to_type.as_str().is_empty() {
                        Action::ReplaceText {
                            chars_to_delete: diff.chars_to_delete,
                            new_text: diff.suffix_to_type,
                        }
                    } else {
                        Action::NoAction
                    }
                }
            },
        };
        proof {
            lemma_preview_edit_applies(action, screen, target);
        }
        self.live_preview_text = full_live_text;
        assert(self@.committed =~= self@.preview.subrange(0, self@.committed.len() as int));
        action
    }

    /// Handles a failed request: clears whichever pending slot holds
    /// `request_id`; no text changes and nothing is retried.
    pub fn process_error(&mut self, request_id: u64)
        requires
            old(self).wf(),
        ensures
            final(self).wf(),
            final(self)@ == (StateView {
                pending_commit: if old(self)@.pending_commit == Some(request_id) {
                    None
                } else {
                    old(self)@.pending_commit
                },
                pending_live: if old(self)@.pending_live == Some(request_id) {
                    None
                } else {
                    old(self)@.pending_live
                },
                ..old(self)@
            }),
    {
        if let Some(id) = self.pending_vad_request {
            if id == request_id {
                self.pending_vad_request = None;
            }
        }
        if let Some(id) = self.pending_live_request {
            if id == request_id {
                self.pending_live_request = None;
            }
        }
    }

    /// The committed (ground-truth) text.
    pub fn committed_text(&self) -> (r: &String)
        ensures
            r@ == self@.committed,
    {
        &self.vad_committed_text
    }

    /// The text the surface shows.
    pub fn preview_text(&self) -> (r: &String)
        ensures
            r@ == self@.preview,
    {
        &self.live_preview_text
    }

    /// The samples buffered since the last commit.
    pub fn buffered_audio(&self) -> (r: &Vec<S>)
        ensures
            r@ == self@.buffer,
    {
        &self.vad_buffer
    }

    /// The current silence streak, in chunks.
    pub fn silence_streak(&self) -> (r: usize)
        ensures
            r == self@.silence_streak,
    {
        self.silence_streak
    }

    /// The id of the outstanding commit request, if any.
    pub fn pending_vad_request(&self) -> (r: Option<u64>)
        ensures
            r == self@.pending_commit,
    {
        self.pending_vad_request
    }

    /// The id of the outstanding live request, if any.
    pub fn pending_live_request(&self) -> (r: Option<u64>)
        ensures
            r == self@.pending_live,
    {
        self.pending_live_request
    }
}

} // verus!
