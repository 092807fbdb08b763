//! Word-level streaming simulation: each transcription of the context
//! window is matched word by word against the words already output; words
//! that were committed are never taken back, pending words may be corrected.
//!
//! Whoever drives [`StreamingSimulator`] slides the window, tests it for
//! silence, runs the inference engine on it and hands the text back.

use vstd::prelude::*;
use vstd::string::*;
use crate::text::{alphanumeric, chars_of, is_alnum, split_words, trim_of, trimmed, views_of, words_of};
use crate::transcription_state::counted;

verus! {

/// Consecutive silent chunks after which pending words are committed.
pub const SILENCE_COMMIT_CHUNKS: usize = 2;

/// Chunks without deletion after which pending words count as stable.
pub const STABLE_CHUNKS: usize = 10;

/// Pending words from which on most of them are committed.
pub const MANY_PENDING_WORDS: usize = 8;

/// The letters and digits of `s`, in order.
pub open spec fn alnum_only(s: Seq<char>) -> Seq<char>
    decreases s.len(),
{
    if s.len() == 0 {
        Seq::empty()
    } else if is_alnum(s.last()) {
        alnum_only(s.drop_last()).push(s.last())
    } else {
        alnum_only(s.drop_last())
    }
}

/// `a` and `b` are the same character up to ASCII case.
pub open spec fn same_ignoring_ascii_case(a: char, b: char) -> bool {
    ||| a == b
    ||| ('A' as u32 <= a as u32 <= 'Z' as u32 && b as u32 == a as u32 + 32)
    ||| ('A' as u32 <= b as u32 <= 'Z' as u32 && a as u32 == b as u32 + 32)
}

/// Two words match when their letters and digits agree up to ASCII case.
pub open spec fn words_match(a: Seq<char>, b: Seq<char>) -> bool {
    let x = alnum_only(a);
    let y = alnum_only(b);
    x.len() == y.len() && forall|i: int| 0 <= i < x.len() ==> same_ignoring_ascii_case(x[i], y[i])
}

/// How many leading words of `out` and `curr` match pairwise.
pub open spec fn matching_words(out: Seq<Seq<char>>, curr: Seq<Seq<char>>) -> nat
    decreases out.len(),
{
    if out.len() == 0 || curr.len() == 0 || !words_match(out[0], curr[0]) {
        0
    } else {
        1 + matching_words(out.drop_first(), curr.drop_first())
    }
}

/// `n - k`, or 0 when `k` is larger.
pub open spec fn minus(n: nat, k: nat) -> nat {
    if k <= n {
        (n - k) as nat
    } else {
        0
    }
}

/// The abstract state of a [`StreamingSimulator`].
pub struct StreamingView {
    pub committed: Seq<Seq<char>>,
    pub pending: Seq<Seq<char>>,
    pub silence_streak: nat,
    pub stable_chunks: nat,
}

/// The correction that a transcription with words `curr` brings: how many
/// pending words are deleted and which words are typed.
pub open spec fn correction(v: StreamingView, curr: Seq<Seq<char>>) -> (nat, Seq<Seq<char>>) {
    let m = matching_words(v.committed + v.pending, curr);
    if m < v.committed.len() {
        (0, curr)
    } else {
        (minus(v.pending.len(), minus(m, v.committed.len())), curr.skip(m as int))
    }
}

/// The state after a transcription with words `curr`: the correction is
/// applied to the pending words, the stability count moves, and when the
/// pending words are stable or many, all but the last two (or three) are
/// committed.
pub open spec fn after_transcription(v: StreamingView, curr: Seq<Seq<char>>) -> StreamingView {
    let (del, typed) = correction(v, curr);
    let pending = v.pending.take(v.pending.len() - del) + typed;
    let stable = if del > 0 {
        0
    } else if typed.len() > 0 {
        counted(v.stable_chunks)
    } else {
        v.stable_chunks
    };
    let count = if stable >= STABLE_CHUNKS as nat {
        minus(pending.len(), 2)
    } else {
        minus(pending.len(), 3)
    };
    if pending.len() > 0 && (stable >= STABLE_CHUNKS as nat || pending.len() >= MANY_PENDING_WORDS as nat)
        && count > 0 {
        StreamingView {
            committed: v.committed + pending.take(count as int),
            pending: pending.skip(count as int),
            stable_chunks: 0,
            ..v
        }
    } else {
        StreamingView { pending, stable_chunks: stable, ..v }
    }
}

/// What a transcription changed, for display.
pub struct WordUpdate {
    /// The pending words deleted.
    pub deleted: Vec<String>,
    /// The words typed.
    pub typed: Vec<String>,
    /// How many pending words were committed afterwards.
    pub committed_now: usize,
    /// The transcription disagreed with committed words: nothing was
    /// deleted and all its words were typed.
    pub lost_track: bool,
}

/// The decisions of the word-level streaming simulation.
pub struct StreamingSimulator {
    committed_words: Vec<String>,
    pending_words: Vec<String>,
    silence_streak: usize,
    chunks_since_commit: usize,
}

impl View for StreamingSimulator {
    type V = StreamingView;

    closed spec fn view(&self) -> StreamingView {
        StreamingView {
            committed: views_of(self.committed_words@),
            pending: views_of(self.pending_words@),
            silence_streak: self.silence_streak as nat,
            stable_chunks: self.chunks_since_commit as nat,
        }
    }
}

/// The letters and digits of `s`.
fn alnum_chars(s: &str) -> (r: Vec<char>)
    ensures
        r@ == alnum_only(s@),
{
    let chars = chars_of(s);
    let mut r: Vec<char> = Vec::new();
    let mut i: usize = 0;
    assert(s@.take(0) =~= Seq::<char>::empty());
    while i < chars.len()
        invariant
            chars@ == s@,
            i <= s@.len(),
            r@ == alnum_only(s@.take(i as int)),
        decreases s@.len() - i,
    {
        assert(s@.take(i + 1).drop_last() =~= s@.take(i as int));
        if alphanumeric(chars[i]) {
            r.push(chars[i]);
        }
        i = i + 1;
    }
    assert(s@.take(i as int) =~= s@);
    r
}

/// Whether two characters are the same up to ASCII case.
fn chars_match(a: char, b: char) -> (r: bool)
    ensures
        r == same_ignoring_ascii_case(a, b),
{
    let x = a as u32;
    let y = b as u32;
    x == y || ('A' as u32 <= x && x <= 'Z' as u32 && y == x + 32) || ('A' as u32 <= y && y
        <= 'Z' as u32 && x == y + 32)
}

/// Whether two words match: their letters and digits agree up to ASCII case.
pub fn word_matches(a: &str, b: &str) -> (r: bool)
    ensures
        r == words_match(a@, b@),
{
    let x = alnum_chars(a);
    let y = alnum_chars(b);
    if x.len() != y.len() {
        return false;
    }
    let mut i: usize = 0;
    while i < x.len()
        invariant
            x@ == alnum_only(a@),
            y@ == alnum_only(b@),
            x@.len() == y@.len(),
            i <= x@.len(),
            forall|j: int| 0 <= j < i ==> same_ignoring_ascii_case(x@[j], y@[j]),
        decreases x@.len() - i,
    {
        if !chars_match(x[i], y[i]) {
            return false;
        }
        i = i + 1;
    }
    true
}

/// The matching count measured from position `i` on, one word further.
proof fn lemma_matching_step(out: Seq<Seq<char>>, curr: Seq<Seq<char>>, i: int)
    requires
        0 <= i < out.len(),
        i < curr.len(),
        words_match(out[i], curr[i]),
    ensures
        matching_words(out.skip(i), curr.skip(i)) == 1 + matching_words(out.skip(i + 1), curr.skip(i + 1)),
{
    assert(out.skip(i).drop_first() =~= out.skip(i + 1));
    assert(curr.skip(i).drop_first() =~= curr.skip(i + 1));
}

/// The matching count never exceeds either length.
proof fn lemma_matching_bound(out: Seq<Seq<char>>, curr: Seq<Seq<char>>)
    ensures
        matching_words(out, curr) <= out.len(),
        matching_words(out, curr) <= curr.len(),
    decreases out.len(),
{
    if out.len() > 0 && curr.len() > 0 && words_match(out[0], curr[0]) {
        lemma_matching_bound(out.drop_first(), curr.drop_first());
    }
}

/// Viewing a sequence of strings commutes with pushing one more.
proof fn lemma_views_push(v: Seq<String>, x: String)
    ensures
        views_of(v.push(x)) == views_of(v).push(x@),
{
    assert(views_of(v.push(x)) =~= views_of(v).push(x@)) by {
        assert forall|j: int| 0 <= j < v.len() + 1 implies views_of(v.push(x))[j] == views_of(
            v,
        ).push(x@)[j] by {
            if j < v.len() {
                assert(v.push(x)[j] == v[j]);
            }
        }
    }
}

/// Copies of the strings of `v` from `from` to `to`.
fn copy_words(v: &Vec<String>, from: usize, to: usize) -> (r: Vec<String>)
    requires
        from <= to <= v@.len(),
    ensures
        views_of(r@) == views_of(v@).subrange(from as int, to as int),
{
    let mut r: Vec<String> = Vec::new();
    let mut i: usize = from;
    while i < to
        invariant
            from <= i <= to <= v@.len(),
            views_of(r@) == views_of(v@).subrange(from as int, i as int),
        decreases to - i,
    {
        let ghost before = r@;
        let w = String::from_str(v[i].as_str());
        r.push(w);
        proof {
            lemma_views_push(before, w);
        }
        i = i + 1;
        assert(views_of(r@) =~= views_of(v@).subrange(from as int, i as int));
    }
    r
}

/// How many leading words of the output so far (`committed`, then
/// `pending`) match the words `curr`.
fn count_matching(committed: &Vec<String>, pending: &Vec<String>, curr_words: &Vec<String>) -> (m: usize)
    ensures
        m == matching_words(views_of(committed@) + views_of(pending@), views_of(curr_words@)),
        m <= committed@.len() + pending@.len(),
        m <= curr_words@.len(),
{
    let ghost curr = views_of(curr_words@);
    let ghost v = StreamingView {
        committed: views_of(committed@),
        pending: views_of(pending@),
        silence_streak: 0,
        stable_chunks: 0,
    };
    let ghost out = v.committed + v.pending;
    let n_committed = committed.len();
    let n_pending = pending.len();
    let limit = if n_committed >= curr_words.len() {
        curr_words.len()
    } else if n_pending >= curr_words.len() - n_committed {
        curr_words.len()
    } else {
        n_committed + n_pending
    };
    let mut match_len: usize = 0;
    assert(out.skip(0) =~= out && curr.skip(0) =~= curr);
    let mut matching = true;
    while matching && match_len < limit
        invariant
            out == v.committed + v.pending,
            v.committed == views_of(committed@),
            v.pending == views_of(pending@),
            n_committed == committed@.len(),
            n_pending == pending@.len(),
            curr == views_of(curr_words@),
            n_committed == v.committed.len(),
            n_pending == v.pending.len(),
            limit == if out.len() < curr.len() { out.len() } else { curr.len() },
            match_len <= limit,
            !matching ==> match_len < limit && !words_match(
                out[match_len as int],
                curr[match_len as int],
            ),
            matching_words(out, curr) == match_len + matching_words(
                out.skip(match_len as int),
                curr.skip(match_len as int),
            ),
        decreases limit - match_len + if matching { 1int } else { 0int },
    {
        let i = match_len;
        let word = if i < n_committed {
            proof {
                assert(out[i as int] == v.committed[i as int]);
            }
            committed[i].as_str()
        } else {
            proof {
                assert(out[i as int] == v.pending[i - n_committed]);
            }
            pending[i - n_committed].as_str()
        };
        if word_matches(word, curr_words[i].as_str()) {
            proof {
                lemma_matching_step(out, curr, i as int);
            }
            match_len = match_len + 1;
        } else {
            matching = false;
        }
    }
    proof {
        let i = match_len as int;
        if !matching {
            assert(out.skip(i)[0] == out[i]);
            assert(curr.skip(i)[0] == curr[i]);
        }
        assert(matching_words(out.skip(i), curr.skip(i)) == 0);
        lemma_matching_bound(out, curr);
    }
    match_len
}

impl StreamingSimulator {
    /// A simulation with no words yet.
    pub fn new() -> (s: Self)
        ensures
            s@ == (StreamingView {
                committed: Seq::empty(),
                pending: Seq::empty(),
                silence_streak: 0,
                stable_chunks: 0,
            }),
    {
        let s = StreamingSimulator {
            committed_words: Vec::new(),
            pending_words: Vec::new(),
            silence_streak: 0,
            chunks_since_commit: 0,
        };
        assert(s@.committed =~= Seq::<Seq<char>>::empty());
        assert(s@.pending =~= Seq::<Seq<char>>::empty());
        s
    }

    /// A silent window: the streak grows, and after a pause long enough the
    /// pending words are committed. Returns how many were.
    pub fn on_silence(&mut self) -> (n: usize)
        ensures
            ({
                let before = old(self)@;
                let streak = counted(before.silence_streak);
                if streak >= SILENCE_COMMIT_CHUNKS as nat && before.pending.len() > 0 {
                    &&& n == before.pending.len()
                    &&& final(self)@ == StreamingView {
                        committed: before.committed + before.pending,
                        pending: Seq::empty(),
                        silence_streak: streak,
                        ..before
                    }
                } else {
                    n == 0 && final(self)@ == StreamingView { silence_streak: streak, ..before }
                }
            }),
    {
        if self.silence_streak < usize::MAX {
            self.silence_streak = self.silence_streak + 1;
        }
        if self.silence_streak >= SILENCE_COMMIT_CHUNKS && self.pending_words.len() > 0 {
            let n = self.pending_words.len();
            let ghost c = views_of(self.committed_words@);
            let ghost p = views_of(self.pending_words@);
            self.committed_words.append(&mut self.pending_words);
            assert(views_of(self.committed_words@) =~= c + p);
            assert(views_of(self.pending_words@) =~= Seq::<Seq<char>>::empty());
            return n;
        }
        0
    }

    /// A window with speech: the silence streak ends.
    pub fn on_speech(&mut self)
        ensures
            final(self)@ == (StreamingView { silence_streak: 0, ..old(self)@ }),
    {
        self.silence_streak = 0;
    }

    /// Takes the transcription of the window. Empty once trimmed, it changes
    /// nothing and gives `None`. Otherwise its words are matched against the
    /// words output so far and the pending words are corrected.
    pub fn on_transcription(&mut self, text: &str) -> (r: Option<WordUpdate>)
        ensures
            trim_of(text@).len() == 0 ==> r is None && final(self)@ == old(self)@,
            trim_of(text@).len() > 0 ==> {
                let curr = words_of(trim_of(text@));
                let (del, typed) = correction(old(self)@, curr);
                &&& final(self)@ == after_transcription(old(self)@, curr)
                &&& r matches Some(u) && views_of(u.typed@) == typed && views_of(u.deleted@)
                    == old(self)@.pending.skip(old(self)@.pending.len() - del) && u.lost_track == (
                matching_words(old(self)@.committed + old(self)@.pending, curr) < old(
                    self,
                )@.committed.len())
            },
    {
        let t = trimmed(text);
        if t.as_str().is_empty() {
            return None;
        }
        let curr_words = split_words(t.as_str());
        let ghost curr = views_of(curr_words@);
        let ghost v = self@;
        let ghost out = v.committed + v.pending;
        let n_committed = self.committed_words.len();
        let n_pending = self.pending_words.len();
        let match_len = count_matching(&self.committed_words, &self.pending_words, &curr_words);
        let lost_track = match_len < n_committed;
        let words_to_delete: usize;
        let words_to_type: Vec<String>;
        if lost_track {
            words_to_delete = 0;
            words_to_type = copy_words(&curr_words, 0, curr_words.len());
            assert(curr.subrange(0, curr.len() as int) =~= curr);
        } else {
            let pending_match = match_len - n_committed;
            words_to_delete = if pending_match <= n_pending {
                n_pending - pending_match
            } else {
                0
            };
            words_to_type = copy_words(&curr_words, match_len, curr_words.len());
            assert(curr.subrange(match_len as int, curr.len() as int) =~= curr.skip(
                match_len as int,
            ));
        }
        let deleted = copy_words(&self.pending_words, n_pending - words_to_delete, n_pending);
        assert(v.pending.subrange((n_pending - words_to_delete) as int, n_pending as int)
            =~= v.pending.skip(n_pending - words_to_delete));
        let ghost typed = views_of(words_to_type@);
        if words_to_delete > 0 {
            self.pending_words.truncate(n_pending - words_to_delete);
            self.chunks_since_commit = 0;
        } else if words_to_type.len() > 0 {
            if self.chunks_since_commit < usize::MAX {
                self.chunks_since_commit = self.chunks_since_commit + 1;
            }
        }
        let ghost kept = views_of(self.pending_words@);
        let ghost streak = self.silence_streak;
        let ghost stable = self.chunks_since_commit;
        assert(kept =~= v.pending.take(v.pending.len() - words_to_delete));
        let mut k: usize = 0;
        while k < words_to_type.len()
            invariant
                kept == v.pending.take(v.pending.len() - words_to_delete),
                typed == views_of(words_to_type@),
                k <= words_to_type@.len(),
                views_of(self.pending_words@) == kept + typed.take(k as int),
                views_of(self.committed_words@) == v.committed,
                self.silence_streak == streak,
                self.chunks_since_commit == stable,
            decreases words_to_type@.len() - k,
        {
            let ghost before = self.pending_words@;
            let w = String::from_str(words_to_type[k].as_str());
            self.pending_words.push(w);
            proof {
                lemma_views_push(before, w);
            }
            k = k + 1;
            assert(views_of(self.pending_words@) =~= kept + typed.take(k as int));
        }
        assert(typed.take(k as int) =~= typed);
        let ghost pending0 = views_of(self.pending_words@);
        let ghost stable0 = self.chunks_since_commit as nat;
        proof {
            lemma_matching_bound(out, curr);
            assert(pending0 == v.pending.take(v.pending.len() - correction(v, curr).0) + correction(
                v,
                curr,
            ).1);
            assert(stable0 == (if correction(v, curr).0 > 0 {
                0
            } else if correction(v, curr).1.len() > 0 {
                counted(v.stable_chunks)
            } else {
                v.stable_chunks
            }));
        }
        let mut committed_now: usize = 0;
        let n = self.pending_words.len();
        if n > 0 && (self.chunks_since_commit >= STABLE_CHUNKS || n >= MANY_PENDING_WORDS) {
            let commit_count = if self.chunks_since_commit >= STABLE_CHUNKS {
                if n >= 2 {
                    n - 2
                } else {
                    0
                }
            } else {
                if n >= 3 {
                    n - 3
                } else {
                    0
                }
            };
            if commit_count > 0 {
                let ghost p = views_of(self.pending_words@);
                let ghost c = views_of(self.committed_words@);
                let mut to_commit = copy_words(&self.pending_words, 0, commit_count);
                let rest = copy_words(&self.pending_words, commit_count, n);
                self.committed_words.append(&mut to_commit);
                self.pending_words = rest;
                assert(views_of(self.committed_words@) =~= c + p.take(commit_count as int));
                assert(p.subrange(commit_count as int, n as int) =~= p.skip(commit_count as int));
                assert(p.subrange(0, commit_count as int) =~= p.take(commit_count as int));
                self.chunks_since_commit = 0;
                committed_now = commit_count;
            }
        }
        proof {
            lemma_matching_bound(out, curr);
            assert(matching_words(out, curr) == match_len);
            assert(correction(v, curr).0 == words_to_delete);
            assert(correction(v, curr).1 == typed);
            assert(self@ == after_transcription(v, curr));
            assert(views_of(deleted@) == v.pending.skip(v.pending.len() - words_to_delete));
        }
        Some(WordUpdate { deleted, typed: words_to_type, committed_now, lost_track })
    }

    /// All words output: the committed ones, then the pending ones.
    pub fn final_words(&self) -> (r: Vec<String>)
        ensures
            views_of(r@) == self@.committed + self@.pending,
    {
        let mut r = copy_words(&self.committed_words, 0, self.committed_words.len());
        let mut p = copy_words(&self.pending_words, 0, self.pending_words.len());
        let ghost a = views_of(r@);
        let ghost b = views_of(p@);
        r.append(&mut p);
        assert(views_of(r@) =~= a + b);
        assert(a =~= self@.committed);
        assert(b =~= self@.pending);
        r
    }
}

} // verus!
