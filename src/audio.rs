//! The sliding context window over captured audio. Capture, downmixing,
//! resampling and the energy-based silence test happen outside, on the
//! samples themselves.

use vstd::prelude::*;
use crate::constants::{CONTEXT_WINDOW_SAMPLES, SAMPLE_RATE};
use crate::hybrid_vad::{drop_front, slid};
use crate::transcription_state::{append_samples, padded, padded_copy};

verus! {

/// The newest samples of a recording, at most [`CONTEXT_WINDOW_SAMPLES`].
pub struct SlidingWindow<S> {
    samples: Vec<S>,
    padding: S,
}

impl<S: Copy> SlidingWindow<S> {
    /// The samples in the window, oldest first.
    pub closed spec fn contents(&self) -> Seq<S> {
        self.samples@
    }

    /// The sample used to pad a short window (silence).
    pub closed spec fn padding_spec(&self) -> S {
        self.padding
    }

    /// An empty window that pads with `padding`.
    pub fn new(padding: S) -> (w: Self)
        ensures
            w.contents() == Seq::<S>::empty(),
            w.padding_spec() == padding,
    {
        SlidingWindow { samples: Vec::new(), padding }
    }

    /// Empties the window, for a new recording.
    pub fn clear(&mut self)
        ensures
            final(self).contents() == Seq::<S>::empty(),
            final(self).padding_spec() == old(self).padding_spec(),
    {
        self.samples.clear();
    }

    /// Adds the newly captured `chunk`, drops what is older than the window
    /// length, and returns the window padded to at least one second together
    /// with the number of new samples.
    pub fn push_chunk(&mut self, chunk: &[S]) -> (r: (Vec<S>, usize))
        ensures
            final(self).contents() == slid(old(self).contents(), chunk@),
            final(self).padding_spec() == old(self).padding_spec(),
            r.0@ == padded(final(self).contents(), SAMPLE_RATE as nat, old(self).padding_spec()),
            r.1 == chunk@.len(),
    {
        append_samples(&mut self.samples, chunk);
        if self.samples.len() > CONTEXT_WINDOW_SAMPLES {
            let excess = self.samples.len() - CONTEXT_WINDOW_SAMPLES;
            self.samples = drop_front(&self.samples, excess);
        }
        (padded_copy(&self.samples, SAMPLE_RATE, self.padding), chunk.len())
    }
}

/// The last `new_count` samples of `window` when that many are there and
/// there is at least one; all of `window` otherwise.
pub fn newest_samples<S: Copy>(window: &[S], new_count: usize) -> (r: Vec<S>)
    ensures
        r@ == (if 0 < new_count <= window@.len() {
            window@.skip(window@.len() - new_count)
        } else {
            window@
        }),
{
    let mut all: Vec<S> = Vec::new();
    append_samples(&mut all, window);
    assert(all@ =~= window@);
    if new_count > 0 && new_count <= window.len() {
        drop_front(&all, window.len() - new_count)
    } else {
        all
    }
}

} // verus!
