//! What surrounds a call of the inference engine: whether a language is
//! forced, and how the text of its segments is put together. The engine
//! itself runs outside.

use vstd::prelude::*;
use vstd::string::*;
use crate::text::{trim_of, trimmed, views_of};

verus! {

/// Whether the engine is told a language: one is given and it is not
/// `"auto"`.
pub fn forces_language(language: &str) -> (r: bool)
    ensures
        r == (language@.len() > 0 && language@ != "auto"@),
{
    !language.is_empty() && String::from_str(language) != String::from_str("auto")
}

/// Each segment followed by a space, in order.
pub open spec fn spaced(segments: Seq<Seq<char>>) -> Seq<char>
    decreases segments.len(),
{
    if segments.len() == 0 {
        Seq::empty()
    } else {
        spaced(segments.drop_last()) + segments.last() + seq![' ']
    }
}

/// The text of a run: the segments, each followed by a space, trimmed.
pub fn join_segments(segments: &Vec<String>) -> (r: String)
    ensures
        r@ == trim_of(spaced(views_of(segments@))),
{
    let ghost all = views_of(segments@);
    let mut text = String::new();
    let mut i: usize = 0;
    assert(all.take(0) =~= Seq::<Seq<char>>::empty());
    while i < segments.len()
        invariant
            all == views_of(segments@),
            i <= segments@.len(),
            text@ == spaced(all.take(i as int)),
        decreases segments@.len() - i,
    {
        assert(all.take(i + 1).drop_last() =~= all.take(i as int));
        assert(all.take(i + 1).last() == segments@[i as int]@);
        proof {
            reveal_strlit(" ");
        }
        let ghost before = text@;
        text.append(segments[i].as_str());
        text.append(" ");
        assert(text@ =~= before + segments@[i as int]@ + seq![' ']);
        i = i + 1;
    }
    assert(all.take(i as int) =~= all);
    trimmed(text.as_str())
}

} // verus!
