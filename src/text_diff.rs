//! Minimal delete/type edits between two text states.
//!
//! Text is compared character by character, never byte by byte, so a
//! multi-byte character is never split.

use vstd::prelude::*;
use vstd::string::*;
use vstd::utf8::*;
use crate::text::chars_of;

verus! {

/// Length, in characters, of the longest common prefix of `a` and `b`.
pub open spec fn common_prefix_len(a: Seq<char>, b: Seq<char>) -> nat
    decreases a.len(),
{
    if a.len() == 0 || b.len() == 0 || a[0] != b[0] {
        0
    } else {
        1 + common_prefix_len(a.drop_first(), b.drop_first())
    }
}

/// Result of computing the difference between two text strings.
#[derive(Debug, Clone, PartialEq, Eq)]
pub struct TextDiff {
    /// Number of bytes in the common prefix (UTF-8 byte offset).
    pub common_prefix_bytes: usize,
    /// Number of characters to delete from the end of the old text.
    pub chars_to_delete: usize,
    /// Text to type after the deletion.
    pub suffix_to_type: String,
}

/// Number of bytes in the UTF-8 encoding of `c`.
pub fn utf8_width(c: char) -> (w: usize)
    ensures
        w == encode_scalar(c as u32).len(),
        1 <= w <= 4,
{
    proof {
        char_is_scalar(c);
    }
    let u = c as u32;
    if u < 0x80 {
        1
    } else if u < 0x800 {
        2
    } else if u < 0x10000 {
        3
    } else {
        4
    }
}

/// Whether the character sequence `a` is a prefix of `b`.
pub fn is_char_prefix(a: &Vec<char>, b: &Vec<char>) -> (r: bool)
    ensures
        r == a@.is_prefix_of(b@),
{
    if a.len() > b.len() {
        return false;
    }
    let mut i: usize = 0;
    while i < a.len()
        invariant
            a.len() <= b.len(),
            i <= a.len(),
            forall|j: int| 0 <= j < i ==> a@[j] == b@[j],
        decreases a.len() - i,
    {
        if a[i] != b[i] {
            assert(a@ != b@.subrange(0, a@.len() as int));
            return false;
        }
        i = i + 1;
    }
    assert(a@ =~= b@.subrange(0, a@.len() as int));
    true
}

/// The UTF-8 encoding of a concatenation is the concatenation of the encodings.
pub proof fn lemma_encode_utf8_concat(a: Seq<char>, b: Seq<char>)
    ensures
        encode_utf8(a + b) == encode_utf8(a) + encode_utf8(b),
    decreases a.len(),
{
    if a.len() == 0 {
        assert(a + b =~= b);
        assert(encode_utf8(a) + encode_utf8(b) =~= encode_utf8(b));
    } else {
        assert((a + b).drop_first() =~= a.drop_first() + b);
        lemma_encode_utf8_concat(a.drop_first(), b);
        assert(encode_utf8(a + b) =~= encode_utf8(a) + encode_utf8(b));
    }
}

/// Encoding one more character of `s` adds that character's bytes.
proof fn lemma_encode_utf8_take_step(s: Seq<char>, i: int)
    requires
        0 <= i < s.len(),
    ensures
        encode_utf8(s.take(i + 1)) == encode_utf8(s.take(i)) + encode_scalar(s[i] as u32),
        encode_utf8(s.take(i)).len() + encode_utf8(s.skip(i)).len() == encode_utf8(s).len(),
{
    assert(s.take(i + 1) =~= s.take(i) + seq![s[i]]);
    lemma_encode_utf8_concat(s.take(i), seq![s[i]]);
    let one = seq![s[i]];
    assert(one[0] == s[i]);
    assert(one.drop_first() =~= Seq::<char>::empty());
    assert(encode_utf8(one.drop_first()) =~= Seq::<u8>::empty());
    assert(encode_utf8(one) =~= encode_scalar(s[i] as u32));
    assert(s =~= s.take(i) + s.skip(i));
    lemma_encode_utf8_concat(s.take(i), s.skip(i));
}

/// The common prefix measured from position `i` on, one character further.
proof fn lemma_common_prefix_step(a: Seq<char>, b: Seq<char>, i: int)
    requires
        0 <= i < a.len(),
        i < b.len(),
        a[i] == b[i],
    ensures
        common_prefix_len(a.skip(i), b.skip(i)) == 1 + common_prefix_len(a.skip(i + 1), b.skip(i + 1)),
{
    assert(a.skip(i).drop_first() =~= a.skip(i + 1));
    assert(b.skip(i).drop_first() =~= b.skip(i + 1));
}

/// What characterises the common prefix length: both sequences agree up to it,
/// and differ right after it unless one of them ends there.
pub proof fn lemma_common_prefix_len_props(a: Seq<char>, b: Seq<char>)
    ensures
        common_prefix_len(a, b) <= a.len(),
        common_prefix_len(a, b) <= b.len(),
        a.take(common_prefix_len(a, b) as int) == b.take(common_prefix_len(a, b) as int),
        common_prefix_len(a, b) < a.len() && common_prefix_len(a, b) < b.len() ==> a[common_prefix_len(a, b) as int] != b[common_prefix_len(a, b) as int],
    decreases a.len(),
{
    let p = common_prefix_len(a, b);
    if a.len() == 0 || b.len() == 0 || a[0] != b[0] {
        assert(a.take(0) =~= b.take(0));
    } else {
        lemma_common_prefix_len_props(a.drop_first(), b.drop_first());
        let q = common_prefix_len(a.drop_first(), b.drop_first());
        assert(a.take(p as int) =~= seq![a[0]] + a.drop_first().take(q as int));
        assert(b.take(p as int) =~= seq![b[0]] + b.drop_first().take(q as int));
        if p < a.len() && p < b.len() {
            assert(a[p as int] == a.drop_first()[q as int]);
            assert(b[p as int] == b.drop_first()[q as int]);
        }
    }
}

/// A sequence shares all of itself with itself.
pub proof fn lemma_common_prefix_len_self(a: Seq<char>)
    ensures
        common_prefix_len(a, a) == a.len(),
    decreases a.len(),
{
    if a.len() > 0 {
        lemma_common_prefix_len_self(a.drop_first());
    }
}

/// Diffing a text against itself deletes nothing and types nothing, for any
/// text, multi-byte characters included.
pub proof fn law_diff_of_identical_texts(x: Seq<char>)
    ensures
        x.len() - common_prefix_len(x, x) == 0,
        x.skip(common_prefix_len(x, x) as int) == Seq::<char>::empty(),
{
    lemma_common_prefix_len_self(x);
    assert(x.skip(x.len() as int) =~= Seq::<char>::empty());
}

/// Compute the minimal keyboard operations that turn `old_text` into `new_text`:
/// keep the longest common prefix, delete the rest of the old text and type
/// the rest of the new one.
pub fn compute_text_diff(old_text: &str, new_text: &str) -> (diff: TextDiff)
    ensures
        diff.chars_to_delete == old_text@.len() - common_prefix_len(old_text@, new_text@),
        diff.suffix_to_type@ == new_text@.skip(common_prefix_len(old_text@, new_text@) as int),
        diff.common_prefix_bytes == encode_utf8(
            old_text@.take(common_prefix_len(old_text@, new_text@) as int),
        ).len(),
{
    let old_chars = chars_of(old_text);
    let new_chars = chars_of(new_text);
    let old_bytes = old_text.as_bytes();
    let old_byte_len = old_bytes.len();
    let ghost a = old_text@;
    let ghost b = new_text@;
    let mut i: usize = 0;
    let mut common_prefix_bytes: usize = 0;
    assert(a.skip(0) =~= a && b.skip(0) =~= b);
    assert(a.take(0) =~= Seq::<char>::empty());
    while i < old_chars.len() && i < new_chars.len() && old_chars[i] == new_chars[i]
        invariant
            old_chars@ == a,
            new_chars@ == b,
            old_byte_len == encode_utf8(a).len(),
            i <= a.len(),
            i <= b.len(),
            common_prefix_len(a, b) == i + common_prefix_len(a.skip(i as int), b.skip(i as int)),
            common_prefix_bytes == encode_utf8(a.take(i as int)).len(),
        decreases a.len() - i,
    {
        proof {
            lemma_common_prefix_step(a, b, i as int);
            lemma_encode_utf8_take_step(a, i as int);
            if i + 1 < a.len() {
                lemma_encode_utf8_take_step(a, i + 1);
            } else {
                assert(a.take(i + 1) =~= a);
            }
        }
        common_prefix_bytes = common_prefix_bytes + utf8_width(old_chars[i]);
        i = i + 1;
    }
    assert(common_prefix_len(a.skip(i as int), b.skip(i as int)) == 0);
    let chars_to_delete = old_chars.len() - i;
    let suffix = new_text.substring_char(i, new_chars.len());
    let suffix_to_type = String::from_str(suffix);
    assert(suffix_to_type@ =~= b.skip(i as int));
    TextDiff { common_prefix_bytes, chars_to_delete, suffix_to_type }
}

/// The suffix to append when `new_text` extends `old_text` by at least one
/// character; `None` otherwise.
pub fn compute_append(old_text: &str, new_text: &str) -> (r: Option<String>)
    ensures
        r is Some <==> (old_text@.is_prefix_of(new_text@) && new_text@.len() > old_text@.len()),
        r is Some ==> r->Some_0@ == new_text@.skip(old_text@.len() as int),
{
    let old_chars = chars_of(old_text);
    let new_chars = chars_of(new_text);
    if new_chars.len() > old_chars.len() && is_char_prefix(&old_chars, &new_chars) {
        let suffix = new_text.substring_char(old_chars.len(), new_chars.len());
        let s = String::from_str(suffix);
        assert(s@ =~= new_text@.skip(old_text@.len() as int));
        Some(s)
    } else {
        None
    }
}

} // verus!
