//! Naming and choosing test recordings. Capturing and storing them happens
//! outside.

use vstd::prelude::*;
use vstd::string::*;
use crate::text::{chars_of, lower_of, lowercase};

verus! {

/// `s` with each space turned into a dash and each comma dropped.
pub open spec fn slug_of(s: Seq<char>) -> Seq<char>
    decreases s.len(),
{
    if s.len() == 0 {
        Seq::empty()
    } else if s.last() == ',' {
        slug_of(s.drop_last())
    } else if s.last() == ' ' {
        slug_of(s.drop_last()).push('-')
    } else {
        slug_of(s.drop_last()).push(s.last())
    }
}

/// The file stem of a recording of the test case named `case_name`: the
/// name in lower case, spaces turned into dashes, commas dropped.
pub fn recording_stem(case_name: &str) -> (r: String)
    ensures
        r@ == slug_of(lower_of(case_name@)),
{
    let lower = lowercase(case_name);
    let chars = chars_of(lower.as_str());
    let ghost s = lower@;
    let mut r = String::new();
    let mut i: usize = 0;
    assert(s.take(0) =~= Seq::<char>::empty());
    while i < chars.len()
        invariant
            chars@ == s,
            lower@ == s,
            i <= s.len(),
            r@ == slug_of(s.take(i as int)),
        decreases s.len() - i,
    {
        proof {
            reveal_strlit("-");
        }
        assert(s.take(i + 1).drop_last() =~= s.take(i as int));
        let ghost before = r@;
        let c = chars[i];
        if c == ',' {
        } else if c == ' ' {
            r.append("-");
            assert(r@ =~= before.push('-'));
        } else {
            let one = lower.as_str().substring_char(i, i + 1);
            r.append(one);
            assert(r@ =~= before.push(c));
        }
        i = i + 1;
    }
    assert(s.take(i as int) =~= s);
    r
}

/// The index of the test case chosen by the 1-based `choice` among `count`
/// cases; the first case when the choice is out of range.
pub fn selected_case(choice: usize, count: usize) -> (i: usize)
    ensures
        i == (if 1 <= choice <= count { choice - 1 } else { 0 }),
{
    if choice >= 1 && choice <= count {
        choice - 1
    } else {
        0
    }
}

} // verus!
