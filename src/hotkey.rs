//! Hotkey descriptions such as `"Cmd+Shift+T"`: parsing them into modifiers
//! and a key, choosing between toggle and start/stop bindings, and telling
//! which binding a pressed hotkey belongs to.
//!
//! Registering the hotkeys with the operating system happens outside, from
//! the [`HotkeySpec`] values produced here.

use vstd::prelude::*;
use vstd::string::*;
use crate::config::HotkeyConfig;
use crate::text::{chars_of, lower_of, lowercase, same_text, trim_of, trimmed, upper_of, uppercase, views_of};

verus! {

/// What a pressed hotkey asks for.
#[derive(Debug, Clone, Copy, PartialEq, Eq, Structural)]
pub enum HotkeyEvent {
    StartTranscription,
    StopTranscription,
    ToggleTranscription,
}

/// The modifier keys held with a hotkey.
#[derive(Debug, Clone, Copy, PartialEq, Eq, Structural)]
pub struct Modifiers {
    pub super_key: bool,
    pub control: bool,
    pub alt: bool,
    pub shift: bool,
}

/// One modifier key.
#[derive(Debug, Clone, Copy, PartialEq, Eq, Structural)]
pub enum Modifier {
    Super,
    Control,
    Alt,
    Shift,
}

/// The main key of a hotkey.
#[derive(Debug, Clone, Copy, PartialEq, Eq, Structural)]
pub enum KeyCode {
    /// A letter key, `'A'` to `'Z'`.
    Letter(char),
    /// A digit key, 0 to 9.
    Digit(u8),
    /// A function key, F1 to F12.
    Function(u8),
    Space,
    Enter,
    Tab,
    Backspace,
    Escape,
}

/// A parsed hotkey.
#[derive(Debug, Clone, Copy, PartialEq, Eq, Structural)]
pub struct HotkeySpec {
    pub modifiers: Modifiers,
    pub key: KeyCode,
}

/// Why a hotkey description is refused.
#[derive(Debug, Clone, PartialEq, Eq)]
pub enum HotkeyError {
    /// A part names no modifier and no known key; it holds the part,
    /// trimmed and lower-cased.
    UnknownKey(String),
    /// No part names a key.
    NoKey,
}

/// The digit value of `c`, which is between `'0'` and `'9'`.
pub open spec fn digit_value(c: char) -> u8 {
    (c as u32 - '0' as u32) as u8
}

/// `c` lies between `lo` and `hi`, both included.
pub open spec fn char_between(c: char, lo: char, hi: char) -> bool {
    lo as u32 <= c as u32 <= hi as u32
}

/// The key that an upper-case key name denotes, if any.
pub open spec fn key_code_of(k: Seq<char>) -> Option<KeyCode> {
    if k.len() == 1 && char_between(k[0], 'A', 'Z') {
        Some(KeyCode::Letter(k[0]))
    } else if k.len() == 1 && char_between(k[0], '0', '9') {
        Some(KeyCode::Digit(digit_value(k[0])))
    } else if k.len() == 2 && k[0] == 'F' && char_between(k[1], '1', '9') {
        Some(KeyCode::Function(digit_value(k[1])))
    } else if k.len() == 3 && k[0] == 'F' && k[1] == '1' && char_between(k[2], '0', '2') {
        Some(KeyCode::Function((10 + digit_value(k[2])) as u8))
    } else if k == "SPACE"@ {
        Some(KeyCode::Space)
    } else if k == "ENTER"@ || k == "RETURN"@ {
        Some(KeyCode::Enter)
    } else if k == "TAB"@ {
        Some(KeyCode::Tab)
    } else if k == "BACKSPACE"@ {
        Some(KeyCode::Backspace)
    } else if k == "ESCAPE"@ || k == "ESC"@ {
        Some(KeyCode::Escape)
    } else {
        None
    }
}

/// The modifier that a lower-case word denotes, if any.
pub open spec fn modifier_of(w: Seq<char>) -> Option<Modifier> {
    if w == "cmd"@ || w == "command"@ || w == "super"@ {
        Some(Modifier::Super)
    } else if w == "ctrl"@ || w == "control"@ {
        Some(Modifier::Control)
    } else if w == "alt"@ || w == "option"@ {
        Some(Modifier::Alt)
    } else if w == "shift"@ {
        Some(Modifier::Shift)
    } else {
        None
    }
}

/// The key that the upper-case key name `key` denotes, if any.
pub fn key_code_from_upper(key: &str) -> (r: Option<KeyCode>)
    ensures
        r == key_code_of(key@),
{
    let k = chars_of(key);
    proof {
        reveal_strlit("SPACE");
        reveal_strlit("ENTER");
        reveal_strlit("RETURN");
        reveal_strlit("TAB");
        reveal_strlit("BACKSPACE");
        reveal_strlit("ESCAPE");
        reveal_strlit("ESC");
    }
    if k.len() == 1 && 'A' as u32 <= k[0] as u32 && k[0] as u32 <= 'Z' as u32 {
        return Some(KeyCode::Letter(k[0]));
    }
    if k.len() == 1 && '0' as u32 <= k[0] as u32 && k[0] as u32 <= '9' as u32 {
        return Some(KeyCode::Digit((k[0] as u32 - '0' as u32) as u8));
    }
    if k.len() == 2 && k[0] == 'F' && '1' as u32 <= k[1] as u32 && k[1] as u32 <= '9' as u32 {
        return Some(KeyCode::Function((k[1] as u32 - '0' as u32) as u8));
    }
    if k.len() == 3 && k[0] == 'F' && k[1] == '1' && '0' as u32 <= k[2] as u32 && k[2] as u32
        <= '2' as u32 {
        return Some(KeyCode::Function((10 + (k[2] as u32 - '0' as u32)) as u8));
    }
    if same_text(key, "SPACE") {
        Some(KeyCode::Space)
    } else if same_text(key, "ENTER") || same_text(key, "RETURN") {
        Some(KeyCode::Enter)
    } else if same_text(key, "TAB") {
        Some(KeyCode::Tab)
    } else if same_text(key, "BACKSPACE") {
        Some(KeyCode::Backspace)
    } else if same_text(key, "ESCAPE") || same_text(key, "ESC") {
        Some(KeyCode::Escape)
    } else {
        None
    }
}

/// The modifier that the lower-case word `word` denotes, if any.
pub fn modifier_from_word(word: &str) -> (r: Option<Modifier>)
    ensures
        r == modifier_of(word@),
{
    if same_text(word, "cmd") || same_text(word, "command") || same_text(word, "super") {
        Some(Modifier::Super)
    } else if same_text(word, "ctrl") || same_text(word, "control") {
        Some(Modifier::Control)
    } else if same_text(word, "alt") || same_text(word, "option") {
        Some(Modifier::Alt)
    } else if same_text(word, "shift") {
        Some(Modifier::Shift)
    } else {
        None
    }
}

/// Parses a key name such as `"a"`, `"F5"` or `"space"`, in any case.
pub fn parse_key_code(key: &str) -> (r: Result<KeyCode, HotkeyError>)
    ensures
        key_code_of(upper_of(key@)) matches Some(k) ==> r == Ok::<KeyCode, HotkeyError>(k),
        key_code_of(upper_of(key@)) is None ==> (r matches Err(HotkeyError::UnknownKey(s)) && s@
            == key@),
{
    let upper = uppercase(key);
    match key_code_from_upper(upper.as_str()) {
        Some(k) => Ok(k),
        None => Err(HotkeyError::UnknownKey(String::from_str(key))),
    }
}

/// The parts of `s` between occurrences of `sep`; there is always at least
/// one part.
pub open spec fn split_on(s: Seq<char>, sep: char) -> Seq<Seq<char>>
    decreases s.len(),
{
    if s.len() == 0 {
        seq![Seq::empty()]
    } else {
        let init = split_on(s.drop_last(), sep);
        if s.last() == sep {
            init.push(Seq::empty())
        } else {
            init.update(init.len() - 1, init.last().push(s.last()))
        }
    }
}

/// Where parsing a hotkey description stands after some of its parts.
pub enum ParseState {
    /// The modifiers and the key (the last one named) seen so far.
    Parsing(Modifiers, Option<KeyCode>),
    /// A part (trimmed, lower-cased) named neither a modifier nor a key.
    Unknown(Seq<char>),
}

/// No modifier held.
pub open spec fn no_modifiers() -> Modifiers {
    Modifiers { super_key: false, control: false, alt: false, shift: false }
}

/// `m` with `modifier` held too.
pub open spec fn with_modifier(m: Modifiers, modifier: Modifier) -> Modifiers {
    match modifier {
        Modifier::Super => Modifiers { super_key: true, ..m },
        Modifier::Control => Modifiers { control: true, ..m },
        Modifier::Alt => Modifiers { alt: true, ..m },
        Modifier::Shift => Modifiers { shift: true, ..m },
    }
}

/// Parsing one more part: trimmed and lower-cased, it names a modifier or,
/// upper-cased, a key.
pub open spec fn parse_step(st: ParseState, part: Seq<char>) -> ParseState {
    match st {
        ParseState::Unknown(w) => ParseState::Unknown(w),
        ParseState::Parsing(m, k) => {
            let w = lower_of(trim_of(part));
            match modifier_of(w) {
                Some(modifier) => ParseState::Parsing(with_modifier(m, modifier), k),
                None => match key_code_of(upper_of(w)) {
                    Some(c) => ParseState::Parsing(m, Some(c)),
                    None => ParseState::Unknown(w),
                },
            }
        },
    }
}

/// Parsing `parts` in order.
pub open spec fn parse_parts(parts: Seq<Seq<char>>) -> ParseState
    decreases parts.len(),
{
    if parts.len() == 0 {
        ParseState::Parsing(no_modifiers(), None)
    } else {
        parse_step(parse_parts(parts.drop_last()), parts.last())
    }
}

/// The parts of `s` between `+` signs.
fn split_plus(s: &str) -> (parts: Vec<String>)
    ensures
        views_of(parts@) == split_on(s@, '+'),
{
    let chars = chars_of(s);
    let mut parts: Vec<String> = Vec::new();
    let mut start: usize = 0;
    let mut i: usize = 0;
    assert(s@.take(0) =~= Seq::<char>::empty());
    assert(views_of(parts@).push(s@.subrange(0, 0)) =~= split_on(s@.take(0), '+'));
    while i < chars.len()
        invariant
            chars@ == s@,
            start <= i <= s@.len(),
            views_of(parts@).push(s@.subrange(start as int, i as int)) == split_on(
                s@.take(i as int),
                '+',
            ),
        decreases s@.len() - i,
    {
        let ghost before = views_of(parts@);
        assert(s@.take(i + 1).drop_last() =~= s@.take(i as int));
        assert(s@.take(i + 1).last() == s@[i as int]);
        if chars[i] == '+' {
            parts.push(String::from_str(s.substring_char(start, i)));
            assert(views_of(parts@) =~= before.push(s@.subrange(start as int, i as int)));
            start = i + 1;
            i = i + 1;
            assert(s@.subrange(start as int, i as int) =~= Seq::<char>::empty());
            assert(views_of(parts@).push(s@.subrange(start as int, i as int)) =~= split_on(
                s@.take(i as int),
                '+',
            ));
        } else {
            i = i + 1;
            assert(s@.subrange(start as int, i as int) =~= s@.subrange(start as int, i - 1).push(
                s@[i - 1],
            ));
            assert(views_of(parts@).push(s@.subrange(start as int, i as int)) =~= split_on(
                s@.take(i as int),
                '+',
            ));
        }
    }
    let ghost before = views_of(parts@);
    parts.push(String::from_str(s.substring_char(start, i)));
    assert(views_of(parts@) =~= before.push(s@.subrange(start as int, i as int)));
    assert(s@.take(i as int) =~= s@);
    parts
}

/// Parses a hotkey description such as `"Cmd+Shift+T"`: parts separated by
/// `+`, each a modifier (`cmd`/`command`/`super`, `ctrl`/`control`,
/// `alt`/`option`, `shift`) or a key, in any case; the last key named wins.
pub fn parse_hotkey(hotkey: &str) -> (r: Result<HotkeySpec, HotkeyError>)
    ensures
        match parse_parts(split_on(hotkey@, '+')) {
            ParseState::Parsing(m, Some(k)) => r == Ok::<HotkeySpec, HotkeyError>(
                HotkeySpec { modifiers: m, key: k },
            ),
            ParseState::Parsing(_, None) => r matches Err(HotkeyError::NoKey),
            ParseState::Unknown(w) => r matches Err(HotkeyError::UnknownKey(s)) && s@ == w,
        },
{
    let parts = split_plus(hotkey);
    let ghost all = views_of(parts@);
    let mut modifiers = Modifiers { super_key: false, control: false, alt: false, shift: false };
    let mut key: Option<KeyCode> = None;
    let mut j: usize = 0;
    assert(all.take(0) =~= Seq::<Seq<char>>::empty());
    while j < parts.len()
        invariant
            all == views_of(parts@),
            all == split_on(hotkey@, '+'),
            j <= parts@.len(),
            parse_parts(all.take(j as int)) == ParseState::Parsing(modifiers, key),
        decreases parts@.len() - j,
    {
        assert(all.take(j + 1).drop_last() =~= all.take(j as int));
        assert(all.take(j + 1).last() == parts@[j as int]@);
        let word = lowercase(trimmed(parts[j].as_str()).as_str());
        match modifier_from_word(word.as_str()) {
            Some(Modifier::Super) => {
                modifiers.super_key = true;
            },
            Some(Modifier::Control) => {
                modifiers.control = true;
            },
            Some(Modifier::Alt) => {
                modifiers.alt = true;
            },
            Some(Modifier::Shift) => {
                modifiers.shift = true;
            },
            None => {
                match key_code_from_upper(uppercase(word.as_str()).as_str()) {
                    Some(k) => {
                        key = Some(k);
                    },
                    None => {
                        proof {
                            assert(parse_parts(all.take(j + 1)) == ParseState::Unknown(word@));
                            lemma_unknown_stays(all, j as int + 1);
                        }
                        return Err(HotkeyError::UnknownKey(word));
                    },
                }
            },
        }
        j = j + 1;
    }
    assert(all.take(j as int) =~= all);
    match key {
        Some(k) => Ok(HotkeySpec { modifiers, key: k }),
        None => Err(HotkeyError::NoKey),
    }
}

/// Which binding a hotkey description is for.
#[derive(Debug, Clone, Copy, PartialEq, Eq, Structural)]
pub enum HotkeyRole {
    Toggle,
    Start,
    Stop,
}

/// The hotkeys to register: one toggle, or separate start and stop keys.
#[derive(Debug, Clone, Copy, PartialEq, Eq, Structural)]
pub enum HotkeyBindings {
    Toggle(HotkeySpec),
    Separate { start: HotkeySpec, stop: HotkeySpec },
}

/// The hotkey that the description `s` denotes, if it parses.
pub open spec fn hotkey_of(s: Seq<char>) -> Option<HotkeySpec> {
    match parse_parts(split_on(s, '+')) {
        ParseState::Parsing(m, Some(k)) => Some(HotkeySpec { modifiers: m, key: k }),
        _ => None,
    }
}

/// The bindings for `config`: the same description for start and stop
/// means a single toggle hotkey; otherwise start, then stop, are parsed.
/// A failure names the binding whose description did not parse.
pub fn plan_bindings(config: &HotkeyConfig) -> (r: Result<HotkeyBindings, (HotkeyRole, HotkeyError)>)
    ensures
        ({
            let start = config.start_transcription@;
            let stop = config.stop_transcription@;
            if start == stop {
                match hotkey_of(start) {
                    Some(h) => r == Ok::<HotkeyBindings, (HotkeyRole, HotkeyError)>(
                        HotkeyBindings::Toggle(h),
                    ),
                    None => r matches Err((role, _)) && role == HotkeyRole::Toggle,
                }
            } else {
                match (hotkey_of(start), hotkey_of(stop)) {
                    (Some(a), Some(b)) => r == Ok::<HotkeyBindings, (HotkeyRole, HotkeyError)>(
                        HotkeyBindings::Separate { start: a, stop: b },
                    ),
                    (None, _) => r matches Err((role, _)) && role == HotkeyRole::Start,
                    (Some(_), None) => r matches Err((role, _)) && role == HotkeyRole::Stop,
                }
            }
        }),
{
    if same_text(config.start_transcription.as_str(), config.stop_transcription.as_str()) {
        match parse_hotkey(config.start_transcription.as_str()) {
            Ok(h) => Ok(HotkeyBindings::Toggle(h)),
            Err(e) => Err((HotkeyRole::Toggle, e)),
        }
    } else {
        let start = match parse_hotkey(config.start_transcription.as_str()) {
            Ok(h) => h,
            Err(e) => {
                return Err((HotkeyRole::Start, e));
            },
        };
        match parse_hotkey(config.stop_transcription.as_str()) {
            Ok(stop) => Ok(HotkeyBindings::Separate { start, stop }),
            Err(e) => Err((HotkeyRole::Stop, e)),
        }
    }
}

/// The event of a pressed hotkey with id `id`, given the ids of the
/// registered toggle, start and stop hotkeys; checked in that order.
pub fn hotkey_event_for(id: u32, toggle: Option<u32>, start: Option<u32>, stop: Option<u32>) -> (r:
    Option<HotkeyEvent>)
    ensures
        r == (if toggle == Some(id) {
            Some(HotkeyEvent::ToggleTranscription)
        } else if start == Some(id) {
            Some(HotkeyEvent::StartTranscription)
        } else if stop == Some(id) {
            Some(HotkeyEvent::StopTranscription)
        } else {
            None::<HotkeyEvent>
        }),
{
    if let Some(t) = toggle {
        if t == id {
            return Some(HotkeyEvent::ToggleTranscription);
        }
    }
    if let Some(s) = start {
        if s == id {
            return Some(HotkeyEvent::StartTranscription);
        }
    }
    if let Some(s) = stop {
        if s == id {
            return Some(HotkeyEvent::StopTranscription);
        }
    }
    None
}

/// Once a part is unknown, parsing more parts keeps that outcome.
proof fn lemma_unknown_stays(parts: Seq<Seq<char>>, j: int)
    requires
        0 <= j <= parts.len(),
        parse_parts(parts.take(j)) is Unknown,
    ensures
        parse_parts(parts) == parse_parts(parts.take(j)),
    decreases parts.len() - j,
{
    if j < parts.len() {
        assert(parts.take(j + 1).drop_last() =~= parts.take(j));
        lemma_unknown_stays(parts, j + 1);
    } else {
        assert(parts.take(j) =~= parts);
    }
}

} // verus!
