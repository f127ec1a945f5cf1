//! Canonical form of hotkey text such as `space+ctrl` → `Ctrl+Space`.
use crate::text::{
    chars_eq, chars_of, decimal, decimal_chars, is_ascii_alphanumeric, is_ascii_digit, lower,
    lower_chars,
    parse_unsigned, parse_unsigned_chars, push_str, string_from, string_of, sub_chars, trim,
    trim_chars, upper, upper_chars,
};
use vstd::prelude::*;

verus! {

/// A modifier key of a hotkey chord.
#[derive(Clone, Copy, Debug, PartialEq, Eq, Structural)]
pub enum Modifier {
    Ctrl,
    Alt,
    Shift,
    Win,
}

/// The modifiers held in a hotkey chord.
#[derive(Clone, Copy, Debug, PartialEq, Eq, Structural)]
pub struct Modifiers {
    pub ctrl: bool,
    pub alt: bool,
    pub shift: bool,
    pub win: bool,
}

impl Modifiers {
    pub open spec fn none() -> Modifiers {
        Modifiers { ctrl: false, alt: false, shift: false, win: false }
    }

    pub open spec fn with(self, m: Modifier) -> Modifiers {
        match m {
            Modifier::Ctrl => Modifiers { ctrl: true, ..self },
            Modifier::Alt => Modifiers { alt: true, ..self },
            Modifier::Shift => Modifiers { shift: true, ..self },
            Modifier::Win => Modifiers { win: true, ..self },
        }
    }
}

/// Why a hotkey text was rejected.
#[derive(Clone, Debug, PartialEq, Eq)]
pub enum HotkeyError {
    /// A part is neither a modifier nor a known key.
    UnknownKey(String),
    /// More than one main key was given.
    MultipleMainKeys,
    /// Only modifiers (or nothing) were given.
    MissingMainKey,
}

/// [`HotkeyError`] as a mathematical value.
pub enum HotkeyFailure {
    UnknownKey(Seq<char>),
    MultipleMainKeys,
    MissingMainKey,
}

impl View for HotkeyError {
    type V = HotkeyFailure;

    open spec fn view(&self) -> HotkeyFailure {
        match self {
            HotkeyError::UnknownKey(part) => HotkeyFailure::UnknownKey(part@),
            HotkeyError::MultipleMainKeys => HotkeyFailure::MultipleMainKeys,
            HotkeyError::MissingMainKey => HotkeyFailure::MissingMainKey,
        }
    }
}

/// The text of a hotkey error message.
pub open spec fn hotkey_error_message(e: HotkeyFailure) -> Seq<char> {
    match e {
        HotkeyFailure::UnknownKey(part) => "Unknown hotkey key: "@ + part,
        HotkeyFailure::MultipleMainKeys => "Hotkey must contain only one main key"@,
        HotkeyFailure::MissingMainKey => "Hotkey must include a main key"@,
    }
}

impl HotkeyError {
    /// The user-facing message of the error.
    pub fn message(&self) -> (m: String)
        ensures
            m@ == hotkey_error_message(self@),
    {
        match self {
            HotkeyError::UnknownKey(part) => {
                let mut m = string_from("Unknown hotkey key: ");
                push_str(&mut m, part.as_str());
                m
            },
            HotkeyError::MultipleMainKeys => string_from("Hotkey must contain only one main key"),
            HotkeyError::MissingMainKey => string_from("Hotkey must include a main key"),
        }
    }
}

// ---------------------------------------------------------------------------
// Specification of normalization
// ---------------------------------------------------------------------------

/// The parts of `s` between the separators `sep` (empty parts included), as
/// `str::split` yields them.
pub open spec fn split(s: Seq<char>, sep: char) -> Seq<Seq<char>>
    decreases s.len(),
{
    if s.len() == 0 {
        seq![Seq::<char>::empty()]
    } else {
        let prev = split(s.drop_last(), sep);
        if s.last() == sep {
            prev.push(Seq::<char>::empty())
        } else {
            prev.update(prev.len() - 1, prev.last().push(s.last()))
        }
    }
}

/// The modifier a part names, compared without regard to ASCII case.
pub open spec fn modifier_of(part: Seq<char>) -> Option<Modifier> {
    let l = lower(part);
    if l == "ctrl"@ || l == "control"@ {
        Some(Modifier::Ctrl)
    } else if l == "alt"@ {
        Some(Modifier::Alt)
    } else if l == "shift"@ {
        Some(Modifier::Shift)
    } else if l == "win"@ || l == "windows"@ || l == "meta"@ {
        Some(Modifier::Win)
    } else {
        None
    }
}

/// The canonical name of a named key, given its lower-case spelling.
pub open spec fn named_key(l: Seq<char>) -> Option<Seq<char>> {
    if l == "space"@ {
        Some("Space"@)
    } else if l == "enter"@ || l == "return"@ {
        Some("Enter"@)
    } else if l == "esc"@ || l == "escape"@ {
        Some("Esc"@)
    } else if l == "tab"@ {
        Some("Tab"@)
    } else if l == "backspace"@ {
        Some("Backspace"@)
    } else if l == "delete"@ || l == "del"@ {
        Some("Delete"@)
    } else if l == "insert"@ || l == "ins"@ {
        Some("Insert"@)
    } else if l == "up"@ || l == "uparrow"@ {
        Some("Up"@)
    } else if l == "down"@ || l == "downarrow"@ {
        Some("Down"@)
    } else if l == "left"@ || l == "leftarrow"@ {
        Some("Left"@)
    } else if l == "right"@ || l == "rightarrow"@ {
        Some("Right"@)
    } else if l == "home"@ {
        Some("Home"@)
    } else if l == "end"@ {
        Some("End"@)
    } else if l == "pageup"@ || l == "pgup"@ {
        Some("PageUp"@)
    } else if l == "pagedown"@ || l == "pgdn"@ {
        Some("PageDown"@)
    } else {
        None
    }
}

/// A single ASCII letter or digit (upper-cased), or a function key `F1`–`F24`.
pub open spec fn alnum_or_function_key(part: Seq<char>) -> Option<Seq<char>> {
    let u = upper(part);
    if u.len() == 1 && is_ascii_alphanumeric(u[0]) {
        Some(u)
    } else if u.len() >= 1 && u[0] == 'F' {
        match parse_unsigned(u.drop_first(), 255) {
            Some(n) => if 1 <= n && n <= 24 {
                Some(seq!['F'] + decimal(n))
            } else {
                None
            },
            None => None,
        }
    } else {
        None
    }
}

/// The canonical name of a main key.
pub open spec fn key_of(part: Seq<char>) -> Option<Seq<char>> {
    match named_key(lower(part)) {
        Some(k) => Some(k),
        None => alnum_or_function_key(part),
    }
}

/// What has been read of a hotkey so far: its modifiers and its main key.
pub type ChordSoFar = (Modifiers, Option<Seq<char>>);

/// Reads one `+`-separated part.
pub open spec fn read_part(so_far: Result<ChordSoFar, HotkeyFailure>, raw: Seq<char>) -> Result<
    ChordSoFar,
    HotkeyFailure,
> {
    match so_far {
        Err(e) => Err(e),
        Ok((mods, key)) => {
            let part = trim(raw);
            if part.len() == 0 {
                Ok((mods, key))
            } else {
                match modifier_of(part) {
                    Some(m) => Ok((mods.with(m), key)),
                    None => match key_of(part) {
                        None => Err(HotkeyFailure::UnknownKey(part)),
                        Some(k) => if key is Some {
                            Err(HotkeyFailure::MultipleMainKeys)
                        } else {
                            Ok((mods, Some(k)))
                        },
                    },
                }
            }
        },
    }
}

/// Reads all parts from left to right.
pub open spec fn read_parts(parts: Seq<Seq<char>>) -> Result<ChordSoFar, HotkeyFailure>
    decreases parts.len(),
{
    if parts.len() == 0 {
        Ok((Modifiers::none(), None))
    } else {
        read_part(read_parts(parts.drop_last()), parts.last())
    }
}

/// The canonical text of a chord: modifiers in the order Ctrl, Alt, Shift,
/// Win, then the main key, joined by `+`.
pub open spec fn chord_text(mods: Modifiers, key: Seq<char>) -> Seq<char> {
    (if mods.ctrl {
        "Ctrl+"@
    } else {
        Seq::empty()
    }) + (if mods.alt {
        "Alt+"@
    } else {
        Seq::empty()
    }) + (if mods.shift {
        "Shift+"@
    } else {
        Seq::empty()
    }) + (if mods.win {
        "Win+"@
    } else {
        Seq::empty()
    }) + key
}

/// The result of normalizing the hotkey text `value`.
pub open spec fn normalized_hotkey(value: Seq<char>) -> Result<Seq<char>, HotkeyFailure> {
    match read_parts(split(value, '+')) {
        Err(e) => Err(e),
        Ok((_, None)) => Err(HotkeyFailure::MissingMainKey),
        Ok((mods, Some(k))) => Ok(chord_text(mods, k)),
    }
}

// ---------------------------------------------------------------------------
// Implementation
// ---------------------------------------------------------------------------

/// Whether `cs` spells exactly `lit`.
fn is_lit(cs: &[char], lit: &str) -> (r: bool)
    ensures
        r == (cs@ == lit@),
{
    let l = chars_of(lit);
    chars_eq(cs, l.as_slice())
}

fn normalize_modifier(part: &[char]) -> (r: Option<Modifier>)
    ensures
        r == modifier_of(part@),
{
    let l = lower_chars(part);
    let l = l.as_slice();
    if is_lit(l, "ctrl") || is_lit(l, "control") {
        Some(Modifier::Ctrl)
    } else if is_lit(l, "alt") {
        Some(Modifier::Alt)
    } else if is_lit(l, "shift") {
        Some(Modifier::Shift)
    } else if is_lit(l, "win") || is_lit(l, "windows") || is_lit(l, "meta") {
        Some(Modifier::Win)
    } else {
        None
    }
}

fn normalize_named_key(l: &[char]) -> (r: Option<Vec<char>>)
    ensures
        match named_key(l@) {
            Some(k) => r is Some && r->0@ == k,
            None => r is None,
        },
{
    let name = if is_lit(l, "space") {
        "Space"
    } else if is_lit(l, "enter") || is_lit(l, "return") {
        "Enter"
    } else if is_lit(l, "esc") || is_lit(l, "escape") {
        "Esc"
    } else if is_lit(l, "tab") {
        "Tab"
    } else if is_lit(l, "backspace") {
        "Backspace"
    } else if is_lit(l, "delete") || is_lit(l, "del") {
        "Delete"
    } else if is_lit(l, "insert") || is_lit(l, "ins") {
        "Insert"
    } else if is_lit(l, "up") || is_lit(l, "uparrow") {
        "Up"
    } else if is_lit(l, "down") || is_lit(l, "downarrow") {
        "Down"
    } else if is_lit(l, "left") || is_lit(l, "leftarrow") {
        "Left"
    } else if is_lit(l, "right") || is_lit(l, "rightarrow") {
        "Right"
    } else if is_lit(l, "home") {
        "Home"
    } else if is_lit(l, "end") {
        "End"
    } else if is_lit(l, "pageup") || is_lit(l, "pgup") {
        "PageUp"
    } else if is_lit(l, "pagedown") || is_lit(l, "pgdn") {
        "PageDown"
    } else {
        return None;
    };
    Some(chars_of(name))
}

fn is_alphanumeric(c: char) -> (r: bool)
    ensures
        r == is_ascii_alphanumeric(c),
{
    ('0' <= c && c <= '9') || ('a' <= c && c <= 'z') || ('A' <= c && c <= 'Z')
}

fn normalize_alpha_numeric_or_function_key(part: &[char]) -> (r: Option<Vec<char>>)
    ensures
        match alnum_or_function_key(part@) {
            Some(k) => r is Some && r->0@ == k,
            None => r is None,
        },
{
    let u = upper_chars(part);
    if u.len() == 1 && is_alphanumeric(u[0]) {
        return Some(u);
    }
    if u.len() >= 1 && u[0] == 'F' {
        let rest = sub_chars(u.as_slice(), 1, u.len());
        proof {
            assert(rest@ =~= u@.drop_first());
        }
        match parse_unsigned_chars(rest.as_slice(), 255) {
            Some(n) => {
                if 1 <= n && n <= 24 {
                    let mut out: Vec<char> = Vec::new();
                    out.push('F');
                    let mut digits = decimal_chars(n);
                    out.append(&mut digits);
                    proof {
                        assert(out@ =~= seq!['F'] + decimal(n as nat));
                    }
                    return Some(out);
                }
                None
            },
            None => None,
        }
    } else {
        None
    }
}

fn normalize_key(part: &[char]) -> (r: Option<Vec<char>>)
    ensures
        match key_of(part@) {
            Some(k) => r is Some && r->0@ == k,
            None => r is None,
        },
{
    let l = lower_chars(part);
    match normalize_named_key(l.as_slice()) {
        Some(k) => Some(k),
        None => normalize_alpha_numeric_or_function_key(part),
    }
}

/// The executable counterpart of [`ChordSoFar`].
struct Chord {
    mods: Modifiers,
    key: Option<Vec<char>>,
}

impl Chord {
    spec fn view(&self) -> ChordSoFar {
        (self.mods, match self.key {
            Some(k) => Some(k@),
            None => None,
        })
    }
}

spec fn chord_result_view(r: Result<Chord, HotkeyError>) -> Result<ChordSoFar, HotkeyFailure> {
    match r {
        Ok(c) => Ok(c.view()),
        Err(e) => Err(e@),
    }
}

fn add_modifier(mods: Modifiers, m: Modifier) -> (r: Modifiers)
    ensures
        r == mods.with(m),
{
    match m {
        Modifier::Ctrl => Modifiers { ctrl: true, ..mods },
        Modifier::Alt => Modifiers { alt: true, ..mods },
        Modifier::Shift => Modifiers { shift: true, ..mods },
        Modifier::Win => Modifiers { win: true, ..mods },
    }
}

fn read_one_part(so_far: Result<Chord, HotkeyError>, raw: &[char]) -> (r: Result<
    Chord,
    HotkeyError,
>)
    ensures
        chord_result_view(r) == read_part(chord_result_view(so_far), raw@),
{
    match so_far {
        Err(e) => Err(e),
        Ok(chord) => {
            let part = trim_chars(raw);
            if part.len() == 0 {
                return Ok(chord);
            }
            match normalize_modifier(part.as_slice()) {
                Some(m) => Ok(Chord { mods: add_modifier(chord.mods, m), key: chord.key }),
                None => match normalize_key(part.as_slice()) {
                    None => Err(HotkeyError::UnknownKey(string_of(part.as_slice()))),
                    Some(k) => {
                        if chord.key.is_some() {
                            Err(HotkeyError::MultipleMainKeys)
                        } else {
                            Ok(Chord { mods: chord.mods, key: Some(k) })
                        }
                    },
                },
            }
        },
    }
}

fn push_lit(out: &mut Vec<char>, lit: &str)
    ensures
        final(out)@ == old(out)@ + lit@,
{
    let mut cs = chars_of(lit);
    out.append(&mut cs);
}

/// Canonical hotkey text: the known modifiers in the order `Ctrl`, `Alt`,
/// `Shift`, `Win`, followed by exactly one main key, joined by `+`. Parts are
/// trimmed and compared without regard to ASCII case; empty parts are skipped.
pub fn normalize_hotkey(value: &str) -> (r: Result<String, HotkeyError>)
    ensures
        match normalized_hotkey(value@) {
            Ok(k) => r is Ok && r->Ok_0@ == k,
            Err(e) => r is Err && r->Err_0@ == e,
        },
{
    let cs = chars_of(value);
    let mut state: Result<Chord, HotkeyError> = Ok(
        Chord { mods: Modifiers { ctrl: false, alt: false, shift: false, win: false }, key: None },
    );
    let mut current: Vec<char> = Vec::new();
    let mut i: usize = 0;
    proof {
        assert(split(cs@.take(0), '+') =~= seq![Seq::<char>::empty()]);
        assert(split(cs@.take(0), '+').drop_last() =~= Seq::<Seq<char>>::empty());
    }
    while i < cs.len()
        invariant
            0 <= i <= cs.len(),
            split(cs@.take(i as int), '+').len() >= 1,
            chord_result_view(state) == read_parts(split(cs@.take(i as int), '+').drop_last()),
            current@ == split(cs@.take(i as int), '+').last(),
        decreases cs.len() - i,
    {
        let c = cs[i];
        let ghost prev = split(cs@.take(i as int), '+');
        proof {
            assert(cs@.take(i + 1).drop_last() =~= cs@.take(i as int));
            assert(cs@.take(i + 1).last() == c);
        }
        if c == '+' {
            state = read_one_part(state, current.as_slice());
            current = Vec::new();
            proof {
                let next = split(cs@.take(i + 1), '+');
                assert(next == prev.push(Seq::<char>::empty()));
                assert(next.drop_last() =~= prev);
                assert(prev == prev.drop_last().push(prev.last()));
            }
        } else {
            current.push(c);
            proof {
                let next = split(cs@.take(i + 1), '+');
                assert(next == prev.update(prev.len() - 1, prev.last().push(c)));
                assert(next.drop_last() =~= prev.drop_last());
            }
        }
        i = i + 1;
    }
    proof {
        assert(cs@.take(cs.len() as int) =~= cs@);
        let parts = split(cs@, '+');
        assert(parts == parts.drop_last().push(parts.last()));
    }
    state = read_one_part(state, current.as_slice());
    match state {
        Err(e) => Err(e),
        Ok(chord) => match chord.key {
            None => Err(HotkeyError::MissingMainKey),
            Some(key) => {
                let mut out: Vec<char> = Vec::new();
                if chord.mods.ctrl {
                    push_lit(&mut out, "Ctrl+");
                }
                let ghost a = out@;
                if chord.mods.alt {
                    push_lit(&mut out, "Alt+");
                }
                let ghost b = out@;
                if chord.mods.shift {
                    push_lit(&mut out, "Shift+");
                }
                let ghost c = out@;
                if chord.mods.win {
                    push_lit(&mut out, "Win+");
                }
                let ghost d = out@;
                let mut key = key;
                let ghost kv = key@;
                out.append(&mut key);
                proof {
                    assert(out@ =~= chord_text(chord.mods, kv)) by {
                        assert(a =~= (if chord.mods.ctrl {
                            "Ctrl+"@
                        } else {
                            Seq::empty()
                        }));
                    }
                }
                Ok(string_of(out.as_slice()))
            },
        },
    }
}


// ---------------------------------------------------------------------------
// Canonical hotkeys are fixed points of normalization
// ---------------------------------------------------------------------------

/// The canonical names of named keys.
pub open spec fn named_output(k: Seq<char>) -> bool {
    ||| k == "Space"@
    ||| k == "Enter"@
    ||| k == "Esc"@
    ||| k == "Tab"@
    ||| k == "Backspace"@
    ||| k == "Delete"@
    ||| k == "Insert"@
    ||| k == "Up"@
    ||| k == "Down"@
    ||| k == "Left"@
    ||| k == "Right"@
    ||| k == "Home"@
    ||| k == "End"@
    ||| k == "PageUp"@
    ||| k == "PageDown"@
}

/// Every character is an ASCII letter or digit.
pub open spec fn alnum_text(k: Seq<char>) -> bool {
    forall|i: int| 0 <= i < k.len() ==> is_ascii_alphanumeric(#[trigger] k[i])
}

/// A main key as normalization writes it: a named key, an upper-case letter
/// or a digit, or a function key `F1`–`F24`.
pub open spec fn canonical_key(k: Seq<char>) -> bool {
    ||| named_output(k)
    ||| (k.len() == 1 && (is_ascii_digit(k[0]) || ('A' <= k[0] && k[0] <= 'Z')))
    ||| exists|n: nat| 1 <= n <= 24 && k == seq!['F'] + decimal(n)
}

proof fn lemma_named_key_fixed(k: Seq<char>)
    requires
        named_output(k),
    ensures
        named_key(lower(k)) == Some(k),
        modifier_of(k) is None,
        alnum_text(k),
        k.len() > 0,
{
    reveal_strlit("space");
    assert("space"@.len() == 5);
    assert("space"@[0] == 's');
    assert("space"@[1] == 'p');
    assert("space"@[2] == 'a');
    reveal_strlit("enter");
    assert("enter"@.len() == 5);
    assert("enter"@[0] == 'e');
    assert("enter"@[1] == 'n');
    assert("enter"@[2] == 't');
    reveal_strlit("return");
    assert("return"@.len() == 6);
    assert("return"@[0] == 'r');
    assert("return"@[1] == 'e');
    assert("return"@[2] == 't');
    reveal_strlit("esc");
    assert("esc"@.len() == 3);
    assert("esc"@[0] == 'e');
    assert("esc"@[1] == 's');
    assert("esc"@[2] == 'c');
    reveal_strlit("escape");
    assert("escape"@.len() == 6);
    assert("escape"@[0] == 'e');
    assert("escape"@[1] == 's');
    assert("escape"@[2] == 'c');
    reveal_strlit("tab");
    assert("tab"@.len() == 3);
    assert("tab"@[0] == 't');
    assert("tab"@[1] == 'a');
    assert("tab"@[2] == 'b');
    reveal_strlit("backspace");
    assert("backspace"@.len() == 9);
    assert("backspace"@[0] == 'b');
    assert("backspace"@[1] == 'a');
    assert("backspace"@[2] == 'c');
    reveal_strlit("delete");
    assert("delete"@.len() == 6);
    assert("delete"@[0] == 'd');
    assert("delete"@[1] == 'e');
    assert("delete"@[2] == 'l');
    reveal_strlit("del");
    assert("del"@.len() == 3);
    assert("del"@[0] == 'd');
    assert("del"@[1] == 'e');
    assert("del"@[2] == 'l');
    reveal_strlit("insert");
    assert("insert"@.len() == 6);
    assert("insert"@[0] == 'i');
    assert("insert"@[1] == 'n');
    assert("insert"@[2] == 's');
    reveal_strlit("ins");
    assert("ins"@.len() == 3);
    assert("ins"@[0] == 'i');
    assert("ins"@[1] == 'n');
    assert("ins"@[2] == 's');
    reveal_strlit("up");
    assert("up"@.len() == 2);
    assert("up"@[0] == 'u');
    assert("up"@[1] == 'p');
    reveal_strlit("uparrow");
    assert("uparrow"@.len() == 7);
    assert("uparrow"@[0] == 'u');
    assert("uparrow"@[1] == 'p');
    assert("uparrow"@[2] == 'a');
    reveal_strlit("down");
    assert("down"@.len() == 4);
    assert("down"@[0] == 'd');
    assert("down"@[1] == 'o');
    assert("down"@[2] == 'w');
    reveal_strlit("downarrow");
    assert("downarrow"@.len() == 9);
    assert("downarrow"@[0] == 'd');
    assert("downarrow"@[1] == 'o');
    assert("downarrow"@[2] == 'w');
    reveal_strlit("left");
    assert("left"@.len() == 4);
    assert("left"@[0] == 'l');
    assert("left"@[1] == 'e');
    assert("left"@[2] == 'f');
    reveal_strlit("leftarrow");
    assert("leftarrow"@.len() == 9);
    assert("leftarrow"@[0] == 'l');
    assert("leftarrow"@[1] == 'e');
    assert("leftarrow"@[2] == 'f');
    reveal_strlit("right");
    assert("right"@.len() == 5);
    assert("right"@[0] == 'r');
    assert("right"@[1] == 'i');
    assert("right"@[2] == 'g');
    reveal_strlit("rightarrow");
    assert("rightarrow"@.len() == 10);
    assert("rightarrow"@[0] == 'r');
    assert("rightarrow"@[1] == 'i');
    assert("rightarrow"@[2] == 'g');
    reveal_strlit("home");
    assert("home"@.len() == 4);
    assert("home"@[0] == 'h');
    assert("home"@[1] == 'o');
    assert("home"@[2] == 'm');
    reveal_strlit("end");
    assert("end"@.len() == 3);
    assert("end"@[0] == 'e');
    assert("end"@[1] == 'n');
    assert("end"@[2] == 'd');
    reveal_strlit("pageup");
    assert("pageup"@.len() == 6);
    assert("pageup"@[0] == 'p');
    assert("pageup"@[1] == 'a');
    assert("pageup"@[2] == 'g');
    reveal_strlit("pgup");
    assert("pgup"@.len() == 4);
    assert("pgup"@[0] == 'p');
    assert("pgup"@[1] == 'g');
    assert("pgup"@[2] == 'u');
    reveal_strlit("pagedown");
    assert("pagedown"@.len() == 8);
    assert("pagedown"@[0] == 'p');
    assert("pagedown"@[1] == 'a');
    assert("pagedown"@[2] == 'g');
    reveal_strlit("pgdn");
    assert("pgdn"@.len() == 4);
    assert("pgdn"@[0] == 'p');
    assert("pgdn"@[1] == 'g');
    assert("pgdn"@[2] == 'd');
    reveal_strlit("ctrl");
    assert("ctrl"@.len() == 4);
    assert("ctrl"@[0] == 'c');
    assert("ctrl"@[1] == 't');
    assert("ctrl"@[2] == 'r');
    reveal_strlit("control");
    assert("control"@.len() == 7);
    assert("control"@[0] == 'c');
    assert("control"@[1] == 'o');
    assert("control"@[2] == 'n');
    reveal_strlit("alt");
    assert("alt"@.len() == 3);
    assert("alt"@[0] == 'a');
    assert("alt"@[1] == 'l');
    assert("alt"@[2] == 't');
    reveal_strlit("shift");
    assert("shift"@.len() == 5);
    assert("shift"@[0] == 's');
    assert("shift"@[1] == 'h');
    assert("shift"@[2] == 'i');
    reveal_strlit("win");
    assert("win"@.len() == 3);
    assert("win"@[0] == 'w');
    assert("win"@[1] == 'i');
    assert("win"@[2] == 'n');
    reveal_strlit("windows");
    assert("windows"@.len() == 7);
    assert("windows"@[0] == 'w');
    assert("windows"@[1] == 'i');
    assert("windows"@[2] == 'n');
    reveal_strlit("meta");
    assert("meta"@.len() == 4);
    assert("meta"@[0] == 'm');
    assert("meta"@[1] == 'e');
    assert("meta"@[2] == 't');
    if k == "Space"@ {
        reveal_strlit("Space");
        assert(lower("Space"@) =~= "space"@);
        assert(alnum_text("Space"@));
    }
    if k == "Enter"@ {
        reveal_strlit("Enter");
        assert(lower("Enter"@) =~= "enter"@);
        assert(alnum_text("Enter"@));
    }
    if k == "Esc"@ {
        reveal_strlit("Esc");
        assert(lower("Esc"@) =~= "esc"@);
        assert(alnum_text("Esc"@));
    }
    if k == "Tab"@ {
        reveal_strlit("Tab");
        assert(lower("Tab"@) =~= "tab"@);
        assert(alnum_text("Tab"@));
    }
    if k == "Backspace"@ {
        reveal_strlit("Backspace");
        assert(lower("Backspace"@) =~= "backspace"@);
        assert(alnum_text("Backspace"@));
    }
    if k == "Delete"@ {
        reveal_strlit("Delete");
        assert(lower("Delete"@) =~= "delete"@);
        assert(alnum_text("Delete"@));
    }
    if k == "Insert"@ {
        reveal_strlit("Insert");
        assert(lower("Insert"@) =~= "insert"@);
        assert(alnum_text("Insert"@));
    }
    if k == "Up"@ {
        reveal_strlit("Up");
        assert(lower("Up"@) =~= "up"@);
        assert(alnum_text("Up"@));
    }
    if k == "Down"@ {
        reveal_strlit("Down");
        assert(lower("Down"@) =~= "down"@);
        assert(alnum_text("Down"@));
    }
    if k == "Left"@ {
        reveal_strlit("Left");
        assert(lower("Left"@) =~= "left"@);
        assert(alnum_text("Left"@));
    }
    if k == "Right"@ {
        reveal_strlit("Right");
        assert(lower("Right"@) =~= "right"@);
        assert(alnum_text("Right"@));
    }
    if k == "Home"@ {
        reveal_strlit("Home");
        assert(lower("Home"@) =~= "home"@);
        assert(alnum_text("Home"@));
    }
    if k == "End"@ {
        reveal_strlit("End");
        assert(lower("End"@) =~= "end"@);
        assert(alnum_text("End"@));
    }
    if k == "PageUp"@ {
        reveal_strlit("PageUp");
        assert(lower("PageUp"@) =~= "pageup"@);
        assert(alnum_text("PageUp"@));
    }
    if k == "PageDown"@ {
        reveal_strlit("PageDown");
        assert(lower("PageDown"@) =~= "pagedown"@);
        assert(alnum_text("PageDown"@));
    }
}

proof fn lemma_lower_decimal_digits(n: nat)
    ensures
        lower(decimal(n)) == decimal(n),
        upper(decimal(n)) == decimal(n),
        alnum_text(decimal(n)),
{
    crate::text::lemma_decimal_digits(n);
    assert(lower(decimal(n)) =~= decimal(n)) by {
        assert forall|i: int| 0 <= i < decimal(n).len() implies #[trigger] lower(decimal(n))[i] == decimal(n)[i] by {
            assert(is_ascii_digit(decimal(n)[i]));
        }
    }
    assert(upper(decimal(n)) =~= decimal(n)) by {
        assert forall|i: int| 0 <= i < decimal(n).len() implies #[trigger] upper(decimal(n))[i] == decimal(n)[i] by {
            assert(is_ascii_digit(decimal(n)[i]));
        }
    }
    assert forall|i: int| 0 <= i < decimal(n).len() implies is_ascii_alphanumeric(#[trigger] decimal(n)[i]) by {
        assert(is_ascii_digit(decimal(n)[i]));
    }
}

proof fn lemma_canonical_key_fixed(k: Seq<char>)
    requires
        canonical_key(k),
    ensures
        key_of(k) == Some(k),
        modifier_of(k) is None,
        alnum_text(k),
        k.len() > 0,
{
    reveal_strlit("space");
    assert("space"@.len() == 5);
    assert("space"@[0] == 's');
    assert("space"@[1] == 'p');
    assert("space"@[2] == 'a');
    reveal_strlit("enter");
    assert("enter"@.len() == 5);
    assert("enter"@[0] == 'e');
    assert("enter"@[1] == 'n');
    assert("enter"@[2] == 't');
    reveal_strlit("return");
    assert("return"@.len() == 6);
    assert("return"@[0] == 'r');
    assert("return"@[1] == 'e');
    assert("return"@[2] == 't');
    reveal_strlit("esc");
    assert("esc"@.len() == 3);
    assert("esc"@[0] == 'e');
    assert("esc"@[1] == 's');
    assert("esc"@[2] == 'c');
    reveal_strlit("escape");
    assert("escape"@.len() == 6);
    assert("escape"@[0] == 'e');
    assert("escape"@[1] == 's');
    assert("escape"@[2] == 'c');
    reveal_strlit("tab");
    assert("tab"@.len() == 3);
    assert("tab"@[0] == 't');
    assert("tab"@[1] == 'a');
    assert("tab"@[2] == 'b');
    reveal_strlit("backspace");
    assert("backspace"@.len() == 9);
    assert("backspace"@[0] == 'b');
    assert("backspace"@[1] == 'a');
    assert("backspace"@[2] == 'c');
    reveal_strlit("delete");
    assert("delete"@.len() == 6);
    assert("delete"@[0] == 'd');
    assert("delete"@[1] == 'e');
    assert("delete"@[2] == 'l');
    reveal_strlit("del");
    assert("del"@.len() == 3);
    assert("del"@[0] == 'd');
    assert("del"@[1] == 'e');
    assert("del"@[2] == 'l');
    reveal_strlit("insert");
    assert("insert"@.len() == 6);
    assert("insert"@[0] == 'i');
    assert("insert"@[1] == 'n');
    assert("insert"@[2] == 's');
    reveal_strlit("ins");
    assert("ins"@.len() == 3);
    assert("ins"@[0] == 'i');
    assert("ins"@[1] == 'n');
    assert("ins"@[2] == 's');
    reveal_strlit("up");
    assert("up"@.len() == 2);
    assert("up"@[0] == 'u');
    assert("up"@[1] == 'p');
    reveal_strlit("uparrow");
    assert("uparrow"@.len() == 7);
    assert("uparrow"@[0] == 'u');
    assert("uparrow"@[1] == 'p');
    assert("uparrow"@[2] == 'a');
    reveal_strlit("down");
    assert("down"@.len() == 4);
    assert("down"@[0] == 'd');
    assert("down"@[1] == 'o');
    assert("down"@[2] == 'w');
    reveal_strlit("downarrow");
    assert("downarrow"@.len() == 9);
    assert("downarrow"@[0] == 'd');
    assert("downarrow"@[1] == 'o');
    assert("downarrow"@[2] == 'w');
    reveal_strlit("left");
    assert("left"@.len() == 4);
    assert("left"@[0] == 'l');
    assert("left"@[1] == 'e');
    assert("left"@[2] == 'f');
    reveal_strlit("leftarrow");
    assert("leftarrow"@.len() == 9);
    assert("leftarrow"@[0] == 'l');
    assert("leftarrow"@[1] == 'e');
    assert("leftarrow"@[2] == 'f');
    reveal_strlit("right");
    assert("right"@.len() == 5);
    assert("right"@[0] == 'r');
    assert("right"@[1] == 'i');
    assert("right"@[2] == 'g');
    reveal_strlit("rightarrow");
    assert("rightarrow"@.len() == 10);
    assert("rightarrow"@[0] == 'r');
    assert("rightarrow"@[1] == 'i');
    assert("rightarrow"@[2] == 'g');
    reveal_strlit("home");
    assert("home"@.len() == 4);
    assert("home"@[0] == 'h');
    assert("home"@[1] == 'o');
    assert("home"@[2] == 'm');
    reveal_strlit("end");
    assert("end"@.len() == 3);
    assert("end"@[0] == 'e');
    assert("end"@[1] == 'n');
    assert("end"@[2] == 'd');
    reveal_strlit("pageup");
    assert("pageup"@.len() == 6);
    assert("pageup"@[0] == 'p');
    assert("pageup"@[1] == 'a');
    assert("pageup"@[2] == 'g');
    reveal_strlit("pgup");
    assert("pgup"@.len() == 4);
    assert("pgup"@[0] == 'p');
    assert("pgup"@[1] == 'g');
    assert("pgup"@[2] == 'u');
    reveal_strlit("pagedown");
    assert("pagedown"@.len() == 8);
    assert("pagedown"@[0] == 'p');
    assert("pagedown"@[1] == 'a');
    assert("pagedown"@[2] == 'g');
    reveal_strlit("pgdn");
    assert("pgdn"@.len() == 4);
    assert("pgdn"@[0] == 'p');
    assert("pgdn"@[1] == 'g');
    assert("pgdn"@[2] == 'd');
    reveal_strlit("ctrl");
    assert("ctrl"@.len() == 4);
    assert("ctrl"@[0] == 'c');
    assert("ctrl"@[1] == 't');
    assert("ctrl"@[2] == 'r');
    reveal_strlit("control");
    assert("control"@.len() == 7);
    assert("control"@[0] == 'c');
    assert("control"@[1] == 'o');
    assert("control"@[2] == 'n');
    reveal_strlit("alt");
    assert("alt"@.len() == 3);
    assert("alt"@[0] == 'a');
    assert("alt"@[1] == 'l');
    assert("alt"@[2] == 't');
    reveal_strlit("shift");
    assert("shift"@.len() == 5);
    assert("shift"@[0] == 's');
    assert("shift"@[1] == 'h');
    assert("shift"@[2] == 'i');
    reveal_strlit("win");
    assert("win"@.len() == 3);
    assert("win"@[0] == 'w');
    assert("win"@[1] == 'i');
    assert("win"@[2] == 'n');
    reveal_strlit("windows");
    assert("windows"@.len() == 7);
    assert("windows"@[0] == 'w');
    assert("windows"@[1] == 'i');
    assert("windows"@[2] == 'n');
    reveal_strlit("meta");
    assert("meta"@.len() == 4);
    assert("meta"@[0] == 'm');
    assert("meta"@[1] == 'e');
    assert("meta"@[2] == 't');
    if named_output(k) {
        lemma_named_key_fixed(k);
    } else if k.len() == 1 && (is_ascii_digit(k[0]) || ('A' <= k[0] && k[0] <= 'Z')) {
        assert(lower(k).len() == 1);
        assert(upper(k) =~= k);
        assert(named_key(lower(k)) is None);
        assert(is_ascii_alphanumeric(k[0]));
    } else {
        let n = choose|n: nat| 1 <= n <= 24 && k == seq!['F'] + decimal(n);
        lemma_lower_decimal_digits(n);
        crate::text::lemma_decimal_digits(n);
        assert(lower(k) =~= seq!['f'] + decimal(n));
        assert(upper(k) =~= k);
        assert(lower(k)[0] == 'f');
        assert(named_key(lower(k)) is None);
        assert(upper(k).drop_first() =~= decimal(n));
        assert(parse_unsigned(decimal(n), 255) == Some(n));
        assert forall|i: int| 0 <= i < k.len() implies is_ascii_alphanumeric(#[trigger] k[i]) by {
            if i > 0 {
                assert(k[i] == decimal(n)[i - 1]);
            }
        }
    }
}

proof fn lemma_key_of_canonical(part: Seq<char>)
    requires
        key_of(part) is Some,
    ensures
        canonical_key(key_of(part).unwrap()),
{
    match named_key(lower(part)) {
        Some(k) => {},
        None => {
            let u = upper(part);
            if u.len() == 1 && is_ascii_alphanumeric(u[0]) {
                assert(u[0] == crate::text::ascii_upper(part[0]));
            } else {
                let n = parse_unsigned(u.drop_first(), 255).unwrap();
                assert(1 <= n <= 24);
            }
        },
    }
}

/// The parts of `read_parts` with a main key hold a canonical key.
proof fn lemma_read_parts_key(parts: Seq<Seq<char>>)
    ensures
        read_parts(parts) matches Ok((_, Some(k))) ==> canonical_key(k),
    decreases parts.len(),
{
    if parts.len() > 0 {
        lemma_read_parts_key(parts.drop_last());
        let part = trim(parts.last());
        if key_of(part) is Some {
            lemma_key_of_canonical(part);
        }
    }
}

proof fn lemma_alnum_trim(k: Seq<char>)
    requires
        alnum_text(k),
        k.len() > 0,
    ensures
        trim(k) == k,
        forall|i: int| 0 <= i < k.len() ==> #[trigger] k[i] != '+',
{
    crate::text::lemma_trim_bounds(k, 0, k.len() as int);
    assert(k.subrange(0, k.len() as int) =~= k);
}

/// Splitting text without separators gives the text itself.
proof fn lemma_split_single(w: Seq<char>, sep: char)
    requires
        forall|i: int| 0 <= i < w.len() ==> #[trigger] w[i] != sep,
    ensures
        split(w, sep) == seq![w],
    decreases w.len(),
{
    if w.len() > 0 {
        lemma_split_single(w.drop_last(), sep);
        assert(w.drop_last().push(w.last()) =~= w);
        assert(seq![w.drop_last()].update(0, w.drop_last().push(w.last())) =~= seq![w]);
    } else {
        assert(w =~= Seq::<char>::empty());
    }
}

/// Splitting `name + sep + rest` splits off `name`.
proof fn lemma_split_prefix(name: Seq<char>, rest: Seq<char>, sep: char)
    requires
        forall|i: int| 0 <= i < name.len() ==> #[trigger] name[i] != sep,
    ensures
        split(name + seq![sep] + rest, sep) == seq![name] + split(rest, sep),
    decreases rest.len(),
{
    if rest.len() == 0 {
        lemma_split_single(name, sep);
        assert(name + seq![sep] + rest =~= name.push(sep));
        assert((name + seq![sep] + rest).drop_last() =~= name);
        assert(seq![name].push(Seq::<char>::empty()) =~= seq![name] + seq![Seq::<char>::empty()]);
    } else {
        let r = rest.drop_last();
        lemma_split_prefix(name, r, sep);
        assert((name + seq![sep] + rest).drop_last() =~= name + seq![sep] + r);
        assert((name + seq![sep] + rest).last() == rest.last());
        let sr = split(r, sep);
        assert(sr.len() >= 1) by {
            lemma_split_len(r, sep);
        }
        let whole = seq![name] + sr;
        if rest.last() == sep {
            assert(whole.push(Seq::<char>::empty()) =~= seq![name] + sr.push(Seq::<char>::empty()));
        } else {
            assert(whole.update(whole.len() - 1, whole.last().push(rest.last())) =~= seq![name] + sr.update(
                sr.len() - 1,
                sr.last().push(rest.last()),
            ));
        }
    }
}

proof fn lemma_split_len(s: Seq<char>, sep: char)
    ensures
        split(s, sep).len() >= 1,
    decreases s.len(),
{
    if s.len() > 0 {
        lemma_split_len(s.drop_last(), sep);
    }
}

/// The names of the modifiers held, in canonical order.
pub open spec fn modifier_names(mods: Modifiers) -> Seq<Seq<char>> {
    (if mods.ctrl {
        seq!["Ctrl"@]
    } else {
        Seq::empty()
    }) + (if mods.alt {
        seq!["Alt"@]
    } else {
        Seq::empty()
    }) + (if mods.shift {
        seq!["Shift"@]
    } else {
        Seq::empty()
    }) + (if mods.win {
        seq!["Win"@]
    } else {
        Seq::empty()
    })
}

proof fn lemma_read_parts_push(parts: Seq<Seq<char>>, x: Seq<char>)
    ensures
        read_parts(parts.push(x)) == read_part(read_parts(parts), x),
{
    assert(parts.push(x).drop_last() =~= parts);
}

proof fn lemma_read_modifier_names(mods: Modifiers)
    ensures
        read_parts(modifier_names(mods)) == Ok::<ChordSoFar, HotkeyFailure>((mods, None)),
{
    reveal_strlit("Ctrl");
    reveal_strlit("Alt");
    reveal_strlit("Shift");
    reveal_strlit("Win");
    reveal_strlit("space");
    assert("space"@.len() == 5);
    assert("space"@[0] == 's');
    assert("space"@[1] == 'p');
    assert("space"@[2] == 'a');
    reveal_strlit("enter");
    assert("enter"@.len() == 5);
    assert("enter"@[0] == 'e');
    assert("enter"@[1] == 'n');
    assert("enter"@[2] == 't');
    reveal_strlit("return");
    assert("return"@.len() == 6);
    assert("return"@[0] == 'r');
    assert("return"@[1] == 'e');
    assert("return"@[2] == 't');
    reveal_strlit("esc");
    assert("esc"@.len() == 3);
    assert("esc"@[0] == 'e');
    assert("esc"@[1] == 's');
    assert("esc"@[2] == 'c');
    reveal_strlit("escape");
    assert("escape"@.len() == 6);
    assert("escape"@[0] == 'e');
    assert("escape"@[1] == 's');
    assert("escape"@[2] == 'c');
    reveal_strlit("tab");
    assert("tab"@.len() == 3);
    assert("tab"@[0] == 't');
    assert("tab"@[1] == 'a');
    assert("tab"@[2] == 'b');
    reveal_strlit("backspace");
    assert("backspace"@.len() == 9);
    assert("backspace"@[0] == 'b');
    assert("backspace"@[1] == 'a');
    assert("backspace"@[2] == 'c');
    reveal_strlit("delete");
    assert("delete"@.len() == 6);
    assert("delete"@[0] == 'd');
    assert("delete"@[1] == 'e');
    assert("delete"@[2] == 'l');
    reveal_strlit("del");
    assert("del"@.len() == 3);
    assert("del"@[0] == 'd');
    assert("del"@[1] == 'e');
    assert("del"@[2] == 'l');
    reveal_strlit("insert");
    assert("insert"@.len() == 6);
    assert("insert"@[0] == 'i');
    assert("insert"@[1] == 'n');
    assert("insert"@[2] == 's');
    reveal_strlit("ins");
    assert("ins"@.len() == 3);
    assert("ins"@[0] == 'i');
    assert("ins"@[1] == 'n');
    assert("ins"@[2] == 's');
    reveal_strlit("up");
    assert("up"@.len() == 2);
    assert("up"@[0] == 'u');
    assert("up"@[1] == 'p');
    reveal_strlit("uparrow");
    assert("uparrow"@.len() == 7);
    assert("uparrow"@[0] == 'u');
    assert("uparrow"@[1] == 'p');
    assert("uparrow"@[2] == 'a');
    reveal_strlit("down");
    assert("down"@.len() == 4);
    assert("down"@[0] == 'd');
    assert("down"@[1] == 'o');
    assert("down"@[2] == 'w');
    reveal_strlit("downarrow");
    assert("downarrow"@.len() == 9);
    assert("downarrow"@[0] == 'd');
    assert("downarrow"@[1] == 'o');
    assert("downarrow"@[2] == 'w');
    reveal_strlit("left");
    assert("left"@.len() == 4);
    assert("left"@[0] == 'l');
    assert("left"@[1] == 'e');
    assert("left"@[2] == 'f');
    reveal_strlit("leftarrow");
    assert("leftarrow"@.len() == 9);
    assert("leftarrow"@[0] == 'l');
    assert("leftarrow"@[1] == 'e');
    assert("leftarrow"@[2] == 'f');
    reveal_strlit("right");
    assert("right"@.len() == 5);
    assert("right"@[0] == 'r');
    assert("right"@[1] == 'i');
    assert("right"@[2] == 'g');
    reveal_strlit("rightarrow");
    assert("rightarrow"@.len() == 10);
    assert("rightarrow"@[0] == 'r');
    assert("rightarrow"@[1] == 'i');
    assert("rightarrow"@[2] == 'g');
    reveal_strlit("home");
    assert("home"@.len() == 4);
    assert("home"@[0] == 'h');
    assert("home"@[1] == 'o');
    assert("home"@[2] == 'm');
    reveal_strlit("end");
    assert("end"@.len() == 3);
    assert("end"@[0] == 'e');
    assert("end"@[1] == 'n');
    assert("end"@[2] == 'd');
    reveal_strlit("pageup");
    assert("pageup"@.len() == 6);
    assert("pageup"@[0] == 'p');
    assert("pageup"@[1] == 'a');
    assert("pageup"@[2] == 'g');
    reveal_strlit("pgup");
    assert("pgup"@.len() == 4);
    assert("pgup"@[0] == 'p');
    assert("pgup"@[1] == 'g');
    assert("pgup"@[2] == 'u');
    reveal_strlit("pagedown");
    assert("pagedown"@.len() == 8);
    assert("pagedown"@[0] == 'p');
    assert("pagedown"@[1] == 'a');
    assert("pagedown"@[2] == 'g');
    reveal_strlit("pgdn");
    assert("pgdn"@.len() == 4);
    assert("pgdn"@[0] == 'p');
    assert("pgdn"@[1] == 'g');
    assert("pgdn"@[2] == 'd');
    reveal_strlit("ctrl");
    assert("ctrl"@.len() == 4);
    assert("ctrl"@[0] == 'c');
    assert("ctrl"@[1] == 't');
    assert("ctrl"@[2] == 'r');
    reveal_strlit("control");
    assert("control"@.len() == 7);
    assert("control"@[0] == 'c');
    assert("control"@[1] == 'o');
    assert("control"@[2] == 'n');
    reveal_strlit("alt");
    assert("alt"@.len() == 3);
    assert("alt"@[0] == 'a');
    assert("alt"@[1] == 'l');
    assert("alt"@[2] == 't');
    reveal_strlit("shift");
    assert("shift"@.len() == 5);
    assert("shift"@[0] == 's');
    assert("shift"@[1] == 'h');
    assert("shift"@[2] == 'i');
    reveal_strlit("win");
    assert("win"@.len() == 3);
    assert("win"@[0] == 'w');
    assert("win"@[1] == 'i');
    assert("win"@[2] == 'n');
    reveal_strlit("windows");
    assert("windows"@.len() == 7);
    assert("windows"@[0] == 'w');
    assert("windows"@[1] == 'i');
    assert("windows"@[2] == 'n');
    reveal_strlit("meta");
    assert("meta"@.len() == 4);
    assert("meta"@[0] == 'm');
    assert("meta"@[1] == 'e');
    assert("meta"@[2] == 't');
    let e = Seq::<Seq<char>>::empty();
    let c = if mods.ctrl { seq!["Ctrl"@] } else { e };
    let a = if mods.alt { c.push("Alt"@) } else { c };
    let sh = if mods.shift { a.push("Shift"@) } else { a };
    let w = if mods.win { sh.push("Win"@) } else { sh };
    assert(modifier_names(mods) =~= w);
    let m0 = Modifiers::none();
    let m1 = if mods.ctrl { m0.with(Modifier::Ctrl) } else { m0 };
    let m2 = if mods.alt { m1.with(Modifier::Alt) } else { m1 };
    let m3 = if mods.shift { m2.with(Modifier::Shift) } else { m2 };
    let m4 = if mods.win { m3.with(Modifier::Win) } else { m3 };
    assert(trim("Ctrl"@) == "Ctrl"@) by { lemma_alnum_trim("Ctrl"@); }
    assert(trim("Alt"@) == "Alt"@) by { lemma_alnum_trim("Alt"@); }
    assert(trim("Shift"@) == "Shift"@) by { lemma_alnum_trim("Shift"@); }
    assert(trim("Win"@) == "Win"@) by { lemma_alnum_trim("Win"@); }
    assert(lower("Ctrl"@) =~= "ctrl"@);
    assert(lower("Alt"@) =~= "alt"@);
    assert(lower("Shift"@) =~= "shift"@);
    assert(lower("Win"@) =~= "win"@);
    if mods.ctrl {
        lemma_read_parts_push(e, "Ctrl"@);
        assert(e.push("Ctrl"@) =~= seq!["Ctrl"@]);
    }
    assert(read_parts(c) == Ok::<ChordSoFar, HotkeyFailure>((m1, None)));
    if mods.alt {
        lemma_read_parts_push(c, "Alt"@);
    }
    assert(read_parts(a) == Ok::<ChordSoFar, HotkeyFailure>((m2, None)));
    if mods.shift {
        lemma_read_parts_push(a, "Shift"@);
    }
    assert(read_parts(sh) == Ok::<ChordSoFar, HotkeyFailure>((m3, None)));
    if mods.win {
        lemma_read_parts_push(sh, "Win"@);
    }
    assert(read_parts(w) == Ok::<ChordSoFar, HotkeyFailure>((m4, None)));
    assert(m4 == mods);
}

proof fn lemma_split_chord(mods: Modifiers, k: Seq<char>)
    requires
        forall|i: int| 0 <= i < k.len() ==> #[trigger] k[i] != '+',
    ensures
        split(chord_text(mods, k), '+') == modifier_names(mods).push(k),
{
    reveal_strlit("Ctrl+");
    reveal_strlit("Alt+");
    reveal_strlit("Shift+");
    reveal_strlit("Win+");
    reveal_strlit("Ctrl");
    reveal_strlit("Alt");
    reveal_strlit("Shift");
    reveal_strlit("Win");
    let e = Seq::<char>::empty();
    let r4 = k;
    lemma_split_single(k, '+');
    let r3 = if mods.win { "Win"@ + seq!['+'] + r4 } else { r4 };
    if mods.win {
        lemma_split_prefix("Win"@, r4, '+');
    }
    let r2 = if mods.shift { "Shift"@ + seq!['+'] + r3 } else { r3 };
    if mods.shift {
        lemma_split_prefix("Shift"@, r3, '+');
    }
    let r1 = if mods.alt { "Alt"@ + seq!['+'] + r2 } else { r2 };
    if mods.alt {
        lemma_split_prefix("Alt"@, r2, '+');
    }
    let r0 = if mods.ctrl { "Ctrl"@ + seq!['+'] + r1 } else { r1 };
    if mods.ctrl {
        lemma_split_prefix("Ctrl"@, r1, '+');
    }
    assert("Win+"@ =~= "Win"@ + seq!['+']);
    assert("Shift+"@ =~= "Shift"@ + seq!['+']);
    assert("Alt+"@ =~= "Alt"@ + seq!['+']);
    assert("Ctrl+"@ =~= "Ctrl"@ + seq!['+']);
    assert(chord_text(mods, k) =~= r0);
    assert(split(r0, '+') =~= modifier_names(mods).push(k));
}

/// Normalizing a hotkey twice gives the same text as normalizing it once:
/// normalized text is canonical.
pub proof fn law_normalized_hotkey_is_canonical(value: Seq<char>)
    ensures
        normalized_hotkey(value) matches Ok(t) ==> normalized_hotkey(t) == Ok::<Seq<char>, HotkeyFailure>(t),
{
    if let Ok(t) = normalized_hotkey(value) {
        let parts = split(value, '+');
        lemma_read_parts_key(parts);
        let (mods, key) = read_parts(parts)->Ok_0;
        let k = key.unwrap();
        lemma_chord_is_canonical(mods, k);
    }
}

/// The canonical text of a chord with a canonical main key normalizes to itself.
pub proof fn lemma_chord_is_canonical(mods: Modifiers, k: Seq<char>)
    requires
        canonical_key(k),
    ensures
        normalized_hotkey(chord_text(mods, k)) == Ok::<Seq<char>, HotkeyFailure>(chord_text(mods, k)),
{
    lemma_canonical_key_fixed(k);
    lemma_alnum_trim(k);
    lemma_split_chord(mods, k);
    lemma_read_modifier_names(mods);
    lemma_read_parts_push(modifier_names(mods), k);
}

/// The default hotkey `Ctrl+Space` is canonical.
pub proof fn lemma_default_hotkey_canonical()
    ensures
        normalized_hotkey("Ctrl+Space"@) == Ok::<Seq<char>, HotkeyFailure>("Ctrl+Space"@),
{
    let mods = Modifiers { ctrl: true, alt: false, shift: false, win: false };
    reveal_strlit("Ctrl+Space");
    reveal_strlit("Ctrl+");
    reveal_strlit("Space");
    assert(named_output("Space"@));
    assert(chord_text(mods, "Space"@) =~= "Ctrl+Space"@);
    lemma_chord_is_canonical(mods, "Space"@);
}


// ---------------------------------------------------------------------------
// What normalization depends on
// ---------------------------------------------------------------------------

/// A part is blank, names a modifier, or names a main key.
pub open spec fn part_valid(raw: Seq<char>) -> bool {
    let p = trim(raw);
    p.len() == 0 || modifier_of(p) is Some || key_of(p) is Some
}

/// The main key a part names, if it names one (and not a modifier).
pub open spec fn part_key(raw: Seq<char>) -> Option<Seq<char>> {
    let p = trim(raw);
    if p.len() > 0 && modifier_of(p) is None {
        key_of(p)
    } else {
        None
    }
}

/// Every part is blank, a modifier or a main key.
pub open spec fn all_parts_valid(parts: Seq<Seq<char>>) -> bool {
    forall|i: int| 0 <= i < parts.len() ==> part_valid(#[trigger] parts[i])
}

/// The main keys that the parts name, in order.
pub open spec fn key_parts(parts: Seq<Seq<char>>) -> Seq<Seq<char>>
    decreases parts.len(),
{
    if parts.len() == 0 {
        Seq::empty()
    } else {
        match part_key(parts.last()) {
            Some(k) => key_parts(parts.drop_last()).push(k),
            None => key_parts(parts.drop_last()),
        }
    }
}

/// Some part names the modifier `m`.
pub open spec fn names_modifier(parts: Seq<Seq<char>>, m: Modifier) -> bool {
    exists|i: int| 0 <= i < parts.len() && modifier_of(trim(#[trigger] parts[i])) == Some(m)
}

/// The modifiers that the parts name.
pub open spec fn named_modifiers(parts: Seq<Seq<char>>) -> Modifiers {
    Modifiers {
        ctrl: names_modifier(parts, Modifier::Ctrl),
        alt: names_modifier(parts, Modifier::Alt),
        shift: names_modifier(parts, Modifier::Shift),
        win: names_modifier(parts, Modifier::Win),
    }
}

proof fn lemma_names_modifier_push(parts: Seq<Seq<char>>, x: Seq<char>, m: Modifier)
    ensures
        names_modifier(parts.push(x), m) == (names_modifier(parts, m) || modifier_of(trim(x)) == Some(m)),
{
    let q = parts.push(x);
    if names_modifier(parts, m) {
        let i = choose|i: int| 0 <= i < parts.len() && modifier_of(trim(#[trigger] parts[i])) == Some(m);
        assert(q[i] == parts[i]);
    }
    if modifier_of(trim(x)) == Some(m) {
        assert(q[parts.len() as int] == x);
    }
    if names_modifier(q, m) {
        let i = choose|i: int| 0 <= i < q.len() && modifier_of(trim(#[trigger] q[i])) == Some(m);
        if i < parts.len() {
            assert(q[i] == parts[i]);
        }
    }
}

proof fn lemma_read_parts_form(parts: Seq<Seq<char>>)
    ensures
        read_parts(parts) is Ok <==> all_parts_valid(parts) && key_parts(parts).len() <= 1,
        read_parts(parts) matches Ok((mods, key)) ==> mods == named_modifiers(parts) && key == (if key_parts(
            parts,
        ).len() == 1 {
            Some(key_parts(parts)[0])
        } else {
            None
        }),
    decreases parts.len(),
{
    reveal_strlit("ctrl");
    reveal_strlit("control");
    reveal_strlit("alt");
    reveal_strlit("shift");
    reveal_strlit("win");
    reveal_strlit("windows");
    reveal_strlit("meta");
    if parts.len() == 0 {
        assert(named_modifiers(parts) == Modifiers::none());
    } else {
        let p = parts.drop_last();
        let x = parts.last();
        lemma_read_parts_form(p);
        assert(parts =~= p.push(x));
        lemma_read_parts_push(p, x);
        lemma_names_modifier_push(p, x, Modifier::Ctrl);
        lemma_names_modifier_push(p, x, Modifier::Alt);
        lemma_names_modifier_push(p, x, Modifier::Shift);
        lemma_names_modifier_push(p, x, Modifier::Win);
        assert(all_parts_valid(parts) == (all_parts_valid(p) && part_valid(x))) by {
            if all_parts_valid(parts) {
                assert forall|i: int| 0 <= i < p.len() implies part_valid(#[trigger] p[i]) by {
                    assert(parts[i] == p[i]);
                }
                assert(parts[parts.len() - 1] == x);
            }
            if all_parts_valid(p) && part_valid(x) {
                assert forall|i: int| 0 <= i < parts.len() implies part_valid(#[trigger] parts[i]) by {
                    if i < p.len() {
                        assert(parts[i] == p[i]);
                    }
                }
            }
        }
        let part = trim(x);
        if part.len() == 0 {
            assert(lower(part).len() == 0);
            assert(modifier_of(part) is None);
        }
    }
}

/// Normalization succeeds exactly when every `+`-separated part is blank, a
/// modifier or a main key, and exactly one part is a main key. The result
/// is then the canonical chord: the modifiers that some part names, in the
/// order Ctrl, Alt, Shift, Win and each once, followed by that key, which is
/// a canonical key (a named key, an upper-case letter or digit, or F1–F24).
pub proof fn law_normalized_hotkey_form(value: Seq<char>)
    ensures
        ({
            let parts = split(value, '+');
            &&& (normalized_hotkey(value) is Ok <==> all_parts_valid(parts) && key_parts(parts).len() == 1)
            &&& (normalized_hotkey(value) is Ok ==> {
                &&& normalized_hotkey(value) == Ok::<Seq<char>, HotkeyFailure>(
                    chord_text(named_modifiers(parts), key_parts(parts)[0]),
                )
                &&& canonical_key(key_parts(parts)[0])
            })
        }),
{
    let parts = split(value, '+');
    lemma_read_parts_form(parts);
    lemma_read_parts_key(parts);
}

/// Normalization depends only on which modifiers the parts name, on whether
/// every part is valid, and on the main keys named (as a multiset): so
/// reordering the parts, changing the ASCII case of a part, adding spaces
/// around parts, adding empty parts or repeating a modifier, all of which
/// keep these three, leave the result unchanged.
pub proof fn law_normalization_ignores_order_and_spelling(a: Seq<char>, b: Seq<char>)
    requires
        all_parts_valid(split(a, '+')) == all_parts_valid(split(b, '+')),
        named_modifiers(split(a, '+')) == named_modifiers(split(b, '+')),
        key_parts(split(a, '+')).to_multiset() == key_parts(split(b, '+')).to_multiset(),
    ensures
        normalized_hotkey(a) is Ok == normalized_hotkey(b) is Ok,
        normalized_hotkey(a) is Ok ==> normalized_hotkey(a) == normalized_hotkey(b),
{
    let ka = key_parts(split(a, '+'));
    let kb = key_parts(split(b, '+'));
    law_normalized_hotkey_form(a);
    law_normalized_hotkey_form(b);
    vstd::seq_lib::to_multiset_len(ka);
    vstd::seq_lib::to_multiset_len(kb);
    if ka.len() == 1 {
        vstd::seq_lib::to_multiset_contains(ka, ka[0]);
        vstd::seq_lib::to_multiset_contains(kb, ka[0]);
        assert(ka.contains(ka[0]));
    }
}


// ---------------------------------------------------------------------------
// Named keys and their spellings
// ---------------------------------------------------------------------------

/// Lower-case ASCII letters only, at least one.
pub open spec fn lower_word(a: Seq<char>) -> bool {
    a.len() > 0 && forall|i: int| 0 <= i < a.len() ==> 'a' <= #[trigger] a[i] && a[i] <= 'z'
}

/// A spelling `a` of the named key `k`: it names `k`, is a word of
/// lower-case letters, and names no modifier in any case.
pub open spec fn spells_key(a: Seq<char>, k: Seq<char>) -> bool {
    &&& named_key(a) == Some(k)
    &&& named_output(k)
    &&& lower_word(a)
    &&& forall|q: Seq<char>| lower(q) == a ==> #[trigger] modifier_of(q) is None
}

proof fn lemma_word(a: Seq<char>)
    requires
        a.len() > 0,
        forall|i: int| 0 <= i < a.len() ==> 'a' <= #[trigger] a[i] && a[i] <= 'z',
    ensures
        lower_word(a),
{
}

/// Any ASCII-case form `p` of a spelling `a` of `k` reads as the key `k`,
/// alone and after `Ctrl+`.
proof fn lemma_spelling_reads_as_key(p: Seq<char>, a: Seq<char>, k: Seq<char>)
    requires
        lower(p) == a,
        spells_key(a, k),
    ensures
        key_of(p) == Some(k),
        normalized_hotkey(p) == Ok::<Seq<char>, HotkeyFailure>(k),
        normalized_hotkey("Ctrl+"@ + p) == Ok::<Seq<char>, HotkeyFailure>("Ctrl+"@ + k),
{
    assert(p.len() == a.len());
    assert forall|i: int| 0 <= i < p.len() implies #[trigger] p[i] != '+' && !crate::text::is_ws(p[i]) by {
        assert(lower(p)[i] == crate::text::ascii_lower(p[i]));
        assert('a' <= a[i] && a[i] <= 'z');
    }
    crate::text::lemma_trim_fixed(p);
    assert(modifier_of(p) is None);
    lemma_split_single(p, '+');
    lemma_read_parts_push(Seq::empty(), p);
    assert(seq![p] =~= Seq::<Seq<char>>::empty().push(p));
    reveal_strlit("Ctrl+");
    reveal_strlit("Ctrl");
    let mods = Modifiers { ctrl: true, alt: false, shift: false, win: false };
    assert(chord_text(Modifiers::none(), k) =~= k);
    assert(chord_text(mods, k) =~= "Ctrl+"@ + k);
    assert("Ctrl+"@ =~= "Ctrl"@ + seq!['+']);
    assert(forall|i: int| 0 <= i < "Ctrl"@.len() ==> #[trigger] "Ctrl"@[i] != '+');
    lemma_split_prefix("Ctrl"@, p, '+');
    let parts = split("Ctrl+"@ + p, '+');
    assert(parts =~= seq!["Ctrl"@, p]);
    lemma_read_modifier_names(mods);
    assert(modifier_names(mods) =~= seq!["Ctrl"@]);
    lemma_read_parts_push(seq!["Ctrl"@], p);
    assert(seq!["Ctrl"@].push(p) =~= parts);
}

/// The spellings of each named key, checked one by one.
proof fn lemma_key_spellings()
    ensures
        spells_key("space"@, "Space"@),
        spells_key("enter"@, "Enter"@),
        spells_key("return"@, "Enter"@),
        spells_key("esc"@, "Esc"@),
        spells_key("escape"@, "Esc"@),
        spells_key("tab"@, "Tab"@),
        spells_key("backspace"@, "Backspace"@),
        spells_key("delete"@, "Delete"@),
        spells_key("del"@, "Delete"@),
        spells_key("insert"@, "Insert"@),
        spells_key("ins"@, "Insert"@),
        spells_key("up"@, "Up"@),
        spells_key("uparrow"@, "Up"@),
        spells_key("down"@, "Down"@),
        spells_key("downarrow"@, "Down"@),
        spells_key("left"@, "Left"@),
        spells_key("leftarrow"@, "Left"@),
        spells_key("right"@, "Right"@),
        spells_key("rightarrow"@, "Right"@),
        spells_key("home"@, "Home"@),
        spells_key("end"@, "End"@),
        spells_key("pageup"@, "PageUp"@),
        spells_key("pgup"@, "PageUp"@),
        spells_key("pagedown"@, "PageDown"@),
        spells_key("pgdn"@, "PageDown"@),
{
    reveal_strlit("space");
    reveal_strlit("enter");
    reveal_strlit("return");
    reveal_strlit("esc");
    reveal_strlit("escape");
    reveal_strlit("tab");
    reveal_strlit("backspace");
    reveal_strlit("delete");
    reveal_strlit("del");
    reveal_strlit("insert");
    reveal_strlit("ins");
    reveal_strlit("up");
    reveal_strlit("uparrow");
    reveal_strlit("down");
    reveal_strlit("downarrow");
    reveal_strlit("left");
    reveal_strlit("leftarrow");
    reveal_strlit("right");
    reveal_strlit("rightarrow");
    reveal_strlit("home");
    reveal_strlit("end");
    reveal_strlit("pageup");
    reveal_strlit("pgup");
    reveal_strlit("pagedown");
    reveal_strlit("pgdn");
    reveal_strlit("ctrl");
    reveal_strlit("control");
    reveal_strlit("alt");
    reveal_strlit("shift");
    reveal_strlit("win");
    reveal_strlit("windows");
    reveal_strlit("meta");
    assert("space"@.len() == 5);
    assert("space"@[0] == 's');
    assert("space"@[1] == 'p');
    assert("space"@[2] == 'a');
    assert("enter"@.len() == 5);
    assert("enter"@[0] == 'e');
    assert("enter"@[1] == 'n');
    assert("enter"@[2] == 't');
    assert("return"@.len() == 6);
    assert("return"@[0] == 'r');
    assert("return"@[1] == 'e');
    assert("return"@[2] == 't');
    assert("esc"@.len() == 3);
    assert("esc"@[0] == 'e');
    assert("esc"@[1] == 's');
    assert("esc"@[2] == 'c');
    assert("escape"@.len() == 6);
    assert("escape"@[0] == 'e');
    assert("escape"@[1] == 's');
    assert("escape"@[2] == 'c');
    assert("tab"@.len() == 3);
    assert("tab"@[0] == 't');
    assert("tab"@[1] == 'a');
    assert("tab"@[2] == 'b');
    assert("backspace"@.len() == 9);
    assert("backspace"@[0] == 'b');
    assert("backspace"@[1] == 'a');
    assert("backspace"@[2] == 'c');
    assert("delete"@.len() == 6);
    assert("delete"@[0] == 'd');
    assert("delete"@[1] == 'e');
    assert("delete"@[2] == 'l');
    assert("del"@.len() == 3);
    assert("del"@[0] == 'd');
    assert("del"@[1] == 'e');
    assert("del"@[2] == 'l');
    assert("insert"@.len() == 6);
    assert("insert"@[0] == 'i');
    assert("insert"@[1] == 'n');
    assert("insert"@[2] == 's');
    assert("ins"@.len() == 3);
    assert("ins"@[0] == 'i');
    assert("ins"@[1] == 'n');
    assert("ins"@[2] == 's');
    assert("up"@.len() == 2);
    assert("up"@[0] == 'u');
    assert("up"@[1] == 'p');
    assert("uparrow"@.len() == 7);
    assert("uparrow"@[0] == 'u');
    assert("uparrow"@[1] == 'p');
    assert("uparrow"@[2] == 'a');
    assert("down"@.len() == 4);
    assert("down"@[0] == 'd');
    assert("down"@[1] == 'o');
    assert("down"@[2] == 'w');
    assert("downarrow"@.len() == 9);
    assert("downarrow"@[0] == 'd');
    assert("downarrow"@[1] == 'o');
    assert("downarrow"@[2] == 'w');
    assert("left"@.len() == 4);
    assert("left"@[0] == 'l');
    assert("left"@[1] == 'e');
    assert("left"@[2] == 'f');
    assert("leftarrow"@.len() == 9);
    assert("leftarrow"@[0] == 'l');
    assert("leftarrow"@[1] == 'e');
    assert("leftarrow"@[2] == 'f');
    assert("right"@.len() == 5);
    assert("right"@[0] == 'r');
    assert("right"@[1] == 'i');
    assert("right"@[2] == 'g');
    assert("rightarrow"@.len() == 10);
    assert("rightarrow"@[0] == 'r');
    assert("rightarrow"@[1] == 'i');
    assert("rightarrow"@[2] == 'g');
    assert("home"@.len() == 4);
    assert("home"@[0] == 'h');
    assert("home"@[1] == 'o');
    assert("home"@[2] == 'm');
    assert("end"@.len() == 3);
    assert("end"@[0] == 'e');
    assert("end"@[1] == 'n');
    assert("end"@[2] == 'd');
    assert("pageup"@.len() == 6);
    assert("pageup"@[0] == 'p');
    assert("pageup"@[1] == 'a');
    assert("pageup"@[2] == 'g');
    assert("pgup"@.len() == 4);
    assert("pgup"@[0] == 'p');
    assert("pgup"@[1] == 'g');
    assert("pgup"@[2] == 'u');
    assert("pagedown"@.len() == 8);
    assert("pagedown"@[0] == 'p');
    assert("pagedown"@[1] == 'a');
    assert("pagedown"@[2] == 'g');
    assert("pgdn"@.len() == 4);
    assert("pgdn"@[0] == 'p');
    assert("pgdn"@[1] == 'g');
    assert("pgdn"@[2] == 'd');
    assert("ctrl"@.len() == 4);
    assert("ctrl"@[0] == 'c');
    assert("ctrl"@[1] == 't');
    assert("ctrl"@[2] == 'r');
    assert("control"@.len() == 7);
    assert("control"@[0] == 'c');
    assert("control"@[1] == 'o');
    assert("control"@[2] == 'n');
    assert("alt"@.len() == 3);
    assert("alt"@[0] == 'a');
    assert("alt"@[1] == 'l');
    assert("alt"@[2] == 't');
    assert("shift"@.len() == 5);
    assert("shift"@[0] == 's');
    assert("shift"@[1] == 'h');
    assert("shift"@[2] == 'i');
    assert("win"@.len() == 3);
    assert("win"@[0] == 'w');
    assert("win"@[1] == 'i');
    assert("win"@[2] == 'n');
    assert("windows"@.len() == 7);
    assert("windows"@[0] == 'w');
    assert("windows"@[1] == 'i');
    assert("windows"@[2] == 'n');
    assert("meta"@.len() == 4);
    assert("meta"@[0] == 'm');
    assert("meta"@[1] == 'e');
    assert("meta"@[2] == 't');
}

/// Every spelling of a named key, in any ASCII case, reads as that key's
/// canonical name, alone and after a modifier: `del` and `DEL` give
/// `Delete`, `return` gives `Enter`, `pgup` gives `PageUp`, and so on, and
/// `ctrl+del` normalizes to `Ctrl+Delete`.
pub proof fn law_key_spellings_name_their_key(p: Seq<char>)
    ensures
        ({
            let l = lower(p);
            let k = if l == "space"@ {
                Some("Space"@)
            } else if l == "enter"@ || l == "return"@ {
                Some("Enter"@)
            } else if l == "esc"@ || l == "escape"@ {
                Some("Esc"@)
            } else if l == "tab"@ {
                Some("Tab"@)
            } else if l == "backspace"@ {
                Some("Backspace"@)
            } else if l == "delete"@ || l == "del"@ {
                Some("Delete"@)
            } else if l == "insert"@ || l == "ins"@ {
                Some("Insert"@)
            } else if l == "up"@ || l == "uparrow"@ {
                Some("Up"@)
            } else if l == "down"@ || l == "downarrow"@ {
                Some("Down"@)
            } else if l == "left"@ || l == "leftarrow"@ {
                Some("Left"@)
            } else if l == "right"@ || l == "rightarrow"@ {
                Some("Right"@)
            } else if l == "home"@ {
                Some("Home"@)
            } else if l == "end"@ {
                Some("End"@)
            } else if l == "pageup"@ || l == "pgup"@ {
                Some("PageUp"@)
            } else if l == "pagedown"@ || l == "pgdn"@ {
                Some("PageDown"@)
            } else {
                None::<Seq<char>>
            };
            k matches Some(name) ==> {
                &&& key_of(p) == Some(name)
                &&& normalized_hotkey(p) == Ok::<Seq<char>, HotkeyFailure>(name)
                &&& normalized_hotkey("Ctrl+"@ + p) == Ok::<Seq<char>, HotkeyFailure>("Ctrl+"@ + name)
            }
        }),
{
    lemma_key_spellings();
    let l = lower(p);
    if l == "space"@ { lemma_spelling_reads_as_key(p, "space"@, "Space"@); }
    else if l == "enter"@ { lemma_spelling_reads_as_key(p, "enter"@, "Enter"@); }
    else if l == "return"@ { lemma_spelling_reads_as_key(p, "return"@, "Enter"@); }
    else if l == "esc"@ { lemma_spelling_reads_as_key(p, "esc"@, "Esc"@); }
    else if l == "escape"@ { lemma_spelling_reads_as_key(p, "escape"@, "Esc"@); }
    else if l == "tab"@ { lemma_spelling_reads_as_key(p, "tab"@, "Tab"@); }
    else if l == "backspace"@ { lemma_spelling_reads_as_key(p, "backspace"@, "Backspace"@); }
    else if l == "delete"@ { lemma_spelling_reads_as_key(p, "delete"@, "Delete"@); }
    else if l == "del"@ { lemma_spelling_reads_as_key(p, "del"@, "Delete"@); }
    else if l == "insert"@ { lemma_spelling_reads_as_key(p, "insert"@, "Insert"@); }
    else if l == "ins"@ { lemma_spelling_reads_as_key(p, "ins"@, "Insert"@); }
    else if l == "up"@ { lemma_spelling_reads_as_key(p, "up"@, "Up"@); }
    else if l == "uparrow"@ { lemma_spelling_reads_as_key(p, "uparrow"@, "Up"@); }
    else if l == "down"@ { lemma_spelling_reads_as_key(p, "down"@, "Down"@); }
    else if l == "downarrow"@ { lemma_spelling_reads_as_key(p, "downarrow"@, "Down"@); }
    else if l == "left"@ { lemma_spelling_reads_as_key(p, "left"@, "Left"@); }
    else if l == "leftarrow"@ { lemma_spelling_reads_as_key(p, "leftarrow"@, "Left"@); }
    else if l == "right"@ { lemma_spelling_reads_as_key(p, "right"@, "Right"@); }
    else if l == "rightarrow"@ { lemma_spelling_reads_as_key(p, "rightarrow"@, "Right"@); }
    else if l == "home"@ { lemma_spelling_reads_as_key(p, "home"@, "Home"@); }
    else if l == "end"@ { lemma_spelling_reads_as_key(p, "end"@, "End"@); }
    else if l == "pageup"@ { lemma_spelling_reads_as_key(p, "pageup"@, "PageUp"@); }
    else if l == "pgup"@ { lemma_spelling_reads_as_key(p, "pgup"@, "PageUp"@); }
    else if l == "pagedown"@ { lemma_spelling_reads_as_key(p, "pagedown"@, "PageDown"@); }
    else if l == "pgdn"@ { lemma_spelling_reads_as_key(p, "pgdn"@, "PageDown"@); }
}


/// A single character that is neither white space, `+`, nor an ASCII letter
/// or digit is no hotkey.
pub proof fn lemma_unknown_single_char(c: char)
    requires
        !crate::text::is_ws(c),
        !is_ascii_alphanumeric(c),
        c != '+',
    ensures
        normalized_hotkey(seq![c]) is Err,
{
    let p = seq![c];
    assert(p[0] == c);
    crate::text::lemma_trim_fixed(p);
    lemma_split_single(p, '+');
    lemma_read_parts_push(Seq::empty(), p);
    assert(seq![p] =~= Seq::<Seq<char>>::empty().push(p));
    assert(lower(p).len() == 1);
    let u = upper(p);
    assert(u.len() == 1);
    assert(u[0] == crate::text::ascii_upper(c));
    assert(!('a' <= c && c <= 'z'));
    assert(u[0] == c);
    reveal_strlit("space");
    assert("space"@.len() == 5);
    reveal_strlit("enter");
    assert("enter"@.len() == 5);
    reveal_strlit("return");
    assert("return"@.len() == 6);
    reveal_strlit("esc");
    assert("esc"@.len() == 3);
    reveal_strlit("escape");
    assert("escape"@.len() == 6);
    reveal_strlit("tab");
    assert("tab"@.len() == 3);
    reveal_strlit("backspace");
    assert("backspace"@.len() == 9);
    reveal_strlit("delete");
    assert("delete"@.len() == 6);
    reveal_strlit("del");
    assert("del"@.len() == 3);
    reveal_strlit("insert");
    assert("insert"@.len() == 6);
    reveal_strlit("ins");
    assert("ins"@.len() == 3);
    reveal_strlit("up");
    assert("up"@.len() == 2);
    reveal_strlit("uparrow");
    assert("uparrow"@.len() == 7);
    reveal_strlit("down");
    assert("down"@.len() == 4);
    reveal_strlit("downarrow");
    assert("downarrow"@.len() == 9);
    reveal_strlit("left");
    assert("left"@.len() == 4);
    reveal_strlit("leftarrow");
    assert("leftarrow"@.len() == 9);
    reveal_strlit("right");
    assert("right"@.len() == 5);
    reveal_strlit("rightarrow");
    assert("rightarrow"@.len() == 10);
    reveal_strlit("home");
    assert("home"@.len() == 4);
    reveal_strlit("end");
    assert("end"@.len() == 3);
    reveal_strlit("pageup");
    assert("pageup"@.len() == 6);
    reveal_strlit("pgup");
    assert("pgup"@.len() == 4);
    reveal_strlit("pagedown");
    assert("pagedown"@.len() == 8);
    reveal_strlit("pgdn");
    assert("pgdn"@.len() == 4);
    reveal_strlit("ctrl");
    assert("ctrl"@.len() == 4);
    reveal_strlit("control");
    assert("control"@.len() == 7);
    reveal_strlit("alt");
    assert("alt"@.len() == 3);
    reveal_strlit("shift");
    assert("shift"@.len() == 5);
    reveal_strlit("win");
    assert("win"@.len() == 3);
    reveal_strlit("windows");
    assert("windows"@.len() == 7);
    reveal_strlit("meta");
    assert("meta"@.len() == 4);
    assert(modifier_of(p) is None);
    assert(named_key(lower(p)) is None);
    assert(alnum_or_function_key(p) is None);
}

} // verus!
