//! Hotkey signal vocabulary and hotkey-string parsing.
//!
//! A hotkey is written as `+`-separated components, e.g.
//! `ctrl+shift+space`: every component is either a modifier name or the
//! single trigger key, compared ASCII case-insensitively and with
//! surrounding spaces ignored.  The trigger is kept by its canonical
//! name; mapping a name onto platform key codes happens at the listener.

use vstd::prelude::*;
use vstd::string::StrSliceExecFns;

use crate::strutil::{eq_ci, eq_ci_exec, find_char, find_index, lemma_find_index, trim_exec, trim_spec};

verus! {

/// Signals sent from the input listener to the session state machine.
#[derive(Debug, Clone, Copy, PartialEq, Eq, Structural)]
pub enum InputSignal {
    /// Hotkey pressed: start recording.
    Start,
    /// Hotkey released: stop recording.
    Stop,
}

/// Supported modifier keys (left/right variants are tracked together).
#[derive(Debug, Clone, Copy, PartialEq, Eq, Hash, Structural)]
pub enum Modifier {
    Ctrl,
    Shift,
    Alt,
    Meta,
}

/// Why a hotkey string was rejected.
#[derive(Debug, Clone, Copy, PartialEq, Eq, Structural)]
pub enum HotkeyError {
    /// A component is neither a modifier nor a known key name.
    UnknownKey,
    /// More than one non-modifier key appears in the combo.
    MultipleTriggerKeys,
    /// Only modifiers appear; at least one non-modifier key is needed.
    NoTriggerKey,
}

impl HotkeyError {
    /// A short description for logs.
    pub fn message(&self) -> (r: &'static str)
        ensures
            *self is UnknownKey ==> r@ == "unknown key in hotkey"@,
            *self is MultipleTriggerKeys ==> r@ == "multiple non-modifier keys in hotkey"@,
            *self is NoTriggerKey ==> r@ == "no trigger key in hotkey"@,
    {
        match self {
            HotkeyError::UnknownKey => "unknown key in hotkey",
            HotkeyError::MultipleTriggerKeys => "multiple non-modifier keys in hotkey",
            HotkeyError::NoTriggerKey => "no trigger key in hotkey",
        }
    }
}

/// The modifier a component names, if any.
pub open spec fn modifier_of(s: Seq<char>) -> Option<Modifier> {
    if eq_ci(s, "ctrl"@) || eq_ci(s, "control"@) {
        Some(Modifier::Ctrl)
    } else if eq_ci(s, "shift"@) {
        Some(Modifier::Shift)
    } else if eq_ci(s, "alt"@) || eq_ci(s, "option"@) {
        Some(Modifier::Alt)
    } else if eq_ci(s, "meta"@) || eq_ci(s, "super"@) || eq_ci(s, "win"@) || eq_ci(s, "cmd"@)
        || eq_ci(s, "command"@) {
        Some(Modifier::Meta)
    } else {
        None
    }
}

/// Exec counterpart of `modifier_of`.
pub fn modifier_of_exec(part: &str) -> (r: Option<Modifier>)
    ensures
        r == modifier_of(part@),
{
    if eq_ci_exec(part, "ctrl") || eq_ci_exec(part, "control") {
        Some(Modifier::Ctrl)
    } else if eq_ci_exec(part, "shift") {
        Some(Modifier::Shift)
    } else if eq_ci_exec(part, "alt") || eq_ci_exec(part, "option") {
        Some(Modifier::Alt)
    } else if eq_ci_exec(part, "meta") || eq_ci_exec(part, "super") || eq_ci_exec(part, "win")
        || eq_ci_exec(part, "cmd") || eq_ci_exec(part, "command") {
        Some(Modifier::Meta)
    } else {
        None
    }
}

/// The canonical name of the trigger key a component names, if any.
pub open spec fn key_canon(s: Seq<char>) -> Option<Seq<char>> {
    if eq_ci(s, "a"@) {
        Some("a"@)
    } else if eq_ci(s, "b"@) {
        Some("b"@)
    } else if eq_ci(s, "c"@) {
        Some("c"@)
    } else if eq_ci(s, "d"@) {
        Some("d"@)
    } else if eq_ci(s, "e"@) {
        Some("e"@)
    } else if eq_ci(s, "f"@) {
        Some("f"@)
    } else if eq_ci(s, "g"@) {
        Some("g"@)
    } else if eq_ci(s, "h"@) {
        Some("h"@)
    } else if eq_ci(s, "i"@) {
        Some("i"@)
    } else if eq_ci(s, "j"@) {
        Some("j"@)
    } else if eq_ci(s, "k"@) {
        Some("k"@)
    } else if eq_ci(s, "l"@) {
        Some("l"@)
    } else if eq_ci(s, "m"@) {
        Some("m"@)
    } else if eq_ci(s, "n"@) {
        Some("n"@)
    } else if eq_ci(s, "o"@) {
        Some("o"@)
    } else if eq_ci(s, "p"@) {
        Some("p"@)
    } else if eq_ci(s, "q"@) {
        Some("q"@)
    } else if eq_ci(s, "r"@) {
        Some("r"@)
    } else if eq_ci(s, "s"@) {
        Some("s"@)
    } else if eq_ci(s, "t"@) {
        Some("t"@)
    } else if eq_ci(s, "u"@) {
        Some("u"@)
    } else if eq_ci(s, "v"@) {
        Some("v"@)
    } else if eq_ci(s, "w"@) {
        Some("w"@)
    } else if eq_ci(s, "x"@) {
        Some("x"@)
    } else if eq_ci(s, "y"@) {
        Some("y"@)
    } else if eq_ci(s, "z"@) {
        Some("z"@)
    } else if eq_ci(s, "0"@) {
        Some("0"@)
    } else if eq_ci(s, "1"@) {
        Some("1"@)
    } else if eq_ci(s, "2"@) {
        Some("2"@)
    } else if eq_ci(s, "3"@) {
        Some("3"@)
    } else if eq_ci(s, "4"@) {
        Some("4"@)
    } else if eq_ci(s, "5"@) {
        Some("5"@)
    } else if eq_ci(s, "6"@) {
        Some("6"@)
    } else if eq_ci(s, "7"@) {
        Some("7"@)
    } else if eq_ci(s, "8"@) {
        Some("8"@)
    } else if eq_ci(s, "9"@) {
        Some("9"@)
    } else if eq_ci(s, "f1"@) {
        Some("f1"@)
    } else if eq_ci(s, "f2"@) {
        Some("f2"@)
    } else if eq_ci(s, "f3"@) {
        Some("f3"@)
    } else if eq_ci(s, "f4"@) {
        Some("f4"@)
    } else if eq_ci(s, "f5"@) {
        Some("f5"@)
    } else if eq_ci(s, "f6"@) {
        Some("f6"@)
    } else if eq_ci(s, "f7"@) {
        Some("f7"@)
    } else if eq_ci(s, "f8"@) {
        Some("f8"@)
    } else if eq_ci(s, "f9"@) {
        Some("f9"@)
    } else if eq_ci(s, "f10"@) {
        Some("f10"@)
    } else if eq_ci(s, "f11"@) {
        Some("f11"@)
    } else if eq_ci(s, "f12"@) {
        Some("f12"@)
    } else if eq_ci(s, "space"@) || eq_ci(s, "spacebar"@) {
        Some("space"@)
    } else if eq_ci(s, "enter"@) || eq_ci(s, "return"@) {
        Some("enter"@)
    } else if eq_ci(s, "tab"@) {
        Some("tab"@)
    } else if eq_ci(s, "escape"@) || eq_ci(s, "esc"@) {
        Some("escape"@)
    } else if eq_ci(s, "backspace"@) {
        Some("backspace"@)
    } else if eq_ci(s, "delete"@) || eq_ci(s, "del"@) {
        Some("delete"@)
    } else if eq_ci(s, "insert"@) || eq_ci(s, "ins"@) {
        Some("insert"@)
    } else if eq_ci(s, "home"@) {
        Some("home"@)
    } else if eq_ci(s, "end"@) {
        Some("end"@)
    } else if eq_ci(s, "pageup"@) || eq_ci(s, "pgup"@) {
        Some("pageup"@)
    } else if eq_ci(s, "pagedown"@) || eq_ci(s, "pgdn"@) || eq_ci(s, "pgdown"@) {
        Some("pagedown"@)
    } else if eq_ci(s, "up"@) {
        Some("up"@)
    } else if eq_ci(s, "down"@) {
        Some("down"@)
    } else if eq_ci(s, "left"@) {
        Some("left"@)
    } else if eq_ci(s, "right"@) {
        Some("right"@)
    } else if eq_ci(s, "capslock"@) || eq_ci(s, "caps"@) {
        Some("capslock"@)
    } else if eq_ci(s, "printscreen"@) || eq_ci(s, "prtsc"@) {
        Some("printscreen"@)
    } else if eq_ci(s, "scrolllock"@) {
        Some("scrolllock"@)
    } else if eq_ci(s, "pause"@) {
        Some("pause"@)
    } else if eq_ci(s, "`"@) || eq_ci(s, "grave"@) || eq_ci(s, "backtick"@) {
        Some("`"@)
    } else if eq_ci(s, "-"@) || eq_ci(s, "minus"@) {
        Some("-"@)
    } else if eq_ci(s, "="@) || eq_ci(s, "equal"@) || eq_ci(s, "equals"@) {
        Some("="@)
    } else if eq_ci(s, "["@) || eq_ci(s, "bracketleft"@) {
        Some("["@)
    } else if eq_ci(s, "]"@) || eq_ci(s, "bracketright"@) {
        Some("]"@)
    } else if eq_ci(s, "\\"@) || eq_ci(s, "backslash"@) {
        Some("\\"@)
    } else if eq_ci(s, ";"@) || eq_ci(s, "semicolon"@) {
        Some(";"@)
    } else if eq_ci(s, "'"@) || eq_ci(s, "quote"@) || eq_ci(s, "apostrophe"@) {
        Some("'"@)
    } else if eq_ci(s, ","@) || eq_ci(s, "comma"@) {
        Some(","@)
    } else if eq_ci(s, "."@) || eq_ci(s, "period"@) || eq_ci(s, "dot"@) {
        Some("."@)
    } else if eq_ci(s, "/"@) || eq_ci(s, "slash"@) {
        Some("/"@)
    } else {
        None
    }
}

/// Exec counterpart of `key_canon`.
pub fn canonical_key_name(part: &str) -> (r: Option<&'static str>)
    ensures
        r matches Some(n) ==> key_canon(part@) == Some(n@),
        r is None ==> key_canon(part@) is None,
{
    if eq_ci_exec(part, "a") {
        Some("a")
    } else if eq_ci_exec(part, "b") {
        Some("b")
    } else if eq_ci_exec(part, "c") {
        Some("c")
    } else if eq_ci_exec(part, "d") {
        Some("d")
    } else if eq_ci_exec(part, "e") {
        Some("e")
    } else if eq_ci_exec(part, "f") {
        Some("f")
    } else if eq_ci_exec(part, "g") {
        Some("g")
    } else if eq_ci_exec(part, "h") {
        Some("h")
    } else if eq_ci_exec(part, "i") {
        Some("i")
    } else if eq_ci_exec(part, "j") {
        Some("j")
    } else if eq_ci_exec(part, "k") {
        Some("k")
    } else if eq_ci_exec(part, "l") {
        Some("l")
    } else if eq_ci_exec(part, "m") {
        Some("m")
    } else if eq_ci_exec(part, "n") {
        Some("n")
    } else if eq_ci_exec(part, "o") {
        Some("o")
    } else if eq_ci_exec(part, "p") {
        Some("p")
    } else if eq_ci_exec(part, "q") {
        Some("q")
    } else if eq_ci_exec(part, "r") {
        Some("r")
    } else if eq_ci_exec(part, "s") {
        Some("s")
    } else if eq_ci_exec(part, "t") {
        Some("t")
    } else if eq_ci_exec(part, "u") {
        Some("u")
    } else if eq_ci_exec(part, "v") {
        Some("v")
    } else if eq_ci_exec(part, "w") {
        Some("w")
    } else if eq_ci_exec(part, "x") {
        Some("x")
    } else if eq_ci_exec(part, "y") {
        Some("y")
    } else if eq_ci_exec(part, "z") {
        Some("z")
    } else if eq_ci_exec(part, "0") {
        Some("0")
    } else if eq_ci_exec(part, "1") {
        Some("1")
    } else if eq_ci_exec(part, "2") {
        Some("2")
    } else if eq_ci_exec(part, "3") {
        Some("3")
    } else if eq_ci_exec(part, "4") {
        Some("4")
    } else if eq_ci_exec(part, "5") {
        Some("5")
    } else if eq_ci_exec(part, "6") {
        Some("6")
    } else if eq_ci_exec(part, "7") {
        Some("7")
    } else if eq_ci_exec(part, "8") {
        Some("8")
    } else if eq_ci_exec(part, "9") {
        Some("9")
    } else if eq_ci_exec(part, "f1") {
        Some("f1")
    } else if eq_ci_exec(part, "f2") {
        Some("f2")
    } else if eq_ci_exec(part, "f3") {
        Some("f3")
    } else if eq_ci_exec(part, "f4") {
        Some("f4")
    } else if eq_ci_exec(part, "f5") {
        Some("f5")
    } else if eq_ci_exec(part, "f6") {
        Some("f6")
    } else if eq_ci_exec(part, "f7") {
        Some("f7")
    } else if eq_ci_exec(part, "f8") {
        Some("f8")
    } else if eq_ci_exec(part, "f9") {
        Some("f9")
    } else if eq_ci_exec(part, "f10") {
        Some("f10")
    } else if eq_ci_exec(part, "f11") {
        Some("f11")
    } else if eq_ci_exec(part, "f12") {
        Some("f12")
    } else if eq_ci_exec(part, "space") || eq_ci_exec(part, "spacebar") {
        Some("space")
    } else if eq_ci_exec(part, "enter") || eq_ci_exec(part, "return") {
        Some("enter")
    } else if eq_ci_exec(part, "tab") {
        Some("tab")
    } else if eq_ci_exec(part, "escape") || eq_ci_exec(part, "esc") {
        Some("escape")
    } else if eq_ci_exec(part, "backspace") {
        Some("backspace")
    } else if eq_ci_exec(part, "delete") || eq_ci_exec(part, "del") {
        Some("delete")
    } else if eq_ci_exec(part, "insert") || eq_ci_exec(part, "ins") {
        Some("insert")
    } else if eq_ci_exec(part, "home") {
        Some("home")
    } else if eq_ci_exec(part, "end") {
        Some("end")
    } else if eq_ci_exec(part, "pageup") || eq_ci_exec(part, "pgup") {
        Some("pageup")
    } else if eq_ci_exec(part, "pagedown") || eq_ci_exec(part, "pgdn") || eq_ci_exec(part, "pgdown") {
        Some("pagedown")
    } else if eq_ci_exec(part, "up") {
        Some("up")
    } else if eq_ci_exec(part, "down") {
        Some("down")
    } else if eq_ci_exec(part, "left") {
        Some("left")
    } else if eq_ci_exec(part, "right") {
        Some("right")
    } else if eq_ci_exec(part, "capslock") || eq_ci_exec(part, "caps") {
        Some("capslock")
    } else if eq_ci_exec(part, "printscreen") || eq_ci_exec(part, "prtsc") {
        Some("printscreen")
    } else if eq_ci_exec(part, "scrolllock") {
        Some("scrolllock")
    } else if eq_ci_exec(part, "pause") {
        Some("pause")
    } else if eq_ci_exec(part, "`") || eq_ci_exec(part, "grave") || eq_ci_exec(part, "backtick") {
        Some("`")
    } else if eq_ci_exec(part, "-") || eq_ci_exec(part, "minus") {
        Some("-")
    } else if eq_ci_exec(part, "=") || eq_ci_exec(part, "equal") || eq_ci_exec(part, "equals") {
        Some("=")
    } else if eq_ci_exec(part, "[") || eq_ci_exec(part, "bracketleft") {
        Some("[")
    } else if eq_ci_exec(part, "]") || eq_ci_exec(part, "bracketright") {
        Some("]")
    } else if eq_ci_exec(part, "\\") || eq_ci_exec(part, "backslash") {
        Some("\\")
    } else if eq_ci_exec(part, ";") || eq_ci_exec(part, "semicolon") {
        Some(";")
    } else if eq_ci_exec(part, "'") || eq_ci_exec(part, "quote") || eq_ci_exec(part, "apostrophe") {
        Some("'")
    } else if eq_ci_exec(part, ",") || eq_ci_exec(part, "comma") {
        Some(",")
    } else if eq_ci_exec(part, ".") || eq_ci_exec(part, "period") || eq_ci_exec(part, "dot") {
        Some(".")
    } else if eq_ci_exec(part, "/") || eq_ci_exec(part, "slash") {
        Some("/")
    } else {
        None
    }
}

/// One step of hotkey parsing over the raw string: split the next
/// component at `+`, trim it, and classify it.
pub open spec fn parse_scan(s: Seq<char>, mods: Seq<Modifier>, trig: Option<Seq<char>>) -> Result<
    (Seq<Modifier>, Seq<char>),
    HotkeyError,
>
    decreases s.len(),
{
    let i = find_index(s, '+');
    if !(0 <= i < s.len()) {
        let p = trim_spec(s);
        match modifier_of(p) {
            Some(m) => finish_scan(add_modifier(mods, m), trig),
            None => if trig is Some {
                Err(HotkeyError::MultipleTriggerKeys)
            } else {
                match key_canon(p) {
                    Some(c) => Ok((mods, c)),
                    None => Err(HotkeyError::UnknownKey),
                }
            },
        }
    } else {
        let p = trim_spec(s.take(i));
        match modifier_of(p) {
            Some(m) => parse_scan(s.skip(i + 1), add_modifier(mods, m), trig),
            None => if trig is Some {
                Err(HotkeyError::MultipleTriggerKeys)
            } else {
                match key_canon(p) {
                    Some(c) => parse_scan(s.skip(i + 1), mods, Some(c)),
                    None => Err(HotkeyError::UnknownKey),
                }
            },
        }
    }
}

/// A modifier set grows only with modifiers not yet present.
pub open spec fn add_modifier(mods: Seq<Modifier>, m: Modifier) -> Seq<Modifier> {
    if mods.contains(m) {
        mods
    } else {
        mods.push(m)
    }
}

/// The outcome once every component is consumed.
pub open spec fn finish_scan(mods: Seq<Modifier>, trig: Option<Seq<char>>) -> Result<
    (Seq<Modifier>, Seq<char>),
    HotkeyError,
> {
    match trig {
        Some(t) => Ok((mods, t)),
        None => Err(HotkeyError::NoTriggerKey),
    }
}

/// What parsing a whole hotkey string yields.
pub open spec fn hotkey_outcome(raw: Seq<char>) -> Result<(Seq<Modifier>, Seq<char>), HotkeyError> {
    parse_scan(raw, Seq::empty(), None)
}

/// A parsed hotkey: the modifiers that must be held, the canonical name
/// of the trigger key, and the label as the user wrote it.
#[derive(Debug, Clone)]
pub struct Hotkey {
    pub modifiers: Vec<Modifier>,
    pub trigger: String,
    pub label: String,
}

fn has_modifier(mods: &Vec<Modifier>, m: Modifier) -> (r: bool)
    ensures
        r == mods@.contains(m),
{
    let mut i: usize = 0;
    while i < mods.len()
        invariant
            0 <= i <= mods@.len(),
            forall|j: int| 0 <= j < i ==> mods@[j] != m,
        decreases mods@.len() - i,
    {
        if mods[i] == m {
            return true;
        }
        i = i + 1;
    }
    false
}

/// Parse a hotkey string like `ctrl+shift+space`.
pub fn parse_hotkey(raw: &str) -> (r: Result<Hotkey, HotkeyError>)
    ensures
        (r is Ok) <==> (hotkey_outcome(raw@) is Ok),
        r matches Ok(h) ==> (hotkey_outcome(raw@) matches Ok(p) && h.modifiers@ == p.0
            && h.trigger@ == p.1 && h.label@ == raw@),
        r matches Err(e) ==> (hotkey_outcome(raw@) matches Err(e2) && e == e2),
{
    let n: usize = raw.unicode_len();
    let mut mods: Vec<Modifier> = Vec::new();
    let mut trig: Option<&'static str> = None;
    let mut pos: usize = 0;
    let mut more: bool = true;
    proof {
        assert(raw@.skip(0) =~= raw@);
    }
    while more
        invariant
            0 <= pos <= n,
            n == raw@.len(),
            more ==> hotkey_outcome(raw@) == parse_scan(
                raw@.skip(pos as int),
                mods@,
                match trig {
                    Some(t) => Some(t@),
                    None => None,
                },
            ),
            !more ==> (hotkey_outcome(raw@) matches Ok(p) && mods@ == p.0 && (trig matches Some(t)
                && t@ == p.1)),
        decreases n - pos + (if more {
            1int
        } else {
            0int
        }),
    {
        let ghost u = raw@.skip(pos as int);
        let found: Option<usize> = find_char(raw, pos, '+');
        let (end, has_plus): (usize, bool) = match found {
            Some(e) => (e, true),
            None => (n, false),
        };
        proof {
            lemma_find_index(u, '+');
            if has_plus {
                assert(u[end - pos] == '+');
                assert(forall|j: int| 0 <= j < end - pos ==> u[j] != '+');
                assert(find_index(u, '+') == end - pos);
            } else {
                assert(forall|j: int| 0 <= j < u.len() ==> u[j] != '+');
                assert(find_index(u, '+') < 0);
            }
        }
        let piece: &str = raw.substring_char(pos, end);
        let part: String = trim_exec(piece);
        proof {
            if has_plus {
                assert(piece@ =~= u.take(end - pos));
                assert(u.skip(end - pos + 1) =~= raw@.skip(end as int + 1));
            } else {
                assert(piece@ =~= u);
            }
        }
        let ghost mods0 = mods@;
        match modifier_of_exec(part.as_str()) {
            Some(m) => {
                if !has_modifier(&mods, m) {
                    mods.push(m);
                }
                proof {
                    assert(mods@ == add_modifier(mods0, m));
                }
            },
            None => {
                if trig.is_some() {
                    return Err(HotkeyError::MultipleTriggerKeys);
                }
                match canonical_key_name(part.as_str()) {
                    Some(c) => {
                        trig = Some(c);
                    },
                    None => {
                        return Err(HotkeyError::UnknownKey);
                    },
                }
            },
        }
        if has_plus {
            pos = end + 1;
        } else {
            more = false;
            match trig {
                Some(_) => {
                },
                None => {
                    return Err(HotkeyError::NoTriggerKey);
                },
            }
        }
    }
    match trig {
        Some(t) => Ok(
            Hotkey { modifiers: mods, trigger: t.to_owned(), label: raw.to_owned() },
        ),
        None => Err(HotkeyError::NoTriggerKey),
    }
}

} // verus!
