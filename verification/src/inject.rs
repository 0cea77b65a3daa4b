//! The text-injection delivery decision.  The keystroke emulation and the
//! clipboard round-trip themselves are environment effects performed
//! outside the library; which of them runs, and when nothing runs at all,
//! is decided here.

use vstd::prelude::*;

verus! {

/// Characters beyond which keystroke emulation is considered too slow and
/// the clipboard is used directly.
pub const LONG_TEXT_THRESHOLD: usize = 500;

/// How a transcription is delivered to the focused application.
#[derive(Debug, Clone, Copy, PartialEq, Eq, Structural)]
pub enum InjectionMethod {
    /// Empty text: nothing to inject, report success.
    Skip,
    /// Type the text character by character; on failure the runtime falls
    /// back to the clipboard.
    Keystrokes,
    /// Paste through the clipboard, backing up and restoring its contents.
    Clipboard,
}

/// The delivery decision for a text of `text_len` bytes.
pub fn injection_method(text_len: usize) -> (m: InjectionMethod)
    ensures
        text_len == 0 ==> m is Skip,
        text_len > LONG_TEXT_THRESHOLD ==> m is Clipboard,
        0 < text_len <= LONG_TEXT_THRESHOLD ==> m is Keystrokes,
{
    if text_len == 0 {
        InjectionMethod::Skip
    } else if text_len > LONG_TEXT_THRESHOLD {
        InjectionMethod::Clipboard
    } else {
        InjectionMethod::Keystrokes
    }
}

} // verus!
