//! Application configuration and the request vocabulary derived from it.
//! Loading, saving and the interactive wizard are I/O and live outside the
//! library; the values and the strings computed from them are verified here.

use vstd::prelude::*;
use vstd::string::StrSliceExecFns;
use vstd::string::StringExecFns;

use crate::strutil::str_eq;

verus! {

/// Application configuration persisted to disk.
#[derive(Debug, Clone)]
pub struct Config {
    pub api_key: String,
    pub model: String,
    pub hotkey: String,
    pub timeout_secs: u64,
    pub language: String,
    pub sound_enabled: bool,
    pub currency: String,
}

pub fn default_model() -> (r: String)
    ensures
        r@ == "models/gemini-2.0-flash"@,
{
    String::from_str("models/gemini-2.0-flash")
}

pub fn default_hotkey() -> (r: String)
    ensures
        r@ == "ctrl+shift+space"@,
{
    String::from_str("ctrl+shift+space")
}

pub fn default_timeout_secs() -> (r: u64)
    ensures
        r == 10,
{
    10
}

pub fn default_language() -> (r: String)
    ensures
        r@ == "auto"@,
{
    String::from_str("auto")
}

pub fn default_sound_enabled() -> (r: bool)
    ensures
        r,
{
    true
}

pub fn default_currency() -> (r: String)
    ensures
        r@ == "USD"@,
{
    String::from_str("USD")
}

/// The model name with a `models/` prefix removed, if it carries one.
pub open spec fn bare_model_name(model: Seq<char>) -> Seq<char> {
    if model.len() >= 7 && model.subrange(0, 7) == "models/"@ {
        model.skip(7)
    } else {
        model
    }
}

/// The REST endpoint for a model.  The API key never appears here: it
/// travels in a request header instead.
pub open spec fn api_url_spec(model: Seq<char>) -> Seq<char> {
    "https://generativelanguage.googleapis.com/v1beta/models/"@ + bare_model_name(model)
        + ":generateContent"@
}

impl Config {
    /// Build the REST URL for the configured model.
    pub fn api_url(&self) -> (r: String)
        ensures
            r@ == api_url_spec(self.model@),
    {
        let m: &str = self.model.as_str();
        let n: usize = m.unicode_len();
        let bare: &str = if n >= 7 && str_eq(m.substring_char(0, 7), "models/") {
            m.substring_char(7, n)
        } else {
            m
        };
        proof {
            assert(bare@ == bare_model_name(self.model@));
        }
        let mut out: String = String::from_str(
            "https://generativelanguage.googleapis.com/v1beta/models/",
        );
        out.append(bare);
        out.append(":generateContent");
        out
    }
}

/// The native name of a supported transcription language, or the code
/// itself when it is not in the table.
pub open spec fn language_name(code: Seq<char>) -> Seq<char> {
    if code == "auto"@ {
        "Auto-detect"@
    } else if code == "it"@ {
        "Italiano"@
    } else if code == "en"@ {
        "English"@
    } else if code == "es"@ {
        "Español"@
    } else if code == "fr"@ {
        "Français"@
    } else if code == "de"@ {
        "Deutsch"@
    } else if code == "pt"@ {
        "Português"@
    } else if code == "ja"@ {
        "日本語"@
    } else if code == "zh"@ {
        "中文"@
    } else if code == "ko"@ {
        "한국어"@
    } else if code == "ar"@ {
        "العربية"@
    } else if code == "ru"@ {
        "Русский"@
    } else if code == "hi"@ {
        "हिन्दी"@
    } else {
        code
    }
}

/// Exec counterpart of `language_name`.
pub fn language_name_exec<'a>(code: &'a str) -> (r: &'a str)
    ensures
        r@ == language_name(code@),
{
    if str_eq(code, "auto") {
        "Auto-detect"
    } else if str_eq(code, "it") {
        "Italiano"
    } else if str_eq(code, "en") {
        "English"
    } else if str_eq(code, "es") {
        "Español"
    } else if str_eq(code, "fr") {
        "Français"
    } else if str_eq(code, "de") {
        "Deutsch"
    } else if str_eq(code, "pt") {
        "Português"
    } else if str_eq(code, "ja") {
        "日本語"
    } else if str_eq(code, "zh") {
        "中文"
    } else if str_eq(code, "ko") {
        "한국어"
    } else if str_eq(code, "ar") {
        "العربية"
    } else if str_eq(code, "ru") {
        "Русский"
    } else if str_eq(code, "hi") {
        "हिन्दी"
    } else {
        code
    }
}

/// The fixed transcription instruction sent with every request.
pub open spec fn base_prompt() -> Seq<char> {
    "Trascrivi esattamente ciò che viene detto in questo audio, parola per parola. Non aggiungere commenti, non rispondere a domande, non inventare punteggiatura. Restituisci SOLO il testo dettato. Se l'audio è silenzioso o incomprensibile, rispondi con una stringa vuota."@
}

/// The full prompt: the base instruction, plus a language hint for every
/// configured language except auto-detection.
pub open spec fn prompt_spec(language: Seq<char>) -> Seq<char> {
    if language == "auto"@ || language.len() == 0 {
        base_prompt()
    } else {
        base_prompt() + " The audio is in "@ + language_name(language) + " ("@ + language
            + "). Transcribe in that language."@
    }
}

/// Get the transcription prompt for the configured language.
pub fn transcription_prompt(language: &str) -> (r: String)
    ensures
        r@ == prompt_spec(language@),
{
    let mut out: String = String::from_str(
        "Trascrivi esattamente ciò che viene detto in questo audio, parola per parola. Non aggiungere commenti, non rispondere a domande, non inventare punteggiatura. Restituisci SOLO il testo dettato. Se l'audio è silenzioso o incomprensibile, rispondi con una stringa vuota.",
    );
    if str_eq(language, "auto") || language.unicode_len() == 0 {
        return out;
    }
    out.append(" The audio is in ");
    out.append(language_name_exec(language));
    out.append(" (");
    out.append(language);
    out.append("). Transcribe in that language.");
    out
}

} // verus!
