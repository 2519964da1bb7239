//! Choosing the global capture hotkey: checking what the user typed, and what
//! to keep when the system refuses to register it.

use vstd::prelude::*;
use global_hotkey::hotkey::{HotKey, HotKeyParseError};
use crate::text::{trim, trimmed};

verus! {

/// The answer to a blank hotkey.
pub const HOTKEY_EMPTY_MESSAGE: &'static str = "Hotkey cannot be empty";

/// The answer to a hotkey that does not read as a shortcut.
pub const HOTKEY_INVALID_MESSAGE: &'static str = "Invalid hotkey format. Example: Ctrl+Shift+Space";

/// The answer when the stored hotkey cannot be updated.
pub const HOTKEY_UPDATE_FAILED_MESSAGE: &'static str = "Unable to update hotkey";

/// The answer when the stored hotkey cannot be read.
pub const HOTKEY_READ_FAILED_MESSAGE: &'static str = "Unable to read active hotkey";

#[verifier::external_type_specification]
#[verifier::external_body]
pub struct ExHotKey(HotKey);

#[verifier::external_type_specification]
#[verifier::external_body]
pub struct ExHotKeyParseError(HotKeyParseError);

/// Whether `HotKey::from_str` of the `global-hotkey` crate accepts `text`:
/// modifier names and one key name joined by `+`, or a single key name.
pub uninterp spec fn is_shortcut_text(text: Seq<char>) -> bool;

/// The shortcut that `HotKey::from_str` builds from `text` where it accepts
/// it: a function of the text alone (for a given target platform, which fixes
/// what `CmdOrCtrl` means when the program is built).
pub uninterp spec fn shortcut_for(text: Seq<char>) -> HotKey;

/// `HotKey::from_str` (`global-hotkey`, the shortcut type that
/// `tauri-plugin-global-shortcut` re-exports as `Shortcut`). Claimed: it
/// succeeds exactly on the texts `is_shortcut_text` names, and the shortcut
/// it builds is `shortcut_for(text)`; both are functions of the text alone.
#[verifier::external_body]
fn parse_hotkey_text(text: &str) -> (r: Result<HotKey, HotKeyParseError>)
    ensures
        r is Ok <==> is_shortcut_text(text@),
        r matches Ok(h) ==> h == shortcut_for(text@),
{
    text.parse::<HotKey>()
}

/// The shortcut that `text` names, if it reads as one.
pub fn shortcut_from_text(text: &str) -> (r: Option<HotKey>)
    ensures
        r is Some <==> is_shortcut_text(text@),
        r matches Some(h) ==> h == shortcut_for(text@),
{
    match parse_hotkey_text(text) {
        Ok(h) => Some(h),
        Err(_) => None,
    }
}

/// Checks a requested capture hotkey: blank ends are removed; a blank
/// request is refused, and so is one that does not read as a shortcut.
/// Returns the text to store and the shortcut to register.
pub fn prepare_capture_hotkey(hotkey: &str) -> (r: Result<(String, HotKey), String>)
    ensures
        match r {
            Ok((normalized, shortcut)) => {
                &&& normalized@ == trim(hotkey@)
                &&& shortcut == shortcut_for(trim(hotkey@))
                &&& trim(hotkey@).len() > 0
                &&& is_shortcut_text(trim(hotkey@))
            },
            Err(e) => if trim(hotkey@).len() == 0 {
                e@ == HOTKEY_EMPTY_MESSAGE@
            } else {
                !is_shortcut_text(trim(hotkey@)) && e@ == HOTKEY_INVALID_MESSAGE@
            },
        },
{
    let normalized = trimmed(hotkey);
    if normalized.as_str().is_empty() {
        return Err(String::from_str(HOTKEY_EMPTY_MESSAGE));
    }
    match shortcut_from_text(normalized.as_str()) {
        Some(h) => Ok((normalized, h)),
        None => Err(String::from_str(HOTKEY_INVALID_MESSAGE)),
    }
}

/// What follows the attempt to register a new capture hotkey.
pub struct CaptureHotkeyOutcome {
    /// A shortcut to register in its place, if any.
    pub register_fallback: Option<HotKey>,
    /// The hotkey text to store as the active one, if any.
    pub stored: Option<String>,
    /// The answer to the request.
    pub reply: Result<(), String>,
}

/// Settles a capture-hotkey change once the new shortcut's registration has
/// been tried. On success the new text is stored. On failure the app is never
/// left without a capture shortcut: where the default hotkey reads as a
/// shortcut (`fallback`), it is registered and stored instead; either way the
/// registration error is the answer.
pub fn settle_capture_hotkey(
    normalized: &str,
    registered: Result<(), String>,
    default_hotkey: &str,
    fallback: Option<HotKey>,
) -> (r: CaptureHotkeyOutcome)
    ensures
        match registered {
            Ok(()) => {
                &&& r.register_fallback is None
                &&& r.stored matches Some(s) && s@ == normalized@
                &&& r.reply is Ok
            },
            Err(e) => {
                &&& r.register_fallback == fallback
                &&& match fallback {
                    Some(_) => r.stored matches Some(s) && s@ == default_hotkey@,
                    None => r.stored is None,
                }
                &&& r.reply matches Err(m) && m@ == e@
            },
        },
{
    match registered {
        Ok(()) => CaptureHotkeyOutcome {
            register_fallback: None,
            stored: Some(String::from_str(normalized)),
            reply: Ok(()),
        },
        Err(e) => {
            let stored = match fallback {
                Some(_) => Some(String::from_str(default_hotkey)),
                None => None,
            };
            CaptureHotkeyOutcome { register_fallback: fallback, stored, reply: Err(e) }
        },
    }
}

} // verus!
