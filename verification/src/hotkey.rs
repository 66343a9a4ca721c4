//! The global trigger key: the shared key letter and the double-tap detector that
//! decides, press by press, when the overlay is toggled.

use std::sync::atomic::{AtomicU8, Ordering};
use std::sync::Arc;

use vstd::prelude::*;

use crate::config::hotkey_or;
use crate::text::is_ascii_upper;

verus! {

/// The letter a key setting stands for: an ASCII letter upper-cased, `J` otherwise.
pub fn normalize_key(key: char) -> (r: char)
    ensures
        r == hotkey_or(key, 'J'),
        is_ascii_upper(r),
{
    crate::config::sanitize_hotkey(key, 'J')
}

/// The byte stored for a key letter: the letter's code.
pub fn key_byte(key: char) -> (r: u8)
    ensures
        r as u32 == hotkey_or(key, 'J') as u32,
{
    let letter = normalize_key(key);
    letter as u8
}

/// The letter a stored byte stands for.
pub fn byte_letter(b: u8) -> (r: char)
    ensures
        r == hotkey_or(b as char, 'J'),
{
    normalize_key(b as char)
}

/// A shared cell holding the trigger key, started at the letter `initial` stands for.
pub fn trigger_key_atomic(initial: char) -> Arc<AtomicU8> {
    Arc::new(AtomicU8::new(key_byte(initial)))
}

/// Stores the letter `key` stands for as the new trigger key.
pub fn set_trigger_key(trigger: &Arc<AtomicU8>, key: char) {
    let byte = key_byte(key);
    store_trigger_byte(trigger, byte);
}

fn store_trigger_byte(trigger: &Arc<AtomicU8>, byte: u8) {
    let cell: &AtomicU8 = trigger;
    cell.store(byte, Ordering::Relaxed);
}

fn load_trigger_byte(trigger: &Arc<AtomicU8>) -> u8 {
    let cell: &AtomicU8 = trigger;
    cell.load(Ordering::Relaxed)
}

/// The letter of the key the listener currently watches; always an upper-case letter.
pub fn read_trigger_letter(trigger: &Arc<AtomicU8>) -> (r: char)
    ensures
        is_ascii_upper(r),
{
    byte_letter(load_trigger_byte(trigger))
}

/// The key letter that the keyboard code of `c` is looked up by: upper-case letters
/// stand for themselves, lower-case ones for their upper-case form, anything else for `J`.
pub fn keycode_letter(c: char) -> (r: char)
    ensures
        r == hotkey_or(c, 'J'),
{
    normalize_key(c)
}

/// Where a keyboard event tap is installed; the session tap is tried first.
#[derive(Debug, Clone, Copy, PartialEq, Eq, Structural)]
pub enum TapLocation {
    Session,
    Hid,
}

/// The next place to try an event tap after `failed` (none yet: the session).
pub fn next_tap_location(failed: Option<TapLocation>) -> (r: Option<TapLocation>)
    ensures
        r == match failed {
            None => Some(TapLocation::Session),
            Some(TapLocation::Session) => Some(TapLocation::Hid),
            Some(TapLocation::Hid) => None::<TapLocation>,
        },
{
    match failed {
        None => Some(TapLocation::Session),
        Some(TapLocation::Session) => Some(TapLocation::Hid),
        Some(TapLocation::Hid) => None,
    }
}

/// What the listener reports when no event tap could be installed.
pub fn tap_failure_message() -> (r: String)
    ensures
        r@ == "hotkey listener failed: unable to create CGEventTap"@,
{
    "hotkey listener failed: unable to create CGEventTap".to_owned()
}

/// What the listener reports on a system where the global hotkey is not available.
pub fn unsupported_platform_message() -> (r: String)
    ensures
        r@ == "hotkey listener is only implemented for macOS"@,
{
    "hotkey listener is only implemented for macOS".to_owned()
}

/// A key press as the detector sees it.
#[derive(Debug, Clone, Copy, PartialEq, Eq, Structural)]
pub struct KeyPress {
    /// The key is the trigger key.
    pub is_trigger: bool,
    /// No modifier (command, option, control, shift, fn, caps lock) is held.
    pub modifier_free: bool,
    /// The press is an automatic repeat of a held key.
    pub autorepeat: bool,
    /// When it happened, in nanoseconds on a monotonic clock.
    pub at_ns: u128,
}

/// The double-tap detector: when the last counted tap happened, and whether the
/// trigger key is still held down since then.
#[derive(Debug, Clone, Copy, PartialEq, Eq, Structural)]
pub struct TapState {
    pub last_tap: Option<u128>,
    pub awaiting_release: bool,
}

/// A press counts as a tap when it is the trigger key, unmodified, not a repeat, and the
/// key was released since the previous counted tap.
pub open spec fn counts_as_tap(s: TapState, p: KeyPress) -> bool {
    p.is_trigger && p.modifier_free && !p.autorepeat && !s.awaiting_release
}

/// Time from `earlier` to `later`, zero when `later` is not after `earlier`.
pub open spec fn elapsed(earlier: u128, later: u128) -> u128 {
    if later > earlier {
        (later - earlier) as u128
    } else {
        0
    }
}

/// The detector after a key press, and whether the press toggles the overlay: a tap
/// within `window_ns` of the previous tap toggles and forgets both taps; any other tap
/// is remembered as the latest.
pub open spec fn after_press(s: TapState, p: KeyPress, window_ns: u128) -> (TapState, bool) {
    if !counts_as_tap(s, p) {
        (s, false)
    } else {
        match s.last_tap {
            Some(prev) if elapsed(prev, p.at_ns) <= window_ns => (
                TapState { last_tap: None, awaiting_release: true },
                true,
            ),
            _ => (TapState { last_tap: Some(p.at_ns), awaiting_release: true }, false),
        }
    }
}

/// The detector after a key release: releasing the trigger key re-arms it.
pub open spec fn after_release(s: TapState, is_trigger: bool) -> TapState {
    if is_trigger {
        TapState { awaiting_release: false, ..s }
    } else {
        s
    }
}

impl TapState {
    /// No tap seen, key not held.
    pub fn new() -> (r: TapState)
        ensures
            r == (TapState { last_tap: None, awaiting_release: false }),
    {
        TapState { last_tap: None, awaiting_release: false }
    }

    /// Feeds a key press; returns whether it completes a double tap.
    pub fn on_key_down(&mut self, press: KeyPress, window_ns: u128) -> (toggle: bool)
        ensures
            (*final(self), toggle) == after_press(*old(self), press, window_ns),
    {
        if !press.is_trigger || !press.modifier_free || press.autorepeat {
            return false;
        }
        if self.awaiting_release {
            return false;
        }
        self.awaiting_release = true;
        if let Some(previous) = self.last_tap {
            let since = press.at_ns.saturating_sub(previous);
            if since <= window_ns {
                self.last_tap = None;
                return true;
            }
        }
        self.last_tap = Some(press.at_ns);
        false
    }

    /// Feeds a key release.
    pub fn on_key_up(&mut self, is_trigger: bool)
        ensures
            *final(self) == after_release(*old(self), is_trigger),
    {
        if is_trigger {
            self.awaiting_release = false;
        }
    }
}

/// A clean tap, released, then a second clean tap within the window toggles the
/// overlay on the second tap and not on the first.
pub proof fn lemma_double_tap_toggles(
    s: TapState,
    first: KeyPress,
    second: KeyPress,
    window_ns: u128,
)
    requires
        s.last_tap is None,
        !s.awaiting_release,
        counts_as_tap(s, first),
        second.is_trigger && second.modifier_free && !second.autorepeat,
        elapsed(first.at_ns, second.at_ns) <= window_ns,
    ensures
        !after_press(s, first, window_ns).1,
        after_press(after_release(after_press(s, first, window_ns).0, true), second, window_ns).1,
        after_press(
            after_release(after_press(s, first, window_ns).0, true),
            second,
            window_ns,
        ).0.last_tap is None,
{
}

/// Two clean taps further apart than the window do not toggle; the second becomes the
/// latest tap.
pub proof fn lemma_slow_taps_do_not_toggle(
    s: TapState,
    first: KeyPress,
    second: KeyPress,
    window_ns: u128,
)
    requires
        s.last_tap is None,
        !s.awaiting_release,
        counts_as_tap(s, first),
        second.is_trigger && second.modifier_free && !second.autorepeat,
        elapsed(first.at_ns, second.at_ns) > window_ns,
    ensures
        !after_press(after_release(after_press(s, first, window_ns).0, true), second, window_ns).1,
        after_press(
            after_release(after_press(s, first, window_ns).0, true),
            second,
            window_ns,
        ).0.last_tap == Some(second.at_ns),
{
}

/// While the trigger key is held down nothing toggles, however many presses arrive.
pub proof fn lemma_held_key_never_toggles(s: TapState, p: KeyPress, window_ns: u128)
    requires
        s.awaiting_release,
    ensures
        after_press(s, p, window_ns) == (s, false),
{
}

/// After a toggle, the next tap alone never toggles again: a new pair of taps is needed.
pub proof fn lemma_toggle_needs_fresh_pair(s: TapState, p: KeyPress, q: KeyPress, window_ns: u128)
    requires
        after_press(s, p, window_ns).1,
    ensures
        !after_press(after_release(after_press(s, p, window_ns).0, true), q, window_ns).1,
{
}

/// Presses of other keys, modified presses and automatic repeats leave the detector as it is.
pub proof fn lemma_other_presses_ignored(s: TapState, p: KeyPress, window_ns: u128)
    requires
        !p.is_trigger || !p.modifier_free || p.autorepeat,
    ensures
        after_press(s, p, window_ns) == (s, false),
{
}

} // verus!
