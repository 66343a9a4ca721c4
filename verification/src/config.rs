//! Application settings and the rules that bring any stored settings back into range.

use vstd::prelude::*;

use crate::text::{ascii_upper, is_ascii_letter, is_ascii_upper, to_ascii_upper};

verus! {

/// The user's settings, as stored in `config.json`.
#[derive(Debug, Clone, Copy, PartialEq, Eq, Structural)]
pub struct AppConfig {
    pub trigger_key: char,
    pub double_tap_ms: u16,
    pub launch_at_login: bool,
    pub hide_completed: bool,
    pub max_visible_plates: u16,
    pub min_diameter_px: u16,
    pub max_diameter_px: u16,
    pub complete_fade_ms: u16,
    pub input_hotkey: char,
    pub list_mode_hotkey: char,
}

/// The settings a fresh installation starts with.
pub open spec fn default_config() -> AppConfig {
    AppConfig {
        trigger_key: 'J',
        double_tap_ms: 250,
        launch_at_login: true,
        hide_completed: false,
        max_visible_plates: 40,
        min_diameter_px: 168,
        max_diameter_px: 440,
        complete_fade_ms: 700,
        input_hotkey: 'N',
        list_mode_hotkey: 'M',
    }
}

impl Default for AppConfig {
    fn default() -> (r: Self)
        ensures
            r == default_config(),
    {
        AppConfig {
            trigger_key: 'J',
            double_tap_ms: 250,
            launch_at_login: true,
            hide_completed: false,
            max_visible_plates: 40,
            min_diameter_px: 168,
            max_diameter_px: 440,
            complete_fade_ms: 700,
            input_hotkey: 'N',
            list_mode_hotkey: 'M',
        }
    }
}

/// A hotkey letter: the upper-case form of an ASCII letter, `fallback` for anything else.
pub open spec fn hotkey_or(key: char, fallback: char) -> char {
    if is_ascii_letter(key) {
        ascii_upper(key)
    } else {
        fallback
    }
}

/// `v` if it lies in `lo..=hi`, `default` otherwise.
pub open spec fn in_range_or(v: u16, lo: u16, hi: u16, default: u16) -> u16 {
    if v < lo || v > hi {
        default
    } else {
        v
    }
}

/// What `sanitize` makes of a configuration.
pub open spec fn sanitized(c: AppConfig) -> AppConfig {
    let min0 = in_range_or(c.min_diameter_px, 168, 520, 168);
    let max0 = in_range_or(c.max_diameter_px, 320, 760, 440);
    AppConfig {
        trigger_key: hotkey_or(c.trigger_key, 'J'),
        double_tap_ms: in_range_or(c.double_tap_ms, 120, 600, 250),
        launch_at_login: c.launch_at_login,
        hide_completed: c.hide_completed,
        max_visible_plates: in_range_or(c.max_visible_plates, 1, 200, 40),
        min_diameter_px: if min0 > max0 { max0 } else { min0 },
        max_diameter_px: if min0 > max0 { min0 } else { max0 },
        complete_fade_ms: in_range_or(c.complete_fade_ms, 200, 3000, 700),
        input_hotkey: hotkey_or(c.input_hotkey, 'N'),
        list_mode_hotkey: hotkey_or(c.list_mode_hotkey, 'M'),
    }
}

impl AppConfig {
    /// Every setting is within the range the application works with.
    pub open spec fn is_sanitized(self) -> bool {
        &&& is_ascii_upper(self.trigger_key)
        &&& is_ascii_upper(self.input_hotkey)
        &&& is_ascii_upper(self.list_mode_hotkey)
        &&& 120 <= self.double_tap_ms <= 600
        &&& 1 <= self.max_visible_plates <= 200
        &&& 168 <= self.min_diameter_px <= 520
        &&& 320 <= self.max_diameter_px <= 760
        &&& self.min_diameter_px <= self.max_diameter_px
        &&& 200 <= self.complete_fade_ms <= 3000
    }

    /// Brings every setting back into its range: hotkeys become upper-case letters
    /// (or their defaults), out-of-range numbers take their defaults, and the two
    /// diameters are swapped when the minimum exceeds the maximum.
    pub fn sanitize(&mut self)
        ensures
            *final(self) == sanitized(*old(self)),
            final(self).is_sanitized(),
    {
        self.trigger_key = sanitize_hotkey(self.trigger_key, 'J');
        self.input_hotkey = sanitize_hotkey(self.input_hotkey, 'N');
        self.list_mode_hotkey = sanitize_hotkey(self.list_mode_hotkey, 'M');

        if self.double_tap_ms < 120 || self.double_tap_ms > 600 {
            self.double_tap_ms = 250;
        }
        if self.max_visible_plates == 0 || self.max_visible_plates > 200 {
            self.max_visible_plates = 40;
        }
        if self.min_diameter_px < 168 || self.min_diameter_px > 520 {
            self.min_diameter_px = 168;
        }
        if self.max_diameter_px < 320 || self.max_diameter_px > 760 {
            self.max_diameter_px = 440;
        }
        if self.min_diameter_px > self.max_diameter_px {
            let min = self.min_diameter_px;
            self.min_diameter_px = self.max_diameter_px;
            self.max_diameter_px = min;
        }
        if self.complete_fade_ms < 200 || self.complete_fade_ms > 3000 {
            self.complete_fade_ms = 700;
        }
    }
}

/// The trigger hotkey: an upper-cased ASCII letter, `J` for anything else.
pub fn sanitize_trigger_key(key: char) -> (r: char)
    ensures
        r == hotkey_or(key, 'J'),
        is_ascii_upper(r),
{
    sanitize_hotkey(key, 'J')
}

/// A hotkey: the upper-cased form of an ASCII letter, `fallback` for anything else.
pub fn sanitize_hotkey(key: char, fallback: char) -> (r: char)
    ensures
        r == hotkey_or(key, fallback),
{
    let normalized = to_ascii_upper(key);
    if 'A' <= normalized && normalized <= 'Z' {
        normalized
    } else {
        fallback
    }
}

/// The default settings are already in range.
pub proof fn lemma_default_is_sanitized()
    ensures
        default_config().is_sanitized(),
        sanitized(default_config()) == default_config(),
{
}

/// Sanitising always yields settings that are in range.
pub proof fn lemma_sanitized_is_in_range(c: AppConfig)
    ensures
        sanitized(c).is_sanitized(),
{
}

/// Settings that are already in range are left exactly as they are.
pub proof fn lemma_sanitize_keeps_valid(c: AppConfig)
    requires
        c.is_sanitized(),
    ensures
        sanitized(c) == c,
{
}

/// Sanitising twice gives the same settings as sanitising once.
pub proof fn lemma_sanitize_idempotent(c: AppConfig)
    ensures
        sanitized(sanitized(c)) == sanitized(c),
{
    lemma_sanitized_is_in_range(c);
    lemma_sanitize_keeps_valid(sanitized(c));
}

/// A hotkey chosen by `hotkey_or` with an upper-case fallback is an upper-case letter,
/// and choosing again changes nothing.
pub proof fn lemma_hotkey_idempotent(key: char, fallback: char)
    requires
        is_ascii_upper(fallback),
    ensures
        is_ascii_upper(hotkey_or(key, fallback)),
        hotkey_or(hotkey_or(key, fallback), fallback) == hotkey_or(key, fallback),
{
}

} // verus!
