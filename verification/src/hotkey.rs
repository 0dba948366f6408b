//! Hotkey configuration strings and hotkey events.
//!
//! Hotkeys are written like `Ctrl+Shift+R`: modifiers and one key, joined
//! by `+`. Registering them with the desktop (global key grabbing, the Sway
//! configuration file) is the caller's part; this module parses the
//! strings, classifies the events that come back, and composes the Sway
//! configuration block.
use vstd::prelude::*;

use crate::display_server::{DisplayServer, DisplayServerInfo};
use crate::text;

verus! {

/// Hotkey events.
#[derive(Debug, Clone, Copy, PartialEq, Eq, Structural)]
pub enum HotkeyEvent {
    /// Toggle recording on/off
    Toggle,
    /// Push-to-talk pressed
    PushToTalkPressed,
    /// Push-to-talk released
    PushToTalkReleased,
}

/// The keys a hotkey can use.
#[derive(Debug, Clone, Copy, PartialEq, Eq, Structural)]
pub enum KeyCode {
    KeyA,
    KeyB,
    KeyC,
    KeyD,
    KeyE,
    KeyF,
    KeyG,
    KeyH,
    KeyI,
    KeyJ,
    KeyK,
    KeyL,
    KeyM,
    KeyN,
    KeyO,
    KeyP,
    KeyQ,
    KeyR,
    KeyS,
    KeyT,
    KeyU,
    KeyV,
    KeyW,
    KeyX,
    KeyY,
    KeyZ,
    Digit0,
    Digit1,
    Digit2,
    Digit3,
    Digit4,
    Digit5,
    Digit6,
    Digit7,
    Digit8,
    Digit9,
    Space,
    Enter,
    Tab,
    Backspace,
    Escape,
    F1,
    F2,
    F3,
    F4,
    F5,
    F6,
    F7,
    F8,
    F9,
    F10,
    F11,
    F12,
}

/// The modifier keys of a hotkey.
#[derive(Debug, Clone, Copy, PartialEq, Eq, Structural)]
pub struct Modifiers {
    pub control: bool,
    pub shift: bool,
    pub alt: bool,
    pub super_key: bool,
}

/// A parsed hotkey: its modifiers and its key.
#[derive(Debug, Clone, Copy, PartialEq, Eq, Structural)]
pub struct HotKeySpec {
    pub mods: Modifiers,
    pub key: KeyCode,
}

/// Why a hotkey string was rejected.
#[derive(Debug, Clone, PartialEq, Eq)]
pub enum HotkeyError {
    /// Empty hotkey string
    Empty,
    /// A part that is neither a modifier nor a known key (lowercased)
    UnknownKey(String),
    /// No key, only modifiers
    NoKeyCode,
}

/// The key that a lowercase key name denotes.
pub open spec fn key_code_for(name: Seq<char>) -> Option<KeyCode> {
    if name == "a"@ {
        Some(KeyCode::KeyA)
    } else     if name == "b"@ {
        Some(KeyCode::KeyB)
    } else     if name == "c"@ {
        Some(KeyCode::KeyC)
    } else     if name == "d"@ {
        Some(KeyCode::KeyD)
    } else     if name == "e"@ {
        Some(KeyCode::KeyE)
    } else     if name == "f"@ {
        Some(KeyCode::KeyF)
    } else     if name == "g"@ {
        Some(KeyCode::KeyG)
    } else     if name == "h"@ {
        Some(KeyCode::KeyH)
    } else     if name == "i"@ {
        Some(KeyCode::KeyI)
    } else     if name == "j"@ {
        Some(KeyCode::KeyJ)
    } else     if name == "k"@ {
        Some(KeyCode::KeyK)
    } else     if name == "l"@ {
        Some(KeyCode::KeyL)
    } else     if name == "m"@ {
        Some(KeyCode::KeyM)
    } else     if name == "n"@ {
        Some(KeyCode::KeyN)
    } else     if name == "o"@ {
        Some(KeyCode::KeyO)
    } else     if name == "p"@ {
        Some(KeyCode::KeyP)
    } else     if name == "q"@ {
        Some(KeyCode::KeyQ)
    } else     if name == "r"@ {
        Some(KeyCode::KeyR)
    } else     if name == "s"@ {
        Some(KeyCode::KeyS)
    } else     if name == "t"@ {
        Some(KeyCode::KeyT)
    } else     if name == "u"@ {
        Some(KeyCode::KeyU)
    } else     if name == "v"@ {
        Some(KeyCode::KeyV)
    } else     if name == "w"@ {
        Some(KeyCode::KeyW)
    } else     if name == "x"@ {
        Some(KeyCode::KeyX)
    } else     if name == "y"@ {
        Some(KeyCode::KeyY)
    } else     if name == "z"@ {
        Some(KeyCode::KeyZ)
    } else     if name == "0"@ {
        Some(KeyCode::Digit0)
    } else     if name == "1"@ {
        Some(KeyCode::Digit1)
    } else     if name == "2"@ {
        Some(KeyCode::Digit2)
    } else     if name == "3"@ {
        Some(KeyCode::Digit3)
    } else     if name == "4"@ {
        Some(KeyCode::Digit4)
    } else     if name == "5"@ {
        Some(KeyCode::Digit5)
    } else     if name == "6"@ {
        Some(KeyCode::Digit6)
    } else     if name == "7"@ {
        Some(KeyCode::Digit7)
    } else     if name == "8"@ {
        Some(KeyCode::Digit8)
    } else     if name == "9"@ {
        Some(KeyCode::Digit9)
    } else     if name == "space"@ {
        Some(KeyCode::Space)
    } else     if name == "enter"@ {
        Some(KeyCode::Enter)
    } else     if name == "return"@ {
        Some(KeyCode::Enter)
    } else     if name == "tab"@ {
        Some(KeyCode::Tab)
    } else     if name == "backspace"@ {
        Some(KeyCode::Backspace)
    } else     if name == "escape"@ {
        Some(KeyCode::Escape)
    } else     if name == "esc"@ {
        Some(KeyCode::Escape)
    } else     if name == "f1"@ {
        Some(KeyCode::F1)
    } else     if name == "f2"@ {
        Some(KeyCode::F2)
    } else     if name == "f3"@ {
        Some(KeyCode::F3)
    } else     if name == "f4"@ {
        Some(KeyCode::F4)
    } else     if name == "f5"@ {
        Some(KeyCode::F5)
    } else     if name == "f6"@ {
        Some(KeyCode::F6)
    } else     if name == "f7"@ {
        Some(KeyCode::F7)
    } else     if name == "f8"@ {
        Some(KeyCode::F8)
    } else     if name == "f9"@ {
        Some(KeyCode::F9)
    } else     if name == "f10"@ {
        Some(KeyCode::F10)
    } else     if name == "f11"@ {
        Some(KeyCode::F11)
    } else     if name == "f12"@ {
        Some(KeyCode::F12)
    } else {
        None
    }
}

fn key_code_lookup(name: &[char]) -> (r: Option<KeyCode>)
    ensures
        r == key_code_for(name@),
{
    if text::chars_eq_str(name, "a") {
        return Some(KeyCode::KeyA);
    }
    if text::chars_eq_str(name, "b") {
        return Some(KeyCode::KeyB);
    }
    if text::chars_eq_str(name, "c") {
        return Some(KeyCode::KeyC);
    }
    if text::chars_eq_str(name, "d") {
        return Some(KeyCode::KeyD);
    }
    if text::chars_eq_str(name, "e") {
        return Some(KeyCode::KeyE);
    }
    if text::chars_eq_str(name, "f") {
        return Some(KeyCode::KeyF);
    }
    if text::chars_eq_str(name, "g") {
        return Some(KeyCode::KeyG);
    }
    if text::chars_eq_str(name, "h") {
        return Some(KeyCode::KeyH);
    }
    if text::chars_eq_str(name, "i") {
        return Some(KeyCode::KeyI);
    }
    if text::chars_eq_str(name, "j") {
        return Some(KeyCode::KeyJ);
    }
    if text::chars_eq_str(name, "k") {
        return Some(KeyCode::KeyK);
    }
    if text::chars_eq_str(name, "l") {
        return Some(KeyCode::KeyL);
    }
    if text::chars_eq_str(name, "m") {
        return Some(KeyCode::KeyM);
    }
    if text::chars_eq_str(name, "n") {
        return Some(KeyCode::KeyN);
    }
    if text::chars_eq_str(name, "o") {
        return Some(KeyCode::KeyO);
    }
    if text::chars_eq_str(name, "p") {
        return Some(KeyCode::KeyP);
    }
    if text::chars_eq_str(name, "q") {
        return Some(KeyCode::KeyQ);
    }
    if text::chars_eq_str(name, "r") {
        return Some(KeyCode::KeyR);
    }
    if text::chars_eq_str(name, "s") {
        return Some(KeyCode::KeyS);
    }
    if text::chars_eq_str(name, "t") {
        return Some(KeyCode::KeyT);
    }
    if text::chars_eq_str(name, "u") {
        return Some(KeyCode::KeyU);
    }
    if text::chars_eq_str(name, "v") {
        return Some(KeyCode::KeyV);
    }
    if text::chars_eq_str(name, "w") {
        return Some(KeyCode::KeyW);
    }
    if text::chars_eq_str(name, "x") {
        return Some(KeyCode::KeyX);
    }
    if text::chars_eq_str(name, "y") {
        return Some(KeyCode::KeyY);
    }
    if text::chars_eq_str(name, "z") {
        return Some(KeyCode::KeyZ);
    }
    if text::chars_eq_str(name, "0") {
        return Some(KeyCode::Digit0);
    }
    if text::chars_eq_str(name, "1") {
        return Some(KeyCode::Digit1);
    }
    if text::chars_eq_str(name, "2") {
        return Some(KeyCode::Digit2);
    }
    if text::chars_eq_str(name, "3") {
        return Some(KeyCode::Digit3);
    }
    if text::chars_eq_str(name, "4") {
        return Some(KeyCode::Digit4);
    }
    if text::chars_eq_str(name, "5") {
        return Some(KeyCode::Digit5);
    }
    if text::chars_eq_str(name, "6") {
        return Some(KeyCode::Digit6);
    }
    if text::chars_eq_str(name, "7") {
        return Some(KeyCode::Digit7);
    }
    if text::chars_eq_str(name, "8") {
        return Some(KeyCode::Digit8);
    }
    if text::chars_eq_str(name, "9") {
        return Some(KeyCode::Digit9);
    }
    if text::chars_eq_str(name, "space") {
        return Some(KeyCode::Space);
    }
    if text::chars_eq_str(name, "enter") {
        return Some(KeyCode::Enter);
    }
    if text::chars_eq_str(name, "return") {
        return Some(KeyCode::Enter);
    }
    if text::chars_eq_str(name, "tab") {
        return Some(KeyCode::Tab);
    }
    if text::chars_eq_str(name, "backspace") {
        return Some(KeyCode::Backspace);
    }
    if text::chars_eq_str(name, "escape") {
        return Some(KeyCode::Escape);
    }
    if text::chars_eq_str(name, "esc") {
        return Some(KeyCode::Escape);
    }
    if text::chars_eq_str(name, "f1") {
        return Some(KeyCode::F1);
    }
    if text::chars_eq_str(name, "f2") {
        return Some(KeyCode::F2);
    }
    if text::chars_eq_str(name, "f3") {
        return Some(KeyCode::F3);
    }
    if text::chars_eq_str(name, "f4") {
        return Some(KeyCode::F4);
    }
    if text::chars_eq_str(name, "f5") {
        return Some(KeyCode::F5);
    }
    if text::chars_eq_str(name, "f6") {
        return Some(KeyCode::F6);
    }
    if text::chars_eq_str(name, "f7") {
        return Some(KeyCode::F7);
    }
    if text::chars_eq_str(name, "f8") {
        return Some(KeyCode::F8);
    }
    if text::chars_eq_str(name, "f9") {
        return Some(KeyCode::F9);
    }
    if text::chars_eq_str(name, "f10") {
        return Some(KeyCode::F10);
    }
    if text::chars_eq_str(name, "f11") {
        return Some(KeyCode::F11);
    }
    if text::chars_eq_str(name, "f12") {
        return Some(KeyCode::F12);
    }
    None
}

/// Parses a key name such as `r`, `space` or `F4`.
pub fn parse_key_code(s: &str) -> (r: Result<KeyCode, HotkeyError>)
    ensures
        match key_code_for(text::lower_str(s@)) {
            Some(k) => r == Ok::<KeyCode, HotkeyError>(k),
            None => r matches Err(HotkeyError::UnknownKey(n)) && n@ == s@,
        },
{
    let lower = text::to_lowercase(s);
    let lc = text::chars_of(lower.as_str());
    match key_code_lookup(lc.as_slice()) {
        Some(k) => Ok(k),
        None => Err(HotkeyError::UnknownKey(s.to_owned())),
    }
}


/// No modifier pressed.
pub open spec fn no_mods() -> Modifiers {
    Modifiers { control: false, shift: false, alt: false, super_key: false }
}

/// One `+`-separated part of a hotkey string, already trimmed and
/// lowercased, applied to the modifiers and key read so far; an unknown key
/// name is the error.
pub open spec fn hotkey_step(m: Modifiers, k: Option<KeyCode>, part: Seq<char>) -> Result<
    (Modifiers, Option<KeyCode>),
    Seq<char>,
> {
    if part == "ctrl"@ || part == "control"@ {
        Ok((Modifiers { control: true, ..m }, k))
    } else if part == "shift"@ {
        Ok((Modifiers { shift: true, ..m }, k))
    } else if part == "alt"@ {
        Ok((Modifiers { alt: true, ..m }, k))
    } else if part == "super"@ || part == "win"@ || part == "cmd"@ || part == "meta"@ {
        Ok((Modifiers { super_key: true, ..m }, k))
    } else {
        match key_code_for(text::lower_str(part)) {
            Some(c) => Ok((m, Some(c))),
            None => Err(part),
        }
    }
}

/// The parts read left to right; the first unknown key stops the reading.
pub open spec fn hotkey_parts(parts: Seq<Seq<char>>) -> Result<
    (Modifiers, Option<KeyCode>),
    Seq<char>,
>
    decreases parts.len(),
{
    if parts.len() == 0 {
        Ok((no_mods(), None))
    } else {
        match hotkey_parts(parts.drop_last()) {
            Ok((m, k)) => hotkey_step(m, k, text::lower_str(text::trim(parts.last()))),
            Err(e) => Err(e),
        }
    }
}

/// What parsing `s` gives: the hotkey, the unknown key it named, or that it
/// named no key at all.
pub open spec fn hotkey_parsed(s: Seq<char>, r: Result<HotKeySpec, HotkeyError>) -> bool {
    match hotkey_parts(text::split_on(s, '+')) {
        Ok((m, Some(k))) => r == Ok::<HotKeySpec, HotkeyError>(HotKeySpec { mods: m, key: k }),
        Ok((_, None)) => r == Err::<HotKeySpec, HotkeyError>(HotkeyError::NoKeyCode),
        Err(name) => r matches Err(HotkeyError::UnknownKey(n)) && n@ == name,
    }
}

/// Parses a hotkey string like `Ctrl+Shift+R`: parts are split at `+`,
/// trimmed and compared case-insensitively; `ctrl`/`control`, `shift`,
/// `alt` and `super`/`win`/`cmd`/`meta` are modifiers, any other part is the
/// key (the last one wins).
pub fn parse_hotkey(s: &str) -> (r: Result<HotKeySpec, HotkeyError>)
    ensures
        hotkey_parsed(s@, r),
{
    let chars = text::chars_of(s);
    let parts = text::split_chars(chars.as_slice(), '+');
    let ghost ps = text::seqs_of(parts@);
    let mut mods = Modifiers { control: false, shift: false, alt: false, super_key: false };
    let mut key: Option<KeyCode> = None;
    let mut i: usize = 0;
    assert(ps.take(0) =~= Seq::<Seq<char>>::empty());
    while i < parts.len()
        invariant
            ps == text::seqs_of(parts@),
            ps == text::split_on(s@, '+'),
            i <= parts@.len(),
            hotkey_parts(ps.take(i as int)) == Ok::<(Modifiers, Option<KeyCode>), Seq<char>>(
                (mods, key),
            ),
        decreases parts@.len() - i,
    {
        let trimmed = text::trim_chars(parts[i].as_slice());
        let tstr = text::string_of(trimmed.as_slice());
        let lower = text::to_lowercase(tstr.as_str());
        let part = text::chars_of(lower.as_str());
        proof {
            assert(ps.take(i + 1).drop_last() =~= ps.take(i as int));
            assert(ps.take(i + 1).last() == parts@[i as int]@);
        }
        let p = part.as_slice();
        if text::chars_eq_str(p, "ctrl") || text::chars_eq_str(p, "control") {
            mods = Modifiers { control: true, ..mods };
        } else if text::chars_eq_str(p, "shift") {
            mods = Modifiers { shift: true, ..mods };
        } else if text::chars_eq_str(p, "alt") {
            mods = Modifiers { alt: true, ..mods };
        } else if text::chars_eq_str(p, "super") || text::chars_eq_str(p, "win")
            || text::chars_eq_str(p, "cmd") || text::chars_eq_str(p, "meta") {
            mods = Modifiers { super_key: true, ..mods };
        } else {
            match parse_key_code(lower.as_str()) {
                Ok(k) => {
                    key = Some(k);
                },
                Err(e) => {
                    proof {
                        assert(hotkey_parts(ps.take(i + 1)) == Err::<
                            (Modifiers, Option<KeyCode>),
                            Seq<char>,
                        >(part@));
                        lemma_hotkey_error_sticks(ps, i + 1);
                        assert(ps.take(ps.len() as int) =~= ps);
                    }
                    return Err(e);
                },
            }
        }
        i = i + 1;
    }
    assert(ps.take(ps.len() as int) =~= ps);
    match key {
        Some(k) => Ok(HotKeySpec { mods, key: k }),
        None => Err(HotkeyError::NoKeyCode),
    }
}

proof fn lemma_hotkey_error_sticks(ps: Seq<Seq<char>>, i: int)
    requires
        0 <= i <= ps.len(),
        hotkey_parts(ps.take(i)) is Err,
    ensures
        hotkey_parts(ps.take(ps.len() as int)) == hotkey_parts(ps.take(i)),
    decreases ps.len() - i,
{
    if i < ps.len() {
        assert(ps.take(i + 1).drop_last() =~= ps.take(i));
        lemma_hotkey_error_sticks(ps, i + 1);
    }
}

/// The event that a global hotkey notification stands for: a press of the
/// toggle hotkey toggles, a press and a release of the push-to-talk hotkey
/// start and stop talking; anything else is ignored.
pub fn classify_hotkey_event(id: u32, pressed: bool, toggle_id: u32, ptt_id: u32) -> (r: Option<
    HotkeyEvent,
>)
    ensures
        r == (if id == toggle_id && pressed {
            Some(HotkeyEvent::Toggle)
        } else if id == ptt_id && pressed {
            Some(HotkeyEvent::PushToTalkPressed)
        } else if id == ptt_id && !pressed {
            Some(HotkeyEvent::PushToTalkReleased)
        } else {
            None
        }),
{
    if id == toggle_id && pressed {
        Some(HotkeyEvent::Toggle)
    } else if id == ptt_id && pressed {
        Some(HotkeyEvent::PushToTalkPressed)
    } else if id == ptt_id && !pressed {
        Some(HotkeyEvent::PushToTalkReleased)
    } else {
        None
    }
}

/// The desktop session as far as hotkeys are concerned.
#[derive(Debug, Clone, Copy, PartialEq, Eq, Structural)]
pub enum HotkeyDisplayServer {
    X11,
    Sway,
    Wayland,
    Headless,
}

/// Sway is recognised when `SWAYSOCK` is set and either the desktop name
/// contains "sway" (case-insensitively) or, without a desktop name, the
/// Sway socket answers; otherwise the display server detection decides.
pub open spec fn hotkey_server(
    swaysock_set: bool,
    desktop: Option<Seq<char>>,
    sway_reachable: bool,
    base: DisplayServer,
) -> HotkeyDisplayServer {
    let sway = swaysock_set && match desktop {
        Some(d) => text::contains_seq(text::lower_str(d), "sway"@),
        None => sway_reachable,
    };
    if sway {
        HotkeyDisplayServer::Sway
    } else {
        match base {
            DisplayServer::X11 => HotkeyDisplayServer::X11,
            DisplayServer::Wayland => HotkeyDisplayServer::Wayland,
            DisplayServer::Unknown => HotkeyDisplayServer::Headless,
        }
    }
}

/// Detects the session type for hotkeys from whether `SWAYSOCK` is set,
/// `XDG_CURRENT_DESKTOP`, whether the Sway socket answers, and the general
/// display server detection.
pub fn detect_hotkey_server(
    swaysock_set: bool,
    desktop: Option<&str>,
    sway_reachable: bool,
    base: &DisplayServerInfo,
) -> (r: HotkeyDisplayServer)
    ensures
        r == hotkey_server(
            swaysock_set,
            match desktop {
                Some(d) => Some(d@),
                None => None,
            },
            sway_reachable,
            base.server_type,
        ),
{
    if swaysock_set {
        match desktop {
            Some(d) => {
                let lower = text::to_lowercase(d);
                let lc = text::chars_of(lower.as_str());
                let sway = text::chars_of("sway");
                if text::contains(lc.as_slice(), sway.as_slice()) {
                    return HotkeyDisplayServer::Sway;
                }
            },
            None => {
                if sway_reachable {
                    return HotkeyDisplayServer::Sway;
                }
            },
        }
    }
    match base.server_type {
        DisplayServer::X11 => HotkeyDisplayServer::X11,
        DisplayServer::Wayland => HotkeyDisplayServer::Wayland,
        DisplayServer::Unknown => HotkeyDisplayServer::Headless,
    }
}

/// How hotkeys are delivered in a session.
#[derive(Debug, Clone, Copy, PartialEq, Eq, Structural)]
pub enum HotkeyBackendKind {
    /// Keys are grabbed directly (X11, Windows, macOS).
    GlobalHotkey,
    /// Sway binds the keys in its configuration and calls the IPC socket.
    SwayIpc,
    /// No global hotkeys: control through IPC and the CLI only.
    Unavailable,
}

/// The backend for a session type.
pub fn hotkey_backend(server: HotkeyDisplayServer) -> (r: HotkeyBackendKind)
    ensures
        server == HotkeyDisplayServer::X11 ==> r == HotkeyBackendKind::GlobalHotkey,
        server == HotkeyDisplayServer::Sway ==> r == HotkeyBackendKind::SwayIpc,
        server == HotkeyDisplayServer::Wayland ==> r == HotkeyBackendKind::Unavailable,
        server == HotkeyDisplayServer::Headless ==> r == HotkeyBackendKind::Unavailable,
{
    match server {
        HotkeyDisplayServer::X11 => HotkeyBackendKind::GlobalHotkey,
        HotkeyDisplayServer::Sway => HotkeyBackendKind::SwayIpc,
        HotkeyDisplayServer::Wayland => HotkeyBackendKind::Unavailable,
        HotkeyDisplayServer::Headless => HotkeyBackendKind::Unavailable,
    }
}

/// The line that marks hotkeys already added to a Sway configuration.
pub const SWAY_MARKER: &'static str = "# Swictation voice-to-text hotkeys";

/// A hotkey in Sway's notation: `Super` becomes `$mod`.
pub fn sway_key(hotkey: &str) -> (r: String)
    ensures
        r@ == text::replace_all(hotkey@, "Super"@, "$mod"@),
{
    let h = text::chars_of(hotkey);
    let from = text::chars_of("Super");
    let to = text::chars_of("$mod");
    proof {
        reveal_strlit("Super");
    }
    let out = text::replace_chars(h.as_slice(), from.as_slice(), to.as_slice());
    text::string_of(out.as_slice())
}

/// Whether a Sway configuration already holds the hotkey block.
pub fn sway_has_hotkeys(config: &str) -> (r: bool)
    ensures
        r == text::contains_seq(config@, "# Swictation voice-to-text hotkeys"@),
{
    let c = text::chars_of(config);
    let m = text::chars_of(SWAY_MARKER);
    text::contains(c.as_slice(), m.as_slice())
}

/// Whether a Sway configuration already binds `key` (in Sway's notation).
pub fn sway_binding_exists(config: &str, key: &str) -> (r: bool)
    ensures
        r == text::contains_seq(config@, "bindsym "@ + key@),
{
    let c = text::chars_of(config);
    let mut b = text::chars_of("bindsym ");
    let k = text::chars_of(key);
    text::extend_chars(&mut b, k.as_slice());
    text::contains(c.as_slice(), b.as_slice())
}

/// The command that a Sway binding runs to toggle recording through the
/// IPC socket.
pub open spec fn sway_toggle_command() -> Seq<char> {
    "exec sh -c \"echo '{\\\"action\\\":\\\"toggle\\\"}' | nc -U $XDG_RUNTIME_DIR/swictation.sock\""@
}

/// The block appended to a Sway configuration for the given hotkeys.
pub open spec fn sway_block(toggle: Seq<char>, ptt: Seq<char>) -> Seq<char> {
    let tk = text::replace_all(toggle, "Super"@, "$mod"@);
    let pk = text::replace_all(ptt, "Super"@, "$mod"@);
    "\n# Swictation voice-to-text hotkeys (auto-configured)\n# Toggle: "@ + toggle
        + "\n# Push-to-talk: "@ + ptt + "\nbindsym "@ + tk + " exec swictation toggle\nbindsym "@
        + pk + " "@ + sway_toggle_command() + "\nbindsym --release "@ + pk + " "@
        + sway_toggle_command() + "\n"@
}

fn push_str(out: &mut Vec<char>, s: &str)
    ensures
        final(out)@ == old(out)@ + s@,
{
    let c = text::chars_of(s);
    text::extend_chars(out, c.as_slice());
}

/// The configuration text with the hotkey block for `toggle` and
/// `push_to_talk` appended.
pub fn sway_config_with_hotkeys(config: &str, toggle: &str, push_to_talk: &str) -> (r: String)
    ensures
        r@ == config@ + sway_block(toggle@, push_to_talk@),
{
    let tk = sway_key(toggle);
    let pk = sway_key(push_to_talk);
    let cmd = "exec sh -c \"echo '{\\\"action\\\":\\\"toggle\\\"}' | nc -U $XDG_RUNTIME_DIR/swictation.sock\"";
    let mut out = text::chars_of(config);
    push_str(&mut out, "\n# Swictation voice-to-text hotkeys (auto-configured)\n# Toggle: ");
    push_str(&mut out, toggle);
    push_str(&mut out, "\n# Push-to-talk: ");
    push_str(&mut out, push_to_talk);
    push_str(&mut out, "\nbindsym ");
    push_str(&mut out, tk.as_str());
    push_str(&mut out, " exec swictation toggle\nbindsym ");
    push_str(&mut out, pk.as_str());
    push_str(&mut out, " ");
    push_str(&mut out, cmd);
    push_str(&mut out, "\nbindsym --release ");
    push_str(&mut out, pk.as_str());
    push_str(&mut out, " ");
    push_str(&mut out, cmd);
    push_str(&mut out, "\n");
    assert(out@ =~= config@ + sway_block(toggle@, push_to_talk@));
    text::string_of(out.as_slice())
}

} // verus!
