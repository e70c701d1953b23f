//! Typed input commands: built from a generic call, carried out as a plan of
//! low-level input events.
use vstd::prelude::*;

use crate::action_parser::{lookup, pairs_view, Pairs};
use crate::error::ActionError;
use crate::number::{json_box_point, parse_u64, read_json_box_point, read_u64};
use crate::text::{same_chars, slice, split, split_chars, to_chars, to_text, trim, trim_chars};

verus! {

/// A key of the keyboard: a named key, or the key that types a character.
#[derive(Debug, Clone, Copy, PartialEq, Eq, Structural)]
pub enum KeySymbol {
    Return,
    Tab,
    Space,
    Backspace,
    Delete,
    Escape,
    UpArrow,
    DownArrow,
    LeftArrow,
    RightArrow,
    Home,
    End,
    PageUp,
    PageDown,
    Control,
    Alt,
    Shift,
    Meta,
    CapsLock,
    F1,
    F2,
    F3,
    F4,
    F5,
    F6,
    F7,
    F8,
    F9,
    F10,
    F11,
    F12,
    Unicode(char),
}

/// The axis a scroll moves along.
#[derive(Debug, Clone, Copy, PartialEq, Eq, Structural)]
pub enum Axis {
    Horizontal,
    Vertical,
}

#[derive(Debug, Clone, Copy, PartialEq, Eq, Structural)]
pub enum MouseButton {
    Left,
    Right,
    Middle,
}

/// A validated input command. Coordinates are absolute screen pixels.
#[derive(Debug, Clone, PartialEq)]
pub enum InputAction {
    KeyClick(KeySymbol),
    WriteText(String),
    MouseMove { x: i32, y: i32 },
    MouseLeftClick { x: i32, y: i32 },
    MouseLeftDoubleClick { x: i32, y: i32 },
    MouseRightClick { x: i32, y: i32 },
    MouseMiddleClick { x: i32, y: i32 },
    Drag { x1: i32, y1: i32, x2: i32, y2: i32 },
    Select { x1: i32, y1: i32, x2: i32, y2: i32 },
    Scroll { x: i32, y: i32, length: i32, direction: Axis },
    Hotkey { hot_keys: Vec<KeySymbol> },
    Wait { milliseconds: u64 },
}

/// One call into an input backend.
#[derive(Debug, Clone, PartialEq)]
pub enum InputEvent {
    MoveTo { x: i32, y: i32 },
    Click(MouseButton),
    Press(MouseButton),
    Release(MouseButton),
    KeyClick(KeySymbol),
    KeyPress(KeySymbol),
    KeyRelease(KeySymbol),
    Scroll { length: i32, axis: Axis },
    Text(String),
    Sleep { milliseconds: u64 },
}

/// How far one scroll command moves.
pub const SCROLL_LENGTH: i32 = 100;

/// Pause between pressing the button and moving, so that a drag registers.
pub const SETTLE_DELAY_MS: u64 = 50;

/// Pause of a `wait` without a duration.
pub const DEFAULT_WAIT_MS: u64 = 5000;

/// The key named by (lower-case) `s`, if it is one of the named keys.
pub open spec fn named_key(s: Seq<char>) -> Option<KeySymbol> {
    if s == "enter"@ || s == "return"@ {
        Some(KeySymbol::Return)
    } else if s == "tab"@ {
        Some(KeySymbol::Tab)
    } else if s == "space"@ {
        Some(KeySymbol::Space)
    } else if s == "backspace"@ {
        Some(KeySymbol::Backspace)
    } else if s == "delete"@ || s == "del"@ {
        Some(KeySymbol::Delete)
    } else if s == "escape"@ || s == "esc"@ {
        Some(KeySymbol::Escape)
    } else if s == "up"@ || s == "arrowup"@ {
        Some(KeySymbol::UpArrow)
    } else if s == "down"@ || s == "arrowdown"@ {
        Some(KeySymbol::DownArrow)
    } else if s == "left"@ || s == "arrowleft"@ {
        Some(KeySymbol::LeftArrow)
    } else if s == "right"@ || s == "arrowright"@ {
        Some(KeySymbol::RightArrow)
    } else if s == "home"@ {
        Some(KeySymbol::Home)
    } else if s == "end"@ {
        Some(KeySymbol::End)
    } else if s == "pageup"@ {
        Some(KeySymbol::PageUp)
    } else if s == "pagedown"@ {
        Some(KeySymbol::PageDown)
    } else if s == "ctrl"@ || s == "control"@ {
        Some(KeySymbol::Control)
    } else if s == "alt"@ || s == "option"@ {
        Some(KeySymbol::Alt)
    } else if s == "shift"@ {
        Some(KeySymbol::Shift)
    } else if s == "cmd"@ || s == "command"@ || s == "meta"@ || s == "win"@ || s == "super"@ {
        Some(KeySymbol::Meta)
    } else if s == "capslock"@ {
        Some(KeySymbol::CapsLock)
    } else if s == "f1"@ {
        Some(KeySymbol::F1)
    } else if s == "f2"@ {
        Some(KeySymbol::F2)
    } else if s == "f3"@ {
        Some(KeySymbol::F3)
    } else if s == "f4"@ {
        Some(KeySymbol::F4)
    } else if s == "f5"@ {
        Some(KeySymbol::F5)
    } else if s == "f6"@ {
        Some(KeySymbol::F6)
    } else if s == "f7"@ {
        Some(KeySymbol::F7)
    } else if s == "f8"@ {
        Some(KeySymbol::F8)
    } else if s == "f9"@ {
        Some(KeySymbol::F9)
    } else if s == "f10"@ {
        Some(KeySymbol::F10)
    } else if s == "f11"@ {
        Some(KeySymbol::F11)
    } else if s == "f12"@ {
        Some(KeySymbol::F12)
    } else {
        None
    }
}

/// The key for token `s`: a named key, else the key of its first character;
/// `None` for the empty token.
pub open spec fn key_of(s: Seq<char>) -> Option<KeySymbol> {
    match named_key(s) {
        Some(k) => Some(k),
        None => if s.len() > 0 {
            Some(KeySymbol::Unicode(s[0]))
        } else {
            None
        },
    }
}

/// The lower-case form of a string, as `str::to_lowercase` gives it.
pub uninterp spec fn lower_of(s: Seq<char>) -> Seq<char>;

/// The tokens of a hotkey text: cut at `+`, each lower-cased then trimmed.
pub open spec fn hotkey_tokens(v: Seq<char>) -> Seq<Seq<char>> {
    split(v, seq!['+']).map_values(|p: Seq<char>| trim(lower_of(p)))
}

/// The keys that tokens name, in order; an empty token names none and is
/// passed over.
pub open spec fn keys_of(ts: Seq<Seq<char>>) -> Seq<KeySymbol>
    decreases ts.len(),
{
    if ts.len() == 0 {
        Seq::empty()
    } else {
        match key_of(ts.last()) {
            Some(k) => keys_of(ts.drop_last()).push(k),
            None => keys_of(ts.drop_last()),
        }
    }
}

/// The keys of a hotkey text, in order.
pub open spec fn hotkeys_of(v: Seq<char>) -> Seq<KeySymbol> {
    keys_of(hotkey_tokens(v))
}

/// `c` is `w`, or `w` is a lower-case ASCII letter and `c` its capital.
pub open spec fn same_letter(c: char, w: char) -> bool {
    c == w || ('a' <= w && w <= 'z' && (c as u32) + 32 == (w as u32))
}

/// `s` spells lower-case word `w` in any mix of letter case.
pub open spec fn eq_ignore_case(s: Seq<char>, w: Seq<char>) -> bool {
    s.len() == w.len() && forall|i: int| 0 <= i < s.len() ==> same_letter(s[i], #[trigger] w[i])
}

/// The axis and signed length of a scroll toward direction `d`: up and left
/// are negative, down and right positive.
pub open spec fn scroll_of(d: Seq<char>, length: i32) -> Option<(Axis, i32)> {
    if eq_ignore_case(d, "up"@) {
        Some((Axis::Vertical, -length as i32))
    } else if eq_ignore_case(d, "down"@) {
        Some((Axis::Vertical, length))
    } else if eq_ignore_case(d, "left"@) {
        Some((Axis::Horizontal, -length as i32))
    } else if eq_ignore_case(d, "right"@) {
        Some((Axis::Horizontal, length))
    } else {
        None
    }
}

pub open spec fn missing(r: Result<InputAction, ActionError>, key: Seq<char>) -> bool {
    r matches Err(ActionError::MissingParameter(k)) && k@ == key
}

pub open spec fn malformed(r: Result<InputAction, ActionError>, key: Seq<char>) -> bool {
    r matches Err(ActionError::MalformedValue(k)) && k@ == key
}

/// Reading the leading point of box parameter `key`: `Err(false)` where it
/// is missing, `Err(true)` where it cannot be read.
pub open spec fn point_at(m: Pairs, key: Seq<char>) -> Result<(i32, i32), bool> {
    match lookup(m, key) {
        None => Err(false),
        Some(v) => match json_box_point(v) {
            None => Err(true),
            Some(p) => Ok(p),
        },
    }
}

/// `r` reports the failure `f` of reading box `key`.
pub open spec fn box_failure(r: Result<InputAction, ActionError>, key: Seq<char>, f: bool) -> bool {
    if f {
        malformed(r, key)
    } else {
        missing(r, key)
    }
}

/// `r` is the command that `make` builds at the leading point of `start_box`.
pub open spec fn point_action(
    m: Pairs,
    r: Result<InputAction, ActionError>,
    make: spec_fn(i32, i32) -> InputAction,
) -> bool {
    match point_at(m, "start_box"@) {
        Err(f) => box_failure(r, "start_box"@, f),
        Ok(p) => r == Ok::<InputAction, ActionError>(make(p.0, p.1)),
    }
}

pub open spec fn drag_action(m: Pairs, r: Result<InputAction, ActionError>) -> bool {
    match point_at(m, "start_box"@) {
        Err(f) => box_failure(r, "start_box"@, f),
        Ok(p) => match point_at(m, "end_box"@) {
            Err(f) => box_failure(r, "end_box"@, f),
            Ok(q) => r == Ok::<InputAction, ActionError>(
                InputAction::Drag { x1: p.0, y1: p.1, x2: q.0, y2: q.1 },
            ),
        },
    }
}

pub open spec fn scroll_action(m: Pairs, r: Result<InputAction, ActionError>) -> bool {
    match point_at(m, "start_box"@) {
        Err(f) => box_failure(r, "start_box"@, f),
        Ok(p) => match lookup(m, "direction"@) {
            None => missing(r, "direction"@),
            Some(d) => match scroll_of(d, SCROLL_LENGTH) {
                None => malformed(r, "direction"@),
                Some(s) => r == Ok::<InputAction, ActionError>(
                    InputAction::Scroll { x: p.0, y: p.1, length: s.1, direction: s.0 },
                ),
            },
        },
    }
}

/// `r` is what building the call `name(m)` gives.
pub open spec fn built(name: Seq<char>, m: Pairs, r: Result<InputAction, ActionError>) -> bool {
    if name == "click"@ || name == "click_left"@ {
        point_action(m, r, |x: i32, y: i32| InputAction::MouseLeftClick { x, y })
    } else if name == "left_double"@ || name == "left_double_click"@ || name == "double_click"@ {
        point_action(m, r, |x: i32, y: i32| InputAction::MouseLeftDoubleClick { x, y })
    } else if name == "right_single"@ || name == "right_click"@ {
        point_action(m, r, |x: i32, y: i32| InputAction::MouseRightClick { x, y })
    } else if name == "mouse_move"@ {
        point_action(m, r, |x: i32, y: i32| InputAction::MouseMove { x, y })
    } else if name == "drag"@ {
        drag_action(m, r)
    } else if name == "scroll"@ {
        scroll_action(m, r)
    } else if name == "hotkey"@ {
        match lookup(m, "key"@) {
            None => missing(r, "key"@),
            Some(v) => r matches Ok(InputAction::Hotkey { hot_keys }) && hot_keys@ == hotkeys_of(v),
        }
    } else if name == "wait"@ {
        match lookup(m, "milliseconds"@) {
            None => r == Ok::<InputAction, ActionError>(
                InputAction::Wait { milliseconds: DEFAULT_WAIT_MS },
            ),
            Some(v) => match parse_u64(v) {
                None => malformed(r, "milliseconds"@),
                Some(ms) => r == Ok::<InputAction, ActionError>(
                    InputAction::Wait { milliseconds: ms },
                ),
            },
        }
    } else if name == "type"@ {
        match lookup(m, "content"@) {
            None => missing(r, "content"@),
            Some(v) => r matches Ok(InputAction::WriteText(t)) && t@ == v,
        }
    } else if name == "key_click"@ {
        match lookup(m, "key"@) {
            None => missing(r, "key"@),
            Some(v) => match key_of(v) {
                None => malformed(r, "key"@),
                Some(k) => r == Ok::<InputAction, ActionError>(InputAction::KeyClick(k)),
            },
        }
    } else {
        r matches Err(ActionError::UnknownActionType(n)) && n@ == name
    }
}

/// Relies on `str::to_lowercase`: the result depends on the characters alone.
#[verifier::external_body]
fn lowercase(s: &str) -> (r: String)
    ensures
        r@ == lower_of(s@),
{
    s.to_lowercase()
}

fn is_word(v: &Vec<char>, w: &str) -> (r: bool)
    ensures
        r == (v@ == w@),
{
    same_chars(v, &to_chars(w))
}

fn named_key_chars(s: &Vec<char>) -> (r: Option<KeySymbol>)
    ensures
        r == named_key(s@),
{
    if is_word(s, "enter") || is_word(s, "return") {
        Some(KeySymbol::Return)
    } else if is_word(s, "tab") {
        Some(KeySymbol::Tab)
    } else if is_word(s, "space") {
        Some(KeySymbol::Space)
    } else if is_word(s, "backspace") {
        Some(KeySymbol::Backspace)
    } else if is_word(s, "delete") || is_word(s, "del") {
        Some(KeySymbol::Delete)
    } else if is_word(s, "escape") || is_word(s, "esc") {
        Some(KeySymbol::Escape)
    } else if is_word(s, "up") || is_word(s, "arrowup") {
        Some(KeySymbol::UpArrow)
    } else if is_word(s, "down") || is_word(s, "arrowdown") {
        Some(KeySymbol::DownArrow)
    } else if is_word(s, "left") || is_word(s, "arrowleft") {
        Some(KeySymbol::LeftArrow)
    } else if is_word(s, "right") || is_word(s, "arrowright") {
        Some(KeySymbol::RightArrow)
    } else if is_word(s, "home") {
        Some(KeySymbol::Home)
    } else if is_word(s, "end") {
        Some(KeySymbol::End)
    } else if is_word(s, "pageup") {
        Some(KeySymbol::PageUp)
    } else if is_word(s, "pagedown") {
        Some(KeySymbol::PageDown)
    } else if is_word(s, "ctrl") || is_word(s, "control") {
        Some(KeySymbol::Control)
    } else if is_word(s, "alt") || is_word(s, "option") {
        Some(KeySymbol::Alt)
    } else if is_word(s, "shift") {
        Some(KeySymbol::Shift)
    } else if is_word(s, "cmd") || is_word(s, "command") || is_word(s, "meta") || is_word(
        s,
        "win",
    ) || is_word(s, "super") {
        Some(KeySymbol::Meta)
    } else if is_word(s, "capslock") {
        Some(KeySymbol::CapsLock)
    } else if is_word(s, "f1") {
        Some(KeySymbol::F1)
    } else if is_word(s, "f2") {
        Some(KeySymbol::F2)
    } else if is_word(s, "f3") {
        Some(KeySymbol::F3)
    } else if is_word(s, "f4") {
        Some(KeySymbol::F4)
    } else if is_word(s, "f5") {
        Some(KeySymbol::F5)
    } else if is_word(s, "f6") {
        Some(KeySymbol::F6)
    } else if is_word(s, "f7") {
        Some(KeySymbol::F7)
    } else if is_word(s, "f8") {
        Some(KeySymbol::F8)
    } else if is_word(s, "f9") {
        Some(KeySymbol::F9)
    } else if is_word(s, "f10") {
        Some(KeySymbol::F10)
    } else if is_word(s, "f11") {
        Some(KeySymbol::F11)
    } else if is_word(s, "f12") {
        Some(KeySymbol::F12)
    } else {
        None
    }
}

fn key_from_chars(s: &Vec<char>) -> (r: Option<KeySymbol>)
    ensures
        r == key_of(s@),
{
    match named_key_chars(s) {
        Some(k) => Some(k),
        None => if s.len() > 0 {
            Some(KeySymbol::Unicode(s[0]))
        } else {
            None
        },
    }
}

/// The key a token names: a named key (`enter`, `ctrl`, `f5`, ...), else the
/// key of the token's first character; `None` for the empty token.
pub fn parse_key_from_str(s: &str) -> (r: Option<KeySymbol>)
    ensures
        r == key_of(s@),
{
    key_from_chars(&to_chars(s))
}

/// The value under `key`, if any.
fn get_value(m: &Vec<(String, String)>, key: &str) -> (r: Option<String>)
    ensures
        match lookup(pairs_view(m@), key@) {
            Some(v) => r matches Some(s) && s@ == v,
            None => r is None,
        },
{
    let ghost pv = pairs_view(m@);
    let k = to_text(to_chars(key).as_slice());
    let mut i: usize = 0;
    while i < m.len()
        invariant
            pv == pairs_view(m@),
            k@ == key@,
            i <= m@.len(),
            crate::action_parser::key_pos_from(pv, key@, i as int)
                == crate::action_parser::key_pos(pv, key@),
        decreases m.len() - i,
    {
        if m[i].0 == k {
            return Some(m[i].1.clone());
        }
        i += 1;
    }
    None
}

fn same_letter_exec(c: char, w: char) -> (r: bool)
    ensures
        r == same_letter(c, w),
{
    c == w || ('a' <= w && w <= 'z' && (c as u32) + 32 == (w as u32))
}

fn eq_ignore_case_exec(s: &Vec<char>, w: &str) -> (r: bool)
    ensures
        r == eq_ignore_case(s@, w@),
{
    let wv = to_chars(w);
    if s.len() != wv.len() {
        return false;
    }
    let mut i: usize = 0;
    while i < s.len()
        invariant
            wv@ == w@,
            s@.len() == wv@.len(),
            i <= s@.len(),
            forall|k: int| 0 <= k < i ==> same_letter(s@[k], #[trigger] wv@[k]),
        decreases s.len() - i,
    {
        if !same_letter_exec(s[i], wv[i]) {
            return false;
        }
        i += 1;
    }
    true
}

impl InputAction {
    /// Builds the command for the call `action_type(action_inputs)`.
    pub fn new(action_type: String, action_inputs: Vec<(String, String)>) -> (r: Result<
        InputAction,
        ActionError,
    >)
        ensures
            built(action_type@, pairs_view(action_inputs@), r),
    {
        Self::parse_from_action_type_and_inputs(action_type, action_inputs)
    }

    /// The axis and signed length of a scroll toward `direction`, in any
    /// letter case.
    fn parse_direction(direction: &str, length: i32) -> (r: Option<(Axis, i32)>)
        requires
            length > i32::MIN,
        ensures
            r == scroll_of(direction@, length),
    {
        let d = to_chars(direction);
        if eq_ignore_case_exec(&d, "up") {
            Some((Axis::Vertical, -length))
        } else if eq_ignore_case_exec(&d, "down") {
            Some((Axis::Vertical, length))
        } else if eq_ignore_case_exec(&d, "left") {
            Some((Axis::Horizontal, -length))
        } else if eq_ignore_case_exec(&d, "right") {
            Some((Axis::Horizontal, length))
        } else {
            None
        }
    }

    /// The keys of a `+`-separated hotkey text, in order; empty tokens are
    /// passed over.
    fn parse_hotkeys(key_str: &str) -> (r: Vec<KeySymbol>)
        ensures
            r@ == hotkeys_of(key_str@),
    {
        let plus: Vec<char> = vec!['+'];
        proof {
            assert(plus@ =~= seq!['+']);
        }
        let parts = split_chars(&to_chars(key_str), &plus);
        let ghost ts = hotkey_tokens(key_str@);
        let mut keys: Vec<KeySymbol> = Vec::new();
        let mut i: usize = 0;
        while i < parts.len()
            invariant
                ts == hotkey_tokens(key_str@),
                ts.len() == parts@.len(),
                forall|j: int| 0 <= j < ts.len() ==> #[trigger] ts[j] == trim(lower_of(parts@[j]@)),
                i <= parts@.len(),
                keys@ == keys_of(ts.subrange(0, i as int)),
            decreases parts.len() - i,
        {
            let token = trim_chars(&to_chars(lowercase(to_text(parts[i].as_slice()).as_str()).as_str()));
            assert(token@ == ts[i as int]);
            proof {
                assert(ts.subrange(0, i + 1).drop_last() =~= ts.subrange(0, i as int));
            }
            match key_from_chars(&token) {
                Some(k) => keys.push(k),
                None => {},
            }
            i += 1;
        }
        proof {
            assert(ts.subrange(0, i as int) =~= ts);
        }
        keys
    }

    /// The leading point of box parameter `box_name`.
    fn parse_box(box_name: &str, action_inputs: &Vec<(String, String)>) -> (r: Result<
        (i32, i32),
        ActionError,
    >)
        ensures
            match point_at(pairs_view(action_inputs@), box_name@) {
                Ok(p) => r == Ok::<(i32, i32), ActionError>(p),
                Err(f) => if f {
                    r matches Err(ActionError::MalformedValue(k)) && k@ == box_name@
                } else {
                    r matches Err(ActionError::MissingParameter(k)) && k@ == box_name@
                },
            },
    {
        match get_value(action_inputs, box_name) {
            None => Err(ActionError::MissingParameter(to_text(to_chars(box_name).as_slice()))),
            Some(v) => match read_json_box_point(v.as_str()) {
                None => Err(ActionError::MalformedValue(to_text(to_chars(box_name).as_slice()))),
                Some(p) => Ok(p),
            },
        }
    }

    /// Builds the command for the call `action_type(action_inputs)`.
    pub fn parse_from_action_type_and_inputs(
        action_type: String,
        action_inputs: Vec<(String, String)>,
    ) -> (r: Result<InputAction, ActionError>)
        ensures
            built(action_type@, pairs_view(action_inputs@), r),
    {
        let name = to_chars(action_type.as_str());
        let m = &action_inputs;
        if is_word(&name, "click") || is_word(&name, "click_left") {
            let (x, y) = Self::parse_box("start_box", m)?;
            Ok(InputAction::MouseLeftClick { x, y })
        } else if is_word(&name, "left_double") || is_word(&name, "left_double_click") || is_word(
            &name,
            "double_click",
        ) {
            let (x, y) = Self::parse_box("start_box", m)?;
            Ok(InputAction::MouseLeftDoubleClick { x, y })
        } else if is_word(&name, "right_single") || is_word(&name, "right_click") {
            let (x, y) = Self::parse_box("start_box", m)?;
            Ok(InputAction::MouseRightClick { x, y })
        } else if is_word(&name, "mouse_move") {
            let (x, y) = Self::parse_box("start_box", m)?;
            Ok(InputAction::MouseMove { x, y })
        } else if is_word(&name, "drag") {
            let (x1, y1) = Self::parse_box("start_box", m)?;
            let (x2, y2) = Self::parse_box("end_box", m)?;
            Ok(InputAction::Drag { x1, y1, x2, y2 })
        } else if is_word(&name, "scroll") {
            let (x, y) = Self::parse_box("start_box", m)?;
            match get_value(m, "direction") {
                None => Err(ActionError::MissingParameter(to_text(to_chars("direction").as_slice()))),
                Some(d) => match Self::parse_direction(d.as_str(), SCROLL_LENGTH) {
                    None => Err(
                        ActionError::MalformedValue(to_text(to_chars("direction").as_slice())),
                    ),
                    Some((axis, length)) => Ok(
                        InputAction::Scroll { x, y, length, direction: axis },
                    ),
                },
            }
        } else if is_word(&name, "hotkey") {
            match get_value(m, "key") {
                None => Err(ActionError::MissingParameter(to_text(to_chars("key").as_slice()))),
                Some(v) => Ok(InputAction::Hotkey { hot_keys: Self::parse_hotkeys(v.as_str()) }),
            }
        } else if is_word(&name, "wait") {
            match get_value(m, "milliseconds") {
                None => Ok(InputAction::Wait { milliseconds: DEFAULT_WAIT_MS }),
                Some(v) => match read_u64(&to_chars(v.as_str())) {
                    None => Err(
                        ActionError::MalformedValue(to_text(to_chars("milliseconds").as_slice())),
                    ),
                    Some(milliseconds) => Ok(InputAction::Wait { milliseconds }),
                },
            }
        } else if is_word(&name, "type") {
            match get_value(m, "content") {
                None => Err(ActionError::MissingParameter(to_text(to_chars("content").as_slice()))),
                Some(v) => Ok(InputAction::WriteText(v)),
            }
        } else if is_word(&name, "key_click") {
            match get_value(m, "key") {
                None => Err(ActionError::MissingParameter(to_text(to_chars("key").as_slice()))),
                Some(v) => match parse_key_from_str(v.as_str()) {
                    None => Err(ActionError::MalformedValue(to_text(to_chars("key").as_slice()))),
                    Some(k) => Ok(InputAction::KeyClick(k)),
                },
            }
        } else {
            Err(ActionError::UnknownActionType(action_type))
        }
    }
}

/// Length of the submit marker that ends `t`: 2 for the escaped `\n`, 1 for
/// a line break, 0 for none.
pub open spec fn marker_len(t: Seq<char>) -> int {
    if t.len() >= 2 && t[t.len() - 2] == '\\' && t.last() == 'n' {
        2
    } else if t.len() >= 1 && t.last() == '\n' {
        1
    } else {
        0
    }
}

/// Entering text `t`: the text without one trailing submit marker (if it
/// is not empty), then Enter where there was a marker.
pub open spec fn text_planned(t: Seq<char>, evs: Seq<InputEvent>) -> bool {
    let body = t.subrange(0, t.len() - marker_len(t));
    let typed: int = if body.len() > 0 {
        1
    } else {
        0
    };
    let submit: int = if marker_len(t) > 0 {
        1
    } else {
        0
    };
    &&& evs.len() == typed + submit
    &&& body.len() > 0 ==> (evs[0] matches InputEvent::Text(s) && s@ == body)
    &&& marker_len(t) > 0 ==> evs.last() == InputEvent::KeyClick(KeySymbol::Return)
}

/// A chord: every key pressed in order, then released in reverse order.
pub open spec fn hotkey_planned(ks: Seq<KeySymbol>, evs: Seq<InputEvent>) -> bool {
    &&& evs.len() == 2 * ks.len()
    &&& forall|i: int| 0 <= i < ks.len() ==> #[trigger] evs[i] == InputEvent::KeyPress(ks[i])
    &&& forall|i: int|
        0 <= i < ks.len() ==> #[trigger] evs[ks.len() + i] == InputEvent::KeyRelease(
            ks[ks.len() - 1 - i],
        )
}

/// Press at the start, settle, move to the end, release.
pub open spec fn drag_plan(x1: i32, y1: i32, x2: i32, y2: i32) -> Seq<InputEvent> {
    seq![
        InputEvent::MoveTo { x: x1, y: y1 },
        InputEvent::Press(MouseButton::Left),
        InputEvent::Sleep { milliseconds: SETTLE_DELAY_MS },
        InputEvent::MoveTo { x: x2, y: y2 },
        InputEvent::Release(MouseButton::Left),
    ]
}

/// `evs` are the input events that carry out command `a`, in order.
pub open spec fn planned(a: InputAction, evs: Seq<InputEvent>) -> bool {
    match a {
        InputAction::KeyClick(k) => evs == seq![InputEvent::KeyClick(k)],
        InputAction::WriteText(t) => text_planned(t@, evs),
        InputAction::MouseMove { x, y } => evs == seq![InputEvent::MoveTo { x, y }],
        InputAction::MouseLeftClick { x, y } => evs == seq![
            InputEvent::MoveTo { x, y },
            InputEvent::Click(MouseButton::Left),
        ],
        InputAction::MouseLeftDoubleClick { x, y } => evs == seq![
            InputEvent::MoveTo { x, y },
            InputEvent::Click(MouseButton::Left),
            InputEvent::Click(MouseButton::Left),
        ],
        InputAction::MouseRightClick { x, y } => evs == seq![
            InputEvent::MoveTo { x, y },
            InputEvent::Click(MouseButton::Right),
        ],
        InputAction::MouseMiddleClick { x, y } => evs == seq![
            InputEvent::MoveTo { x, y },
            InputEvent::Click(MouseButton::Middle),
        ],
        InputAction::Drag { x1, y1, x2, y2 } => evs == drag_plan(x1, y1, x2, y2),
        InputAction::Select { x1, y1, x2, y2 } => evs == drag_plan(x1, y1, x2, y2),
        InputAction::Scroll { x, y, length, direction } => evs == seq![
            InputEvent::MoveTo { x, y },
            InputEvent::Scroll { length, axis: direction },
        ],
        InputAction::Hotkey { hot_keys } => hotkey_planned(hot_keys@, evs),
        InputAction::Wait { milliseconds } => evs == seq![InputEvent::Sleep { milliseconds }],
    }
}

fn text_events(text: &String) -> (r: Vec<InputEvent>)
    ensures
        text_planned(text@, r@),
{
    let v = to_chars(text.as_str());
    let n = v.len();
    let marker: usize = if n >= 2 && v[n - 2] == '\\' && v[n - 1] == 'n' {
        2
    } else if n >= 1 && v[n - 1] == '\n' {
        1
    } else {
        0
    };
    let body = slice(&v, 0, n - marker);
    let mut evs: Vec<InputEvent> = Vec::new();
    if body.len() > 0 {
        evs.push(InputEvent::Text(to_text(body.as_slice())));
    }
    if marker > 0 {
        evs.push(InputEvent::KeyClick(KeySymbol::Return));
    }
    evs
}

fn hotkey_events(keys: &Vec<KeySymbol>) -> (r: Vec<InputEvent>)
    ensures
        hotkey_planned(keys@, r@),
{
    let n = keys.len();
    let mut evs: Vec<InputEvent> = Vec::new();
    let mut i: usize = 0;
    while i < n
        invariant
            n == keys@.len(),
            i <= n,
            evs@.len() == i,
            forall|j: int| 0 <= j < i ==> #[trigger] evs@[j] == InputEvent::KeyPress(keys@[j]),
        decreases n - i,
    {
        evs.push(InputEvent::KeyPress(keys[i]));
        i += 1;
    }
    let mut k: usize = 0;
    while k < n
        invariant
            n == keys@.len(),
            k <= n,
            evs@.len() == n + k,
            forall|j: int| 0 <= j < n ==> #[trigger] evs@[j] == InputEvent::KeyPress(keys@[j]),
            forall|j: int|
                0 <= j < k ==> #[trigger] evs@[n + j] == InputEvent::KeyRelease(keys@[n - 1 - j]),
        decreases n - k,
    {
        evs.push(InputEvent::KeyRelease(keys[n - 1 - k]));
        k += 1;
    }
    evs
}

impl InputAction {
    /// The input events that carry out this command, in the order they must
    /// be sent.
    pub fn plan(&self) -> (r: Vec<InputEvent>)
        ensures
            planned(*self, r@),
    {
        let mut evs: Vec<InputEvent> = Vec::new();
        match self {
            InputAction::KeyClick(k) => {
                evs.push(InputEvent::KeyClick(*k));
            },
            InputAction::WriteText(t) => {
                evs = text_events(t);
            },
            InputAction::MouseMove { x, y } => {
                evs.push(InputEvent::MoveTo { x: *x, y: *y });
            },
            InputAction::MouseLeftClick { x, y } => {
                evs.push(InputEvent::MoveTo { x: *x, y: *y });
                evs.push(InputEvent::Click(MouseButton::Left));
            },
            InputAction::MouseLeftDoubleClick { x, y } => {
                evs.push(InputEvent::MoveTo { x: *x, y: *y });
                evs.push(InputEvent::Click(MouseButton::Left));
                evs.push(InputEvent::Click(MouseButton::Left));
            },
            InputAction::MouseRightClick { x, y } => {
                evs.push(InputEvent::MoveTo { x: *x, y: *y });
                evs.push(InputEvent::Click(MouseButton::Right));
            },
            InputAction::MouseMiddleClick { x, y } => {
                evs.push(InputEvent::MoveTo { x: *x, y: *y });
                evs.push(InputEvent::Click(MouseButton::Middle));
            },
            InputAction::Drag { x1, y1, x2, y2 } | InputAction::Select { x1, y1, x2, y2 } => {
                evs.push(InputEvent::MoveTo { x: *x1, y: *y1 });
                evs.push(InputEvent::Press(MouseButton::Left));
                evs.push(InputEvent::Sleep { milliseconds: SETTLE_DELAY_MS });
                evs.push(InputEvent::MoveTo { x: *x2, y: *y2 });
                evs.push(InputEvent::Release(MouseButton::Left));
            },
            InputAction::Scroll { x, y, length, direction } => {
                evs.push(InputEvent::MoveTo { x: *x, y: *y });
                evs.push(InputEvent::Scroll { length: *length, axis: *direction });
            },
            InputAction::Hotkey { hot_keys } => {
                evs = hotkey_events(hot_keys);
            },
            InputAction::Wait { milliseconds } => {
                evs.push(InputEvent::Sleep { milliseconds: *milliseconds });
            },
        }
        proof {
            match *self {
                InputAction::KeyClick(_) | InputAction::MouseMove { .. } | InputAction::Wait {
                    ..
                } => {
                    assert(evs@ =~= seq![evs@[0]]);
                },
                InputAction::MouseLeftClick { .. } | InputAction::MouseRightClick { .. }
                | InputAction::MouseMiddleClick { .. } | InputAction::Scroll { .. } => {
                    assert(evs@ =~= seq![evs@[0], evs@[1]]);
                },
                InputAction::MouseLeftDoubleClick { .. } => {
                    assert(evs@ =~= seq![evs@[0], evs@[1], evs@[2]]);
                },
                InputAction::Drag { .. } | InputAction::Select { .. } => {
                    assert(evs@ =~= seq![evs@[0], evs@[1], evs@[2], evs@[3], evs@[4]]);
                },
                _ => {},
            }
        }
        evs
    }
}

/// Carrying out a drag or a select presses the left button at the start
/// point, waits the settle delay, moves to the end point, and only then
/// releases the button.
pub proof fn lemma_drag_press_settle_move_release(a: InputAction, evs: Seq<InputEvent>)
    requires
        (a is Drag) || (a is Select),
        planned(a, evs),
    ensures
        evs.len() == 5,
        evs[1] == InputEvent::Press(MouseButton::Left),
        evs[2] == (InputEvent::Sleep { milliseconds: SETTLE_DELAY_MS }),
        (evs[3] is MoveTo),
        evs[4] == InputEvent::Release(MouseButton::Left),
        forall|i: int| 0 <= i < 4 ==> !((#[trigger] evs[i]) is Release),
{
}

/// The direction parameter spells `w` in some letter case.
pub open spec fn direction_is(m: Pairs, w: Seq<char>) -> bool {
    lookup(m, "direction"@) matches Some(d) && eq_ignore_case(d, w)
}

pub open spec fn scrolled(
    r: Result<InputAction, ActionError>,
    x: i32,
    y: i32,
    length: i32,
    axis: Axis,
) -> bool {
    r == Ok::<InputAction, ActionError>(InputAction::Scroll { x, y, length, direction: axis })
}

/// A scroll toward `up` or `down` in any letter case is vertical, toward
/// `left` or `right` horizontal; up and left scroll by a negative amount,
/// down and right by a positive one; any other direction is rejected.
pub proof fn lemma_scroll_direction_any_case(
    m: Pairs,
    r: Result<InputAction, ActionError>,
    x: i32,
    y: i32,
)
    requires
        built("scroll"@, m, r),
        point_at(m, "start_box"@) == Ok::<(i32, i32), bool>((x, y)),
    ensures
        direction_is(m, "up"@) ==> scrolled(r, x, y, -100i32, Axis::Vertical),
        direction_is(m, "down"@) ==> scrolled(r, x, y, SCROLL_LENGTH, Axis::Vertical),
        direction_is(m, "left"@) ==> scrolled(r, x, y, -100i32, Axis::Horizontal),
        direction_is(m, "right"@) ==> scrolled(r, x, y, SCROLL_LENGTH, Axis::Horizontal),
        lookup(m, "direction"@) is Some && !direction_is(m, "up"@) && !direction_is(m, "down"@)
            && !direction_is(m, "left"@) && !direction_is(m, "right"@) ==> malformed(
            r,
            "direction"@,
        ),
{
    reveal_strlit("scroll");
    reveal_strlit("click");
    reveal_strlit("click_left");
    reveal_strlit("left_double");
    reveal_strlit("left_double_click");
    reveal_strlit("double_click");
    reveal_strlit("right_single");
    reveal_strlit("right_click");
    reveal_strlit("mouse_move");
    reveal_strlit("drag");
    reveal_strlit("up");
    reveal_strlit("down");
    reveal_strlit("left");
    reveal_strlit("right");
    assert("scroll"@[0] != "click"@[0]);
    assert("scroll"@.len() != "click_left"@.len());
    assert("scroll"@ != "left_double"@);
    assert("scroll"@ != "left_double_click"@);
    assert("scroll"@ != "double_click"@);
    assert("scroll"@ != "right_single"@);
    assert("scroll"@ != "right_click"@);
    assert("scroll"@ != "mouse_move"@);
    assert("scroll"@[0] != "drag"@[0]);
    if let Some(d) = lookup(m, "direction"@) {
        if eq_ignore_case(d, "down"@) {
            assert(!eq_ignore_case(d, "up"@)) by {
                assert(same_letter(d[0], "down"@[0]));
            }
        }
        if eq_ignore_case(d, "left"@) {
            assert(!eq_ignore_case(d, "up"@));
            assert(!eq_ignore_case(d, "down"@)) by {
                if eq_ignore_case(d, "down"@) {
                    assert(same_letter(d[0], "down"@[0]));
                    assert(same_letter(d[0], "left"@[0]));
                    assert("down"@[0] == 'd' && "left"@[0] == 'l');
                    assert(d[0] as u32 == 100 || d[0] as u32 + 32 == 100);
                    assert(d[0] as u32 == 108 || d[0] as u32 + 32 == 108);
                }
            }
        }
        if eq_ignore_case(d, "right"@) {
            assert(!eq_ignore_case(d, "up"@));
            assert(!eq_ignore_case(d, "down"@)) by {
                assert(same_letter(d[0], "right"@[0]));
            }
            assert(!eq_ignore_case(d, "left"@));
        }
    }
}

} // verus!
