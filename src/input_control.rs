//! Single input steps named by plain strings, as a remote controller sends them.
use vstd::prelude::*;

use crate::action::{InputEvent, KeySymbol, MouseButton};
use crate::error::ActionError;
use crate::text::{same_chars, to_chars, to_text};

verus! {

/// One input step: press a key, move the pointer, press a button, or type.
#[derive(Debug, Clone, PartialEq)]
pub enum InputAction {
    KeyPress(String),
    MouseMove { x: i32, y: i32 },
    MouseClick(String),
    WriteText(String),
}

/// The key a controller names: `enter`, `space`, `tab`, `escape`,
/// `backspace`, `delete` or an arrow (`up`, `down`, `left`, `right`).
pub open spec fn controller_key(s: Seq<char>) -> Option<KeySymbol> {
    if s == "enter"@ {
        Some(KeySymbol::Return)
    } else if s == "space"@ {
        Some(KeySymbol::Space)
    } else if s == "tab"@ {
        Some(KeySymbol::Tab)
    } else if s == "escape"@ {
        Some(KeySymbol::Escape)
    } else if s == "backspace"@ {
        Some(KeySymbol::Backspace)
    } else if s == "delete"@ {
        Some(KeySymbol::Delete)
    } else if s == "up"@ {
        Some(KeySymbol::UpArrow)
    } else if s == "down"@ {
        Some(KeySymbol::DownArrow)
    } else if s == "left"@ {
        Some(KeySymbol::LeftArrow)
    } else if s == "right"@ {
        Some(KeySymbol::RightArrow)
    } else {
        None
    }
}

/// The button a controller names: `left` or `right`.
pub open spec fn controller_button(s: Seq<char>) -> Option<MouseButton> {
    if s == "left"@ {
        Some(MouseButton::Left)
    } else if s == "right"@ {
        Some(MouseButton::Right)
    } else {
        None
    }
}

fn is_word(v: &Vec<char>, w: &str) -> (r: bool)
    ensures
        r == (v@ == w@),
{
    same_chars(v, &to_chars(w))
}

/// The key named `key`.
pub fn key_from_string(key: &str) -> (r: Option<KeySymbol>)
    ensures
        r == controller_key(key@),
{
    let k = to_chars(key);
    if is_word(&k, "enter") {
        Some(KeySymbol::Return)
    } else if is_word(&k, "space") {
        Some(KeySymbol::Space)
    } else if is_word(&k, "tab") {
        Some(KeySymbol::Tab)
    } else if is_word(&k, "escape") {
        Some(KeySymbol::Escape)
    } else if is_word(&k, "backspace") {
        Some(KeySymbol::Backspace)
    } else if is_word(&k, "delete") {
        Some(KeySymbol::Delete)
    } else if is_word(&k, "up") {
        Some(KeySymbol::UpArrow)
    } else if is_word(&k, "down") {
        Some(KeySymbol::DownArrow)
    } else if is_word(&k, "left") {
        Some(KeySymbol::LeftArrow)
    } else if is_word(&k, "right") {
        Some(KeySymbol::RightArrow)
    } else {
        None
    }
}

/// The mouse button named `button`.
pub fn mouse_button_from_string(button: &str) -> (r: Option<MouseButton>)
    ensures
        r == controller_button(button@),
{
    let b = to_chars(button);
    if is_word(&b, "left") {
        Some(MouseButton::Left)
    } else if is_word(&b, "right") {
        Some(MouseButton::Right)
    } else {
        None
    }
}

/// `r` carries out step `a`: a key or button is pressed (not released), an
/// unknown key or button name is rejected.
pub open spec fn step_planned(a: InputAction, r: Result<Vec<InputEvent>, ActionError>) -> bool {
    match a {
        InputAction::KeyPress(k) => match controller_key(k@) {
            Some(key) => r matches Ok(evs) && evs@ == seq![InputEvent::KeyPress(key)],
            None => r matches Err(ActionError::MalformedValue(n)) && n@ == k@,
        },
        InputAction::MouseMove { x, y } => r matches Ok(evs) && evs@ == seq![
            InputEvent::MoveTo { x, y },
        ],
        InputAction::MouseClick(b) => match controller_button(b@) {
            Some(button) => r matches Ok(evs) && evs@ == seq![InputEvent::Press(button)],
            None => r matches Err(ActionError::MalformedValue(n)) && n@ == b@,
        },
        InputAction::WriteText(t) => r matches Ok(evs) && evs@.len() == 1 && (evs@[0] matches InputEvent::Text(s) && s@ == t@),
    }
}

impl InputAction {
    /// The input events that carry out this step.
    pub fn plan(&self) -> (r: Result<Vec<InputEvent>, ActionError>)
        ensures
            step_planned(*self, r),
    {
        let mut evs: Vec<InputEvent> = Vec::new();
        match self {
            InputAction::KeyPress(k) => match key_from_string(k.as_str()) {
                Some(key) => evs.push(InputEvent::KeyPress(key)),
                None => return Err(ActionError::MalformedValue(k.clone())),
            },
            InputAction::MouseMove { x, y } => evs.push(InputEvent::MoveTo { x: *x, y: *y }),
            InputAction::MouseClick(b) => match mouse_button_from_string(b.as_str()) {
                Some(button) => evs.push(InputEvent::Press(button)),
                None => return Err(ActionError::MalformedValue(b.clone())),
            },
            InputAction::WriteText(t) => evs.push(
                InputEvent::Text(to_text(to_chars(t.as_str()).as_slice())),
            ),
        }
        proof {
            assert(evs@ =~= seq![evs@[0]]);
        }
        Ok(evs)
    }
}

} // verus!
