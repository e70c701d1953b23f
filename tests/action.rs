use small_target::action::{parse_key_from_str, Axis, InputAction, InputEvent, KeySymbol, MouseButton};
use small_target::action_parser::{parse_predictions, Dialect};
use small_target::error::ActionError;
use small_target::number::read_box_point;

fn inputs(items: &[(&str, &str)]) -> Vec<(String, String)> {
    items.iter().map(|(k, v)| (k.to_string(), v.to_string())).collect()
}

fn build(name: &str, items: &[(&str, &str)]) -> Result<InputAction, ActionError> {
    InputAction::new(name.to_string(), inputs(items))
}

#[test]
fn test_action() -> Result<(), ActionError> {
    let input_action = InputAction::new(
        "click".to_string(),
        vec![("start_box".to_string(), "[100,200,100,200]".to_string())],
    )?;
    let (x, y) = match input_action {
        InputAction::MouseLeftClick { x, y } => (x, y),
        _ => panic!("Invalid action type"),
    };
    assert_eq!(x, 100);
    assert_eq!(y, 200);
    Ok(())
}

#[test]
fn normalized_click_truncates_leading_point() {
    assert_eq!(
        build("click", &[("start_box", "[0.1,0.2,0.1,0.2]")]),
        Ok(InputAction::MouseLeftClick { x: 0, y: 0 })
    );
    assert_eq!(
        build("click_left", &[("start_box", " [100.7, -200.9, 1, 1] ")]),
        Ok(InputAction::MouseLeftClick { x: 100, y: -200 })
    );
}

#[test]
fn point_commands() {
    let b = [("start_box", "[10,20,30,40]")];
    assert_eq!(build("left_double", &b), Ok(InputAction::MouseLeftDoubleClick { x: 10, y: 20 }));
    assert_eq!(build("double_click", &b), Ok(InputAction::MouseLeftDoubleClick { x: 10, y: 20 }));
    assert_eq!(build("right_single", &b), Ok(InputAction::MouseRightClick { x: 10, y: 20 }));
    assert_eq!(build("right_click", &b), Ok(InputAction::MouseRightClick { x: 10, y: 20 }));
    assert_eq!(build("mouse_move", &b), Ok(InputAction::MouseMove { x: 10, y: 20 }));
}

#[test]
fn box_errors() {
    assert_eq!(
        build("click", &[]),
        Err(ActionError::MissingParameter("start_box".to_string()))
    );
    assert_eq!(
        build("click", &[("start_box", "[1]")]),
        Err(ActionError::MalformedValue("start_box".to_string()))
    );
    assert_eq!(
        build("click", &[("start_box", "[1,2")]),
        Err(ActionError::MalformedValue("start_box".to_string()))
    );
    assert_eq!(
        build("click", &[("start_box", "(1,2)")]),
        Err(ActionError::MalformedValue("start_box".to_string()))
    );
    assert_eq!(
        build("click", &[("start_box", "[01,2]")]),
        Err(ActionError::MalformedValue("start_box".to_string()))
    );
    assert_eq!(
        build("click", &[("start_box", "[1.,2]")]),
        Err(ActionError::MalformedValue("start_box".to_string()))
    );
    assert_eq!(
        build("click", &[("start_box", "[]")]),
        Err(ActionError::MalformedValue("start_box".to_string()))
    );
}

#[test]
fn large_coordinates_saturate() {
    assert_eq!(
        build("click", &[("start_box", "[3000000000.5,-3000000000,0,0]")]),
        Ok(InputAction::MouseLeftClick { x: i32::MAX, y: i32::MIN })
    );
    assert_eq!(
        build("click", &[("start_box", "[-0.9,2147483647]")]),
        Ok(InputAction::MouseLeftClick { x: 0, y: i32::MAX })
    );
}

#[test]
fn drag_uses_both_boxes() {
    assert_eq!(
        build("drag", &[("start_box", "[1,2,1,2]"), ("end_box", "[30,40,30,40]")]),
        Ok(InputAction::Drag { x1: 1, y1: 2, x2: 30, y2: 40 })
    );
    assert_eq!(
        build("drag", &[("start_box", "[1,2,1,2]")]),
        Err(ActionError::MissingParameter("end_box".to_string()))
    );
}

#[test]
fn scroll_direction_in_any_case() {
    assert_eq!(
        build("scroll", &[("start_box", "[5,6,5,6]"), ("direction", "UP")]),
        Ok(InputAction::Scroll { x: 5, y: 6, length: -100, direction: Axis::Vertical })
    );
    assert_eq!(
        build("scroll", &[("start_box", "[5,6,5,6]"), ("direction", "Down")]),
        Ok(InputAction::Scroll { x: 5, y: 6, length: 100, direction: Axis::Vertical })
    );
    assert_eq!(
        build("scroll", &[("start_box", "[5,6,5,6]"), ("direction", "left")]),
        Ok(InputAction::Scroll { x: 5, y: 6, length: -100, direction: Axis::Horizontal })
    );
    assert_eq!(
        build("scroll", &[("start_box", "[5,6,5,6]"), ("direction", "rIGHT")]),
        Ok(InputAction::Scroll { x: 5, y: 6, length: 100, direction: Axis::Horizontal })
    );
}

#[test]
fn scroll_errors() {
    assert_eq!(
        build("scroll", &[("start_box", "[5,6,5,6]"), ("direction", "sideways")]),
        Err(ActionError::MalformedValue("direction".to_string()))
    );
    assert_eq!(
        build("scroll", &[("start_box", "[5,6,5,6]")]),
        Err(ActionError::MissingParameter("direction".to_string()))
    );
}

#[test]
fn wait_defaults_and_rejects_non_numbers() {
    assert_eq!(build("wait", &[]), Ok(InputAction::Wait { milliseconds: 5000 }));
    assert_eq!(
        build("wait", &[("milliseconds", "abc")]),
        Err(ActionError::MalformedValue("milliseconds".to_string()))
    );
    assert_eq!(build("wait", &[("milliseconds", "250")]), Ok(InputAction::Wait { milliseconds: 250 }));
    assert_eq!(build("wait", &[("milliseconds", "+7")]), Ok(InputAction::Wait { milliseconds: 7 }));
    assert_eq!(
        build("wait", &[("milliseconds", "18446744073709551615")]),
        Ok(InputAction::Wait { milliseconds: u64::MAX })
    );
    assert_eq!(
        build("wait", &[("milliseconds", "18446744073709551616")]),
        Err(ActionError::MalformedValue("milliseconds".to_string()))
    );
    assert_eq!(
        build("wait", &[("milliseconds", "")]),
        Err(ActionError::MalformedValue("milliseconds".to_string()))
    );
}

#[test]
fn hotkey_keys_in_order() {
    assert_eq!(
        build("hotkey", &[("key", "Ctrl+Shift + A")]),
        Ok(InputAction::Hotkey {
            hot_keys: vec![KeySymbol::Control, KeySymbol::Shift, KeySymbol::Unicode('a')]
        })
    );
    assert_eq!(
        build("hotkey", &[("key", "ctrl+")]),
        Ok(InputAction::Hotkey { hot_keys: vec![KeySymbol::Control] })
    );
    assert_eq!(
        build("hotkey", &[("key", "a++B")]),
        Ok(InputAction::Hotkey { hot_keys: vec![KeySymbol::Unicode('a'), KeySymbol::Unicode('b')] })
    );
    assert_eq!(build("hotkey", &[("key", "")]), Ok(InputAction::Hotkey { hot_keys: vec![] }));
    assert_eq!(
        build("hotkey", &[]),
        Err(ActionError::MissingParameter("key".to_string()))
    );
}

#[test]
fn unmapped_token_takes_its_first_character() {
    assert_eq!(parse_key_from_str("xyz"), Some(KeySymbol::Unicode('x')));
    assert_eq!(parse_key_from_str("pagedown"), Some(KeySymbol::PageDown));
    assert_eq!(parse_key_from_str("f11"), Some(KeySymbol::F11));
    assert_eq!(parse_key_from_str(""), None);
}

#[test]
fn type_and_key_click() {
    assert_eq!(
        build("type", &[("content", "Hello")]),
        Ok(InputAction::WriteText("Hello".to_string()))
    );
    assert_eq!(
        build("type", &[]),
        Err(ActionError::MissingParameter("content".to_string()))
    );
    assert_eq!(build("key_click", &[("key", "enter")]), Ok(InputAction::KeyClick(KeySymbol::Return)));
    assert_eq!(
        build("key_click", &[("key", "")]),
        Err(ActionError::MalformedValue("key".to_string()))
    );
}

#[test]
fn unknown_action() {
    assert_eq!(build("fly", &[]), Err(ActionError::UnknownActionType("fly".to_string())));
    assert_eq!(
        build("fly", &[]).unwrap_err().message(),
        "unknown action type: fly".to_string()
    );
}

#[test]
fn drag_plan_presses_settles_moves_then_releases() {
    let plan = InputAction::Drag { x1: 1, y1: 2, x2: 3, y2: 4 }.plan();
    assert_eq!(
        plan,
        vec![
            InputEvent::MoveTo { x: 1, y: 2 },
            InputEvent::Press(MouseButton::Left),
            InputEvent::Sleep { milliseconds: 50 },
            InputEvent::MoveTo { x: 3, y: 4 },
            InputEvent::Release(MouseButton::Left),
        ]
    );
    let select = InputAction::Select { x1: 1, y1: 2, x2: 3, y2: 4 }.plan();
    assert_eq!(select, plan);
}

#[test]
fn hotkey_plan_releases_in_reverse() {
    let plan = InputAction::Hotkey { hot_keys: vec![KeySymbol::Control, KeySymbol::Alt, KeySymbol::Delete] }.plan();
    assert_eq!(
        plan,
        vec![
            InputEvent::KeyPress(KeySymbol::Control),
            InputEvent::KeyPress(KeySymbol::Alt),
            InputEvent::KeyPress(KeySymbol::Delete),
            InputEvent::KeyRelease(KeySymbol::Delete),
            InputEvent::KeyRelease(KeySymbol::Alt),
            InputEvent::KeyRelease(KeySymbol::Control),
        ]
    );
}

#[test]
fn text_plan_submits_on_trailing_marker() {
    assert_eq!(
        InputAction::WriteText("hello\\n".to_string()).plan(),
        vec![InputEvent::Text("hello".to_string()), InputEvent::KeyClick(KeySymbol::Return)]
    );
    assert_eq!(
        InputAction::WriteText("hello\n".to_string()).plan(),
        vec![InputEvent::Text("hello".to_string()), InputEvent::KeyClick(KeySymbol::Return)]
    );
    assert_eq!(
        InputAction::WriteText("a\\n\\n".to_string()).plan(),
        vec![InputEvent::Text("a\\n".to_string()), InputEvent::KeyClick(KeySymbol::Return)]
    );
    assert_eq!(
        InputAction::WriteText("\\n".to_string()).plan(),
        vec![InputEvent::KeyClick(KeySymbol::Return)]
    );
    assert_eq!(
        InputAction::WriteText("abc".to_string()).plan(),
        vec![InputEvent::Text("abc".to_string())]
    );
    assert_eq!(InputAction::WriteText(String::new()).plan(), vec![]);
}

#[test]
fn point_and_scroll_plans() {
    assert_eq!(
        InputAction::MouseLeftDoubleClick { x: 1, y: 2 }.plan(),
        vec![
            InputEvent::MoveTo { x: 1, y: 2 },
            InputEvent::Click(MouseButton::Left),
            InputEvent::Click(MouseButton::Left),
        ]
    );
    assert_eq!(
        InputAction::Scroll { x: 1, y: 2, length: -100, direction: Axis::Vertical }.plan(),
        vec![
            InputEvent::MoveTo { x: 1, y: 2 },
            InputEvent::Scroll { length: -100, axis: Axis::Vertical },
        ]
    );
    assert_eq!(
        InputAction::Wait { milliseconds: 9 }.plan(),
        vec![InputEvent::Sleep { milliseconds: 9 }]
    );
}

#[test]
fn parsed_call_builds_command() {
    let p = parse_predictions("Thought: go\nAction: drag(start_box='[1,2,3,4]', end_box='[5,6,7,8]')", Dialect::Marked);
    let action = InputAction::new(p[0].action_type.clone(), p[0].action_inputs.clone());
    assert_eq!(action, Ok(InputAction::Drag { x1: 1, y1: 2, x2: 5, y2: 6 }));
}

#[test]
fn exponent_notation_in_boxes() {
    assert_eq!(
        build("click", &[("start_box", "[1e2,2.5E1,0,0]")]),
        Ok(InputAction::MouseLeftClick { x: 100, y: 25 })
    );
    assert_eq!(
        build("click", &[("start_box", "[1e-7,5]")]),
        Ok(InputAction::MouseLeftClick { x: 0, y: 5 })
    );
    assert_eq!(
        build("click", &[("start_box", "[-1.5e1,1e300]")]),
        Ok(InputAction::MouseLeftClick { x: -15, y: i32::MAX })
    );
    assert_eq!(
        build("click", &[("start_box", "[-1.5e1,1e400]")]),
        Err(ActionError::MalformedValue("start_box".to_string()))
    );
    let text: Vec<char> = "[-1.5e1,1e400]".chars().collect();
    assert_eq!(read_box_point(&text), Some((-15, i32::MAX)));
    assert_eq!(
        build("click", &[("start_box", "[1e+3,1E-0]")]),
        Ok(InputAction::MouseLeftClick { x: 1000, y: 1 })
    );
    assert_eq!(
        build("click", &[("start_box", "[0e99999999999999999999999999999999999999,12345e-2]")]),
        Ok(InputAction::MouseLeftClick { x: 0, y: 123 })
    );
    assert_eq!(
        build("click", &[("start_box", "[-7e-99999999999999999999999999999999999999,3]")]),
        Ok(InputAction::MouseLeftClick { x: 0, y: 3 })
    );
    assert_eq!(
        build("click", &[("start_box", "[1e,2]")]),
        Err(ActionError::MalformedValue("start_box".to_string()))
    );
    assert_eq!(
        build("click", &[("start_box", "[1e+,2]")]),
        Err(ActionError::MalformedValue("start_box".to_string()))
    );
}

#[test]
fn box_allows_only_json_white_space() {
    assert_eq!(
        build("click", &[("start_box", "\t[ 1 ,\r\n2 ]\n")]),
        Ok(InputAction::MouseLeftClick { x: 1, y: 2 })
    );
    assert_eq!(
        build("click", &[("start_box", "[\u{a0}1,2]")]),
        Err(ActionError::MalformedValue("start_box".to_string()))
    );
    assert_eq!(
        build("click", &[("start_box", "[1,\u{b}2]")]),
        Err(ActionError::MalformedValue("start_box".to_string()))
    );
}
