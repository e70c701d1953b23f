use small_target::action_parser::{
    box_tokens, expand_point, is_box_param_name, parse_predictions, Dialect, PredictionParsed,
};

const FACTOR: (f32, f32) = (1000.0, 1000.0);

/// The answer's predictions with each box scaled by `factor` and written
/// as a JSON array, keys in a map so that order does not matter.
fn parse_scaled(text: &str, factor: (f32, f32), mode: &str) -> Vec<PredictionParsed> {
    let dialect = Dialect::from_mode(mode).unwrap();
    let mut predictions = parse_predictions(text, dialect);
    for p in predictions.iter_mut() {
        for (name, value) in p.action_inputs.iter_mut() {
            if is_box_param_name(name) {
                let numbers: Vec<f32> = box_tokens(value)
                    .iter()
                    .filter_map(|s| s.parse::<f32>().ok())
                    .enumerate()
                    .map(|(i, n)| n / if i % 2 == 0 { factor.0 } else { factor.1 })
                    .collect();
                *value = serde_json::to_string(&expand_point(numbers)).unwrap();
            }
        }
    }
    predictions
}

fn prediction(
    reflection: Option<&str>,
    thought: &str,
    action_type: &str,
    inputs: &[(&str, &str)],
) -> PredictionParsed {
    PredictionParsed {
        reflection: reflection.map(|r| r.to_string()),
        thought: thought.to_string(),
        action_type: action_type.to_string(),
        action_inputs: inputs.iter().map(|(k, v)| (k.to_string(), v.to_string())).collect(),
    }
}

#[test]
fn should_correctly_parse_input_with_thought() {
    let input = "Thought: I need to click this button\nAction: click(start_box='(100,200)')";
    let result = parse_scaled(input, FACTOR, "bc");
    let expected = vec![prediction(
        None,
        "I need to click this button",
        "click",
        &[("start_box", "[0.1,0.2,0.1,0.2]")],
    )];
    assert_eq!(result, expected);
}

#[test]
fn test_thought_with_custom_factors() {
    let input = "Thought: I need to click this button\nAction: click(start_box='(100,200)')";
    let result = parse_scaled(input, (1366.0, 768.0), "bc");
    let expected = vec![prediction(
        None,
        "I need to click this button",
        "click",
        &[("start_box", "[0.07320644,0.26041666,0.07320644,0.26041666]")],
    )];
    assert_eq!(result, expected);
}

#[test]
fn should_correctly_parse_input_with_reflection_and_action_summary() {
    let input = "Reflection: This is a reflection\nAction_Summary: This is a summary\nAction: type(text='Hello', start_box='(300,400)')";
    let result = parse_scaled(input, FACTOR, "bc");
    let expected = vec![prediction(
        Some("This is a reflection"),
        "This is a summary",
        "type",
        &[("text", "Hello"), ("start_box", "[0.3,0.4,0.3,0.4]")],
    )];
    assert_eq!(result, expected);
}

#[test]
fn should_handle_multiple_actions() {
    let input = "Thought: Perform multiple actions\nAction: click(start_box='(100,200)')\n\ntype(text='Hello', start_box='(300,400)')";
    let result = parse_scaled(input, FACTOR, "bc");
    let expected = vec![
        prediction(None, "Perform multiple actions", "click", &[("start_box", "[0.1,0.2,0.1,0.2]")]),
        prediction(
            None,
            "Perform multiple actions",
            "type",
            &[("text", "Hello"), ("start_box", "[0.3,0.4,0.3,0.4]")],
        ),
    ];
    assert_eq!(result, expected);
}

#[test]
fn should_correctly_parse_o1_format_input() {
    let input = r#"<Thought>I need to perform this action</Thought>
            Action_Summary: Click and type text
            Action: click(start_box='(100,200)')
            </Output>"#;
    let result = parse_scaled(input, FACTOR, "o1");
    let expected = vec![prediction(
        None,
        "I need to perform this action\n<Action_Summary>\nClick and type text",
        "click",
        &[("start_box", "[0.1,0.2,0.1,0.2]")],
    )];
    assert_eq!(result, expected);
}

#[test]
fn should_handle_complex_o1_format_input() {
    let input = r#"<Thought>Complex operation</Thought>
            Action_Summary: Multiple sequential actions
            Action: click(start_box='(100,200)')
            </Output>"#;
    let result = parse_scaled(input, FACTOR, "o1");
    let expected = vec![prediction(
        None,
        "Complex operation\n<Action_Summary>\nMultiple sequential actions",
        "click",
        &[("start_box", "[0.1,0.2,0.1,0.2]")],
    )];
    assert_eq!(result, expected);
}

#[test]
fn should_handle_input_without_action_keyword() {
    let input = r#"click(start_box="(100,200)")"#;
    let result = parse_scaled(input, FACTOR, "bc");
    let expected = vec![prediction(None, "", "", &[])];
    assert_eq!(result, expected);
}

#[test]
fn should_handle_empty_action_input() {
    let input = "Thought: Empty action\nAction:";
    let result = parse_scaled(input, FACTOR, "bc");
    let expected = vec![prediction(None, "Empty action", "", &[])];
    assert_eq!(result, expected);
}
