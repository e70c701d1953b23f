use small_target::action_parser::{
    box_tokens, expand_point, is_box_param_name, parse_action, parse_predictions, Dialect,
    PredictionParsed,
};
use small_target::error::ActionError;

fn pairs(items: &[(&str, &str)]) -> Vec<(String, String)> {
    items.iter().map(|(k, v)| (k.to_string(), v.to_string())).collect()
}

#[test]
fn thought_marker_gives_one_click() {
    let result = parse_predictions("Thought: X\nAction: click(start_box='(100,200)')", Dialect::Marked);
    assert_eq!(
        result,
        vec![PredictionParsed {
            reflection: None,
            thought: "X".to_string(),
            action_type: "click".to_string(),
            action_inputs: pairs(&[("start_box", "(100,200)")]),
        }]
    );
    let tokens = box_tokens(&result[0].action_inputs[0].1);
    assert_eq!(tokens, vec!["100".to_string(), "200".to_string()]);
}

#[test]
fn thought_with_sentence() {
    let input = "Thought: I need to click this button\nAction: click(start_box='(100,200)')";
    let result = parse_predictions(input, Dialect::Marked);
    assert_eq!(
        result,
        vec![PredictionParsed {
            reflection: None,
            thought: "I need to click this button".to_string(),
            action_type: "click".to_string(),
            action_inputs: pairs(&[("start_box", "(100,200)")]),
        }]
    );
}

#[test]
fn reflection_and_action_summary() {
    let input = "Reflection: This is a reflection\nAction_Summary: This is a summary\nAction: type(text='Hello', start_box='(300,400)')";
    let result = parse_predictions(input, Dialect::Marked);
    assert_eq!(
        result,
        vec![PredictionParsed {
            reflection: Some("This is a reflection".to_string()),
            thought: "This is a summary".to_string(),
            action_type: "type".to_string(),
            action_inputs: pairs(&[("text", "Hello"), ("start_box", "(300,400)")]),
        }]
    );
}

#[test]
fn summary_marker_alone_is_the_thought() {
    let result = parse_predictions("Action_Summary: open the menu\nAction: wait()", Dialect::Marked);
    assert_eq!(result.len(), 1);
    assert_eq!(result[0].thought, "open the menu");
    assert_eq!(result[0].reflection, None);
    assert_eq!(result[0].action_type, "wait");
    assert!(result[0].action_inputs.is_empty());
}

#[test]
fn blank_line_separates_two_actions_with_shared_reasoning() {
    let input = "Thought: Perform multiple actions\nAction: click(start_box='(100,200)')\n\ntype(text='Hello', start_box='(300,400)')";
    let result = parse_predictions(input, Dialect::Marked);
    assert_eq!(
        result,
        vec![
            PredictionParsed {
                reflection: None,
                thought: "Perform multiple actions".to_string(),
                action_type: "click".to_string(),
                action_inputs: pairs(&[("start_box", "(100,200)")]),
            },
            PredictionParsed {
                reflection: None,
                thought: "Perform multiple actions".to_string(),
                action_type: "type".to_string(),
                action_inputs: pairs(&[("text", "Hello"), ("start_box", "(300,400)")]),
            },
        ]
    );
    assert_eq!(result[0].thought, result[1].thought);
    assert_eq!(result[0].reflection, result[1].reflection);
}

#[test]
fn tagged_layout() {
    let input = r#"<Thought>I need to perform this action</Thought>
            Action_Summary: Click and type text
            Action: click(start_box='(100,200)')
            </Output>"#;
    let result = parse_predictions(input, Dialect::Tagged);
    assert_eq!(
        result,
        vec![PredictionParsed {
            reflection: None,
            thought: "I need to perform this action\n<Action_Summary>\nClick and type text".to_string(),
            action_type: "click".to_string(),
            action_inputs: pairs(&[("start_box", "(100,200)")]),
        }]
    );
}

#[test]
fn tagged_layout_complex() {
    let input = r#"<Thought>Complex operation</Thought>
            Action_Summary: Multiple sequential actions
            Action: click(start_box='(100,200)')
            </Output>"#;
    let result = parse_predictions(input, Dialect::Tagged);
    assert_eq!(result.len(), 1);
    assert_eq!(
        result[0].thought,
        "Complex operation\n<Action_Summary>\nMultiple sequential actions"
    );
    assert_eq!(result[0].action_type, "click");
}

#[test]
fn tagged_layout_with_missing_spans_still_assembles() {
    let result = parse_predictions("nothing tagged here", Dialect::Tagged);
    assert_eq!(result.len(), 1);
    assert_eq!(result[0].thought, "\n<Action_Summary>\n");
    assert_eq!(result[0].action_type, "");
    assert!(result[0].action_inputs.is_empty());
}

#[test]
fn marked_answer_without_action_marker_has_no_action() {
    let result = parse_predictions(r#"click(start_box="(100,200)")"#, Dialect::Marked);
    assert_eq!(
        result,
        vec![PredictionParsed {
            reflection: None,
            thought: "".to_string(),
            action_type: "".to_string(),
            action_inputs: Vec::new(),
        }]
    );
}

#[test]
fn empty_action_gives_no_op_prediction() {
    let result = parse_predictions("Thought: Empty action\nAction:", Dialect::Marked);
    assert_eq!(
        result,
        vec![PredictionParsed {
            reflection: None,
            thought: "Empty action".to_string(),
            action_type: "".to_string(),
            action_inputs: Vec::new(),
        }]
    );
}

#[test]
fn last_action_marker_wins() {
    let result = parse_predictions("Thought: a\nAction: click(start_box='(1,2)')\nAction: wait()", Dialect::Marked);
    assert_eq!(result.len(), 1);
    assert_eq!(result[0].action_type, "wait");
}

#[test]
fn line_breaks_inside_an_action_are_escaped() {
    let result = parse_predictions("Thought: t\nAction: type(content='hi\nthere\n')", Dialect::Marked);
    assert_eq!(result[0].action_type, "type");
    assert_eq!(result[0].action_inputs, pairs(&[("content", "hi\\nthere\\n")]));
}

#[test]
fn malformed_action_among_several_does_not_abort() {
    let input = "Thought: t\nAction: click(start_box='(1,2)')\n\nnot a call\n\nwait()";
    let result = parse_predictions(input, Dialect::Marked);
    assert_eq!(result.len(), 3);
    assert_eq!(result[0].action_type, "click");
    assert_eq!(result[1].action_type, "");
    assert!(result[1].action_inputs.is_empty());
    assert_eq!(result[2].action_type, "wait");
}

#[test]
fn quoted_commas_stay_in_the_value() {
    let call = parse_action("type(content='a, b', start_box=\"(1,2)\")").unwrap();
    assert_eq!(call.function, "type");
    assert_eq!(call.args, pairs(&[("content", "a, b"), ("start_box", "(1,2)")]));
}

#[test]
fn repeated_key_replaces_value_in_place() {
    let call = parse_action("f(a=1, b=2, a=3)").unwrap();
    assert_eq!(call.args, pairs(&[("a", "3"), ("b", "2")]));
}

#[test]
fn runs_without_equals_are_dropped() {
    let call = parse_action("f(junk, k = v )").unwrap();
    assert_eq!(call.args, pairs(&[("k", "v")]));
}

#[test]
fn unmatched_quote_ends_a_run() {
    let call = parse_action("f(a=1'x, b=2)").unwrap();
    assert_eq!(call.args, pairs(&[("a", "1"), ("b", "2")]));
}

#[test]
fn value_keeps_text_after_second_equals() {
    let call = parse_action("type(content='x=1')").unwrap();
    assert_eq!(call.args, pairs(&[("content", "x=1")]));
}

#[test]
fn call_without_arguments() {
    let call = parse_action("  finished()  ").unwrap();
    assert_eq!(call.function, "finished");
    assert!(call.args.is_empty());
}

#[test]
fn text_that_is_no_call() {
    assert!(parse_action("click start_box").is_none());
    assert!(parse_action("(a=1)").is_none());
    assert!(parse_action("my-func(a=1)").is_none());
    assert!(parse_action("f(a=1").is_none());
    assert!(parse_action("").is_none());
}

#[test]
fn dialect_tags() {
    assert_eq!(Dialect::from_mode("bc"), Ok(Dialect::Marked));
    assert_eq!(Dialect::from_mode("o1"), Ok(Dialect::Tagged));
    assert_eq!(
        Dialect::from_mode("xml"),
        Err(ActionError::InvalidDialect("xml".to_string()))
    );
}

#[test]
fn box_parameter_names() {
    assert!(is_box_param_name("start_box"));
    assert!(is_box_param_name("end_box"));
    assert!(is_box_param_name("my_start_box_2"));
    assert!(!is_box_param_name("direction"));
    assert!(!is_box_param_name("box"));
}

#[test]
fn box_tokens_strip_brackets() {
    assert_eq!(box_tokens("[1,2,3,4]"), vec!["1", "2", "3", "4"]);
    assert_eq!(box_tokens("((5, 6))"), vec!["5", " 6"]);
    assert_eq!(box_tokens("()"), vec![""]);
}

#[test]
fn point_widens_to_box() {
    assert_eq!(expand_point(vec![1, 2]), vec![1, 2, 1, 2]);
    assert_eq!(expand_point(vec![1, 2, 3, 4]), vec![1, 2, 3, 4]);
    assert_eq!(expand_point(expand_point(vec![7, 8])), vec![7, 8, 7, 8]);
    assert_eq!(expand_point(vec![0.5f32, 0.25]), vec![0.5, 0.25, 0.5, 0.25]);
    assert_eq!(expand_point(vec![9]), vec![9]);
}

fn scaled(value: &str, factor: (f32, f32)) -> String {
    let numbers: Vec<f32> = box_tokens(value)
        .iter()
        .filter_map(|s| s.parse::<f32>().ok())
        .enumerate()
        .map(|(i, n)| n / if i % 2 == 0 { factor.0 } else { factor.1 })
        .collect();
    serde_json::to_string(&expand_point(numbers)).unwrap()
}

#[test]
fn thought_marker_box_scales_to_unit_space() {
    let result = parse_predictions("Thought: X\nAction: click(start_box='(100,200)')", Dialect::Marked);
    let (name, value) = &result[0].action_inputs[0];
    assert!(is_box_param_name(name));
    assert_eq!(scaled(value, (1000.0, 1000.0)), "[0.1,0.2,0.1,0.2]");
}

#[test]
fn box_scales_with_custom_factors() {
    let input = "Thought: I need to click this button\nAction: click(start_box='(100,200)')";
    let result = parse_predictions(input, Dialect::Marked);
    assert_eq!(
        scaled(&result[0].action_inputs[0].1, (1366.0, 768.0)),
        "[0.07320644,0.26041666,0.07320644,0.26041666]"
    );
}

#[test]
fn line_break_inside_a_call_is_no_call() {
    assert!(parse_action("f(\n)").is_none());
    assert!(parse_action("type(content='a\nb')").is_none());
    assert!(parse_action("\n f(a=1) \n").is_some());
}

#[test]
fn unicode_word_characters_name_a_call() {
    let call = parse_action("点击(start_box='(1,2)')").unwrap();
    assert_eq!(call.function, "点击");
    assert_eq!(call.args, pairs(&[("start_box", "(1,2)")]));
    let call = parse_action("clické_2()").unwrap();
    assert_eq!(call.function, "clické_2");
    assert!(parse_action("a.b()").is_none());
    let result = parse_predictions("Thought: t\nAction: 点击(start_box='(1,2)')", Dialect::Marked);
    assert_eq!(result[0].action_type, "点击");
}

#[test]
fn run_with_two_equals_outside_quotes_is_dropped() {
    let call = parse_action("f(k=a=b, c=1)").unwrap();
    assert_eq!(call.args, pairs(&[("c", "1")]));
    let call = parse_action("f(k='a=b', j=\"x=y=z\")").unwrap();
    assert_eq!(call.args, pairs(&[("k", "a=b"), ("j", "x=y=z")]));
}
