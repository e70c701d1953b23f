use small_target::call_ai::{get_system_prompt, reply_text, CallError, OpenAiProtocalCallPayload, ResponseField};
use small_target::image_utils::png_data_url;

fn payload() -> OpenAiProtocalCallPayload {
    OpenAiProtocalCallPayload::new(
        "http://d3:8000".to_string(),
        "ui-tars".to_string(),
        "open the app".to_string(),
        "system".to_string(),
        true,
        "api_token".to_string(),
    )
}

#[test]
fn prompt_names_the_language() {
    let zh = get_system_prompt("zh");
    assert!(zh.starts_with("You are a GUI agent."));
    assert!(zh.contains("- Use Chinese in `Thought` part."));
    let en = get_system_prompt("en");
    assert!(en.contains("- Use English in `Thought` part."));
    assert!(en.contains("use \"\\\\n\" at the end of `content`"));
    assert_eq!(zh.len() - "Chinese".len(), en.len() - "English".len());
}

#[test]
fn endpoint_and_authorization() {
    let p = payload();
    assert_eq!(p.endpoint(), "http://d3:8000/v1/chat/completions");
    assert_eq!(p.authorization(), "Bearer api_token");
    assert!(p.expect_json);
    assert_eq!(p.model_name, "ui-tars");
}

#[test]
fn reply_errors() {
    assert_eq!(
        reply_text(Some(Some("quota".to_string())), Some("x".to_string()), false, None),
        Err(CallError::Api("quota".to_string()))
    );
    assert_eq!(
        reply_text(Some(None), None, false, None),
        Err(CallError::Api("Unknown error".to_string()))
    );
    assert_eq!(reply_text(None, None, false, None), Err(CallError::NoContent));
    assert_eq!(
        reply_text(None, Some("not json".to_string()), true, None),
        Err(CallError::InvalidJson)
    );
}

#[test]
fn reply_content() {
    assert_eq!(reply_text(None, Some("plain".to_string()), false, None), Ok("plain".to_string()));
    let lines = ResponseField::Lines(vec![Some("a".to_string()), None, Some("b".to_string())]);
    assert_eq!(
        reply_text(None, Some("{}".to_string()), true, Some(lines)),
        Ok("a\nb".to_string())
    );
    assert_eq!(
        reply_text(None, Some("{}".to_string()), true, Some(ResponseField::Text("t".to_string()))),
        Ok("t".to_string())
    );
    assert_eq!(
        reply_text(None, Some("{\"x\":1}".to_string()), true, Some(ResponseField::Other)),
        Ok("{\"x\":1}".to_string())
    );
    assert_eq!(
        reply_text(None, Some("{}".to_string()), true, Some(ResponseField::Lines(vec![]))),
        Ok(String::new())
    );
}

#[test]
fn png_bytes_as_data_url() {
    assert_eq!(png_data_url(&b"hi".to_vec()), "data:image/png;base64,aGk=");
    assert_eq!(png_data_url(&Vec::new()), "data:image/png;base64,");
    assert_eq!(png_data_url(&vec![0xff, 0xfe, 0x00, 0x10]), "data:image/png;base64,//4AEA==");
}
