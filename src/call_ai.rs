//! The chat call to the model: its prompt, its payload, and how its answer
//! is read. The request itself is made by the caller.
use vstd::prelude::*;

use crate::text::{to_chars, to_text};

verus! {

/// Instructions to the model up to the language of its reasoning.
pub const PROMPT_HEAD: &'static str = r#"You are a GUI agent. You are given a task and your action history, with screenshots. You need to perform the next action to complete the task.
            ## Output Format
            Thought: ...
            Action: ...
            ## Action Space
            click(start_box='[x1, y1, x2, y2]')
            left_double(start_box='[x1, y1, x2, y2]')
            right_single(start_box='[x1, y1, x2, y2]')
            drag(start_box='[x1, y1, x2, y2]', end_box='[x3, y3, x4, y4]')
            hotkey(key='')
            type(content='') #If you want to submit your input, use "\\n" at the end of `content`.
            scroll(start_box='[x1, y1, x2, y2]', direction='down or up or right or left')
            wait() #Sleep for 5s and take a screenshot to check for any changes.
            finished()
            call_user() # Submit the task and call the user when the task is unsolvable, or when you need the user's help.

            ## Note
            - Use "#;

/// Instructions to the model after the language of its reasoning.
pub const PROMPT_TAIL: &'static str = r#" in `Thought` part.
            - Write a small plan and finally summarize your next action (with its target element) in one sentence in `Thought` part.

            ## User Instruction
        "#;

/// The language named in the prompt for a language code: Chinese for `zh`,
/// else English.
pub open spec fn prompt_language(language: Seq<char>) -> Seq<char> {
    if language == "zh"@ {
        "Chinese"@
    } else {
        "English"@
    }
}

/// The system prompt that tells the model its action space and output format.
pub fn get_system_prompt(language: &str) -> (r: String)
    ensures
        r@ == PROMPT_HEAD@ + prompt_language(language@) + PROMPT_TAIL@,
{
    let mut v = to_chars(PROMPT_HEAD);
    let mut name = if crate::text::same_chars(&to_chars(language), &to_chars("zh")) {
        to_chars("Chinese")
    } else {
        to_chars("English")
    };
    let mut tail = to_chars(PROMPT_TAIL);
    v.append(&mut name);
    v.append(&mut tail);
    to_text(v.as_slice())
}

/// What a chat call sends: where, to which model, and the two messages.
pub struct OpenAiProtocalCallPayload {
    pub base_url: String,
    pub model_name: String,
    pub user_content: String,
    pub system_content: String,
    pub expect_json: bool,
    pub api_key: String,
}

impl OpenAiProtocalCallPayload {
    pub fn new(
        base_url: String,
        model_name: String,
        user_content: String,
        system_content: String,
        expect_json: bool,
        api_key: String,
    ) -> (r: Self)
        ensures
            r.base_url == base_url,
            r.model_name == model_name,
            r.user_content == user_content,
            r.system_content == system_content,
            r.expect_json == expect_json,
            r.api_key == api_key,
    {
        OpenAiProtocalCallPayload {
            base_url,
            model_name,
            user_content,
            system_content,
            expect_json,
            api_key,
        }
    }

    /// The chat-completions endpoint under the base URL.
    pub fn endpoint(&self) -> (r: String)
        ensures
            r@ == self.base_url@ + "/v1/chat/completions"@,
    {
        let mut v = to_chars(self.base_url.as_str());
        let mut path = to_chars("/v1/chat/completions");
        v.append(&mut path);
        to_text(v.as_slice())
    }

    /// The value of the `Authorization` header.
    pub fn authorization(&self) -> (r: String)
        ensures
            r@ == "Bearer "@ + self.api_key@,
    {
        let mut v = to_chars("Bearer ");
        let mut key = to_chars(self.api_key.as_str());
        v.append(&mut key);
        to_text(v.as_slice())
    }
}

/// The `response` member of an answer that was asked to be JSON.
pub enum ResponseField {
    /// An array: each element's text, `None` for an element that is no string.
    Lines(Vec<Option<String>>),
    /// A string.
    Text(String),
    /// Absent, or neither an array nor a string.
    Other,
}

/// Why a chat call gave no reply.
#[derive(Debug, Clone, PartialEq)]
pub enum CallError {
    /// The endpoint answered with an error; holds its message.
    Api(String),
    /// The answer holds no message content.
    NoContent,
    /// The content was to be JSON and is not.
    InvalidJson,
}

/// The strings among `items`, in order.
pub open spec fn kept(items: Seq<Option<String>>) -> Seq<Seq<char>>
    decreases items.len(),
{
    if items.len() == 0 {
        Seq::empty()
    } else {
        match items.last() {
            Some(s) => kept(items.drop_last()).push(s@),
            None => kept(items.drop_last()),
        }
    }
}

/// `parts` joined with line breaks between them.
pub open spec fn join_lines(parts: Seq<Seq<char>>) -> Seq<char>
    decreases parts.len(),
{
    if parts.len() == 0 {
        Seq::empty()
    } else if parts.len() == 1 {
        parts[0]
    } else {
        join_lines(parts.drop_last()) + seq!['\n'] + parts.last()
    }
}

fn join_kept(items: &Vec<Option<String>>) -> (r: String)
    ensures
        r@ == join_lines(kept(items@)),
{
    let mut v: Vec<char> = Vec::new();
    let mut count: usize = 0;
    let mut i: usize = 0;
    while i < items.len()
        invariant
            i <= items@.len(),
            count as int == kept(items@.subrange(0, i as int)).len(),
            count <= i,
            v@ == join_lines(kept(items@.subrange(0, i as int))),
        decreases items.len() - i,
    {
        proof {
            assert(items@.subrange(0, i + 1).drop_last() =~= items@.subrange(0, i as int));
        }
        match &items[i] {
            Some(s) => {
                if count > 0 {
                    v.push('\n');
                }
                let mut t = to_chars(s.as_str());
                v.append(&mut t);
                count += 1;
                proof {
                    let ks = kept(items@.subrange(0, i + 1));
                    assert(ks.drop_last() =~= kept(items@.subrange(0, i as int)));
                    if ks.len() == 1 {
                        assert(v@ =~= ks[0]);
                    } else {
                        assert(v@ =~= join_lines(ks.drop_last()) + seq!['\n'] + ks.last());
                    }
                }
            },
            None => {},
        }
        i += 1;
    }
    proof {
        assert(items@.subrange(0, i as int) =~= items@);
    }
    to_text(v.as_slice())
}

/// The reply a chat call gives for what the endpoint answered: `error` is
/// `Some` where the answer has an error member (holding its message, if it
/// is a string), `content` is the first choice's message text, `field` is
/// the `response` member of the content read as JSON (`None` where the
/// content is no JSON).
pub open spec fn reply_of(
    error: Option<Option<String>>,
    content: Option<String>,
    expect_json: bool,
    field: Option<ResponseField>,
    r: Result<String, CallError>,
) -> bool {
    match error {
        Some(m) => r matches Err(CallError::Api(e)) && e@ == match m {
            Some(t) => t@,
            None => "Unknown error"@,
        },
        None => match content {
            None => r == Err::<String, CallError>(CallError::NoContent),
            Some(c) => if !expect_json {
                r matches Ok(t) && t@ == c@
            } else {
                match field {
                    None => r == Err::<String, CallError>(CallError::InvalidJson),
                    Some(ResponseField::Lines(items)) => r matches Ok(t) && t@ == join_lines(
                        kept(items@),
                    ),
                    Some(ResponseField::Text(s)) => r matches Ok(t) && t@ == s@,
                    Some(ResponseField::Other) => r matches Ok(t) && t@ == c@,
                }
            },
        },
    }
}

/// Reads the reply out of what the endpoint answered.
pub fn reply_text(
    error: Option<Option<String>>,
    content: Option<String>,
    expect_json: bool,
    field: Option<ResponseField>,
) -> (r: Result<String, CallError>)
    ensures
        reply_of(error, content, expect_json, field, r),
{
    match error {
        Some(Some(m)) => Err(CallError::Api(m)),
        Some(None) => Err(CallError::Api(to_text(to_chars("Unknown error").as_slice()))),
        None => match content {
            None => Err(CallError::NoContent),
            Some(c) => if !expect_json {
                Ok(c)
            } else {
                match field {
                    None => Err(CallError::InvalidJson),
                    Some(ResponseField::Lines(items)) => Ok(join_kept(&items)),
                    Some(ResponseField::Text(s)) => Ok(s),
                    Some(ResponseField::Other) => Ok(c),
                }
            },
        },
    }
}

} // verus!
