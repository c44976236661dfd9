//! Second-pass sessions that turn free text into structured output: the
//! JSON that fits a schema, or the function call that fits a set of tools.
use vstd::prelude::*;
use crate::chat_base::{request_json, wire_messages, BaseChat};
use crate::config::{Config, ModelCapability};
use crate::errors::ChatError;
use crate::json::{entries_map, lemma_entries_push, lemma_object_view, parsed, Json, JsonValue};
use crate::message::{MessageView, Role, RoleView};
use crate::response::{content_of, function_of, get_content, get_function_call, token_count};

verus! {

/// The sessions that restate an answer in a given form.
pub struct ChatTool;

/// The character prompt of the session that restates an answer as JSON.
pub open spec fn json_prompt() -> Seq<char> {
    "将输入内容整理为指定的json形式输出"@
}

/// The character prompt of the session that resolves call text into a
/// function call.
pub open spec fn function_prompt() -> Seq<char> {
    "根据输入的内容调用指定的函数"@
}

/// `body` with `schema` as its `response_format`, where `body` is an
/// object; any other `body` as it is.
pub open spec fn with_response_format(body: JsonValue, schema: JsonValue) -> JsonValue {
    match body {
        JsonValue::Object(members) => JsonValue::Object(members.insert("response_format"@, schema)),
        _ => body,
    }
}

/// `body` with every member of `schema` added to it, those of `schema`
/// taking the place of its own, where both are objects; else `body` as it
/// is.
pub open spec fn with_tools(body: JsonValue, schema: JsonValue) -> JsonValue {
    match (body, schema) {
        (JsonValue::Object(members), JsonValue::Object(added)) => JsonValue::Object(
            members.union_prefer_right(added),
        ),
        _ => body,
    }
}

/// The request of a fresh second-pass session that was told `text`.
pub open spec fn restating_request(model: Seq<char>, prompt: Seq<char>, text: Seq<char>) -> JsonValue {
    request_json(
        model,
        wire_messages(prompt, seq![MessageView { role: RoleView::User, content: text }], RoleView::User),
        false,
    )
}

/// Puts `schema` into the request as its `response_format`.
pub fn add_response_format(request_body: Json, schema: Json) -> (body: Json)
    ensures
        body@ == with_response_format(request_body@, schema@),
{
    let mut body = request_body;
    let is_object = match &body {
        Json::Object(_) => true,
        _ => false,
    };
    if is_object {
        body.insert("response_format", schema);
    }
    body
}

/// Adds the members of `schema` to the request.
pub fn add_tools(request_body: Json, schema: Json) -> (body: Json)
    ensures
        body@ == with_tools(request_body@, schema@),
{
    let mut body = request_body;
    let is_object = match &body {
        Json::Object(_) => true,
        _ => false,
    };
    if !is_object {
        return body;
    }
    match &schema {
        Json::Object(entries) => {
            let ghost members = body@->Object_0;
            let mut i: usize = 0;
            proof {
                lemma_object_view(*entries);
                assert(members.union_prefer_right(entries_map(entries@.take(0))) =~= members);
            }
            while i < entries.len()
                invariant
                    i <= entries@.len(),
                    body@ == JsonValue::Object(
                        members.union_prefer_right(entries_map(entries@.take(i as int))),
                    ),
                decreases entries@.len() - i,
            {
                let value = entries[i].1.clone();
                proof {
                    let done = entries@.take(i as int);
                    lemma_entries_push(done, entries@[i as int].0, entries@[i as int].1);
                    assert(done.push(entries@[i as int]) =~= entries@.take(i + 1));
                    assert(members.union_prefer_right(
                        entries_map(done).insert(entries@[i as int].0@, value@),
                    ) =~= members.union_prefer_right(entries_map(done)).insert(
                        entries@[i as int].0@,
                        value@,
                    ));
                }
                body.insert(entries[i].0.as_str(), value);
                i += 1;
            }
            proof {
                assert(entries@.take(i as int) =~= entries@);
            }
            body
        },
        _ => body,
    }
}

/// Whether `after` is the restating session `before` once it has taken
/// `response`, with the outcome `r`. Without usage data nothing differs and
/// `r` is `GetJsonError`. Else the tokens were added to the usage; content
/// is added as the assistant's message, and `r` is the document that the
/// content reads as; a response without content, and content that is no
/// JSON, make `r` a `GetJsonError`.
pub open spec fn restated(
    before: BaseChat,
    after: BaseChat,
    response: JsonValue,
    r: Result<Json, ChatError>,
) -> bool {
    &&& before.settings_kept(after)
    &&& match token_count(response) {
        None => r is Err && r->Err_0 == ChatError::GetJsonError && after == before,
        Some(n) => after.usage == before.usage + n && match content_of(response) {
            None => r is Err && r->Err_0 == ChatError::GetJsonError && after.messages == before.messages,
            Some(text) => before.extended_by(
                after,
                MessageView { role: RoleView::Assistant, content: text },
            ) && match parsed(text) {
                Some(document) => r is Ok && r->Ok_0@ == document,
                None => r is Err && r->Err_0 == ChatError::GetJsonError,
            },
        },
    }
}

/// Whether `after` is the resolving session `before` once it has taken
/// `response`, with the outcome `r`. Without usage data nothing differs and
/// `r` is `GetFunctionError`. Else the tokens were added to the usage and
/// `r` is the function call that the response asks for, or `null` where it
/// asks for none. The messages stand either way.
pub open spec fn resolved_call(
    before: BaseChat,
    after: BaseChat,
    response: JsonValue,
    r: Result<Json, ChatError>,
) -> bool {
    &&& after.messages == before.messages
    &&& before.settings_kept(after)
    &&& match token_count(response) {
        None => r is Err && r->Err_0 == ChatError::GetFunctionError && after.usage == before.usage,
        Some(n) => after.usage == before.usage + n && r is Ok && r->Ok_0@ == (match function_of(response) {
            Some(function) => function,
            None => JsonValue::Null,
        }),
    }
}

/// Judges what reading the restated answer gave: a document is the
/// structured answer, and text that is no JSON is a `GetJsonError`.
pub fn structured(read: Result<Json, String>) -> (r: Result<Json, ChatError>)
    ensures
        match read {
            Ok(document) => r == Ok::<Json, ChatError>(document),
            Err(_) => r is Err && r->Err_0 == ChatError::GetJsonError,
        },
{
    match read {
        Ok(document) => Ok(document),
        Err(_) => Err(ChatError::GetJsonError),
    }
}

impl ChatTool {
    /// Starts the session that restates `text_answer` as JSON that fits
    /// `json_schema`, and gives the request to send for it.
    pub fn json_request(config: &Config, text_answer: &str, json_schema: Json) -> (r: (BaseChat, Json))
        requires
            config.capable(ModelCapability::ToolUse) is Some,
        ensures
            r.0.wf(),
            r.0.model == config.capable(ModelCapability::ToolUse).unwrap().model,
            r.0.base_url == config.capable(ModelCapability::ToolUse).unwrap().base_url,
            r.0.api_key == config.capable(ModelCapability::ToolUse).unwrap().api_key,
            r.0.character_prompt@ == json_prompt(),
            r.0.usage == 0,
            !r.0.need_stream,
            r.0.history() == seq![MessageView { role: RoleView::User, content: text_answer@ }],
            r.0.messages.count() == 1,
            r.0.messages.active_path() == seq![0usize],
            r.1@ == with_response_format(
                restating_request(r.0.model@, json_prompt(), text_answer@),
                json_schema@,
            ),
    {
        let mut base = BaseChat::new_with_model_capability(
            config,
            &ModelCapability::ToolUse,
            "将输入内容整理为指定的json形式输出",
            false,
        );
        base.add_message(Role::User, text_answer);
        let body = base.build_active_request_body(&Role::User);
        let request = add_response_format(body, json_schema);
        (base, request)
    }

    /// Takes the answer of the restating session: the content of the
    /// response, read as JSON. The content is also added to the session as
    /// the assistant's message. A response without usage data or without
    /// content, and content that is no JSON, fail with `GetJsonError`.
    pub fn json_answer(base: &mut BaseChat, response: &Json) -> (r: Result<Json, ChatError>)
        requires
            old(base).wf(),
            old(base).fits(response@),
        ensures
            final(base).wf(),
            restated(*old(base), *final(base), response@, r),
    {
        match base.record_usage(response) {
            Err(_) => Err(ChatError::GetJsonError),
            Ok(_) => match get_content(response) {
                None => Err(ChatError::GetJsonError),
                Some(text) => {
                    base.add_message(Role::Assistant, text);
                    structured(Json::parse(text))
                },
            },
        }
    }

    /// Takes the answer of the restating session as `json_answer` does,
    /// where the usage counter can take the tokens of the response. Where it
    /// cannot, nothing changes and `None` is returned.
    pub fn try_json_answer(base: &mut BaseChat, response: &Json) -> (r: Option<Result<Json, ChatError>>)
        requires
            old(base).wf(),
        ensures
            final(base).wf(),
            match r {
                Some(outcome) => old(base).fits(response@) && restated(
                    *old(base),
                    *final(base),
                    response@,
                    outcome,
                ),
                None => !old(base).fits(response@) && *final(base) == *old(base),
            },
    {
        if base.can_record(response) {
            Some(ChatTool::json_answer(base, response))
        } else {
            None
        }
    }

    /// Starts the session that resolves `text_answer` into a call of one of
    /// the tools that `tools_schema` describes, and gives the request to
    /// send for it.
    pub fn function_request(config: &Config, text_answer: &str, tools_schema: Json) -> (r: (
        BaseChat,
        Json,
    ))
        requires
            config.capable(ModelCapability::ToolUse) is Some,
        ensures
            r.0.wf(),
            r.0.model == config.capable(ModelCapability::ToolUse).unwrap().model,
            r.0.base_url == config.capable(ModelCapability::ToolUse).unwrap().base_url,
            r.0.api_key == config.capable(ModelCapability::ToolUse).unwrap().api_key,
            r.0.character_prompt@ == function_prompt(),
            r.0.usage == 0,
            !r.0.need_stream,
            r.0.history() == seq![MessageView { role: RoleView::User, content: text_answer@ }],
            r.0.messages.count() == 1,
            r.0.messages.active_path() == seq![0usize],
            r.1@ == with_tools(
                restating_request(r.0.model@, function_prompt(), text_answer@),
                tools_schema@,
            ),
    {
        let mut base = BaseChat::new_with_model_capability(
            config,
            &ModelCapability::ToolUse,
            "根据输入的内容调用指定的函数",
            false,
        );
        base.add_message(Role::User, text_answer);
        let body = base.build_active_request_body(&Role::User);
        let request = add_tools(body, tools_schema);
        (base, request)
    }

    /// Takes the answer of the resolving session: the function call that
    /// the response asks for, or `null` where it asks for none. A response
    /// without usage data fails with `GetFunctionError`.
    pub fn function_call(base: &mut BaseChat, response: &Json) -> (r: Result<Json, ChatError>)
        requires
            old(base).wf(),
            old(base).fits(response@),
        ensures
            final(base).wf(),
            resolved_call(*old(base), *final(base), response@, r),
    {
        match base.record_usage(response) {
            Err(_) => Err(ChatError::GetFunctionError),
            Ok(_) => match get_function_call(response) {
                Some(function) => Ok(function.clone()),
                None => Ok(Json::Null),
            },
        }
    }

    /// Takes the answer of the resolving session as `function_call` does,
    /// where the usage counter can take the tokens of the response. Where it
    /// cannot, nothing changes and `None` is returned.
    pub fn try_function_call(base: &mut BaseChat, response: &Json) -> (r: Option<Result<Json, ChatError>>)
        requires
            old(base).wf(),
        ensures
            final(base).wf(),
            match r {
                Some(outcome) => old(base).fits(response@) && resolved_call(
                    *old(base),
                    *final(base),
                    response@,
                    outcome,
                ),
                None => !old(base).fits(response@) && *final(base) == *old(base),
            },
    {
        if base.can_record(response) {
            Some(ChatTool::function_call(base, response))
        } else {
            None
        }
    }
}

} // verus!
