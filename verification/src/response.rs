//! What the service sends back: the reply of the transport, and the parts
//! of a completion that an exchange reads.
use vstd::prelude::*;
use crate::errors::ChatError;
use crate::json::{parsed, Json, JsonValue};

verus! {

/// What the transport hands back for one request.
#[derive(Debug, Clone, PartialEq, Eq)]
pub enum TransportReply {
    /// The service answered with this status and body.
    Response { status: u16, body: String },
    /// No answer came: the connection failed, or timed out.
    Failed,
}

/// Whether `status` is in the 2xx range.
pub open spec fn is_success(status: u16) -> bool {
    200 <= status < 300
}

/// The text of a completion: `choices[0].message.content`, where that is a
/// string.
pub open spec fn content_of(response: JsonValue) -> Option<Seq<char>> {
    match response.member("choices"@) {
        None => None,
        Some(choices) => match choices.item(0) {
            None => None,
            Some(choice) => match choice.member("message"@) {
                None => None,
                Some(message) => match message.member("content"@) {
                    None => None,
                    Some(content) => content.as_str(),
                },
            },
        },
    }
}

/// The fragment of text that a chunk of a streamed completion brings:
/// `choices[0].delta.content`, where that is a string.
pub open spec fn delta_of(chunk: JsonValue) -> Option<Seq<char>> {
    match chunk.member("choices"@) {
        None => None,
        Some(choices) => match choices.item(0) {
            None => None,
            Some(choice) => match choice.member("delta"@) {
                None => None,
                Some(delta) => match delta.member("content"@) {
                    None => None,
                    Some(content) => content.as_str(),
                },
            },
        },
    }
}

/// The function call that a completion asks for:
/// `choices[0].message.tool_calls[0].function`.
pub open spec fn function_of(response: JsonValue) -> Option<JsonValue> {
    match response.member("choices"@) {
        None => None,
        Some(choices) => match choices.item(0) {
            None => None,
            Some(choice) => match choice.member("message"@) {
                None => None,
                Some(message) => match message.member("tool_calls"@) {
                    None => None,
                    Some(calls) => match calls.item(0) {
                        None => None,
                        Some(call) => call.member("function"@),
                    },
                },
            },
        },
    }
}

/// The number of tokens that a completion reports: `usage.total_tokens`,
/// where that is an integer that is not negative.
pub open spec fn token_count(response: JsonValue) -> Option<int> {
    match response.member("usage"@) {
        None => None,
        Some(usage) => match usage.member("total_tokens"@) {
            None => None,
            Some(total) => match total.as_int() {
                None => None,
                Some(n) => if 0 <= n {
                    Some(n)
                } else {
                    None
                },
            },
        },
    }
}

/// What a reply amounts to: the document in the body of a 2xx response, or
/// the error that the reply stands for.
pub open spec fn decoded(reply: TransportReply) -> Result<JsonValue, ChatError> {
    match reply {
        TransportReply::Failed => Err(ChatError::UnknownError),
        TransportReply::Response { status, body } => if !is_success(status) {
            Err(ChatError::HttpError(status))
        } else {
            match parsed(body@) {
                None => Err(ChatError::ParseResponseError),
                Some(document) => Ok(document),
            }
        },
    }
}

/// Judges a response by its status and by what reading its body gave: any
/// status outside the 2xx range is an `HttpError` with that status, and a
/// body that is no JSON is a `ParseResponseError`.
pub fn settle(status: u16, document: Option<Json>) -> (r: Result<Json, ChatError>)
    ensures
        match r {
            Ok(json) => is_success(status) && document == Some(json),
            Err(error) => if is_success(status) {
                document is None && error == ChatError::ParseResponseError
            } else {
                error == ChatError::HttpError(status)
            },
        },
{
    if status < 200 || status >= 300 {
        Err(ChatError::HttpError(status))
    } else {
        match document {
            None => Err(ChatError::ParseResponseError),
            Some(json) => Ok(json),
        }
    }
}

/// Turns the transport's reply into the document it carries. A failed
/// transport is an `UnknownError`; the body of a 2xx response is read as
/// JSON and the response is judged as `settle` says.
pub fn decode_reply(reply: &TransportReply) -> (r: Result<Json, ChatError>)
    ensures
        match r {
            Ok(json) => decoded(*reply) == Ok::<JsonValue, ChatError>(json@),
            Err(error) => decoded(*reply) == Err::<JsonValue, ChatError>(error),
        },
{
    match reply {
        TransportReply::Failed => Err(ChatError::UnknownError),
        TransportReply::Response { status, body } => {
            if *status < 200 || *status >= 300 {
                settle(*status, None)
            } else {
                match Json::parse(body.as_str()) {
                    Ok(json) => settle(*status, Some(json)),
                    Err(_) => settle(*status, None),
                }
            }
        },
    }
}

/// The text of a completion, where it has one.
pub fn get_content(response: &Json) -> (r: Option<&str>)
    ensures
        match r {
            Some(text) => content_of(response@) == Some(text@),
            None => content_of(response@) is None,
        },
{
    let choices = response.member("choices")?;
    let choice = choices.item(0)?;
    let message = choice.member("message")?;
    let content = message.member("content")?;
    content.as_str()
}

/// The fragment of text that a chunk brings, where it brings one.
pub fn get_delta(chunk: &Json) -> (r: Option<&str>)
    ensures
        match r {
            Some(text) => delta_of(chunk@) == Some(text@),
            None => delta_of(chunk@) is None,
        },
{
    let choices = chunk.member("choices")?;
    let choice = choices.item(0)?;
    let delta = choice.member("delta")?;
    let content = delta.member("content")?;
    content.as_str()
}

/// The function call that a completion asks for, where it asks for one.
pub fn get_function_call(response: &Json) -> (r: Option<&Json>)
    ensures
        match r {
            Some(call) => function_of(response@) == Some(call@),
            None => function_of(response@) is None,
        },
{
    let choices = response.member("choices")?;
    let choice = choices.item(0)?;
    let message = choice.member("message")?;
    let calls = message.member("tool_calls")?;
    let call = calls.item(0)?;
    call.member("function")
}

/// The number of tokens that a completion reports, where it reports one.
pub fn get_token_count(response: &Json) -> (r: Option<u64>)
    ensures
        match r {
            Some(n) => token_count(response@) == Some(n as int),
            None => token_count(response@) is None,
        },
{
    let usage = response.member("usage")?;
    let total = usage.member("total_tokens")?;
    let n = total.as_i64()?;
    if n < 0 {
        None
    } else {
        Some(n as u64)
    }
}

} // verus!
