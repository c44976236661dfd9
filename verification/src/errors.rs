//! What can go wrong in an exchange and in a tool call.
use vstd::prelude::*;
use crate::text::{join_text, decimal, decimal_text};

verus! {

/// A failure that aborts the exchange it occurs in.
#[derive(Clone, Copy, Debug, PartialEq, Eq, Structural)]
pub enum ChatError {
    /// The response is not a JSON document of the expected shape.
    ParseResponseError,
    /// The response does not say how many tokens were used.
    MissingUsageData,
    /// The service answered with a status outside the 2xx range.
    HttpError(u16),
    /// The transport failed without a status.
    UnknownError,
    /// The description of the expected output could not be put together.
    AssembleOutputDescriptionError,
    /// The structured answer could not be obtained.
    GetJsonError,
    /// The function call could not be obtained.
    GetFunctionError,
    /// A selector of a conversation path is out of range.
    InvalidPath,
}

impl ChatError {
    /// The message of this error.
    pub open spec fn message_text(self) -> Seq<char> {
        match self {
            ChatError::ParseResponseError => "Failed to parse response"@,
            ChatError::MissingUsageData => "Missing usage data"@,
            ChatError::HttpError(code) => "HTTP error with status code: "@ + decimal(code as nat),
            ChatError::UnknownError => "Unknown error"@,
            ChatError::AssembleOutputDescriptionError => "Failed to assemble output description"@,
            ChatError::GetJsonError => "Failed to get json"@,
            ChatError::GetFunctionError => "Failed to get function"@,
            ChatError::InvalidPath => "Invalid conversation path"@,
        }
    }

    /// Writes the message of this error.
    pub fn message(&self) -> (text: String)
        ensures
            text@ == self.message_text(),
    {
        match self {
            ChatError::ParseResponseError => "Failed to parse response".to_owned(),
            ChatError::MissingUsageData => "Missing usage data".to_owned(),
            ChatError::HttpError(code) => {
                let number = decimal_text(*code as u64);
                join_text("HTTP error with status code: ", number.as_str())
            },
            ChatError::UnknownError => "Unknown error".to_owned(),
            ChatError::AssembleOutputDescriptionError => "Failed to assemble output description".to_owned(),
            ChatError::GetJsonError => "Failed to get json".to_owned(),
            ChatError::GetFunctionError => "Failed to get function".to_owned(),
            ChatError::InvalidPath => "Invalid conversation path".to_owned(),
        }
    }
}

/// A failure of one tool call. It never fails the calls beside it.
#[derive(Clone, Debug, PartialEq, Eq)]
pub enum ToolCallError {
    /// The call text could not be resolved into a function call.
    ParseFunctionCall,
    /// No function of this name is registered.
    FunctionNotFound(String),
    /// The function of this name failed.
    FunctionExecution(String),
    /// The function's result could not be written as JSON.
    SerializeResult,
    /// The arguments are not a JSON object; the text says why.
    DeserializeArguments(String),
    /// The structured answer could not be obtained.
    GetJson(String),
    /// No answer could be obtained to look for tool calls in.
    ExtractFunctionCall(String),
    /// The function call lacks this field.
    MissingField(String),
}

/// The model of a [`ToolCallError`].
pub enum ToolFault {
    ParseFunctionCall,
    FunctionNotFound(Seq<char>),
    FunctionExecution(Seq<char>),
    SerializeResult,
    DeserializeArguments(Seq<char>),
    GetJson(Seq<char>),
    ExtractFunctionCall(Seq<char>),
    MissingField(Seq<char>),
}

impl ToolFault {
    /// The message of this error.
    pub open spec fn message_text(self) -> Seq<char> {
        match self {
            ToolFault::ParseFunctionCall => "Failed to parse function call"@,
            ToolFault::FunctionNotFound(name) => "Function '"@ + name + "' not found"@,
            ToolFault::FunctionExecution(name) => "Failed to execute function '"@ + name + "'"@,
            ToolFault::SerializeResult => "Failed to serialize function result"@,
            ToolFault::DeserializeArguments(why) => "Failed to deserialize arguments: "@ + why,
            ToolFault::GetJson(why) => "Failed to get json: "@ + why,
            ToolFault::ExtractFunctionCall(from) => "Failed to extract function call from: "@ + from,
            ToolFault::MissingField(field) => "Missing field: "@ + field,
        }
    }
}

impl View for ToolCallError {
    type V = ToolFault;

    open spec fn view(&self) -> ToolFault {
        match self {
            ToolCallError::ParseFunctionCall => ToolFault::ParseFunctionCall,
            ToolCallError::FunctionNotFound(name) => ToolFault::FunctionNotFound(name@),
            ToolCallError::FunctionExecution(name) => ToolFault::FunctionExecution(name@),
            ToolCallError::SerializeResult => ToolFault::SerializeResult,
            ToolCallError::DeserializeArguments(why) => ToolFault::DeserializeArguments(why@),
            ToolCallError::GetJson(why) => ToolFault::GetJson(why@),
            ToolCallError::ExtractFunctionCall(from) => ToolFault::ExtractFunctionCall(from@),
            ToolCallError::MissingField(field) => ToolFault::MissingField(field@),
        }
    }
}

impl ToolCallError {
    /// Writes the message of this error.
    pub fn message(&self) -> (text: String)
        ensures
            text@ == self@.message_text(),
    {
        match self {
            ToolCallError::ParseFunctionCall => "Failed to parse function call".to_owned(),
            ToolCallError::FunctionNotFound(name) => {
                let mut text = join_text("Function '", name.as_str());
                text.append("' not found");
                text
            },
            ToolCallError::FunctionExecution(name) => {
                let mut text = join_text("Failed to execute function '", name.as_str());
                text.append("'");
                text
            },
            ToolCallError::SerializeResult => "Failed to serialize function result".to_owned(),
            ToolCallError::DeserializeArguments(why) => join_text(
                "Failed to deserialize arguments: ",
                why.as_str(),
            ),
            ToolCallError::GetJson(why) => join_text("Failed to get json: ", why.as_str()),
            ToolCallError::ExtractFunctionCall(from) => join_text(
                "Failed to extract function call from: ",
                from.as_str(),
            ),
            ToolCallError::MissingField(field) => join_text("Missing field: ", field.as_str()),
        }
    }
}

} // verus!
