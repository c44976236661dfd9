use llm_chat::errors::{ChatError, ToolCallError};
use llm_chat::text::{chars_of, join_text, decimal_text, same_text, text_of};

#[test]
fn chat_error_messages() {
    assert_eq!(ChatError::ParseResponseError.message(), "Failed to parse response");
    assert_eq!(ChatError::MissingUsageData.message(), "Missing usage data");
    assert_eq!(ChatError::HttpError(404).message(), "HTTP error with status code: 404");
    assert_eq!(ChatError::HttpError(0).message(), "HTTP error with status code: 0");
    assert_eq!(ChatError::HttpError(65535).message(), "HTTP error with status code: 65535");
    assert_eq!(ChatError::UnknownError.message(), "Unknown error");
    assert_eq!(
        ChatError::AssembleOutputDescriptionError.message(),
        "Failed to assemble output description"
    );
    assert_eq!(ChatError::GetJsonError.message(), "Failed to get json");
    assert_eq!(ChatError::GetFunctionError.message(), "Failed to get function");
    assert_eq!(ChatError::InvalidPath.message(), "Invalid conversation path");
}

#[test]
fn tool_call_error_messages() {
    assert_eq!(ToolCallError::ParseFunctionCall.message(), "Failed to parse function call");
    assert_eq!(
        ToolCallError::FunctionNotFound("f".to_string()).message(),
        "Function 'f' not found"
    );
    assert_eq!(
        ToolCallError::FunctionExecution("f".to_string()).message(),
        "Failed to execute function 'f'"
    );
    assert_eq!(ToolCallError::SerializeResult.message(), "Failed to serialize function result");
    assert_eq!(
        ToolCallError::DeserializeArguments("eof".to_string()).message(),
        "Failed to deserialize arguments: eof"
    );
    assert_eq!(ToolCallError::GetJson("x".to_string()).message(), "Failed to get json: x");
    assert_eq!(
        ToolCallError::ExtractFunctionCall("text".to_string()).message(),
        "Failed to extract function call from: text"
    );
    assert_eq!(ToolCallError::MissingField("name".to_string()).message(), "Missing field: name");
}

#[test]
fn decimal_numerals() {
    assert_eq!(decimal_text(0), "0");
    assert_eq!(decimal_text(9), "9");
    assert_eq!(decimal_text(10), "10");
    assert_eq!(decimal_text(1234567890), "1234567890");
    assert_eq!(decimal_text(u64::MAX), "18446744073709551615");
}

#[test]
fn text_helpers() {
    assert_eq!(chars_of("aé漢"), vec!['a', 'é', '漢']);
    assert!(chars_of("").is_empty());
    let chars = chars_of("hello");
    assert_eq!(text_of(&chars, 1, 4), "ell");
    assert_eq!(text_of(&chars, 2, 2), "");
    assert_eq!(join_text("ab", "cd"), "abcd");
    assert!(same_text("x", "x"));
    assert!(!same_text("x", "X"));
    assert!(!same_text("x", "xx"));
    let mut pushed = String::from("a");
    pushed.push('b');
    assert_eq!(pushed, "ab");
}
