use llm_chat::chat_base::BaseChat;
use llm_chat::chat_single::{extract_failure, SingleChat};
use llm_chat::chat_tool::{add_response_format, add_tools, structured, ChatTool};
use llm_chat::config::{ApiEntry, ApiInfo, Config, ModelCapability};
use llm_chat::errors::{ChatError, ToolCallError};
use llm_chat::json::Json;
use llm_chat::message::Role;

fn value(text: &str) -> serde_json::Value {
    serde_json::from_str(text).unwrap()
}

fn entry(name: &str, model: &str, capabilities: Vec<ModelCapability>) -> ApiEntry {
    ApiEntry {
        name: name.to_string(),
        capabilities,
        info: ApiInfo {
            model: model.to_string(),
            base_url: format!("http://{}/v1", name),
            api_key: format!("key-{}", name),
        },
    }
}

fn config() -> Config {
    Config {
        apis: vec![
            entry("small", "model-s", vec![ModelCapability::Chat]),
            entry("tools", "model-t", vec![ModelCapability::Chat, ModelCapability::ToolUse]),
            entry("small", "model-shadowed", vec![ModelCapability::Reasoning]),
            entry("other-tools", "model-u", vec![ModelCapability::ToolUse]),
        ],
    }
}

fn completion(content: &str, tokens: i64) -> Json {
    let mut message = Json::object();
    message.insert("role", Json::from_text("assistant"));
    message.insert("content", Json::from_text(content));
    let mut choice = Json::object();
    choice.insert("message", message);
    let mut usage = Json::object();
    usage.insert("total_tokens", Json::from_i64(tokens));
    let mut response = Json::object();
    response.insert("choices", Json::Array(vec![choice]));
    response.insert("usage", usage);
    response
}

fn history(chat: &BaseChat) -> Vec<(Role, String)> {
    let path = chat.messages.current_path().clone();
    chat.messages.resolve(&path).unwrap().into_iter().map(|m| (m.role, m.content)).collect()
}

#[test]
fn lookups_take_the_first_entry_that_fits() {
    let config = config();
    assert_eq!(config.get_api_info_with_name("small").unwrap().model, "model-s");
    assert_eq!(config.get_api_info_with_name("tools").unwrap().model, "model-t");
    assert!(config.get_api_info_with_name("Small").is_none());
    assert_eq!(
        config.get_api_info_with_capability(ModelCapability::ToolUse).unwrap().model,
        "model-t"
    );
    assert_eq!(
        config.get_api_info_with_capability(ModelCapability::Reasoning).unwrap().model,
        "model-shadowed"
    );
    let empty = Config { apis: Vec::new() };
    assert!(empty.get_api_info_with_capability(ModelCapability::Chat).is_none());
    assert!(config.apis[1].has_capability(ModelCapability::ToolUse));
    assert!(!config.apis[0].has_capability(ModelCapability::ToolUse));
}

#[test]
fn constructors_take_the_endpoint_from_the_config() {
    let config = config();
    let chat = BaseChat::new_with_api_name(&config, "tools", "You are Alice", true);
    assert_eq!(chat.model, "model-t");
    assert_eq!(chat.base_url, "http://tools/v1");
    assert_eq!(chat.api_key, "key-tools");
    assert_eq!(chat.character_prompt, "You are Alice");
    assert!(chat.need_stream);
    assert_eq!(chat.usage, 0);
    assert_eq!(chat.messages.len(), 0);
    let chat = BaseChat::new_with_model_capability(&config, &ModelCapability::Reasoning, "p", false);
    assert_eq!(chat.model, "model-shadowed");
    assert!(!chat.need_stream);
    let single = SingleChat::new_with_api_name(&config, "small", "p", false);
    assert_eq!(single.base.model, "model-s");
    assert!(single.tools_schema.is_empty());
    let single = SingleChat::new_with_model_capability(&config, ModelCapability::ToolUse, "p", true);
    assert_eq!(single.base.model, "model-t");
    assert!(single.need_stream && single.base.need_stream);
}

#[test]
fn add_message_appends_to_the_history() {
    let mut chat = BaseChat::new_with_api_name(&config(), "small", "p", false);
    assert_eq!(chat.add_message(Role::User, "hi"), 0);
    assert_eq!(chat.add_message(Role::Character("Bob".to_string()), "yo"), 1);
    assert_eq!(
        history(&chat),
        vec![(Role::User, "hi".to_string()), (Role::Character("Bob".to_string()), "yo".to_string())]
    );
    assert_eq!(chat.usage, 0);
}

#[test]
fn add_message_returns_the_position_in_the_active_branch() {
    let mut chat = BaseChat::new_with_api_name(&config(), "small", "p", false);
    assert_eq!(chat.add_message(Role::User, "q"), 0);
    assert_eq!(chat.add_message(Role::Assistant, "first"), 1);
    assert_eq!(chat.add_message(Role::User, "more"), 2);
    chat.messages.select(&[0]).unwrap();
    assert_eq!(chat.add_message(Role::Assistant, "second"), 1);
    let position = chat.add_message(Role::User, "after the second");
    assert_eq!(position, 2);
    assert_eq!(history(&chat)[position], (Role::User, "after the second".to_string()));
    assert_eq!(chat.messages.len(), 5);
    assert_eq!(chat.base_url, "http://small/v1");
    assert_eq!(chat.api_key, "key-small");
}

#[test]
fn steps_keep_the_endpoint_and_the_key() {
    let mut chat = SingleChat::new_with_api_name(&config(), "tools", "p", true);
    chat.set_tools(Vec::new(), "no tools");
    chat.begin_answer("q");
    chat.begin_answer_with_end_path(&[0], "q2").unwrap();
    chat.begin_answer_again(&[0]).unwrap();
    chat.begin_json_answer(Some("as json"), "q3").unwrap();
    let chunks = vec!["{\"choices\":[{\"delta\":{\"content\":\"a\"}}]}".to_string()];
    chat.complete_streamed_answer(&chunks).unwrap();
    chat.complete_answer(&completion("b", 1)).unwrap();
    assert_eq!(chat.base.base_url, "http://tools/v1");
    assert_eq!(chat.base.api_key, "key-tools");
    assert_eq!(chat.base.model, "model-t");
    assert_eq!(chat.base.character_prompt, "p");
    assert!(chat.base.need_stream && chat.need_stream);
}

#[test]
fn request_body_holds_model_messages_and_stream() {
    let mut chat = BaseChat::new_with_api_name(&config(), "small", "You are Alice", false);
    chat.add_message(Role::User, "hi");
    chat.add_message(Role::Assistant, "hello");
    let path = chat.messages.current_path().clone();
    let body = chat.build_request_body(&path, &Role::Assistant).unwrap();
    assert_eq!(
        body.to_value(),
        value(
            "{\"model\":\"model-s\",\"stream\":false,\"messages\":[\
             {\"role\":\"system\",\"content\":\"You are Alice\"},\
             {\"role\":\"user\",\"content\":\"hi\"},\
             {\"role\":\"assistant\",\"content\":\"hello\"}]}"
        )
    );
    assert_eq!(chat.build_request_body(&[3], &Role::User).unwrap_err(), ChatError::InvalidPath);
    assert_eq!(chat.build_messages(&[0, 0, 0], &Role::User).unwrap_err(), ChatError::InvalidPath);
    let active = chat.build_active_request_body(&Role::Assistant);
    assert_eq!(active.to_value(), body.to_value());
}

#[test]
fn exchange_adds_both_messages_and_the_usage() {
    let mut chat = SingleChat::new_with_api_name(&config(), "small", "You are Alice", false);
    let request = chat.begin_answer("hi");
    assert_eq!(
        request.to_value(),
        value(
            "{\"model\":\"model-s\",\"stream\":false,\"messages\":[\
             {\"role\":\"system\",\"content\":\"You are Alice\"},\
             {\"role\":\"user\",\"content\":\"hi\"}]}"
        )
    );
    let response = completion("hello", 17);
    assert!(chat.base.can_record(&response));
    assert_eq!(chat.complete_answer(&response).unwrap(), "hello");
    assert_eq!(chat.base.usage, 17);
    assert_eq!(
        history(&chat.base),
        vec![(Role::User, "hi".to_string()), (Role::Assistant, "hello".to_string())]
    );
    let request = chat.begin_answer("again");
    let messages = request.member("messages").unwrap();
    assert_eq!(
        messages.item(2).unwrap().to_value(),
        value("{\"role\":\"user\",\"content\":\"Assistant said: hello\"}")
    );
    assert!(messages.item(4).is_none());
}

#[test]
fn usage_is_the_sum_of_the_token_counts() {
    let mut chat = SingleChat::new_with_api_name(&config(), "small", "p", false);
    let counts = [5i64, 0, 120, 33, 1];
    let mut sum = 0u64;
    for (i, count) in counts.iter().enumerate() {
        chat.begin_answer("q");
        chat.complete_answer(&completion("a", *count)).unwrap();
        sum += *count as u64;
        assert_eq!(chat.base.usage, sum);
        assert_eq!(chat.base.messages.len(), 2 * (i + 1));
    }
    assert_eq!(chat.base.usage, 159);
}

#[test]
fn missing_usage_aborts_the_exchange() {
    let mut chat = SingleChat::new_with_api_name(&config(), "small", "p", false);
    chat.begin_answer("q1");
    chat.complete_answer(&completion("a1", 10)).unwrap();
    chat.begin_answer("q2");
    let before = chat.base.messages.len();
    let mut no_usage = completion("a2", 1);
    no_usage.insert("usage", Json::Null);
    assert_eq!(chat.complete_answer(&no_usage).unwrap_err(), ChatError::MissingUsageData);
    assert_eq!(chat.base.usage, 10);
    assert_eq!(chat.base.messages.len(), before);
    assert_eq!(history(&chat.base).len(), 3);
    assert_eq!(chat.base.record_usage(&no_usage).unwrap_err(), ChatError::MissingUsageData);
    assert_eq!(chat.base.record_usage(&completion("x", 4)).unwrap(), 4);
    assert_eq!(chat.base.usage, 14);
}

#[test]
fn missing_content_is_a_parse_error_after_the_usage_is_counted() {
    let mut chat = SingleChat::new_with_api_name(&config(), "small", "p", false);
    chat.begin_answer("q");
    let mut response = completion("a", 8);
    response.insert("choices", Json::Array(Vec::new()));
    assert_eq!(chat.complete_answer(&response).unwrap_err(), ChatError::ParseResponseError);
    assert_eq!(chat.base.usage, 8);
    assert_eq!(chat.base.messages.len(), 1);
}

#[test]
fn counter_that_would_overflow_is_detected() {
    let mut chat = BaseChat::new_with_api_name(&config(), "small", "p", false);
    chat.usage = u64::MAX - 5;
    assert!(chat.can_record(&completion("a", 5)));
    assert!(!chat.can_record(&completion("a", 6)));
    assert!(chat.can_record(&Json::Null));
    assert!(chat.try_record_usage(&completion("a", 6)).is_none());
    assert_eq!(chat.usage, u64::MAX - 5);
    assert_eq!(
        chat.try_record_usage(&Json::Null),
        Some(Err(ChatError::MissingUsageData))
    );
    assert_eq!(chat.try_record_usage(&completion("a", 5)), Some(Ok(5)));
    assert_eq!(chat.usage, u64::MAX);
}

#[test]
fn guarded_steps_change_nothing_when_the_counter_is_full() {
    let config = config();
    let mut chat = SingleChat::new_with_api_name(&config, "small", "p", false);
    chat.begin_answer("q");
    chat.base.usage = u64::MAX;
    assert!(chat.try_complete_answer(&completion("a", 1)).is_none());
    assert_eq!(chat.base.messages.len(), 1);
    assert_eq!(chat.try_complete_answer(&completion("a", 0)), Some(Ok("a".to_string())));
    assert_eq!(chat.base.messages.len(), 2);
    let (mut base, _) = ChatTool::json_request(&config, "text", Json::object());
    base.usage = u64::MAX - 1;
    assert!(ChatTool::try_json_answer(&mut base, &completion("{}", 2)).is_none());
    assert!(ChatTool::try_function_call(&mut base, &completion("{}", 2)).is_none());
    assert_eq!(base.usage, u64::MAX - 1);
    assert_eq!(base.messages.len(), 1);
    let call = ChatTool::try_function_call(&mut base, &completion("x", 1)).unwrap().unwrap();
    assert_eq!(call.to_value(), value("null"));
    assert_eq!(base.usage, u64::MAX);
    let answer = ChatTool::try_json_answer(&mut base, &completion("[1]", 0)).unwrap().unwrap();
    assert_eq!(answer.to_value(), value("[1]"));
}

#[test]
fn answering_again_branches_beside_the_first_answer() {
    let mut chat = SingleChat::new_with_api_name(&config(), "small", "p", false);
    chat.begin_answer("q");
    chat.complete_answer(&completion("first", 1)).unwrap();
    let request = chat.begin_answer_again(&[0]).unwrap();
    assert!(request.member("messages").unwrap().item(1).is_some());
    assert!(request.member("messages").unwrap().item(2).is_none());
    chat.complete_answer(&completion("second", 1)).unwrap();
    assert_eq!(chat.base.messages.current_path(), &vec![0, 1]);
    let texts = |path: &[usize]| -> Vec<String> {
        chat.base.messages.resolve(path).unwrap().into_iter().map(|m| m.content).collect()
    };
    assert_eq!(texts(&[0, 0]), vec!["q", "first"]);
    assert_eq!(texts(&[0, 1]), vec!["q", "second"]);
}

#[test]
fn answer_with_end_path_continues_that_branch() {
    let mut chat = SingleChat::new_with_api_name(&config(), "small", "p", false);
    chat.begin_answer("q");
    chat.complete_answer(&completion("a", 1)).unwrap();
    chat.begin_answer("q2");
    let request = chat.begin_answer_with_end_path(&[0], "other question").unwrap();
    assert_eq!(
        request.member("messages").unwrap().item(2).unwrap().to_value(),
        value("{\"role\":\"user\",\"content\":\"other question\"}")
    );
    assert_eq!(chat.base.messages.current_path(), &vec![0, 1]);
    let before = chat.base.messages.len();
    assert_eq!(
        chat.begin_answer_with_end_path(&[0, 9], "x").unwrap_err(),
        ChatError::InvalidPath
    );
    assert_eq!(chat.begin_answer_again(&[4]).unwrap_err(), ChatError::InvalidPath);
    assert_eq!(chat.base.messages.len(), before);
    assert_eq!(chat.base.messages.current_path(), &vec![0, 1]);
}

#[test]
fn streamed_exchange_adds_the_collected_text() {
    let mut chat = SingleChat::new_with_api_name(&config(), "small", "p", true);
    let request = chat.begin_answer("q");
    assert_eq!(request.member("stream").unwrap().to_value(), value("true"));
    let chunks = vec![
        "{\"choices\":[{\"delta\":{\"content\":\"Hi\"}}]}".to_string(),
        "{\"choices\":[{\"delta\":{\"content\":\" there\"}}]}".to_string(),
        "[DONE]".to_string(),
    ];
    assert_eq!(chat.complete_streamed_answer(&chunks).unwrap(), "Hi there");
    assert_eq!(history(&chat.base)[1], (Role::Assistant, "Hi there".to_string()));
    chat.begin_answer("q2");
    let before = chat.base.messages.len();
    assert_eq!(
        chat.complete_streamed_answer(&vec!["[DONE]".to_string()]).unwrap_err(),
        ChatError::ParseResponseError
    );
    assert_eq!(chat.base.messages.len(), before);
    assert_eq!(chat.base.usage, 0);
}

#[test]
fn json_answer_starts_with_the_output_description() {
    let mut chat = SingleChat::new_with_api_name(&config(), "small", "p", false);
    assert_eq!(
        chat.begin_json_answer(None, "how many?").unwrap_err(),
        ChatError::AssembleOutputDescriptionError
    );
    assert_eq!(chat.base.messages.len(), 0);
    let request = chat.begin_json_answer(Some("Answer as {\"n\": number}"), "how many?").unwrap();
    assert_eq!(
        history(&chat.base),
        vec![
            (Role::System, "Answer as {\"n\": number}".to_string()),
            (Role::User, "how many?".to_string()),
        ]
    );
    assert_eq!(
        request.member("messages").unwrap().item(1).unwrap().to_value(),
        value("{\"role\":\"system\",\"content\":\"Answer as {\\\"n\\\": number}\"}")
    );
}

#[test]
fn set_tools_keeps_the_schema_and_adds_the_prompt() {
    let mut chat = SingleChat::new_with_api_name(&config(), "small", "p", false);
    let tool = Json::parse("{\"type\":\"function\",\"function\":{\"name\":\"callA\"}}").unwrap();
    chat.set_tools(vec![tool], "You can call callA");
    assert_eq!(chat.tools_schema.len(), 1);
    assert_eq!(history(&chat.base), vec![(Role::System, "You can call callA".to_string())]);
    assert_eq!(
        chat.tools_document().to_value(),
        value("{\"tools\":[{\"type\":\"function\",\"function\":{\"name\":\"callA\"}}]}")
    );
}

#[test]
fn response_format_and_tools_are_merged_into_objects_only() {
    let body = Json::parse("{\"model\":\"m\",\"stream\":false}").unwrap();
    let schema = Json::parse("{\"type\":\"json_schema\"}").unwrap();
    assert_eq!(
        add_response_format(body.clone(), schema.clone()).to_value(),
        value("{\"model\":\"m\",\"stream\":false,\"response_format\":{\"type\":\"json_schema\"}}")
    );
    assert_eq!(add_response_format(Json::from_i64(1), schema.clone()).to_value(), value("1"));
    let tools = Json::parse("{\"tools\":[1,2],\"stream\":true}").unwrap();
    assert_eq!(
        add_tools(body.clone(), tools.clone()).to_value(),
        value("{\"model\":\"m\",\"stream\":true,\"tools\":[1,2]}")
    );
    assert_eq!(add_tools(body.clone(), Json::Array(Vec::new())).to_value(), body.to_value());
    assert_eq!(add_tools(Json::Null, tools).to_value(), value("null"));
    let replaced = add_response_format(
        Json::parse("{\"response_format\":1}").unwrap(),
        Json::from_i64(2),
    );
    assert_eq!(replaced.to_value(), value("{\"response_format\":2}"));
}

#[test]
fn restating_session_for_json() {
    let config = config();
    let schema = Json::parse("{\"type\":\"object\"}").unwrap();
    let (mut base, request) = ChatTool::json_request(&config, "the answer is 3", schema);
    assert_eq!(base.model, "model-t");
    assert_eq!(base.character_prompt, "将输入内容整理为指定的json形式输出");
    assert_eq!(
        request.to_value(),
        value(
            "{\"model\":\"model-t\",\"stream\":false,\"response_format\":{\"type\":\"object\"},\
             \"messages\":[{\"role\":\"system\",\"content\":\"将输入内容整理为指定的json形式输出\"},\
             {\"role\":\"user\",\"content\":\"the answer is 3\"}]}"
        )
    );
    let answer = ChatTool::json_answer(&mut base, &completion("{\"n\":3}", 9)).unwrap();
    assert_eq!(answer.to_value(), value("{\"n\":3}"));
    assert_eq!(base.usage, 9);
    assert_eq!(history(&base)[1], (Role::Assistant, "{\"n\":3}".to_string()));
    assert_eq!(
        ChatTool::json_answer(&mut base, &Json::Null).unwrap_err(),
        ChatError::GetJsonError
    );
    let mut no_content = completion("x", 2);
    no_content.insert("choices", Json::Null);
    assert_eq!(
        ChatTool::json_answer(&mut base, &no_content).unwrap_err(),
        ChatError::GetJsonError
    );
    assert_eq!(base.usage, 11);
    assert_eq!(base.messages.len(), 2);
    assert_eq!(
        ChatTool::json_answer(&mut base, &completion("not json", 1)).unwrap_err(),
        ChatError::GetJsonError
    );
    assert_eq!(base.usage, 12);
    assert_eq!(history(&base)[2], (Role::Assistant, "not json".to_string()));
    assert_eq!(structured(Err("eof".to_string())).unwrap_err(), ChatError::GetJsonError);
    assert_eq!(structured(Ok(Json::from_i64(1))).unwrap().as_i64(), Some(1));
}

#[test]
fn resolving_session_for_a_function_call() {
    let config = config();
    let tools = Json::parse("{\"tools\":[{\"type\":\"function\"}]}").unwrap();
    let (mut base, request) = ChatTool::function_request(&config, "callA()", tools);
    assert_eq!(base.character_prompt, "根据输入的内容调用指定的函数");
    assert_eq!(
        request.to_value(),
        value(
            "{\"model\":\"model-t\",\"stream\":false,\"tools\":[{\"type\":\"function\"}],\
             \"messages\":[{\"role\":\"system\",\"content\":\"根据输入的内容调用指定的函数\"},\
             {\"role\":\"user\",\"content\":\"callA()\"}]}"
        )
    );
    let response = Json::parse(
        "{\"usage\":{\"total_tokens\":3},\"choices\":[{\"message\":{\"tool_calls\":[\
         {\"function\":{\"name\":\"callA\",\"arguments\":\"{}\"}}]}}]}",
    )
    .unwrap();
    let function = ChatTool::function_call(&mut base, &response).unwrap();
    assert_eq!(function.to_value(), value("{\"name\":\"callA\",\"arguments\":\"{}\"}"));
    assert_eq!(base.usage, 3);
    let none = ChatTool::function_call(&mut base, &completion("no call", 1)).unwrap();
    assert_eq!(none.to_value(), value("null"));
    assert_eq!(
        ChatTool::function_call(&mut base, &Json::object()).unwrap_err(),
        ChatError::GetFunctionError
    );
    assert_eq!(base.usage, 4);
    assert_eq!(base.messages.len(), 1);
}

#[test]
fn failed_first_exchange_becomes_an_extract_error() {
    assert_eq!(
        extract_failure(&ChatError::HttpError(503)),
        ToolCallError::ExtractFunctionCall(
            "Failed to get answer for tool call: HTTP error with status code: 503".to_string()
        )
    );
}
