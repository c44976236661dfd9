use llm_chat::errors::ChatError;
use llm_chat::json::Json;
use llm_chat::response::{
    decode_reply, get_content, get_delta, get_function_call, get_token_count, settle, TransportReply,
};
use llm_chat::stream::{collect_stream, StreamCollector};

fn response(status: u16, body: &str) -> TransportReply {
    TransportReply::Response { status, body: body.to_string() }
}

const COMPLETION: &str =
    "{\"choices\":[{\"message\":{\"role\":\"assistant\",\"content\":\"hello\"}}],\"usage\":{\"total_tokens\":42}}";

#[test]
fn decode_reads_the_body_of_a_success() {
    let json = decode_reply(&response(200, COMPLETION)).unwrap();
    assert_eq!(get_content(&json), Some("hello"));
    assert_eq!(get_token_count(&json), Some(42));
    assert!(decode_reply(&response(299, "{}")).is_ok());
}

#[test]
fn decode_maps_statuses_and_failures() {
    assert_eq!(decode_reply(&response(404, COMPLETION)).unwrap_err(), ChatError::HttpError(404));
    assert_eq!(decode_reply(&response(500, "")).unwrap_err(), ChatError::HttpError(500));
    assert_eq!(decode_reply(&response(199, "{}")).unwrap_err(), ChatError::HttpError(199));
    assert_eq!(decode_reply(&response(300, "{}")).unwrap_err(), ChatError::HttpError(300));
    assert_eq!(decode_reply(&TransportReply::Failed).unwrap_err(), ChatError::UnknownError);
    assert_eq!(decode_reply(&response(200, "not json")).unwrap_err(), ChatError::ParseResponseError);
}

#[test]
fn settle_judges_status_before_body() {
    assert_eq!(settle(503, Some(Json::Null)).unwrap_err(), ChatError::HttpError(503));
    assert_eq!(settle(503, None).unwrap_err(), ChatError::HttpError(503));
    assert_eq!(settle(200, None).unwrap_err(), ChatError::ParseResponseError);
    assert_eq!(settle(204, Some(Json::from_i64(1))).unwrap().as_i64(), Some(1));
}

#[test]
fn content_needs_the_whole_walk() {
    let cases = [
        "{}",
        "{\"choices\":[]}",
        "{\"choices\":{}}",
        "{\"choices\":[{}]}",
        "{\"choices\":[{\"message\":{}}]}",
        "{\"choices\":[{\"message\":{\"content\":null}}]}",
        "{\"choices\":[{\"message\":{\"content\":5}}]}",
        "{\"choices\":[{\"delta\":{\"content\":\"x\"}}]}",
    ];
    for body in cases {
        assert_eq!(get_content(&Json::parse(body).unwrap()), None);
    }
    let second = "{\"choices\":[{\"message\":{\"content\":\"a\"}},{\"message\":{\"content\":\"b\"}}]}";
    assert_eq!(get_content(&Json::parse(second).unwrap()), Some("a"));
}

#[test]
fn token_count_must_be_a_count() {
    let count = |body: &str| get_token_count(&Json::parse(body).unwrap());
    assert_eq!(count("{\"usage\":{\"total_tokens\":0}}"), Some(0));
    assert_eq!(count("{\"usage\":{\"total_tokens\":9223372036854775807}}"), Some(i64::MAX as u64));
    assert_eq!(count("{}"), None);
    assert_eq!(count("{\"usage\":{}}"), None);
    assert_eq!(count("{\"usage\":{\"total_tokens\":\"42\"}}"), None);
    assert_eq!(count("{\"usage\":{\"total_tokens\":null}}"), None);
    assert_eq!(count("{\"usage\":{\"total_tokens\":1.5}}"), None);
    assert_eq!(count("{\"usage\":{\"total_tokens\":-1}}"), None);
    assert_eq!(count("{\"usage\":42}"), None);
}

#[test]
fn function_call_is_the_first_tool_call() {
    let body = "{\"choices\":[{\"message\":{\"tool_calls\":[{\"function\":{\"name\":\"f\",\"arguments\":\"{}\"}},{\"function\":{\"name\":\"g\"}}]}}]}";
    let json = Json::parse(body).unwrap();
    let function = get_function_call(&json).unwrap();
    assert_eq!(function.member("name").unwrap().as_str(), Some("f"));
    assert!(get_function_call(&Json::parse(COMPLETION).unwrap()).is_none());
    assert!(get_function_call(&Json::parse("{\"choices\":[{\"message\":{\"tool_calls\":[]}}]}").unwrap()).is_none());
}

fn chunk(fragment: &str) -> String {
    let mut delta = Json::object();
    delta.insert("content", Json::from_text(fragment));
    let mut choice = Json::object();
    choice.insert("delta", delta);
    let mut event = Json::object();
    event.insert("choices", Json::Array(vec![choice]));
    event.to_value().to_string()
}

#[test]
fn delta_of_a_chunk() {
    let json = Json::parse(&chunk("Hel")).unwrap();
    assert_eq!(get_delta(&json), Some("Hel"));
    assert_eq!(get_delta(&Json::parse(COMPLETION).unwrap()), None);
}

#[test]
fn stream_concatenates_in_arrival_order() {
    let chunks = vec![chunk("Hel"), chunk("lo"), chunk(", "), chunk("world")];
    assert_eq!(collect_stream(&chunks).unwrap(), "Hello, world");
    let reversed: Vec<String> = chunks.iter().rev().cloned().collect();
    assert_eq!(collect_stream(&reversed).unwrap(), "world, loHel");
}

#[test]
fn stream_skips_what_does_not_parse() {
    let chunks = vec![
        "garbage".to_string(),
        chunk("a"),
        "{\"choices\":[]}".to_string(),
        ": keep-alive".to_string(),
        chunk("b"),
        "{\"choices\":[{\"delta\":{}}]}".to_string(),
    ];
    assert_eq!(collect_stream(&chunks).unwrap(), "ab");
}

#[test]
fn stream_stops_at_the_end_marker() {
    let chunks = vec![chunk("a"), "[DONE]".to_string(), chunk("b")];
    assert_eq!(collect_stream(&chunks).unwrap(), "a");
}

#[test]
fn stream_without_content_is_a_parse_error() {
    assert_eq!(collect_stream(&Vec::new()).unwrap_err(), ChatError::ParseResponseError);
    let noise = vec!["x".to_string(), "{}".to_string()];
    assert_eq!(collect_stream(&noise).unwrap_err(), ChatError::ParseResponseError);
    let ended = vec!["[DONE]".to_string(), chunk("late")];
    assert_eq!(collect_stream(&ended).unwrap_err(), ChatError::ParseResponseError);
}

#[test]
fn empty_fragment_counts_as_content() {
    assert_eq!(collect_stream(&vec![chunk("")]).unwrap(), "");
}

#[test]
fn collector_takes_chunks_one_by_one() {
    let mut collector = StreamCollector::new();
    assert!(!collector.produced && !collector.ended);
    collector.feed(&chunk("one"));
    collector.feed("noise");
    assert_eq!(collector.text, "one");
    assert!(collector.produced);
    collector.extend(Some(" two"));
    collector.extend(None);
    collector.feed("[DONE]");
    assert!(collector.ended);
    collector.feed(&chunk("three"));
    assert_eq!(collector.finish().unwrap(), "one two");
}
