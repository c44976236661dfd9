use llm_chat::directive::{extract_tool_uses, strip_tool_uses};
use llm_chat::tool_run::ToolRun;

#[test]
fn answer_with_one_directive_is_split() {
    let answer = "ok <ToolUse>callA</ToolUse> done";
    assert_eq!(extract_tool_uses(answer), vec!["callA".to_string()]);
    assert_eq!(strip_tool_uses(answer), "ok  done");
}

#[test]
fn text_without_directives_is_unchanged() {
    for text in ["", "plain text", "a < b > c", "<Tool>x</Tool>", "ToolUse"] {
        assert!(extract_tool_uses(text).is_empty());
        assert_eq!(strip_tool_uses(text), text);
        let run = ToolRun::start(text.to_string());
        assert_eq!(run.clean_answer, text);
        assert!(run.calls.is_empty());
    }
}

#[test]
fn directives_come_out_in_order_of_appearance() {
    let answer = "<ToolUse>b()</ToolUse>x<ToolUse>a()</ToolUse>y<ToolUse>b()</ToolUse>";
    assert_eq!(extract_tool_uses(answer), vec!["b()", "a()", "b()"]);
    assert_eq!(strip_tool_uses(answer), "xy");
}

#[test]
fn unbalanced_tags_are_left_untouched() {
    let no_close = "start <ToolUse>never closed";
    assert!(extract_tool_uses(no_close).is_empty());
    assert_eq!(strip_tool_uses(no_close), no_close);
    let no_open = "only closed</ToolUse> here";
    assert!(extract_tool_uses(no_open).is_empty());
    assert_eq!(strip_tool_uses(no_open), no_open);
    let tail = "<ToolUse>a</ToolUse> then <ToolUse>open";
    assert_eq!(extract_tool_uses(tail), vec!["a"]);
    assert_eq!(strip_tool_uses(tail), " then <ToolUse>open");
}

#[test]
fn close_tag_before_open_tag_is_skipped() {
    let answer = "</ToolUse>a<ToolUse>b</ToolUse>c";
    assert_eq!(extract_tool_uses(answer), vec!["b"]);
    assert_eq!(strip_tool_uses(answer), "</ToolUse>ac");
}

#[test]
fn empty_and_nested_looking_call_text() {
    assert_eq!(extract_tool_uses("<ToolUse></ToolUse>"), vec![""]);
    assert_eq!(strip_tool_uses("<ToolUse></ToolUse>"), "");
    let nested = "<ToolUse>a<ToolUse>b</ToolUse>c</ToolUse>";
    assert_eq!(extract_tool_uses(nested), vec!["a<ToolUse>b"]);
    assert_eq!(strip_tool_uses(nested), "c</ToolUse>");
}

#[test]
fn tags_are_case_sensitive_and_text_may_be_any_unicode() {
    let answer = "前 <tooluse>x</tooluse> <ToolUse>调用(\"é\")</ToolUse> 后";
    assert_eq!(extract_tool_uses(answer), vec!["调用(\"é\")"]);
    assert_eq!(strip_tool_uses(answer), "前 <tooluse>x</tooluse>  后");
}
