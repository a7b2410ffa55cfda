use responses_api_proxy::json::{parse_json, write_json, Json};
use responses_api_proxy::proxy::{translate_request_body, BodyError};
use responses_api_proxy::request::{transform_request_to_chat, TransformError};
use responses_api_proxy::stream::transform_chat_sse_to_responses;

fn parse(text: &str) -> Json {
    parse_json(text).expect("valid JSON")
}

fn str_of(v: Option<&Json>) -> Option<&str> {
    match v {
        Some(Json::Str(s)) => Some(s.as_str()),
        _ => None,
    }
}

fn array_of(v: Option<&Json>) -> &Vec<Json> {
    match v {
        Some(Json::Array(a)) => a,
        _ => panic!("not an array"),
    }
}

#[test]
fn test_transform_simple_request() {
    let responses_req = parse(
        r#"{
            "model": "gpt-4",
            "instructions": "You are a helpful assistant.",
            "input": [
                {
                    "type": "message",
                    "role": "user",
                    "content": [{"type": "input_text", "text": "Hello!"}]
                }
            ],
            "tools": [],
            "stream": true
        }"#,
    );

    let chat_req = transform_request_to_chat(responses_req).unwrap();

    assert_eq!(str_of(chat_req.get("model")), Some("gpt-4"));
    assert!(matches!(chat_req.get("stream"), Some(Json::Bool(true))));

    let messages = array_of(chat_req.get("messages"));
    assert_eq!(messages.len(), 2); // system + user
    assert_eq!(str_of(messages[0].get("role")), Some("system"));
    assert_eq!(str_of(messages[1].get("role")), Some("user"));
}

#[test]
fn test_transform_chat_sse_content() {
    let chat_sse =
        r#"data: {"id":"chatcmpl-123","choices":[{"delta":{"content":"Hello"},"index":0}]}"#;

    let result = transform_chat_sse_to_responses(chat_sse).unwrap();

    assert!(result.contains("response.output_item.delta"));
    assert!(result.contains("Hello"));
    assert!(result.contains("output_text"));
}

#[test]
fn test_transform_chat_sse_done() {
    let chat_sse = "data: [DONE]";

    let result = transform_chat_sse_to_responses(chat_sse).unwrap();

    assert!(result.contains("response.done"));
}

#[test]
fn done_sentinel_gives_exactly_one_done_frame() {
    let result = transform_chat_sse_to_responses("data: [DONE]").unwrap();
    assert_eq!(result, "data: {\"type\":\"response.done\"}\n\n");
    let padded = transform_chat_sse_to_responses("data:  [DONE]  ").unwrap();
    assert_eq!(padded, "data: {\"type\":\"response.done\"}\n\n");
}

#[test]
fn blank_lines_stay_blank() {
    assert_eq!(transform_chat_sse_to_responses(""), Some(String::new()));
    assert_eq!(transform_chat_sse_to_responses("   \t"), Some(String::new()));
}

#[test]
fn non_data_lines_pass_through() {
    assert_eq!(
        transform_chat_sse_to_responses(": keep-alive"),
        Some(": keep-alive".to_string())
    );
    assert_eq!(
        transform_chat_sse_to_responses("event: ping"),
        Some("event: ping".to_string())
    );
}

#[test]
fn malformed_data_passes_through() {
    assert_eq!(
        transform_chat_sse_to_responses("data: {not json"),
        Some("data: {not json".to_string())
    );
}

#[test]
fn json_without_choices_gives_no_output() {
    assert_eq!(transform_chat_sse_to_responses(r#"data: {"id":"x"}"#), None);
    assert_eq!(
        transform_chat_sse_to_responses(r#"data: {"choices":[{"index":0}]}"#),
        None
    );
}

#[test]
fn content_delta_yields_one_message_event() {
    let line = r#"data: {"id":"chatcmpl-123","choices":[{"delta":{"content":"Hello"},"index":0}]}"#;
    let result = transform_chat_sse_to_responses(line).unwrap();
    assert_eq!(result.matches("data: ").count(), 1);
    assert!(result.ends_with("\n\n"));
    let event = parse(result.strip_prefix("data: ").unwrap().trim_end());
    assert_eq!(str_of(event.get("type")), Some("response.output_item.delta"));
    assert_eq!(str_of(event.get("delta")), Some("Hello"));
    let item = event.get("item").unwrap();
    assert_eq!(str_of(item.get("type")), Some("message"));
    assert_eq!(str_of(item.get("role")), Some("assistant"));
    assert_eq!(
        str_of(event.get("response").unwrap().get("id")),
        Some("chatcmpl-123")
    );
}

#[test]
fn events_of_one_line_keep_their_order() {
    let line = r#"data: {"choices":[{"delta":{"reasoning":"think","content":"say","tool_calls":[{"function":{"name":"f","arguments":"{}"}}]},"finish_reason":"tool_calls"}]}"#;
    let result = transform_chat_sse_to_responses(line).unwrap();
    let frames: Vec<&str> = result
        .split("\n\n")
        .filter(|f| !f.is_empty())
        .collect();
    assert_eq!(frames.len(), 4);
    let events: Vec<Json> = frames
        .iter()
        .map(|f| parse(f.strip_prefix("data: ").unwrap()))
        .collect();
    assert_eq!(
        str_of(events[0].get("item").unwrap().get("type")),
        Some("reasoning")
    );
    assert_eq!(str_of(events[0].get("delta")), Some("think"));
    assert_eq!(
        str_of(events[1].get("item").unwrap().get("type")),
        Some("message")
    );
    let call = events[2].get("item").unwrap();
    assert_eq!(str_of(events[2].get("type")), Some("response.output_item.done"));
    assert_eq!(str_of(call.get("name")), Some("f"));
    assert_eq!(str_of(call.get("arguments")), Some("{}"));
    assert_eq!(str_of(call.get("call_id")), Some("call-1"));
    assert_eq!(str_of(events[3].get("type")), Some("response.completed"));
    assert_eq!(
        str_of(events[3].get("response").unwrap().get("id")),
        Some("resp-1")
    );
}

#[test]
fn reasoning_object_content_is_used() {
    let line = r#"data: {"id":"r9","choices":[{"delta":{"reasoning":{"content":"deep"}}}]}"#;
    let result = transform_chat_sse_to_responses(line).unwrap();
    let event = parse(result.strip_prefix("data: ").unwrap().trim_end());
    assert_eq!(str_of(event.get("delta")), Some("deep"));
    assert_eq!(
        str_of(event.get("item").unwrap().get("type")),
        Some("reasoning")
    );
}

#[test]
fn stop_finish_reason_completes() {
    let line = r#"data: {"id":"r2","choices":[{"delta":{},"finish_reason":"stop"}]}"#;
    let result = transform_chat_sse_to_responses(line).unwrap();
    let event = parse(result.strip_prefix("data: ").unwrap().trim_end());
    assert_eq!(str_of(event.get("type")), Some("response.completed"));
    let other = r#"data: {"id":"r2","choices":[{"delta":{},"finish_reason":"length"}]}"#;
    assert_eq!(transform_chat_sse_to_responses(other), None);
}

#[test]
fn function_call_item_becomes_tool_call_message() {
    let body = parse(
        r#"{"model":"m","input":[{"type":"function_call","name":"f","arguments":"{}","call_id":"c1"}]}"#,
    );
    let chat = transform_request_to_chat(body).unwrap();
    let messages = array_of(chat.get("messages"));
    assert_eq!(messages.len(), 1);
    let m = &messages[0];
    assert_eq!(str_of(m.get("role")), Some("assistant"));
    assert!(matches!(m.get("content"), Some(Json::Null)));
    let calls = array_of(m.get("tool_calls"));
    assert_eq!(calls.len(), 1);
    assert_eq!(str_of(calls[0].get("id")), Some("c1"));
    assert_eq!(str_of(calls[0].get("type")), Some("function"));
    let function = calls[0].get("function").unwrap();
    assert_eq!(str_of(function.get("name")), Some("f"));
    assert_eq!(str_of(function.get("arguments")), Some("{}"));
}

#[test]
fn function_call_output_contents() {
    let body = parse(
        r#"{"model":"m","input":[
            {"type":"function_call_output","call_id":"a","output":"plain"},
            {"type":"function_call_output","call_id":"b","output":{"content":"inner"}},
            {"type":"function_call_output","call_id":"c","output":[1,2]},
            {"type":"function_call_output","call_id":"d"},
            {"type":"function_call_output","call_id":"e","output":{"content":true}},
            {"type":"function_call_output","call_id":"f","output":{"content":["x",2]}},
            {"type":"function_call_output","call_id":"g","output":{"other":1}}
        ]}"#,
    );
    let chat = transform_request_to_chat(body).unwrap();
    let messages = array_of(chat.get("messages"));
    assert_eq!(messages.len(), 6);
    assert_eq!(str_of(messages[3].get("tool_call_id")), Some("e"));
    assert!(matches!(messages[3].get("content"), Some(Json::Bool(true))));
    assert_eq!(str_of(messages[4].get("tool_call_id")), Some("f"));
    let inner = array_of(messages[4].get("content"));
    assert_eq!(inner.len(), 2);
    assert!(matches!(&inner[0], Json::Str(s) if s == "x"));
    assert_eq!(str_of(messages[5].get("content")), Some(r#"{"other":1}"#));
    assert_eq!(str_of(messages[0].get("role")), Some("tool"));
    assert_eq!(str_of(messages[0].get("tool_call_id")), Some("a"));
    assert_eq!(str_of(messages[0].get("content")), Some("plain"));
    assert_eq!(str_of(messages[1].get("content")), Some("inner"));
    assert_eq!(str_of(messages[2].get("content")), Some("[1,2]"));
}

#[test]
fn empty_content_skipped_except_for_assistant() {
    let body = parse(
        r#"{"model":"m","instructions":"","input":[
            {"role":"user","content":""},
            {"role":"assistant","content":[]},
            {"role":"user","content":"hi"},
            {"type":"unknown"}
        ]}"#,
    );
    let chat = transform_request_to_chat(body).unwrap();
    let messages = array_of(chat.get("messages"));
    assert_eq!(messages.len(), 2);
    assert_eq!(str_of(messages[0].get("role")), Some("assistant"));
    assert_eq!(str_of(messages[0].get("content")), Some(""));
    assert_eq!(str_of(messages[1].get("content")), Some("hi"));
    assert!(chat.get("tools").is_none());
}

#[test]
fn tools_are_attached_verbatim() {
    let body = parse(r#"{"model":"m","input":[],"tools":[{"type":"function","name":"t"}]}"#);
    let chat = transform_request_to_chat(body).unwrap();
    let tools = array_of(chat.get("tools"));
    assert_eq!(tools.len(), 1);
    assert_eq!(str_of(tools[0].get("name")), Some("t"));
}

#[test]
fn request_errors() {
    assert_eq!(
        transform_request_to_chat(parse(r#"{"input":[]}"#)).err(),
        Some(TransformError::MissingModel)
    );
    assert_eq!(
        transform_request_to_chat(parse(r#"{"model":3,"input":[]}"#)).err(),
        Some(TransformError::MissingModel)
    );
    assert_eq!(
        transform_request_to_chat(parse(r#"{"model":"m","input":"x"}"#)).err(),
        Some(TransformError::InvalidInput)
    );
    assert_eq!(
        translate_request_body("not json").err(),
        Some(BodyError::NotJson)
    );
    assert_eq!(
        translate_request_body(r#"{"model":"m"}"#).err(),
        Some(BodyError::Malformed(TransformError::InvalidInput))
    );
}

#[test]
fn end_to_end_request_body() {
    let out = translate_request_body(
        r#"{"model":"gpt-4","instructions":"You are a helpful assistant.","input":[{"role":"user","content":[{"type":"input_text","text":"Hello!"}]}],"tools":[]}"#,
    )
    .unwrap();
    let chat = parse(&out);
    let messages = array_of(chat.get("messages"));
    assert_eq!(messages.len(), 2);
    assert_eq!(str_of(messages[0].get("role")), Some("system"));
    assert_eq!(
        str_of(messages[0].get("content")),
        Some("You are a helpful assistant.")
    );
    assert_eq!(str_of(messages[1].get("role")), Some("user"));
    assert_eq!(str_of(messages[1].get("content")), Some("Hello!"));
    assert!(matches!(chat.get("stream"), Some(Json::Bool(true))));
    assert_eq!(str_of(chat.get("model")), Some("gpt-4"));
}

#[test]
fn json_text_is_compact() {
    let v = parse(r#"{ "a" : [ 1 , "x" , null , true ] }"#);
    assert_eq!(write_json(&v), r#"{"a":[1,"x",null,true]}"#);
}

#[test]
fn unreadable_reasoning_leaves_other_rules_alone() {
    let line = r#"data: {"choices":[{"delta":{"reasoning":null,"content":"Hi"}}]}"#;
    let result = transform_chat_sse_to_responses(line).unwrap();
    assert_eq!(result.matches("data: ").count(), 1);
    let event = parse(result.strip_prefix("data: ").unwrap().trim_end());
    assert_eq!(str_of(event.get("type")), Some("response.output_item.delta"));
    assert_eq!(str_of(event.get("delta")), Some("Hi"));
    assert_eq!(
        str_of(event.get("item").unwrap().get("type")),
        Some("message")
    );
    let full = r#"data: {"choices":[{"delta":{"reasoning":5,"content":"x","tool_calls":[{"id":"t","function":{"name":"f","arguments":"{}"}}]},"finish_reason":"stop"}]}"#;
    let result = transform_chat_sse_to_responses(full).unwrap();
    let frames: Vec<&str> = result.split("\n\n").filter(|f| !f.is_empty()).collect();
    assert_eq!(frames.len(), 3);
    let types: Vec<String> = frames
        .iter()
        .map(|f| {
            let e = parse(f.strip_prefix("data: ").unwrap());
            str_of(e.get("type")).unwrap().to_string()
        })
        .collect();
    assert_eq!(
        types,
        vec![
            "response.output_item.delta",
            "response.output_item.done",
            "response.completed"
        ]
    );
    let empty = r#"data: {"choices":[{"delta":{"reasoning":{}}}]}"#;
    assert_eq!(transform_chat_sse_to_responses(empty), None);
}

#[test]
fn tool_call_without_arguments_is_skipped() {
    let line = r#"data: {"choices":[{"delta":{"tool_calls":[{"id":"t1","function":{"name":"f"}},{"id":"t2","function":{"name":"g","arguments":"{\"a\":1}"}}]}}]}"#;
    let result = transform_chat_sse_to_responses(line).unwrap();
    assert_eq!(result.matches("data: ").count(), 1);
    let event = parse(result.strip_prefix("data: ").unwrap().trim_end());
    let item = event.get("item").unwrap();
    assert_eq!(str_of(item.get("call_id")), Some("t2"));
    assert_eq!(str_of(item.get("name")), Some("g"));
    assert_eq!(str_of(item.get("arguments")), Some("{\"a\":1}"));
}
