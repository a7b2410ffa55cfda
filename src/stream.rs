//! Translation of a Chat Completions event stream into Responses events, one
//! line at a time.
use vstd::prelude::*;

use crate::json::{
    arr1, json_text, lookup, obj1, obj2, obj3, obj4, parse_json, parsed_json, push_value, views,
    write_json, Json, JsonValue,
};
use crate::text::{
    all_space, chars_of, has_prefix, is_blank, lead_len, opt_text, owned, range_is, starts_with,
    str_eq, string_views, trail_len, trim, trim_bounds,
};

verus! {

/// The object `{"id": rid}` naming the response an event belongs to.
pub open spec fn response_ref(rid: Seq<char>) -> JsonValue {
    JsonValue::Object(seq![("id"@, JsonValue::Str(rid))])
}

/// An `output_item.delta` event carrying reasoning text.
pub open spec fn reasoning_event(rid: Seq<char>, text: Seq<char>) -> JsonValue {
    JsonValue::Object(
        seq![
            ("type"@, JsonValue::Str("response.output_item.delta"@)),
            ("response"@, response_ref(rid)),
            ("item"@, JsonValue::Object(seq![
                ("type"@, JsonValue::Str("reasoning"@)),
                ("content"@, JsonValue::Array(seq![JsonValue::Object(seq![
                    ("type"@, JsonValue::Str("reasoning_text"@)),
                    ("text"@, JsonValue::Str(text)),
                ])])),
            ])),
            ("delta"@, JsonValue::Str(text)),
        ],
    )
}

/// An `output_item.delta` event carrying assistant message text.
pub open spec fn message_event(rid: Seq<char>, text: Seq<char>) -> JsonValue {
    JsonValue::Object(
        seq![
            ("type"@, JsonValue::Str("response.output_item.delta"@)),
            ("response"@, response_ref(rid)),
            ("item"@, JsonValue::Object(seq![
                ("type"@, JsonValue::Str("message"@)),
                ("role"@, JsonValue::Str("assistant"@)),
                ("content"@, JsonValue::Array(seq![JsonValue::Object(seq![
                    ("type"@, JsonValue::Str("output_text"@)),
                    ("text"@, JsonValue::Str(text)),
                ])])),
            ])),
            ("delta"@, JsonValue::Str(text)),
        ],
    )
}

/// An `output_item.done` event for a complete function call.
pub open spec fn function_call_event(
    rid: Seq<char>,
    name: Seq<char>,
    arguments: Seq<char>,
    call_id: Seq<char>,
) -> JsonValue {
    JsonValue::Object(
        seq![
            ("type"@, JsonValue::Str("response.output_item.done"@)),
            ("response"@, response_ref(rid)),
            ("item"@, JsonValue::Object(seq![
                ("type"@, JsonValue::Str("function_call"@)),
                ("name"@, JsonValue::Str(name)),
                ("arguments"@, JsonValue::Str(arguments)),
                ("call_id"@, JsonValue::Str(call_id)),
            ])),
        ],
    )
}

/// A `response.completed` event.
pub open spec fn completed_event(rid: Seq<char>) -> JsonValue {
    JsonValue::Object(
        seq![
            ("type"@, JsonValue::Str("response.completed"@)),
            ("response"@, response_ref(rid)),
        ],
    )
}

/// The reasoning text of a delta: `reasoning` itself when it is a string,
/// else its `content` field when that is a string.
pub open spec fn reasoning_text(delta: JsonValue) -> Option<Seq<char>> {
    match delta.get("reasoning"@) {
        Some(r) => match r.as_str() {
            Some(t) => Some(t),
            None => r.str_field("content"@),
        },
        None => None,
    }
}

/// The identifier of a tool call, `call-1` when it has none.
pub open spec fn call_id_of(call: JsonValue) -> Seq<char> {
    match call.str_field("id"@) {
        Some(id) => id,
        None => "call-1"@,
    }
}

/// The event of one tool call: one when its function has a string name and
/// string arguments, none otherwise.
pub open spec fn tool_call_events(call: JsonValue, rid: Seq<char>) -> Seq<JsonValue> {
    match call.get("function"@) {
        Some(f) => match (f.str_field("name"@), f.str_field("arguments"@)) {
            (Some(n), Some(a)) => seq![function_call_event(rid, n, a, call_id_of(call))],
            _ => Seq::empty(),
        },
        None => Seq::empty(),
    }
}

/// The events of a list of tool calls, in order.
pub open spec fn tool_calls_events(calls: Seq<JsonValue>, rid: Seq<char>) -> Seq<JsonValue>
    decreases calls.len(),
{
    if calls.len() == 0 {
        Seq::empty()
    } else {
        tool_calls_events(calls.drop_last(), rid) + tool_call_events(calls.last(), rid)
    }
}

/// Whether a choice ends the response.
pub open spec fn finishes(choice: JsonValue) -> bool {
    choice.str_field("finish_reason"@) == Some("stop"@) || choice.str_field("finish_reason"@)
        == Some("tool_calls"@)
}

/// The events of one choice: reasoning, then message text, then tool calls,
/// then completion, each rule applied on its own; none for a choice without
/// a delta.
pub open spec fn choice_events(choice: JsonValue, rid: Seq<char>) -> Seq<JsonValue> {
    match choice.get("delta"@) {
        None => Seq::empty(),
        Some(delta) => {
            let reasoning = match reasoning_text(delta) {
                Some(t) => seq![reasoning_event(rid, t)],
                None => Seq::empty(),
            };
            let message = match delta.str_field("content"@) {
                Some(t) => if t.len() > 0 {
                    seq![message_event(rid, t)]
                } else {
                    Seq::empty()
                },
                None => Seq::empty(),
            };
            let calls = match delta.array_field("tool_calls"@) {
                Some(cs) => tool_calls_events(cs, rid),
                None => Seq::empty(),
            };
            let done = if finishes(choice) {
                seq![completed_event(rid)]
            } else {
                Seq::empty()
            };
            reasoning + message + calls + done
        },
    }
}

/// The events of a list of choices, in order.
pub open spec fn choices_events(choices: Seq<JsonValue>, rid: Seq<char>) -> Seq<JsonValue>
    decreases choices.len(),
{
    if choices.len() == 0 {
        Seq::empty()
    } else {
        choices_events(choices.drop_last(), rid) + choice_events(choices.last(), rid)
    }
}

/// The response identifier of a chat event, `resp-1` when it has none.
pub open spec fn response_id(event: JsonValue) -> Seq<char> {
    match event.str_field("id"@) {
        Some(id) => id,
        None => "resp-1"@,
    }
}

/// The Responses events of a chat event; nothing when it has no `choices`
/// array.
pub open spec fn chat_events(event: JsonValue) -> Option<Seq<JsonValue>> {
    match event.array_field("choices"@) {
        Some(cs) => Some(choices_events(cs, response_id(event))),
        None => None,
    }
}

/// Server-Sent-Events data frames around each text, in order.
pub open spec fn frames(texts: Seq<Seq<char>>) -> Seq<char>
    decreases texts.len(),
{
    if texts.len() == 0 {
        Seq::empty()
    } else {
        frames(texts.drop_last()) + "data: "@ + texts.last() + "\n\n"@
    }
}

/// The compact texts of a list of events.
pub open spec fn event_texts(events: Seq<JsonValue>) -> Seq<Seq<char>> {
    Seq::new(events.len(), |i: int| json_text(events[i]))
}

/// The frame that ends a Responses stream.
pub open spec fn done_frame() -> Seq<char> {
    "data: {\"type\":\"response.done\"}\n\n"@
}

/// What one upstream line becomes: `Some(text)` to write `text` downstream,
/// `None` to write nothing for it.
pub open spec fn translate_line(line: Seq<char>) -> Option<Seq<char>> {
    if is_blank(line) {
        Some(Seq::empty())
    } else if !starts_with(line, "data: "@) {
        Some(line)
    } else {
        let payload = line.skip(6);
        if trim(payload) == "[DONE]"@ {
            Some(done_frame())
        } else {
            match parsed_json(payload) {
                None => Some(line),
                Some(event) => match chat_events(event) {
                    None => None,
                    Some(events) => if events.len() == 0 {
                        None
                    } else {
                        Some(frames(event_texts(events)))
                    },
                },
            }
        }
    }
}

/// The model of an optional string reference.
pub open spec fn opt_str(r: Option<&String>) -> Option<Seq<char>> {
    match r {
        Some(s) => Some(s@),
        None => None,
    }
}

fn response_ref_json(rid: &str) -> (r: Json)
    ensures
        r@ == response_ref(rid@),
{
    obj1("id", Json::string(rid))
}

fn reasoning_event_json(rid: &str, text: &str) -> (r: Json)
    ensures
        r@ == reasoning_event(rid@, text@),
{
    let block = obj2("type", Json::string("reasoning_text"), "text", Json::string(text));
    let item = obj2("type", Json::string("reasoning"), "content", arr1(block));
    obj4(
        "type",
        Json::string("response.output_item.delta"),
        "response",
        response_ref_json(rid),
        "item",
        item,
        "delta",
        Json::string(text),
    )
}

fn message_event_json(rid: &str, text: &str) -> (r: Json)
    ensures
        r@ == message_event(rid@, text@),
{
    let block = obj2("type", Json::string("output_text"), "text", Json::string(text));
    let item = obj3(
        "type",
        Json::string("message"),
        "role",
        Json::string("assistant"),
        "content",
        arr1(block),
    );
    obj4(
        "type",
        Json::string("response.output_item.delta"),
        "response",
        response_ref_json(rid),
        "item",
        item,
        "delta",
        Json::string(text),
    )
}

fn function_call_event_json(rid: &str, name: &str, arguments: &str, call_id: &str) -> (r: Json)
    ensures
        r@ == function_call_event(rid@, name@, arguments@, call_id@),
{
    let item = obj4(
        "type",
        Json::string("function_call"),
        "name",
        Json::string(name),
        "arguments",
        Json::string(arguments),
        "call_id",
        Json::string(call_id),
    );
    obj3(
        "type",
        Json::string("response.output_item.done"),
        "response",
        response_ref_json(rid),
        "item",
        item,
    )
}

fn completed_event_json(rid: &str) -> (r: Json)
    ensures
        r@ == completed_event(rid@),
{
    obj2("type", Json::string("response.completed"), "response", response_ref_json(rid))
}

fn reasoning_text_of(delta: &Json) -> (r: Option<&String>)
    ensures
        opt_str(r) == reasoning_text(delta@),
{
    match delta.get("reasoning") {
        Some(reasoning) => match reasoning {
            Json::Str(t) => Some(t),
            _ => reasoning.get_str("content"),
        },
        None => None,
    }
}

/// Appends the events of one tool call to `out`.
fn push_tool_call_events(call: &Json, rid: &str, out: &mut Vec<Json>)
    ensures
        views(final(out)@) == views(old(out)@) + tool_call_events(call@, rid@),
{
    if let Some(function) = call.get("function") {
        if let (Some(name), Some(arguments)) = (function.get_str("name"), function.get_str("arguments")) {
            let call_id = match call.get_str("id") {
                Some(id) => id.clone(),
                None => owned("call-1"),
            };
            let e = function_call_event_json(rid, name.as_str(), arguments.as_str(), call_id.as_str());
            push_value(out, e);
            return;
        }
    }
    assert(views(out@) =~= views(out@) + Seq::<JsonValue>::empty());
}

/// Appends the events of one choice to `out`.
pub fn push_choice_events(choice: &Json, rid: &str, out: &mut Vec<Json>)
    ensures
        views(final(out)@) == views(old(out)@) + choice_events(choice@, rid@),
{
    let ghost start = views(out@);
    let delta = match choice.get("delta") {
        Some(d) => d,
        None => {
            assert(start =~= start + Seq::<JsonValue>::empty());
            return;
        },
    };
    let ghost d = delta@;
    let ghost reasoning = match reasoning_text(d) {
        Some(t) => seq![reasoning_event(rid@, t)],
        None => Seq::<JsonValue>::empty(),
    };
    let ghost message = match d.str_field("content"@) {
        Some(t) => if t.len() > 0 {
            seq![message_event(rid@, t)]
        } else {
            Seq::<JsonValue>::empty()
        },
        None => Seq::<JsonValue>::empty(),
    };
    if let Some(t) = reasoning_text_of(delta) {
        push_value(out, reasoning_event_json(rid, t.as_str()));
    }
    assert(views(out@) =~= start + reasoning);
    if let Some(t) = delta.get_str("content") {
        if !t.as_str().is_empty() {
            push_value(out, message_event_json(rid, t.as_str()));
        }
    }
    assert(views(out@) =~= start + reasoning + message);
    let ghost before_calls = views(out@);
    if let Some(calls) = delta.get_array("tool_calls") {
        let mut i: usize = 0;
        while i < calls.len()
            invariant
                i <= calls@.len(),
                views(out@) == before_calls + tool_calls_events(views(calls@).take(i as int), rid@),
            decreases calls.len() - i,
        {
            proof {
                assert(views(calls@).take(i + 1).drop_last() =~= views(calls@).take(i as int));
                assert(views(calls@).take(i + 1).last() == calls@[i as int]@);
            }
            push_tool_call_events(&calls[i], rid, out);
            i += 1;
        }
        assert(views(calls@).take(calls@.len() as int) =~= views(calls@));
    } else {
        assert(views(out@) =~= before_calls + Seq::<JsonValue>::empty());
    }
    let ghost before_done = views(out@);
    let finished = match choice.get_str("finish_reason") {
        Some(reason) => str_eq(reason.as_str(), "stop") || str_eq(reason.as_str(), "tool_calls"),
        None => false,
    };
    if finished {
        push_value(out, completed_event_json(rid));
    } else {
        assert(views(out@) =~= before_done + Seq::<JsonValue>::empty());
    }
    assert(views(out@) =~= start + choice_events(choice@, rid@));
}

/// The Responses events of one chat event, or `None` when it carries no
/// `choices` array.
pub fn chat_event_to_responses(event: &Json) -> (r: Option<Vec<Json>>)
    ensures
        match r {
            Some(v) => chat_events(event@) == Some(views(v@)),
            None => chat_events(event@) is None,
        },
{
    let choices = match event.get_array("choices") {
        Some(cs) => cs,
        None => return None,
    };
    let rid = match event.get_str("id") {
        Some(id) => id.clone(),
        None => owned("resp-1"),
    };
    let mut out: Vec<Json> = Vec::new();
    let mut i: usize = 0;
    assert(views(out@) =~= choices_events(views(choices@).take(0), rid@));
    while i < choices.len()
        invariant
            i <= choices@.len(),
            views(out@) == choices_events(views(choices@).take(i as int), rid@),
        decreases choices.len() - i,
    {
        proof {
            assert(views(choices@).take(i + 1).drop_last() =~= views(choices@).take(i as int));
            assert(views(choices@).take(i + 1).last() == choices@[i as int]@);
        }
        push_choice_events(&choices[i], rid.as_str(), &mut out);
        i += 1;
    }
    assert(views(choices@).take(choices@.len() as int) =~= views(choices@));
    Some(out)
}

/// Wraps each text in a Server-Sent-Events data frame and joins the frames.
pub fn frame_events(texts: &Vec<String>) -> (r: String)
    ensures
        r@ == frames(string_views(texts@)),
{
    let mut out = String::new();
    let mut i: usize = 0;
    assert(string_views(texts@).take(0) =~= Seq::<Seq<char>>::empty());
    while i < texts.len()
        invariant
            i <= texts@.len(),
            out@ == frames(string_views(texts@).take(i as int)),
        decreases texts.len() - i,
    {
        proof {
            assert(string_views(texts@).take(i + 1).drop_last() =~= string_views(texts@).take(i as int));
        }
        out.append("data: ");
        out.append(texts[i].as_str());
        out.append("\n\n");
        i += 1;
    }
    assert(string_views(texts@).take(texts@.len() as int) =~= string_views(texts@));
    out
}

/// The compact texts of the events, in order.
fn event_texts_of(events: &Vec<Json>) -> (r: Vec<String>)
    ensures
        string_views(r@) == event_texts(views(events@)),
{
    let mut out: Vec<String> = Vec::new();
    let mut i: usize = 0;
    while i < events.len()
        invariant
            i <= events@.len(),
            out@.len() == i,
            forall|j: int| 0 <= j < i ==> #[trigger] out@[j]@ == json_text(events@[j]@),
        decreases events.len() - i,
    {
        out.push(write_json(&events[i]));
        i += 1;
    }
    assert(string_views(out@) =~= event_texts(views(events@)));
    out
}

/// Translates one line of a Chat Completions event stream into the text to
/// write downstream in the Responses stream, or `None` when nothing is to be
/// written for it.
///
/// A blank line stays blank, a line that is not a data line passes through,
/// the termination sentinel becomes a `response.done` frame, a data line that
/// is not JSON passes through, and a JSON event yields one frame per
/// Responses event that it carries (nothing when it carries none).
pub fn transform_chat_sse_to_responses(line: &str) -> (r: Option<String>)
    ensures
        opt_text(r) == translate_line(line@),
{
    let cs = chars_of(line);
    if all_space(cs.as_slice()) {
        return Some(String::new());
    }
    if !has_prefix(cs.as_slice(), "data: ") {
        return Some(owned(line));
    }
    proof {
        reveal_strlit("data: ");
    }
    let payload = line.substring_char(6, cs.len());
    assert(payload@ =~= line@.skip(6));
    let pcs = chars_of(payload);
    let (start, end) = trim_bounds(pcs.as_slice());
    if range_is(pcs.as_slice(), start, end, "[DONE]") {
        return Some(owned("data: {\"type\":\"response.done\"}\n\n"));
    }
    match parse_json(payload) {
        None => Some(owned(line)),
        Some(event) => match chat_event_to_responses(&event) {
            None => None,
            Some(events) => {
                if events.len() == 0 {
                    None
                } else {
                    let texts = event_texts_of(&events);
                    Some(frame_events(&texts))
                }
            },
        },
    }
}

/// A line made of white space only is written back as a blank line.
pub proof fn lemma_blank_line_stays_blank(line: Seq<char>)
    requires
        is_blank(line),
    ensures
        translate_line(line) == Some(Seq::<char>::empty()),
{
}

/// A data line does not count as blank.
proof fn lemma_data_line_not_blank(payload: Seq<char>)
    ensures
        !is_blank("data: "@ + payload),
        starts_with("data: "@ + payload, "data: "@),
        ("data: "@ + payload).skip(6) == payload,
{
    reveal_strlit("data: ");
    let line = "data: "@ + payload;
    assert(line[0] == 'd');
    assert(line.take(6) =~= "data: "@);
    assert(line.skip(6) =~= payload);
}

/// The termination sentinel becomes exactly one `response.done` frame,
/// whatever came before it on the stream.
pub proof fn lemma_done_sentinel()
    ensures
        translate_line("data: [DONE]"@) == Some(done_frame()),
{
    reveal_strlit("data: [DONE]");
    reveal_strlit("data: ");
    reveal_strlit("[DONE]");
    assert("data: [DONE]"@ =~= "data: "@ + "[DONE]"@);
    lemma_data_line_not_blank("[DONE]"@);
    let p = "[DONE]"@;
    assert(lead_len(p) == 0);
    assert(p.skip(0) =~= p);
    assert(trail_len(p) == 0);
    assert(p.take(p.len() as int) =~= p);
}

/// Any data line whose payload is the sentinel, white space around it
/// allowed, becomes exactly one `response.done` frame.
pub proof fn lemma_padded_done_sentinel(payload: Seq<char>)
    requires
        trim(payload) == "[DONE]"@,
    ensures
        translate_line("data: "@ + payload) == Some(done_frame()),
{
    lemma_data_line_not_blank(payload);
}

/// A data line whose payload is JSON without a `choices` array produces no
/// output at all (unlike a line that is passed through).
pub proof fn lemma_no_choices_no_output(payload: Seq<char>, event: JsonValue)
    requires
        trim(payload) != "[DONE]"@,
        parsed_json(payload) == Some(event),
        event.array_field("choices"@) is None,
    ensures
        translate_line("data: "@ + payload) is None,
{
    lemma_data_line_not_blank(payload);
}

/// A data line whose payload is not JSON is passed through unchanged.
pub proof fn lemma_malformed_passes_through(payload: Seq<char>)
    requires
        trim(payload) != "[DONE]"@,
        parsed_json(payload) is None,
    ensures
        translate_line("data: "@ + payload) == Some("data: "@ + payload),
{
    lemma_data_line_not_blank(payload);
}

/// A line that is neither blank nor a data line is passed through unchanged.
pub proof fn lemma_other_line_passes_through(line: Seq<char>)
    requires
        !is_blank(line),
        !starts_with(line, "data: "@),
    ensures
        translate_line(line) == Some(line),
{
}

/// A chat event with one choice whose delta carries only non-empty `content`
/// text yields exactly one `output_item.delta` event: its item is an
/// assistant message and its `delta` is that text.
pub proof fn lemma_content_delta(
    payload: Seq<char>,
    event: JsonValue,
    choice: JsonValue,
    delta: JsonValue,
    text: Seq<char>,
)
    requires
        trim(payload) != "[DONE]"@,
        parsed_json(payload) == Some(event),
        event.array_field("choices"@) == Some(seq![choice]),
        choice.get("delta"@) == Some(delta),
        !finishes(choice),
        delta.str_field("content"@) == Some(text),
        text.len() > 0,
        reasoning_text(delta) is None,
        delta.array_field("tool_calls"@) is None,
    ensures
        chat_events(event) == Some(seq![message_event(response_id(event), text)]),
        translate_line("data: "@ + payload) == Some(
            frames(seq![json_text(message_event(response_id(event), text))]),
        ),
        message_event(response_id(event), text).get("delta"@) == Some(JsonValue::Str(text)),
        message_event(response_id(event), text).get("item"@)->0.str_field("type"@) == Some(
            "message"@,
        ),
{
    lemma_data_line_not_blank(payload);
    let rid = response_id(event);
    let e = message_event(rid, text);
    let cs = seq![choice];
    assert(cs.drop_last() =~= Seq::<JsonValue>::empty());
    assert(choice_events(choice, rid) =~= seq![e]);
    assert(cs.last() == choice);
    assert(choices_events(cs.drop_last(), rid) == Seq::<JsonValue>::empty());
    assert(choices_events(cs, rid) =~= seq![e]);
    let ts = seq![json_text(e)];
    assert(ts.drop_last() =~= Seq::<Seq<char>>::empty());
    assert(frames(ts) == frames(ts.drop_last()) + "data: "@ + json_text(e) + "\n\n"@);
    assert(event_texts(seq![e]) =~= seq![json_text(e)]);
    reveal_strlit("type");
    reveal_strlit("response");
    reveal_strlit("item");
    reveal_strlit("delta");
    reveal_strlit("role");
    reveal_strlit("message");
    reveal_with_fuel(lookup, 5);
    assert("type"@.len() == 4);
    assert("delta"@.len() == 5);
    assert("response"@.len() == 8);
    assert("type"@ != "delta"@);
    assert("response"@ != "delta"@);
    assert("item"@ != "delta"@);
    assert("type"@[0] != "item"@[0]);
    assert("type"@ != "item"@);
    assert("response"@ != "item"@);
}

} // verus!
