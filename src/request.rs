//! Translation of a Responses-shaped request body into a Chat Completions
//! request body.
use vstd::prelude::*;

use crate::json::{
    arr1, fields_view, json_text, lookup, obj2, obj3, opt_model, push_value, views, write_json,
    Json, JsonValue,
};
use crate::text::{owned, str_eq};

verus! {

/// Why a request body cannot be translated.
#[derive(Debug, Clone, Copy, PartialEq, Eq, Structural)]
pub enum TransformError {
    /// The body has no string `model` field.
    MissingModel,
    /// The body has no array `input` field.
    InvalidInput,
}

/// The text of a list of content blocks: their string `text` fields, joined.
pub open spec fn block_texts(blocks: Seq<JsonValue>) -> Seq<char>
    decreases blocks.len(),
{
    if blocks.len() == 0 {
        Seq::empty()
    } else {
        block_texts(blocks.drop_last()) + match blocks.last().str_field("text"@) {
            Some(t) => t,
            None => Seq::empty(),
        }
    }
}

/// The text of an input item's `content`: the joined block texts of an
/// array, a string as it is, and empty otherwise.
pub open spec fn content_text(item: JsonValue) -> Seq<char> {
    match item.array_field("content"@) {
        Some(blocks) => block_texts(blocks),
        None => match item.str_field("content"@) {
            Some(t) => t,
            None => Seq::empty(),
        },
    }
}

/// The chat message `{role, content}`.
pub open spec fn text_message(role: Seq<char>, content: Seq<char>) -> JsonValue {
    JsonValue::Object(
        seq![("role"@, JsonValue::Str(role)), ("content"@, JsonValue::Str(content))],
    )
}

/// The system message that carries the instructions.
pub open spec fn system_message(instructions: Seq<char>) -> JsonValue {
    text_message("system"@, instructions)
}

/// The assistant message that records one function call.
pub open spec fn tool_call_message(
    call_id: Seq<char>,
    name: Seq<char>,
    arguments: Seq<char>,
) -> JsonValue {
    JsonValue::Object(
        seq![
            ("role"@, JsonValue::Str("assistant"@)),
            ("content"@, JsonValue::Null),
            ("tool_calls"@, JsonValue::Array(seq![JsonValue::Object(seq![
                ("id"@, JsonValue::Str(call_id)),
                ("type"@, JsonValue::Str("function"@)),
                ("function"@, JsonValue::Object(seq![
                    ("name"@, JsonValue::Str(name)),
                    ("arguments"@, JsonValue::Str(arguments)),
                ])),
            ])])),
        ],
    )
}

/// The tool message that carries a function call's output.
pub open spec fn tool_output_message(call_id: Seq<char>, content: JsonValue) -> JsonValue {
    JsonValue::Object(
        seq![
            ("role"@, JsonValue::Str("tool"@)),
            ("tool_call_id"@, JsonValue::Str(call_id)),
            ("content"@, content),
        ],
    )
}

/// The content of a function call's output: a string as it is, the
/// `content` field of an object that has one (whatever its value), and
/// otherwise the value's JSON text.
pub open spec fn output_content(output: JsonValue) -> JsonValue {
    match output {
        JsonValue::Str(s) => JsonValue::Str(s),
        JsonValue::Object(_) => match output.get("content"@) {
            Some(c) => c,
            None => JsonValue::Str(json_text(output)),
        },
        _ => JsonValue::Str(json_text(output)),
    }
}

/// The chat message of one input item, if it yields one.
///
/// An item with a string `role` becomes a text message, unless its content
/// is empty and the role is not `assistant`. A complete `function_call`
/// becomes an assistant tool-call message, a complete `function_call_output`
/// a tool message; anything else yields nothing.
pub open spec fn item_message(item: JsonValue) -> Option<JsonValue> {
    match item.str_field("role"@) {
        Some(role) => {
            let c = content_text(item);
            if c.len() > 0 || role == "assistant"@ {
                Some(text_message(role, c))
            } else {
                None
            }
        },
        None => if item.str_field("type"@) == Some("function_call"@) {
            match (
                item.str_field("name"@),
                item.str_field("arguments"@),
                item.str_field("call_id"@),
            ) {
                (Some(n), Some(a), Some(id)) => Some(tool_call_message(id, n, a)),
                _ => None,
            }
        } else if item.str_field("type"@) == Some("function_call_output"@) {
            match (item.str_field("call_id"@), item.get("output"@)) {
                (Some(id), Some(o)) => Some(tool_output_message(id, output_content(o))),
                _ => None,
            }
        } else {
            None
        },
    }
}

/// The chat messages of a list of input items, in order.
pub open spec fn messages_of(items: Seq<JsonValue>) -> Seq<JsonValue>
    decreases items.len(),
{
    if items.len() == 0 {
        Seq::empty()
    } else {
        messages_of(items.drop_last()) + match item_message(items.last()) {
            Some(m) => seq![m],
            None => Seq::empty(),
        }
    }
}

/// The messages of the chat request: the system message when there are
/// instructions, then the messages of the input items.
pub open spec fn chat_messages(instructions: Seq<char>, items: Seq<JsonValue>) -> Seq<JsonValue> {
    (if instructions.len() > 0 {
        seq![system_message(instructions)]
    } else {
        Seq::empty()
    }) + messages_of(items)
}

/// The Chat Completions request for a Responses request body.
pub open spec fn chat_request(body: JsonValue) -> Result<JsonValue, TransformError> {
    match body.str_field("model"@) {
        None => Err(TransformError::MissingModel),
        Some(model) => match body.array_field("input"@) {
            None => Err(TransformError::InvalidInput),
            Some(items) => {
                let instructions = match body.str_field("instructions"@) {
                    Some(i) => i,
                    None => Seq::empty(),
                };
                let tools = match body.array_field("tools"@) {
                    Some(t) => t,
                    None => Seq::empty(),
                };
                let base = seq![
                    ("model"@, JsonValue::Str(model)),
                    ("messages"@, JsonValue::Array(chat_messages(instructions, items))),
                    ("stream"@, JsonValue::Bool(true)),
                ];
                Ok(
                    JsonValue::Object(
                        if tools.len() > 0 {
                            base.push(("tools"@, JsonValue::Array(tools)))
                        } else {
                            base
                        },
                    ),
                )
            },
        },
    }
}

/// The model of a translation result.
pub open spec fn result_model(r: Result<Json, TransformError>) -> Result<JsonValue, TransformError> {
    match r {
        Ok(j) => Ok(j@),
        Err(e) => Err(e),
    }
}

/// The joined `text` fields of a list of content blocks.
fn block_texts_of(blocks: &Vec<Json>) -> (r: String)
    ensures
        r@ == block_texts(views(blocks@)),
{
    let mut text = String::new();
    let mut i: usize = 0;
    assert(views(blocks@).take(0) =~= Seq::<JsonValue>::empty());
    while i < blocks.len()
        invariant
            i <= blocks@.len(),
            text@ == block_texts(views(blocks@).take(i as int)),
        decreases blocks.len() - i,
    {
        proof {
            assert(views(blocks@).take(i + 1).drop_last() =~= views(blocks@).take(i as int));
            assert(views(blocks@).take(i + 1).last() == blocks@[i as int]@);
        }
        match blocks[i].get_str("text") {
            Some(t) => text.append(t.as_str()),
            None => {
                assert(text@ =~= text@ + Seq::<char>::empty());
            },
        }
        i += 1;
    }
    assert(views(blocks@).take(blocks@.len() as int) =~= views(blocks@));
    text
}

/// The text of an input item's `content`.
fn content_text_of(item: &Json) -> (r: String)
    ensures
        r@ == content_text(item@),
{
    match item.get_array("content") {
        Some(blocks) => block_texts_of(blocks),
        None => match item.get_str("content") {
            Some(t) => t.clone(),
            None => String::new(),
        },
    }
}

/// The text of a function call's output.
/// The content of a function call's output.
fn output_content_of(output: &Json) -> (r: Json)
    ensures
        r@ == output_content(output@),
{
    match output {
        Json::Str(s) => Json::Str(s.clone()),
        Json::Object(_) => match output.get("content") {
            Some(c) => c.deep_clone(),
            None => Json::Str(write_json(output)),
        },
        _ => Json::Str(write_json(output)),
    }
}

fn text_message_json(role: &str, content: &str) -> (r: Json)
    ensures
        r@ == text_message(role@, content@),
{
    obj2("role", Json::string(role), "content", Json::string(content))
}

fn tool_call_message_json(call_id: &str, name: &str, arguments: &str) -> (r: Json)
    ensures
        r@ == tool_call_message(call_id@, name@, arguments@),
{
    let function = obj2("name", Json::string(name), "arguments", Json::string(arguments));
    let call = obj3("id", Json::string(call_id), "type", Json::string("function"), "function", function);
    obj3("role", Json::string("assistant"), "content", Json::Null, "tool_calls", arr1(call))
}

fn tool_output_message_json(call_id: &str, content: Json) -> (r: Json)
    ensures
        r@ == tool_output_message(call_id@, content@),
{
    obj3(
        "role",
        Json::string("tool"),
        "tool_call_id",
        Json::string(call_id),
        "content",
        content,
    )
}

/// Whether the string field `key` of `item` equals `expected`.
fn str_field_is(item: &Json, key: &str, expected: &str) -> (r: bool)
    ensures
        r == (item@.str_field(key@) == Some(expected@)),
{
    match item.get_str(key) {
        Some(t) => str_eq(t.as_str(), expected),
        None => false,
    }
}

/// The chat message of one input item, if it yields one.
pub fn item_to_message(item: &Json) -> (r: Option<Json>)
    ensures
        opt_model(r) == item_message(item@),
{
    if let Some(role) = item.get_str("role") {
        let content = content_text_of(item);
        if !content.as_str().is_empty() || str_eq(role.as_str(), "assistant") {
            return Some(text_message_json(role.as_str(), content.as_str()));
        }
        return None;
    }
    if str_field_is(item, "type", "function_call") {
        match (item.get_str("name"), item.get_str("arguments"), item.get_str("call_id")) {
            (Some(n), Some(a), Some(id)) => Some(
                tool_call_message_json(id.as_str(), n.as_str(), a.as_str()),
            ),
            _ => None,
        }
    } else if str_field_is(item, "type", "function_call_output") {
        match (item.get_str("call_id"), item.get("output")) {
            (Some(id), Some(o)) => {
                let content = output_content_of(o);
                Some(tool_output_message_json(id.as_str(), content))
            },
            _ => None,
        }
    } else {
        None
    }
}

/// Translates a Responses request body into a Chat Completions request body.
///
/// The body needs a string `model` and an array `input`; `instructions` and
/// `tools` are optional. The result holds `model`, the `messages` (system
/// instructions first when there are any, then one message per input item
/// that yields one, in input order) and `stream: true`, then the `tools` as
/// given when there are any.
pub fn transform_request_to_chat(responses_body: Json) -> (r: Result<Json, TransformError>)
    ensures
        result_model(r) == chat_request(responses_body@),
{
    let body = &responses_body;
    let model = match body.get_str("model") {
        Some(m) => m,
        None => return Err(TransformError::MissingModel),
    };
    let input = match body.get_array("input") {
        Some(items) => items,
        None => return Err(TransformError::InvalidInput),
    };
    let ghost items = views(input@);
    let ghost instructions = match body@.str_field("instructions"@) {
        Some(i) => i,
        None => Seq::<char>::empty(),
    };
    let mut messages: Vec<Json> = Vec::new();
    if let Some(instr) = body.get_str("instructions") {
        if !instr.as_str().is_empty() {
            push_value(&mut messages, text_message_json("system", instr.as_str()));
        }
    }
    let ghost head = views(messages@);
    assert(head =~= if instructions.len() > 0 {
        seq![system_message(instructions)]
    } else {
        Seq::<JsonValue>::empty()
    });
    let mut i: usize = 0;
    assert(items.take(0) =~= Seq::<JsonValue>::empty());
    assert(views(messages@) =~= head + messages_of(items.take(0)));
    while i < input.len()
        invariant
            i <= input@.len(),
            items == views(input@),
            views(messages@) == head + messages_of(items.take(i as int)),
        decreases input.len() - i,
    {
        proof {
            assert(items.take(i + 1).drop_last() =~= items.take(i as int));
            assert(items.take(i + 1).last() == input@[i as int]@);
        }
        match item_to_message(&input[i]) {
            Some(m) => {
                push_value(&mut messages, m);
                assert(views(messages@) =~= head + messages_of(items.take(i + 1)));
            },
            None => {
                assert(views(messages@) =~= head + messages_of(items.take(i + 1)));
            },
        }
        i += 1;
    }
    assert(items.take(input@.len() as int) =~= items);
    let messages_json = Json::array(messages);
    let mut fields: Vec<(String, Json)> = Vec::new();
    fields.push((owned("model"), Json::Str(model.clone())));
    fields.push((owned("messages"), messages_json));
    fields.push((owned("stream"), Json::Bool(true)));
    let ghost base = fields_view(fields@);
    if let Some(tools) = body.get_array("tools") {
        if tools.len() > 0 {
            let copy = copy_all(tools);
            fields.push((owned("tools"), Json::array(copy)));
            assert(fields_view(fields@) =~= base.push(("tools"@, JsonValue::Array(views(tools@)))));
        }
    }
    let r = Json::object(fields);
    assert(r@ == chat_request(body@)->Ok_0) by {
        assert(base =~= seq![
            ("model"@, JsonValue::Str(model@)),
            ("messages"@, JsonValue::Array(chat_messages(instructions, items))),
            ("stream"@, JsonValue::Bool(true)),
        ]);
    }
    Ok(r)
}

/// Node-for-node copies of the values, in order.
fn copy_all(values: &Vec<Json>) -> (r: Vec<Json>)
    ensures
        views(r@) == views(values@),
{
    let mut out: Vec<Json> = Vec::new();
    let mut i: usize = 0;
    while i < values.len()
        invariant
            i <= values@.len(),
            out@.len() == i,
            forall|j: int| 0 <= j < i ==> #[trigger] out@[j]@ == values@[j]@,
        decreases values.len() - i,
    {
        out.push(values[i].deep_clone());
        i += 1;
    }
    assert(views(out@) =~= views(values@));
    out
}

/// Translation depends on the request body alone: bodies with the same
/// content give the same result.
pub proof fn lemma_request_deterministic(a: Json, b: Json)
    requires
        a@ == b@,
    ensures
        chat_request(a@) == chat_request(b@),
{
}

/// Input order is kept: the messages of two runs of items, one after the
/// other, are the messages of the first run followed by those of the second.
pub proof fn lemma_messages_keep_order(a: Seq<JsonValue>, b: Seq<JsonValue>)
    ensures
        messages_of(a + b) == messages_of(a) + messages_of(b),
    decreases b.len(),
{
    if b.len() == 0 {
        assert(a + b =~= a);
        assert(messages_of(a) + messages_of(b) =~= messages_of(a));
    } else {
        lemma_messages_keep_order(a, b.drop_last());
        assert((a + b).drop_last() =~= a + b.drop_last());
        assert((a + b).last() == b.last());
    }
}

/// No input item yields an empty system message.
proof fn lemma_no_empty_system_message(items: Seq<JsonValue>)
    ensures
        forall|i: int|
            0 <= i < messages_of(items).len() ==> #[trigger] messages_of(items)[i] != system_message(
                Seq::empty(),
            ),
    decreases items.len(),
{
    if items.len() > 0 {
        lemma_no_empty_system_message(items.drop_last());
        let m = item_message(items.last());
        reveal_strlit("system");
        reveal_strlit("assistant");
        assert("system"@.len() == 6);
        assert("assistant"@.len() == 9);
        assert("system"@ != "assistant"@);
        assert forall|i: int|
            0 <= i < messages_of(items).len() implies #[trigger] messages_of(items)[i]
            != system_message(Seq::empty()) by {
            if i >= messages_of(items.drop_last()).len() {
                let x = m->0;
                assert(messages_of(items)[i] == x);
                assert(x->Object_0.len() == 2 ==> x->Object_0[1].1 != JsonValue::Str(Seq::<char>::empty()) || x->Object_0[0].1 != JsonValue::Str("system"@));
            }
        }
    }
}

/// The first message of a translated request is the system message of the
/// instructions exactly when the instructions are not empty.
pub proof fn lemma_system_message_first(instructions: Seq<char>, items: Seq<JsonValue>)
    ensures
        (chat_messages(instructions, items).len() > 0 && chat_messages(instructions, items)[0]
            == system_message(instructions)) <==> instructions.len() > 0,
{
    lemma_no_empty_system_message(items);
    if instructions.len() == 0 {
        assert(chat_messages(instructions, items) =~= messages_of(items));
        assert(instructions =~= Seq::<char>::empty());
        if messages_of(items).len() > 0 {
            assert(messages_of(items)[0] != system_message(Seq::empty()));
        }
    }
}

/// For every body that translates, the request's `messages` field starts
/// with the system message of the body's instructions exactly when those
/// instructions are not empty.
pub proof fn lemma_request_system_message_first(body: JsonValue)
    requires
        chat_request(body) is Ok,
    ensures
        ({
            let instructions = match body.str_field("instructions"@) {
                Some(i) => i,
                None => Seq::empty(),
            };
            let ms = chat_request(body)->Ok_0.array_field("messages"@)->0;
            &&& chat_request(body)->Ok_0.array_field("messages"@) is Some
            &&& ms == chat_messages(instructions, body.array_field("input"@)->0)
            &&& (ms.len() > 0 && ms[0] == system_message(instructions)) <==> instructions.len() > 0
        }),
{
    let instructions = match body.str_field("instructions"@) {
        Some(i) => i,
        None => Seq::empty(),
    };
    let items = body.array_field("input"@)->0;
    lemma_system_message_first(instructions, items);
    reveal_strlit("model");
    reveal_strlit("messages");
    assert("model"@.len() == 5);
    assert("messages"@.len() == 8);
    assert("model"@ != "messages"@);
    reveal_with_fuel(lookup, 3);
}

/// A complete function-call item becomes one assistant message with one
/// tool call carrying its identifier, name and arguments.
pub proof fn lemma_function_call_item(
    item: JsonValue,
    name: Seq<char>,
    arguments: Seq<char>,
    call_id: Seq<char>,
)
    requires
        item.str_field("role"@) is None,
        item.str_field("type"@) == Some("function_call"@),
        item.str_field("name"@) == Some(name),
        item.str_field("arguments"@) == Some(arguments),
        item.str_field("call_id"@) == Some(call_id),
    ensures
        item_message(item) == Some(tool_call_message(call_id, name, arguments)),
        messages_of(seq![item]) == seq![tool_call_message(call_id, name, arguments)],
{
    let s = seq![item];
    assert(s.drop_last() =~= Seq::<JsonValue>::empty());
    assert(s.last() == item);
    assert(messages_of(s.drop_last()) == Seq::<JsonValue>::empty());
    assert(messages_of(s) =~= seq![tool_call_message(call_id, name, arguments)]);
}

} // verus!
