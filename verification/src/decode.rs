//! Decoding one JSON value into a typed `EventRecord`. Every "missing or
//! unexpected field" decision is made here, in verified code, and
//! `decode_spec` states the whole mapping over the named results of the
//! serde_json boundary, so that what each line decodes to is fixed by the
//! line alone.

use vstd::prelude::*;
use crate::event::{
    AssistantEvent, AssistantEventV, EventRecord, EventV, ToolUse, ToolUseV, UserBlock, UserBlockV,
};
use crate::json::{
    arr_val, field_of, json_as_array, json_as_string, json_as_u64, json_get, json_is_string,
    parse_json_line, parsed_json, str_val, u64_val,
};
use crate::strings::str_eq;

verus! {

/// The named field as text, when present and a string.
pub open spec fn field_str(v: serde_json::Value, key: Seq<char>) -> Option<Seq<char>> {
    match field_of(v, key) {
        Some(f) => str_val(f),
        None => None,
    }
}

/// The named field as text, or empty when absent or not a string.
pub open spec fn field_str_or_empty(v: serde_json::Value, key: Seq<char>) -> Seq<char> {
    match field_str(v, key) {
        Some(s) => s,
        None => Seq::empty(),
    }
}

/// The named field as a number, or 0 when absent or not a u64.
pub open spec fn field_u64_or_zero(v: serde_json::Value, key: Seq<char>) -> u64 {
    match field_of(v, key) {
        Some(f) => match u64_val(f) {
            Some(n) => n,
            None => 0,
        },
        None => 0,
    }
}

/// One block of a user record's array content, classified.
pub open spec fn decode_block_spec(item: serde_json::Value) -> UserBlockV {
    let tag = field_str_or_empty(item, "type"@);
    if tag == "tool_result"@ {
        UserBlockV::ToolResult
    } else if tag == "text"@ {
        match field_str(item, "text"@) {
            Some(t) => UserBlockV::Text(t),
            None => UserBlockV::Other,
        }
    } else {
        UserBlockV::Other
    }
}

/// A whole content array of a user record, block by block.
pub open spec fn decode_blocks_spec(arr: Seq<serde_json::Value>) -> Seq<UserBlockV> {
    arr.map_values(|item: serde_json::Value| decode_block_spec(item))
}

/// One `tool_use` block's name and path arguments.
pub open spec fn decode_tool_spec(block: serde_json::Value) -> ToolUseV {
    ToolUseV {
        name: field_str_or_empty(block, "name"@),
        file_path: match field_of(block, "input"@) {
            Some(input) => field_str(input, "file_path"@),
            None => None,
        },
        notebook_path: match field_of(block, "input"@) {
            Some(input) => field_str(input, "notebook_path"@),
            None => None,
        },
    }
}

/// The `tool_use` blocks of an assistant content array, in order; other
/// blocks carry nothing the reconstruction reads.
pub open spec fn decode_tools_spec(arr: Seq<serde_json::Value>) -> Seq<ToolUseV>
    decreases arr.len(),
{
    if arr.len() == 0 {
        Seq::empty()
    } else {
        let rest = decode_tools_spec(arr.drop_first());
        if field_str_or_empty(arr[0], "type"@) == "tool_use"@ {
            seq![decode_tool_spec(arr[0])] + rest
        } else {
            rest
        }
    }
}

/// One more block extends the tool list by its tool use, if it is one.
proof fn lemma_decode_tools_push(arr: Seq<serde_json::Value>, b: serde_json::Value)
    ensures
        decode_tools_spec(arr.push(b)) == if field_str_or_empty(b, "type"@) == "tool_use"@ {
            decode_tools_spec(arr).push(decode_tool_spec(b))
        } else {
            decode_tools_spec(arr)
        },
    decreases arr.len(),
{
    if arr.len() == 0 {
        assert(arr.push(b).drop_first() =~= Seq::<serde_json::Value>::empty());
        assert(decode_tools_spec(arr.push(b).drop_first()) =~= Seq::<ToolUseV>::empty());
        if field_str_or_empty(b, "type"@) == "tool_use"@ {
            assert(decode_tools_spec(arr.push(b)) =~= seq![decode_tool_spec(b)]);
            assert(decode_tools_spec(arr).push(decode_tool_spec(b)) =~= seq![decode_tool_spec(b)]);
        }
    } else {
        lemma_decode_tools_push(arr.drop_first(), b);
        assert(arr.push(b).drop_first() =~= arr.drop_first().push(b));
        if field_str_or_empty(arr[0], "type"@) == "tool_use"@ && field_str_or_empty(b, "type"@)
            == "tool_use"@ {
            assert((seq![decode_tool_spec(arr[0])] + decode_tools_spec(arr.drop_first())).push(
                decode_tool_spec(b),
            ) =~= seq![decode_tool_spec(arr[0])] + decode_tools_spec(arr.drop_first()).push(
                decode_tool_spec(b),
            ));
        }
    }
}

/// The usage object's named count, or 0 when the usage object or the field
/// is absent.
pub open spec fn usage_field(message: serde_json::Value, key: Seq<char>) -> u64 {
    match field_of(message, "usage"@) {
        Some(usage) => field_u64_or_zero(usage, key),
        None => 0,
    }
}

/// The cache-read count of the usage object. The data model names the
/// consumed field `cache_read_tokens`; session logs in the wild write the
/// longer key `cache_read_input_tokens`. The short name is read first, the
/// long one accepted when the short one is absent.
pub open spec fn cache_read_field(message: serde_json::Value) -> u64 {
    match field_of(message, "usage"@) {
        Some(usage) => if field_of(usage, "cache_read_tokens"@) is Some {
            field_u64_or_zero(usage, "cache_read_tokens"@)
        } else {
            field_u64_or_zero(usage, "cache_read_input_tokens"@)
        },
        None => 0,
    }
}

/// What one decoded JSON record stands for: the typed event the accumulator
/// consumes. A record whose shape carries nothing the reconstruction reads
/// becomes `Other` and is ignored downstream.
pub open spec fn decode_spec(v: serde_json::Value) -> EventV {
    let msg_type = field_str_or_empty(v, "type"@);
    let timestamp = field_str_or_empty(v, "timestamp"@);
    if msg_type == "user"@ {
        match field_of(v, "message"@) {
            Some(message) => match field_of(message, "content"@) {
                Some(content) => if str_val(content) is Some {
                    EventV::UserProse {
                        timestamp,
                        text: match str_val(content) {
                            Some(t) => t,
                            None => Seq::empty(),
                        },
                    }
                } else {
                    match arr_val(content) {
                        Some(arr) => EventV::UserBlocks {
                            timestamp,
                            blocks: decode_blocks_spec(arr),
                        },
                        None => EventV::Other,
                    }
                },
                None => EventV::Other,
            },
            None => EventV::Other,
        }
    } else if msg_type == "assistant"@ {
        match field_of(v, "message"@) {
            Some(message) => EventV::Assistant(
                AssistantEventV {
                    timestamp,
                    model: field_str(message, "model"@),
                    input_tokens: usage_field(message, "input_tokens"@),
                    output_tokens: usage_field(message, "output_tokens"@),
                    cache_read_tokens: cache_read_field(message),
                    tool_uses: match field_of(message, "content"@) {
                        Some(content) => match arr_val(content) {
                            Some(arr) => decode_tools_spec(arr),
                            None => Seq::empty(),
                        },
                        None => Seq::empty(),
                    },
                },
            ),
            None => EventV::Other,
        }
    } else {
        EventV::Other
    }
}

/// The named field as text, when present and a string.
fn get_string_field(v: &serde_json::Value, key: &str) -> (r: Option<String>)
    ensures
        r.deep_view() == field_str(*v, key@),
{
    match json_get(v, key) {
        Some(f) => json_as_string(f),
        None => None,
    }
}

/// The named field as text, or the empty string when absent or not a string.
fn get_string_field_or_empty(v: &serde_json::Value, key: &str) -> (r: String)
    ensures
        r@ == field_str_or_empty(*v, key@),
{
    match get_string_field(v, key) {
        Some(s) => s,
        None => String::new(),
    }
}

/// The named field as a number, or 0 when absent or not a u64.
fn get_u64_field_or_zero(v: &serde_json::Value, key: &str) -> (r: u64)
    ensures
        r == field_u64_or_zero(*v, key@),
{
    match json_get(v, key) {
        Some(f) => match json_as_u64(f) {
            Some(n) => n,
            None => 0,
        },
        None => 0,
    }
}

/// One block of a user record's array content, classified.
fn decode_user_block(item: &serde_json::Value) -> (r: UserBlock)
    ensures
        r@ == decode_block_spec(*item),
{
    let tag = get_string_field_or_empty(item, "type");
    if str_eq(tag.as_str(), "tool_result") {
        UserBlock::ToolResult
    } else if str_eq(tag.as_str(), "text") {
        match get_string_field(item, "text") {
            Some(t) => UserBlock::Text(t),
            None => UserBlock::Other,
        }
    } else {
        UserBlock::Other
    }
}

/// The `tool_use` blocks of an assistant message's content array, with the
/// path arguments the reconstruction may read.
fn decode_tool_uses(content: &Vec<serde_json::Value>) -> (r: Vec<ToolUse>)
    ensures
        r.deep_view() == decode_tools_spec(content@),
{
    let mut tools: Vec<ToolUse> = Vec::new();
    proof {
        assert(content@.take(0) =~= Seq::<serde_json::Value>::empty());
        assert(tools.deep_view() =~= decode_tools_spec(content@.take(0)));
    }
    let mut i: usize = 0;
    while i < content.len()
        invariant
            i <= content@.len(),
            tools.deep_view() == decode_tools_spec(content@.take(i as int)),
        decreases content@.len() - i,
    {
        proof {
            assert(content@.take(i + 1 as int) =~= content@.take(i as int).push(
                content@[i as int],
            ));
            lemma_decode_tools_push(content@.take(i as int), content@[i as int]);
        }
        let block = &content[i];
        let tag = get_string_field_or_empty(block, "type");
        if str_eq(tag.as_str(), "tool_use") {
            let name = get_string_field_or_empty(block, "name");
            let (file_path, notebook_path) = match json_get(block, "input") {
                Some(input) => (
                    get_string_field(input, "file_path"),
                    get_string_field(input, "notebook_path"),
                ),
                None => (None, None),
            };
            tools.push(ToolUse { name, file_path, notebook_path });
            proof {
                assert(tools.deep_view() =~= decode_tools_spec(content@.take(i + 1 as int)));
            }
        }
        i += 1;
    }
    proof {
        assert(content@.take(content@.len() as int) =~= content@);
    }
    tools
}

/// One decoded JSON record as the typed event the accumulator consumes:
/// exactly `decode_spec` of the value.
pub fn decode_event(v: &serde_json::Value) -> (r: EventRecord)
    ensures
        r@ == decode_spec(*v),
{
    let msg_type = get_string_field_or_empty(v, "type");
    let timestamp = get_string_field_or_empty(v, "timestamp");
    if str_eq(msg_type.as_str(), "user") {
        let message = match json_get(v, "message") {
            Some(m) => m,
            None => {
                return EventRecord::Other;
            },
        };
        let content = match json_get(message, "content") {
            Some(c) => c,
            None => {
                return EventRecord::Other;
            },
        };
        if json_is_string(content) {
            let text = match json_as_string(content) {
                Some(t) => t,
                None => String::new(),
            };
            EventRecord::UserProse { timestamp, text }
        } else {
            match json_as_array(content) {
                Some(arr) => {
                    let mut blocks: Vec<UserBlock> = Vec::new();
                    proof {
                        assert(arr@.take(0) =~= Seq::<serde_json::Value>::empty());
                        assert(blocks.deep_view() =~= decode_blocks_spec(arr@.take(0)));
                    }
                    let mut i: usize = 0;
                    while i < arr.len()
                        invariant
                            i <= arr@.len(),
                            blocks.deep_view() == decode_blocks_spec(arr@.take(i as int)),
                        decreases arr@.len() - i,
                    {
                        blocks.push(decode_user_block(&arr[i]));
                        proof {
                            assert(blocks.deep_view() =~= decode_blocks_spec(
                                arr@.take(i as int),
                            ).push(decode_block_spec(arr@[i as int])));
                            assert(decode_blocks_spec(arr@.take(i + 1 as int)) =~= decode_blocks_spec(
                                arr@.take(i as int),
                            ).push(decode_block_spec(arr@[i as int])));
                        }
                        i += 1;
                    }
                    proof {
                        assert(arr@.take(arr@.len() as int) =~= arr@);
                    }
                    EventRecord::UserBlocks { timestamp, blocks }
                },
                None => EventRecord::Other,
            }
        }
    } else if str_eq(msg_type.as_str(), "assistant") {
        let message = match json_get(v, "message") {
            Some(m) => m,
            None => {
                return EventRecord::Other;
            },
        };
        let model = get_string_field(message, "model");
        let (input_tokens, output_tokens, cache_read_tokens) = match json_get(message, "usage") {
            Some(usage) => {
                // The log format writes the longer key; the short one is the
                // consumed field's name and wins where both appear.
                let cache = match json_get(usage, "cache_read_tokens") {
                    Some(_) => get_u64_field_or_zero(usage, "cache_read_tokens"),
                    None => get_u64_field_or_zero(usage, "cache_read_input_tokens"),
                };
                (
                    get_u64_field_or_zero(usage, "input_tokens"),
                    get_u64_field_or_zero(usage, "output_tokens"),
                    cache,
                )
            },
            None => (0, 0, 0),
        };
        let tool_uses = match json_get(message, "content") {
            Some(content) => match json_as_array(content) {
                Some(arr) => decode_tool_uses(arr),
                None => {
                    let e: Vec<ToolUse> = Vec::new();
                    proof {
                        assert(e.deep_view() =~= Seq::<ToolUseV>::empty());
                    }
                    e
                },
            },
            None => {
                let e: Vec<ToolUse> = Vec::new();
                proof {
                    assert(e.deep_view() =~= Seq::<ToolUseV>::empty());
                }
                e
            },
        };
        EventRecord::Assistant(
            AssistantEvent {
                timestamp,
                model,
                input_tokens,
                output_tokens,
                cache_read_tokens,
                tool_uses,
            },
        )
    } else {
        EventRecord::Other
    }
}

/// One line of a session log as a typed event: None when the line is blank
/// or not valid JSON, so that a malformed line never aborts the file's
/// scan; otherwise exactly `decode_spec` of what the line parses to.
pub fn decode_line(line: &str) -> (r: Option<EventRecord>)
    ensures
        r.deep_view() == match parsed_json(line@) {
            Some(v) => Some(decode_spec(v)),
            None => None::<EventV>,
        },
{
    match parse_json_line(line) {
        Some(v) => Some(decode_event(&v)),
        None => None,
    }
}

} // verus!
