//! The normalized data model: content blocks and the content frame.
//!
//! Every provider's output is translated into these types, so downstream
//! code never branches on provider-specific shapes. The module also defines
//! their structural (de)serialization to and from a generic JSON value,
//! which is proved to round-trip.

use vstd::prelude::*;

use vstd::string::StringExecFns;

use crate::json::JsonMember;
use crate::json::JsonVal;
use crate::json::JsonValue;
use crate::json::json_get;
use crate::json::lemma_view_arr_to;
use crate::json::lemma_view_obj_to;
use crate::json::obj_get;
use crate::json::spec_json_text;
use crate::json::string_eq_str;
use crate::json::view_arr_to;
use crate::json::view_obj_to;
use crate::parser::ErrorVal;
use crate::parser::ParseError;

verus! {

/// The model of a [`ContentBlock`].
pub enum BlockVal {
    Text { text: Seq<char> },
    ToolUse { id: Seq<char>, name: Seq<char>, input: JsonVal },
    ToolResult { tool_use_id: Seq<char>, content: Seq<Seq<char>>, is_error: bool },
    Thinking { thinking: Option<Seq<char>>, signature: Option<Seq<char>> },
}

/// The model of a [`ContentFrame`].
pub struct FrameVal {
    pub id: Seq<char>,
    pub model: Seq<char>,
    pub blocks: Seq<BlockVal>,
}

/// One unit of normalized model output.
///
/// The tag is the sole discriminator on the wire; the tag values `text`,
/// `tool_use`, `tool_result` and `thinking` are part of the wire contract.
#[derive(Debug, PartialEq)]
pub enum ContentBlock {
    /// Plain text output from the model.
    Text { text: String },
    /// A tool invocation request; `id` correlates to a later `ToolResult`.
    ToolUse { id: String, name: String, input: JsonValue },
    /// Execution output for a prior `ToolUse`. Whether `tool_use_id` indeed
    /// references an id emitted earlier is the caller's responsibility.
    ToolResult { tool_use_id: String, content: Vec<ContentResultBlock>, is_error: bool },
    /// Internal reasoning exposed by some providers, absent in others.
    Thinking { thinking: Option<String>, signature: Option<String> },
}

/// One block of content within a tool result.
#[derive(Debug, PartialEq)]
pub struct ContentResultBlock {
    /// The content of the result block.
    pub content: String,
}

/// The full normalized representation of one model response: metadata and
/// the ordered content blocks. `blocks` may be empty; `id` and `model` are
/// always present, their absence in a raw response is an error at
/// translation time, never defaulted.
#[derive(Debug, PartialEq)]
pub struct ContentFrame {
    /// Unique identifier of this content frame.
    pub id: String,
    /// The model that produced this content.
    pub model: String,
    /// The normalized content blocks, in order.
    pub blocks: Vec<ContentBlock>,
}

impl ContentResultBlock {
    /// The characters this result block holds.
    pub open spec fn view(&self) -> Seq<char> {
        self.content@
    }
}

/// The models of a list of result blocks, in order.
pub open spec fn result_blocks_view(cs: Seq<ContentResultBlock>) -> Seq<Seq<char>> {
    Seq::new(cs.len(), |i: int| cs[i]@)
}

/// The models of a list of content blocks, in order.
pub open spec fn blocks_view(bs: Seq<ContentBlock>) -> Seq<BlockVal> {
    Seq::new(bs.len(), |i: int| bs[i]@)
}

impl ContentBlock {
    /// The model this block denotes.
    pub open spec fn view(&self) -> BlockVal {
        match self {
            ContentBlock::Text { text } => BlockVal::Text { text: text@ },
            ContentBlock::ToolUse { id, name, input } => BlockVal::ToolUse {
                id: id@,
                name: name@,
                input: input@,
            },
            ContentBlock::ToolResult { tool_use_id, content, is_error } => BlockVal::ToolResult {
                tool_use_id: tool_use_id@,
                content: result_blocks_view(content@),
                is_error: *is_error,
            },
            ContentBlock::Thinking { thinking, signature } => BlockVal::Thinking {
                thinking: match thinking {
                    Some(t) => Some(t@),
                    None => None,
                },
                signature: match signature {
                    Some(s) => Some(s@),
                    None => None,
                },
            },
        }
    }
}

impl ContentFrame {
    /// The model this frame denotes.
    pub open spec fn view(&self) -> FrameVal {
        FrameVal { id: self.id@, model: self.model@, blocks: blocks_view(self.blocks@) }
    }
}

/// How an optional string field is encoded: absence as JSON `null`.
pub open spec fn spec_opt_str(o: Option<Seq<char>>) -> JsonVal {
    match o {
        Some(s) => JsonVal::Str(s),
        None => JsonVal::Null,
    }
}

/// The JSON value of one block of a tool result.
pub open spec fn spec_result_block_to_json(c: Seq<char>) -> JsonVal {
    JsonVal::Obj(seq![("content"@, JsonVal::Str(c))])
}

/// The JSON value of one content block: an object whose `type` member is
/// the tag — `text`, `tool_use`, `tool_result` or `thinking` — followed by
/// the variant's fields in order. An unset `signature` is omitted
/// altogether; an unset `thinking` is encoded as `null`.
pub open spec fn spec_block_to_json(b: BlockVal) -> JsonVal {
    match b {
        BlockVal::Text { text } => JsonVal::Obj(
            seq![("type"@, JsonVal::Str("text"@)), ("text"@, JsonVal::Str(text))],
        ),
        BlockVal::ToolUse { id, name, input } => JsonVal::Obj(
            seq![
                ("type"@, JsonVal::Str("tool_use"@)),
                ("id"@, JsonVal::Str(id)),
                ("name"@, JsonVal::Str(name)),
                ("input"@, input),
            ],
        ),
        BlockVal::ToolResult { tool_use_id, content, is_error } => JsonVal::Obj(
            seq![
                ("type"@, JsonVal::Str("tool_result"@)),
                ("tool_use_id"@, JsonVal::Str(tool_use_id)),
                ("content"@, JsonVal::Arr(
                    Seq::new(content.len(), |i: int| spec_result_block_to_json(content[i])),
                )),
                ("is_error"@, JsonVal::Bool(is_error)),
            ],
        ),
        BlockVal::Thinking { thinking, signature } => JsonVal::Obj(
            seq![("type"@, JsonVal::Str("thinking"@)), ("thinking"@, spec_opt_str(thinking))]
                + match signature {
                Some(s) => seq![("signature"@, JsonVal::Str(s))],
                None => Seq::empty(),
            },
        ),
    }
}

/// The JSON value of a content frame: an object with `id`, `model` and the
/// encoded `blocks`, in that order.
pub open spec fn spec_frame_to_json(f: FrameVal) -> JsonVal {
    JsonVal::Obj(
        seq![
            ("id"@, JsonVal::Str(f.id)),
            ("model"@, JsonVal::Str(f.model)),
            ("blocks"@, JsonVal::Arr(
                Seq::new(f.blocks.len(), |i: int| spec_block_to_json(f.blocks[i])),
            )),
        ],
    )
}

/// Reads an optional string field: an absent member or `null` is `None`, a
/// string is `Some`, anything else is a missing-field error naming the
/// field.
pub open spec fn spec_opt_str_field(j: JsonVal, key: Seq<char>) -> Result<
    Option<Seq<char>>,
    ErrorVal,
> {
    match json_get(j, key) {
        None => Ok(None),
        Some(JsonVal::Null) => Ok(None),
        Some(JsonVal::Str(s)) => Ok(Some(s)),
        Some(_) => Err(ErrorVal::MissingField(key)),
    }
}

/// Decodes one block of a tool result: an object whose `content` member is
/// a string.
pub open spec fn spec_json_to_result_block(j: JsonVal) -> Result<Seq<char>, ErrorVal> {
    match json_get(j, "content"@) {
        Some(JsonVal::Str(c)) => Ok(c),
        _ => Err(ErrorVal::MissingField("content"@)),
    }
}

/// Decodes the first `n` blocks of a tool result's content, in order; the
/// first failure wins.
pub open spec fn spec_json_to_result_blocks(items: Seq<JsonVal>, n: int) -> Result<
    Seq<Seq<char>>,
    ErrorVal,
>
    decreases n,
{
    if n <= 0 || items.len() < n {
        Ok(Seq::empty())
    } else {
        match spec_json_to_result_blocks(items, n - 1) {
            Ok(cs) => match spec_json_to_result_block(items[n - 1]) {
                Ok(c) => Ok(cs.push(c)),
                Err(e) => Err(e),
            },
            Err(e) => Err(e),
        }
    }
}

/// Decodes a `text` block.
pub open spec fn spec_decode_text(j: JsonVal) -> Result<BlockVal, ErrorVal> {
    match json_get(j, "text"@) {
        Some(JsonVal::Str(t)) => Ok(BlockVal::Text { text: t }),
        _ => Err(ErrorVal::MissingField("text"@)),
    }
}

/// Decodes a `tool_use` block: `id` and `name` must be strings, `input`
/// may be any JSON value.
pub open spec fn spec_decode_tool_use(j: JsonVal) -> Result<BlockVal, ErrorVal> {
    match json_get(j, "id"@) {
        Some(JsonVal::Str(id)) => match json_get(j, "name"@) {
            Some(JsonVal::Str(name)) => match json_get(j, "input"@) {
                Some(input) => Ok(BlockVal::ToolUse { id, name, input }),
                None => Err(ErrorVal::MissingField("input"@)),
            },
            _ => Err(ErrorVal::MissingField("name"@)),
        },
        _ => Err(ErrorVal::MissingField("id"@)),
    }
}

/// Decodes a `tool_result` block.
pub open spec fn spec_decode_tool_result(j: JsonVal) -> Result<BlockVal, ErrorVal> {
    match json_get(j, "tool_use_id"@) {
        Some(JsonVal::Str(tid)) => match json_get(j, "content"@) {
            Some(JsonVal::Arr(items)) => match spec_json_to_result_blocks(
                items,
                items.len() as int,
            ) {
                Ok(cs) => match json_get(j, "is_error"@) {
                    Some(JsonVal::Bool(e)) => Ok(
                        BlockVal::ToolResult { tool_use_id: tid, content: cs, is_error: e },
                    ),
                    _ => Err(ErrorVal::MissingField("is_error"@)),
                },
                Err(e) => Err(e),
            },
            _ => Err(ErrorVal::MissingField("content"@)),
        },
        _ => Err(ErrorVal::MissingField("tool_use_id"@)),
    }
}

/// Decodes a `thinking` block: both fields are optional.
pub open spec fn spec_decode_thinking(j: JsonVal) -> Result<BlockVal, ErrorVal> {
    match spec_opt_str_field(j, "thinking"@) {
        Ok(th) => match spec_opt_str_field(j, "signature"@) {
            Ok(sg) => Ok(BlockVal::Thinking { thinking: th, signature: sg }),
            Err(e) => Err(e),
        },
        Err(e) => Err(e),
    }
}

/// Decodes one content block: the `type` member is the sole discriminator.
/// A value that is not an object, or an unrecognized tag, is rejected.
pub open spec fn spec_json_to_block(j: JsonVal) -> Result<BlockVal, ErrorVal> {
    match j {
        JsonVal::Obj(_) => match json_get(j, "type"@) {
            Some(JsonVal::Str(tag)) => if tag == "text"@ {
                spec_decode_text(j)
            } else if tag == "tool_use"@ {
                spec_decode_tool_use(j)
            } else if tag == "tool_result"@ {
                spec_decode_tool_result(j)
            } else if tag == "thinking"@ {
                spec_decode_thinking(j)
            } else {
                Err(ErrorVal::Other("unknown content block type"@))
            },
            _ => Err(ErrorVal::MissingField("type"@)),
        },
        _ => Err(ErrorVal::Other("content block is not a JSON object"@)),
    }
}

/// Decodes the first `n` content blocks, in order; the first failure wins.
pub open spec fn spec_json_to_blocks(items: Seq<JsonVal>, n: int) -> Result<Seq<BlockVal>, ErrorVal>
    decreases n,
{
    if n <= 0 || items.len() < n {
        Ok(Seq::empty())
    } else {
        match spec_json_to_blocks(items, n - 1) {
            Ok(bs) => match spec_json_to_block(items[n - 1]) {
                Ok(b) => Ok(bs.push(b)),
                Err(e) => Err(e),
            },
            Err(e) => Err(e),
        }
    }
}

/// Decodes a content frame: an object whose `id` and `model` members are
/// strings and whose `blocks` member is an array of decodable blocks.
pub open spec fn spec_json_to_frame(j: JsonVal) -> Result<FrameVal, ErrorVal> {
    match j {
        JsonVal::Obj(_) => match json_get(j, "id"@) {
            Some(JsonVal::Str(id)) => match json_get(j, "model"@) {
                Some(JsonVal::Str(model)) => match json_get(j, "blocks"@) {
                    Some(JsonVal::Arr(items)) => match spec_json_to_blocks(
                        items,
                        items.len() as int,
                    ) {
                        Ok(bs) => Ok(FrameVal { id, model, blocks: bs }),
                        Err(e) => Err(e),
                    },
                    _ => Err(ErrorVal::MissingField("blocks"@)),
                },
                _ => Err(ErrorVal::MissingField("model"@)),
            },
            _ => Err(ErrorVal::MissingField("id"@)),
        },
        _ => Err(ErrorVal::Other("content frame is not a JSON object"@)),
    }
}

impl ContentResultBlock {
    /// Encodes this result block as a JSON value.
    pub fn to_json(&self) -> (r: JsonValue)
        ensures
            r@ == spec_result_block_to_json(self@),
    {
        let mut members: Vec<JsonMember> = Vec::new();
        members.push(
            JsonMember {
                key: String::from_str("content"),
                value: JsonValue::Str(self.content.clone()),
            },
        );
        proof {
            lemma_view_obj_to(members, 1);
            assert(view_obj_to(members, 1) =~= seq![("content"@, JsonVal::Str(self.content@))]);
        }
        JsonValue::Obj(members)
    }
}

impl ContentBlock {
    /// Encodes this block as a JSON value: [`spec_block_to_json`] of its
    /// model.
    #[verifier::loop_isolation(false)]
    pub fn to_json(&self) -> (r: JsonValue)
        ensures
            r@ == spec_block_to_json(self@),
    {
        match self {
            ContentBlock::Text { text } => {
                let mut members: Vec<JsonMember> = Vec::new();
                members.push(
                    JsonMember {
                        key: String::from_str("type"),
                        value: JsonValue::Str(String::from_str("text")),
                    },
                );
                members.push(
                    JsonMember { key: String::from_str("text"), value: JsonValue::Str(text.clone()) },
                );
                proof {
                    lemma_view_obj_to(members, 2);
                    assert(view_obj_to(members, 2) =~= seq![
                        ("type"@, JsonVal::Str("text"@)),
                        ("text"@, JsonVal::Str(text@)),
                    ]);
                }
                JsonValue::Obj(members)
            },
            ContentBlock::ToolUse { id, name, input } => {
                let mut members: Vec<JsonMember> = Vec::new();
                members.push(
                    JsonMember {
                        key: String::from_str("type"),
                        value: JsonValue::Str(String::from_str("tool_use")),
                    },
                );
                members.push(
                    JsonMember { key: String::from_str("id"), value: JsonValue::Str(id.clone()) },
                );
                members.push(
                    JsonMember { key: String::from_str("name"), value: JsonValue::Str(name.clone()) },
                );
                members.push(JsonMember { key: String::from_str("input"), value: input.duplicate() });
                proof {
                    lemma_view_obj_to(members, 4);
                    assert(view_obj_to(members, 4) =~= seq![
                        ("type"@, JsonVal::Str("tool_use"@)),
                        ("id"@, JsonVal::Str(id@)),
                        ("name"@, JsonVal::Str(name@)),
                        ("input"@, input@),
                    ]);
                }
                JsonValue::Obj(members)
            },
            ContentBlock::ToolResult { tool_use_id, content, is_error } => {
                let mut items: Vec<JsonValue> = Vec::new();
                let mut i: usize = 0;
                while i < content.len()
                    invariant
                        0 <= i <= content.len(),
                        items@.len() == i,
                        forall|j: int| 0 <= j < i ==> items@[j]@ == spec_result_block_to_json(
                            content@[j]@,
                        ),
                    decreases content.len() - i,
                {
                    let e = content[i].to_json();
                    items.push(e);
                    i += 1;
                }
                proof {
                    lemma_view_arr_to(items, items.len() as int);
                    assert(view_arr_to(items, items.len() as int) =~= Seq::new(
                        result_blocks_view(content@).len(),
                        |k: int| spec_result_block_to_json(result_blocks_view(content@)[k]),
                    ));
                }
                let mut members: Vec<JsonMember> = Vec::new();
                members.push(
                    JsonMember {
                        key: String::from_str("type"),
                        value: JsonValue::Str(String::from_str("tool_result")),
                    },
                );
                members.push(
                    JsonMember {
                        key: String::from_str("tool_use_id"),
                        value: JsonValue::Str(tool_use_id.clone()),
                    },
                );
                members.push(JsonMember { key: String::from_str("content"), value: JsonValue::Arr(items) });
                members.push(
                    JsonMember { key: String::from_str("is_error"), value: JsonValue::Bool(*is_error) },
                );
                proof {
                    lemma_view_obj_to(members, 4);
                    assert(view_obj_to(members, 4) =~= seq![
                        ("type"@, JsonVal::Str("tool_result"@)),
                        ("tool_use_id"@, JsonVal::Str(tool_use_id@)),
                        ("content"@, JsonVal::Arr(Seq::new(
                            result_blocks_view(content@).len(),
                            |k: int| spec_result_block_to_json(result_blocks_view(content@)[k]),
                        ))),
                        ("is_error"@, JsonVal::Bool(*is_error)),
                    ]);
                }
                JsonValue::Obj(members)
            },
            ContentBlock::Thinking { thinking, signature } => {
                let mut members: Vec<JsonMember> = Vec::new();
                members.push(
                    JsonMember {
                        key: String::from_str("type"),
                        value: JsonValue::Str(String::from_str("thinking")),
                    },
                );
                let th = match thinking {
                    Some(t) => JsonValue::Str(t.clone()),
                    None => JsonValue::Null,
                };
                members.push(JsonMember { key: String::from_str("thinking"), value: th });
                match signature {
                    Some(s) => {
                        members.push(
                            JsonMember {
                                key: String::from_str("signature"),
                                value: JsonValue::Str(s.clone()),
                            },
                        );
                        proof {
                            lemma_view_obj_to(members, 3);
                            assert(view_obj_to(members, 3) =~= seq![
                                ("type"@, JsonVal::Str("thinking"@)),
                                ("thinking"@, spec_opt_str(self@->Thinking_thinking)),
                            ] + seq![("signature"@, JsonVal::Str(s@))]);
                        }
                    },
                    None => {
                        proof {
                            lemma_view_obj_to(members, 2);
                            assert(view_obj_to(members, 2) =~= seq![
                                ("type"@, JsonVal::Str("thinking"@)),
                                ("thinking"@, spec_opt_str(self@->Thinking_thinking)),
                            ] + Seq::empty());
                        }
                    },
                }
                JsonValue::Obj(members)
            },
        }
    }
}

impl ContentFrame {
    /// Encodes this frame as a JSON value: [`spec_frame_to_json`] of its
    /// model.
    #[verifier::loop_isolation(false)]
    pub fn to_json(&self) -> (r: JsonValue)
        ensures
            r@ == spec_frame_to_json(self@),
    {
        let mut items: Vec<JsonValue> = Vec::new();
        let mut i: usize = 0;
        while i < self.blocks.len()
            invariant
                0 <= i <= self.blocks.len(),
                items@.len() == i,
                forall|j: int| 0 <= j < i ==> items@[j]@ == spec_block_to_json(self.blocks@[j]@),
            decreases self.blocks.len() - i,
        {
            let e = self.blocks[i].to_json();
            items.push(e);
            i += 1;
        }
        proof {
            lemma_view_arr_to(items, items.len() as int);
            assert(view_arr_to(items, items.len() as int) =~= Seq::new(
                blocks_view(self.blocks@).len(),
                |k: int| spec_block_to_json(blocks_view(self.blocks@)[k]),
            ));
        }
        let mut members: Vec<JsonMember> = Vec::new();
        members.push(JsonMember { key: String::from_str("id"), value: JsonValue::Str(self.id.clone()) });
        members.push(
            JsonMember { key: String::from_str("model"), value: JsonValue::Str(self.model.clone()) },
        );
        members.push(JsonMember { key: String::from_str("blocks"), value: JsonValue::Arr(items) });
        proof {
            lemma_view_obj_to(members, 3);
            assert(view_obj_to(members, 3) =~= seq![
                ("id"@, JsonVal::Str(self.id@)),
                ("model"@, JsonVal::Str(self.model@)),
                ("blocks"@, JsonVal::Arr(Seq::new(
                    blocks_view(self.blocks@).len(),
                    |k: int| spec_block_to_json(blocks_view(self.blocks@)[k]),
                ))),
            ]);
        }
        JsonValue::Obj(members)
    }

    /// The canonical compact JSON text of this frame.
    pub fn to_text(&self) -> (r: String)
        ensures
            r@ == spec_json_text(spec_frame_to_json(self@)),
    {
        let v = self.to_json();
        v.to_text()
    }
}

/// The models of a block decode outcome.
pub open spec fn block_result_view(r: Result<ContentBlock, ParseError>) -> Result<
    BlockVal,
    ErrorVal,
> {
    match r {
        Ok(b) => Ok(b@),
        Err(e) => Err(e@),
    }
}

/// Once one entry of a tool result's content fails to decode, the whole
/// list fails with that first failure.
proof fn lemma_result_blocks_err(items: Seq<JsonVal>, i: int, n: int)
    requires
        0 <= i < n <= items.len(),
        spec_json_to_result_blocks(items, i) is Ok,
        spec_json_to_result_block(items[i]) is Err,
    ensures
        spec_json_to_result_blocks(items, n) == spec_json_to_result_blocks(items, i + 1),
        spec_json_to_result_blocks(items, n) is Err,
    decreases n,
{
    if n > i + 1 {
        lemma_result_blocks_err(items, i, n - 1);
    }
}

/// Once one block of a list fails to decode, the whole list fails with
/// that first failure.
proof fn lemma_blocks_err(items: Seq<JsonVal>, i: int, n: int)
    requires
        0 <= i < n <= items.len(),
        spec_json_to_blocks(items, i) is Ok,
        spec_json_to_block(items[i]) is Err,
    ensures
        spec_json_to_blocks(items, n) == spec_json_to_blocks(items, i + 1),
        spec_json_to_blocks(items, n) is Err,
    decreases n,
{
    if n > i + 1 {
        lemma_blocks_err(items, i, n - 1);
    }
}

/// Reads an optional string field: absent or `null` is `None`, a string is
/// `Some`, anything else a missing-field error naming the field.
fn get_opt_str(j: &JsonValue, key: &str) -> (r: Result<Option<String>, ParseError>)
    ensures
        match r {
            Ok(Some(s)) => spec_opt_str_field(j@, key@) == Ok::<Option<Seq<char>>, ErrorVal>(
                Some(s@),
            ),
            Ok(None) => spec_opt_str_field(j@, key@) == Ok::<Option<Seq<char>>, ErrorVal>(None),
            Err(e) => spec_opt_str_field(j@, key@) == Err::<Option<Seq<char>>, ErrorVal>(e@),
        },
{
    match j.get(key) {
        None => Ok(None),
        Some(JsonValue::Null) => Ok(None),
        Some(JsonValue::Str(s)) => Ok(Some(s.clone())),
        Some(_) => Err(ParseError::MissingField(String::from_str(key))),
    }
}

impl ContentBlock {
    /// Decodes one content block from a JSON value:
    /// [`spec_json_to_block`] of the value's model, as an executable
    /// function.
    #[verifier::loop_isolation(false)]
    pub fn from_json(j: &JsonValue) -> (r: Result<ContentBlock, ParseError>)
        ensures
            block_result_view(r) == spec_json_to_block(j@),
    {
        match j {
            JsonValue::Obj(_) => {
            },
            _ => {
                return Err(
                    ParseError::Other(String::from_str("content block is not a JSON object")),
                );
            },
        }
        let tag = match j.get("type") {
            Some(JsonValue::Str(s)) => s,
            _ => {
                return Err(ParseError::MissingField(String::from_str("type")));
            },
        };
        if string_eq_str(tag, "text") {
            match j.get("text") {
                Some(JsonValue::Str(t)) => Ok(ContentBlock::Text { text: t.clone() }),
                _ => Err(ParseError::MissingField(String::from_str("text"))),
            }
        } else if string_eq_str(tag, "tool_use") {
            let id = match j.get("id") {
                Some(JsonValue::Str(s)) => s.clone(),
                _ => {
                    return Err(ParseError::MissingField(String::from_str("id")));
                },
            };
            let name = match j.get("name") {
                Some(JsonValue::Str(s)) => s.clone(),
                _ => {
                    return Err(ParseError::MissingField(String::from_str("name")));
                },
            };
            let input = match j.get("input") {
                Some(v) => v.duplicate(),
                None => {
                    return Err(ParseError::MissingField(String::from_str("input")));
                },
            };
            Ok(ContentBlock::ToolUse { id, name, input })
        } else if string_eq_str(tag, "tool_result") {
            let tid = match j.get("tool_use_id") {
                Some(JsonValue::Str(s)) => s.clone(),
                _ => {
                    return Err(ParseError::MissingField(String::from_str("tool_use_id")));
                },
            };
            let items = match j.get("content") {
                Some(JsonValue::Arr(a)) => a,
                _ => {
                    return Err(ParseError::MissingField(String::from_str("content")));
                },
            };
            let ghost iv = view_arr_to(*items, items.len() as int);
            proof {
                lemma_view_arr_to(*items, items.len() as int);
            }
            let mut content: Vec<ContentResultBlock> = Vec::new();
            proof {
                assert(result_blocks_view(content@) =~= Seq::<Seq<char>>::empty());
            }
            let mut i: usize = 0;
            while i < items.len()
                invariant
                    0 <= i <= items.len(),
                    content@.len() == i,
                    spec_json_to_result_blocks(iv, i as int) == Ok::<Seq<Seq<char>>, ErrorVal>(
                        result_blocks_view(content@),
                    ),
                decreases items.len() - i,
            {
                let ghost prev_cs = result_blocks_view(content@);
                match items[i].get("content") {
                    Some(JsonValue::Str(c)) => {
                        content.push(ContentResultBlock { content: c.clone() });
                    },
                    _ => {
                        proof {
                            lemma_result_blocks_err(iv, i as int, iv.len() as int);
                        }
                        return Err(ParseError::MissingField(String::from_str("content")));
                    },
                }
                proof {
                    assert(result_blocks_view(content@) =~= prev_cs.push(content@[i as int]@));
                }
                i += 1;
            }
            let is_err = match j.get("is_error") {
                Some(JsonValue::Bool(b)) => *b,
                _ => {
                    return Err(ParseError::MissingField(String::from_str("is_error")));
                },
            };
            Ok(ContentBlock::ToolResult { tool_use_id: tid, content, is_error: is_err })
        } else if string_eq_str(tag, "thinking") {
            let th = match get_opt_str(j, "thinking") {
                Ok(o) => o,
                Err(e) => {
                    return Err(e);
                },
            };
            let sg = match get_opt_str(j, "signature") {
                Ok(o) => o,
                Err(e) => {
                    return Err(e);
                },
            };
            Ok(ContentBlock::Thinking { thinking: th, signature: sg })
        } else {
            Err(ParseError::Other(String::from_str("unknown content block type")))
        }
    }
}

impl ContentFrame {
    /// Decodes a content frame from a JSON value:
    /// [`spec_json_to_frame`] of the value's model, as an executable
    /// function.
    #[verifier::loop_isolation(false)]
    pub fn from_json(j: &JsonValue) -> (r: Result<ContentFrame, ParseError>)
        ensures
            crate::parser::frame_result_view(r) == spec_json_to_frame(j@),
    {
        match j {
            JsonValue::Obj(_) => {
            },
            _ => {
                return Err(
                    ParseError::Other(String::from_str("content frame is not a JSON object")),
                );
            },
        }
        let id = match j.get("id") {
            Some(JsonValue::Str(s)) => s.clone(),
            _ => {
                return Err(ParseError::MissingField(String::from_str("id")));
            },
        };
        let model = match j.get("model") {
            Some(JsonValue::Str(s)) => s.clone(),
            _ => {
                return Err(ParseError::MissingField(String::from_str("model")));
            },
        };
        let items = match j.get("blocks") {
            Some(JsonValue::Arr(a)) => a,
            _ => {
                return Err(ParseError::MissingField(String::from_str("blocks")));
            },
        };
        let ghost iv = view_arr_to(*items, items.len() as int);
        proof {
            lemma_view_arr_to(*items, items.len() as int);
        }
        let mut blocks: Vec<ContentBlock> = Vec::new();
        proof {
            assert(blocks_view(blocks@) =~= Seq::<BlockVal>::empty());
        }
        let mut i: usize = 0;
        while i < items.len()
            invariant
                0 <= i <= items.len(),
                blocks@.len() == i,
                spec_json_to_blocks(iv, i as int) == Ok::<Seq<BlockVal>, ErrorVal>(
                    blocks_view(blocks@),
                ),
            decreases items.len() - i,
        {
            let ghost prev_bs = blocks_view(blocks@);
            match ContentBlock::from_json(&items[i]) {
                Ok(b) => {
                    blocks.push(b);
                },
                Err(e) => {
                    proof {
                        lemma_blocks_err(iv, i as int, iv.len() as int);
                    }
                    return Err(e);
                },
            }
            proof {
                assert(blocks_view(blocks@) =~= prev_bs.push(blocks@[i as int]@));
            }
            i += 1;
        }
        Ok(ContentFrame { id, model, blocks })
    }

    /// Parses JSON text and decodes a content frame from it: fails with an
    /// invalid-input error exactly when the text is not well-formed JSON,
    /// and decodes its document otherwise.
    pub fn from_text(raw: &str) -> (r: Result<ContentFrame, ParseError>)
        ensures
            crate::parser::frame_result_view(r) == match crate::raw::json_doc(raw@) {
                None => Err::<FrameVal, ErrorVal>(ErrorVal::InvalidJson),
                Some(d) => spec_json_to_frame(d),
            },
    {
        match crate::raw::parse_json(raw) {
            Ok(v) => Self::from_json(&v),
            Err(e) => Err(e),
        }
    }
}

/// Round-trip of one block of a tool result.
pub proof fn lemma_result_block_round_trip(c: Seq<char>)
    ensures
        spec_json_to_result_block(spec_result_block_to_json(c)) == Ok::<Seq<char>, ErrorVal>(c),
{
}

/// Round-trip of a tool result's content list, up to position `n`.
pub proof fn lemma_result_blocks_round_trip(cs: Seq<Seq<char>>, n: int)
    requires
        0 <= n <= cs.len(),
    ensures
        spec_json_to_result_blocks(
            Seq::new(cs.len(), |i: int| spec_result_block_to_json(cs[i])),
            n,
        ) == Ok::<Seq<Seq<char>>, ErrorVal>(cs.subrange(0, n)),
    decreases n,
{
    if n <= 0 {
        assert(cs.subrange(0, 0) =~= Seq::<Seq<char>>::empty());
    } else {
        lemma_result_blocks_round_trip(cs, n - 1);
        lemma_result_block_round_trip(cs[n - 1]);
        assert(cs.subrange(0, n - 1).push(cs[n - 1]) =~= cs.subrange(0, n));
    }
}

/// Round-trip of one content block: decoding the encoding of any block
/// yields the block back, unset optional fields preserved.
pub proof fn lemma_block_round_trip(b: BlockVal)
    ensures
        spec_json_to_block(spec_block_to_json(b)) == Ok::<BlockVal, ErrorVal>(b),
{
    reveal_strlit("type");
    reveal_strlit("text");
    reveal_strlit("tool_use");
    reveal_strlit("tool_result");
    reveal_strlit("thinking");
    reveal_strlit("id");
    reveal_strlit("name");
    reveal_strlit("input");
    reveal_strlit("tool_use_id");
    reveal_strlit("content");
    reveal_strlit("is_error");
    reveal_strlit("signature");
    reveal_with_fuel(obj_get, 6);
    assert("type"@.len() == 4);
    assert("text"@.len() == 4);
    assert("tool_use"@.len() == 8);
    assert("tool_result"@.len() == 11);
    assert("thinking"@.len() == 8);
    assert("id"@.len() == 2);
    assert("name"@.len() == 4);
    assert("input"@.len() == 5);
    assert("tool_use_id"@.len() == 11);
    assert("content"@.len() == 7);
    assert("is_error"@.len() == 8);
    assert("signature"@.len() == 9);
    assert("type"@ != "text"@) by {
        assert("type"@[1] == 'y');
        assert("text"@[1] == 'e');
    };
    assert("type"@ != "name"@) by {
        assert("type"@[0] == 't');
        assert("name"@[0] == 'n');
    };
    assert("tool_use"@ != "thinking"@) by {
        assert("tool_use"@[1] == 'o');
        assert("thinking"@[1] == 'h');
    };
    assert("type"@ != "is_error"@);
    assert("type"@ != "thinking"@);
    assert("type"@ != "signature"@);
    match b {
        BlockVal::Text { .. } => {
        },
        BlockVal::ToolUse { .. } => {
        },
        BlockVal::ToolResult { content, .. } => {
            lemma_result_blocks_round_trip(content, content.len() as int);
            assert(content.subrange(0, content.len() as int) =~= content);
        },
        BlockVal::Thinking { thinking, signature } => {
            match signature {
                Some(_) => {
                },
                None => {
                    let ms = seq![
                        ("type"@, JsonVal::Str("thinking"@)),
                        ("thinking"@, spec_opt_str(thinking)),
                    ];
                    assert(ms + Seq::empty() =~= ms);
                },
            }
        },
    }
}

/// Round-trip of a frame's block list, up to position `n`.
pub proof fn lemma_blocks_round_trip(bs: Seq<BlockVal>, n: int)
    requires
        0 <= n <= bs.len(),
    ensures
        spec_json_to_blocks(Seq::new(bs.len(), |i: int| spec_block_to_json(bs[i])), n) == Ok::<
            Seq<BlockVal>,
            ErrorVal,
        >(bs.subrange(0, n)),
    decreases n,
{
    if n <= 0 {
        assert(bs.subrange(0, 0) =~= Seq::<BlockVal>::empty());
    } else {
        lemma_blocks_round_trip(bs, n - 1);
        lemma_block_round_trip(bs[n - 1]);
        assert(bs.subrange(0, n - 1).push(bs[n - 1]) =~= bs.subrange(0, n));
    }
}

/// Round-trip: decoding the encoding of any content frame yields an equal
/// frame, field for field, absence of optional fields preserved.
pub proof fn lemma_frame_round_trip(f: FrameVal)
    ensures
        spec_json_to_frame(spec_frame_to_json(f)) == Ok::<FrameVal, ErrorVal>(f),
{
    reveal_strlit("id");
    reveal_strlit("model");
    reveal_strlit("blocks");
    reveal_with_fuel(obj_get, 4);
    assert("id"@.len() == 2);
    assert("model"@.len() == 5);
    assert("blocks"@.len() == 6);
    lemma_blocks_round_trip(f.blocks, f.blocks.len() as int);
    assert(f.blocks.subrange(0, f.blocks.len() as int) =~= f.blocks);
}

} // verus!
