//! The typed form of one decoded log record, and the classification of a
//! `user` record's content blocks: echo of a tool result, or genuine prompt
//! text to be joined.

use vstd::prelude::*;

verus! {

/// One content block of a `user` record with array content.
pub enum UserBlock {
    /// The automated return value of a previously invoked tool.
    ToolResult,
    /// Prose authored by the user.
    Text(String),
    /// Any other block kind; carries nothing the reconstruction reads.
    Other,
}

/// The mathematical value of a `UserBlock`.
pub enum UserBlockV {
    ToolResult,
    Text(Seq<char>),
    Other,
}

impl View for UserBlock {
    type V = UserBlockV;

    open spec fn view(&self) -> UserBlockV {
        match self {
            UserBlock::ToolResult => UserBlockV::ToolResult,
            UserBlock::Text(t) => UserBlockV::Text(t@),
            UserBlock::Other => UserBlockV::Other,
        }
    }
}

impl DeepView for UserBlock {
    type V = UserBlockV;

    open spec fn deep_view(&self) -> UserBlockV {
        self.view()
    }
}

/// One `tool_use` block of an assistant record: the tool's name and the
/// path arguments the reconstruction may read from its input.
pub struct ToolUse {
    pub name: String,
    pub file_path: Option<String>,
    pub notebook_path: Option<String>,
}

/// The mathematical value of a `ToolUse`.
pub struct ToolUseV {
    pub name: Seq<char>,
    pub file_path: Option<Seq<char>>,
    pub notebook_path: Option<Seq<char>>,
}

impl View for ToolUse {
    type V = ToolUseV;

    open spec fn view(&self) -> ToolUseV {
        ToolUseV {
            name: self.name@,
            file_path: self.file_path.deep_view(),
            notebook_path: self.notebook_path.deep_view(),
        }
    }
}

impl DeepView for ToolUse {
    type V = ToolUseV;

    open spec fn deep_view(&self) -> ToolUseV {
        self.view()
    }
}

/// An assistant record: end-time candidate, model identifier, token usage
/// (absent fields already defaulted to 0) and its `tool_use` blocks.
pub struct AssistantEvent {
    pub timestamp: String,
    pub model: Option<String>,
    pub input_tokens: u64,
    pub output_tokens: u64,
    pub cache_read_tokens: u64,
    pub tool_uses: Vec<ToolUse>,
}

/// The mathematical value of an `AssistantEvent`.
pub struct AssistantEventV {
    pub timestamp: Seq<char>,
    pub model: Option<Seq<char>>,
    pub input_tokens: u64,
    pub output_tokens: u64,
    pub cache_read_tokens: u64,
    pub tool_uses: Seq<ToolUseV>,
}

impl View for AssistantEvent {
    type V = AssistantEventV;

    open spec fn view(&self) -> AssistantEventV {
        AssistantEventV {
            timestamp: self.timestamp@,
            model: self.model.deep_view(),
            input_tokens: self.input_tokens,
            output_tokens: self.output_tokens,
            cache_read_tokens: self.cache_read_tokens,
            tool_uses: self.tool_uses.deep_view(),
        }
    }
}

/// One decoded event record, reduced to what the accumulator inspects.
/// Records of other types, and `user` or `assistant` records without a
/// usable message, decode to `Other`.
pub enum EventRecord {
    /// A `user` record whose content is a plain string.
    UserProse { timestamp: String, text: String },
    /// A `user` record whose content is an array of blocks.
    UserBlocks { timestamp: String, blocks: Vec<UserBlock> },
    /// An `assistant` record with a message.
    Assistant(AssistantEvent),
    /// Anything else: ignored by the accumulator.
    Other,
}

/// The mathematical value of an `EventRecord`.
pub enum EventV {
    UserProse { timestamp: Seq<char>, text: Seq<char> },
    UserBlocks { timestamp: Seq<char>, blocks: Seq<UserBlockV> },
    Assistant(AssistantEventV),
    Other,
}

impl View for EventRecord {
    type V = EventV;

    open spec fn view(&self) -> EventV {
        match self {
            EventRecord::UserProse { timestamp, text } => EventV::UserProse {
                timestamp: timestamp@,
                text: text@,
            },
            EventRecord::UserBlocks { timestamp, blocks } => EventV::UserBlocks {
                timestamp: timestamp@,
                blocks: blocks.deep_view(),
            },
            EventRecord::Assistant(a) => EventV::Assistant(a@),
            EventRecord::Other => EventV::Other,
        }
    }
}

impl DeepView for EventRecord {
    type V = EventV;

    open spec fn deep_view(&self) -> EventV {
        self.view()
    }
}

/// True when the array content carries at least one `tool_result` block:
/// such a record is an echo, never a genuine prompt.
pub open spec fn has_tool_result(blocks: Seq<UserBlockV>) -> bool {
    exists|i: int| 0 <= i < blocks.len() && blocks[i] is ToolResult
}

/// The texts of the `text` blocks, in array order.
pub open spec fn texts_of(blocks: Seq<UserBlockV>) -> Seq<Seq<char>>
    decreases blocks.len(),
{
    if blocks.len() == 0 {
        Seq::empty()
    } else {
        match blocks[0] {
            UserBlockV::Text(t) => seq![t] + texts_of(blocks.drop_first()),
            _ => texts_of(blocks.drop_first()),
        }
    }
}

/// The pieces joined with single newlines between them.
pub open spec fn join_nl(texts: Seq<Seq<char>>) -> Seq<char>
    decreases texts.len(),
{
    if texts.len() == 0 {
        Seq::empty()
    } else if texts.len() == 1 {
        texts[0]
    } else {
        texts[0] + seq!['\n'] + join_nl(texts.drop_first())
    }
}

/// The prompt text a `user` record with array content stands for: its
/// `text` blocks joined with newlines, in array order.
pub open spec fn join_texts(blocks: Seq<UserBlockV>) -> Seq<char> {
    join_nl(texts_of(blocks))
}

/// Appending one piece extends the joined text at its end.
proof fn lemma_join_nl_push(texts: Seq<Seq<char>>, t: Seq<char>)
    ensures
        join_nl(texts.push(t)) == if texts.len() == 0 {
            t
        } else {
            join_nl(texts) + seq!['\n'] + t
        },
    decreases texts.len(),
{
    if texts.len() == 0 {
        assert(texts.push(t) =~= seq![t]);
    } else {
        lemma_join_nl_push(texts.drop_first(), t);
        assert(texts.push(t).drop_first() =~= texts.drop_first().push(t));
        if texts.len() == 1 {
            assert(join_nl(texts) == texts[0]);
        }
    }
}

/// Appending one block extends the text list by that block's text, if any.
proof fn lemma_texts_of_push(blocks: Seq<UserBlockV>, b: UserBlockV)
    ensures
        texts_of(blocks.push(b)) == match b {
            UserBlockV::Text(t) => texts_of(blocks).push(t),
            _ => texts_of(blocks),
        },
    decreases blocks.len(),
{
    if blocks.len() == 0 {
        assert(blocks.push(b).drop_first() =~= Seq::<UserBlockV>::empty());
        assert(texts_of(blocks.push(b).drop_first()) =~= Seq::<Seq<char>>::empty());
        match b {
            UserBlockV::Text(t) => {
                assert(texts_of(blocks.push(b)) =~= seq![t] + texts_of(
                    blocks.push(b).drop_first(),
                ));
                assert(texts_of(blocks.push(b)) =~= seq![t]);
                assert(texts_of(blocks).push(t) =~= seq![t]);
            },
            _ => {
            },
        }
    } else {
        lemma_texts_of_push(blocks.drop_first(), b);
        assert(blocks.push(b).drop_first() =~= blocks.drop_first().push(b));
        match blocks[0] {
            UserBlockV::Text(t0) => {
                match b {
                    UserBlockV::Text(t) => {
                        assert(texts_of(blocks.push(b)) =~= seq![t0] + texts_of(
                            blocks.drop_first(),
                        ).push(t));
                        assert((seq![t0] + texts_of(blocks.drop_first())).push(t) =~= seq![t0]
                            + texts_of(blocks.drop_first()).push(t));
                    },
                    _ => {},
                }
            },
            _ => {},
        }
    }
}

/// True when the array content carries a `tool_result` block.
pub fn blocks_have_tool_result(blocks: &Vec<UserBlock>) -> (r: bool)
    ensures
        r == has_tool_result(blocks.deep_view()),
{
    let mut i: usize = 0;
    while i < blocks.len()
        invariant
            i <= blocks@.len(),
            forall|j: int| 0 <= j < i ==> !(blocks.deep_view()[j] is ToolResult),
        decreases blocks@.len() - i,
    {
        if let UserBlock::ToolResult = &blocks[i] {
            assert(blocks.deep_view()[i as int] is ToolResult);
            return true;
        }
        i += 1;
    }
    false
}

/// The newline-joined text of the `text` blocks, in array order.
pub fn joined_text(blocks: &Vec<UserBlock>) -> (r: String)
    ensures
        r@ == join_texts(blocks.deep_view()),
{
    let mut r = String::new();
    let mut any: bool = false;
    let mut i: usize = 0;
    while i < blocks.len()
        invariant
            i <= blocks@.len(),
            r@ == join_nl(texts_of(blocks.deep_view().take(i as int))),
            any == (texts_of(blocks.deep_view().take(i as int)).len() > 0),
        decreases blocks@.len() - i,
    {
        let ghost pre = blocks.deep_view().take(i as int);
        proof {
            assert(blocks.deep_view().take(i + 1 as int) =~= pre.push(
                blocks.deep_view()[i as int],
            ));
            lemma_texts_of_push(pre, blocks.deep_view()[i as int]);
        }
        if let UserBlock::Text(t) = &blocks[i] {
            proof {
                lemma_join_nl_push(texts_of(pre), t@);
            }
            if any {
                crate::strings::push_char(&mut r, '\n');
            }
            r.append(t.as_str());
            any = true;
            proof {
                if texts_of(pre).len() == 0 {
                    assert(r@ =~= t@);
                } else {
                    assert(r@ =~= join_nl(texts_of(pre)) + seq!['\n'] + t@);
                }
            }
        }
        i += 1;
    }
    proof {
        assert(blocks.deep_view().take(blocks@.len() as int) =~= blocks.deep_view());
    }
    r
}

} // verus!
