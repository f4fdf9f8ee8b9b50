use vstd::prelude::*;

use crate::prompt::Role;
use crate::timeline::{
    flatten_turn_text, flatten_turn_tool_summaries, messages_text, messages_tool_summaries,
    summaries_view, ContentBlock, PersistedTaskTimelineEntry, ToolSummary,
};
use crate::text::to_owned;

verus! {

broadcast use vstd::string::group_string_axioms;

/// The plain value of a content block.
pub enum BlockView {
    Text(Seq<char>),
    Image { media_type: Seq<char>, data_base64: Seq<char>, source_path: Option<Seq<char>>, name: Option<Seq<char>> },
}

pub open spec fn opt_text_view(o: Option<String>) -> Option<Seq<char>> {
    match o {
        Some(s) => Some(s@),
        None => None,
    }
}

pub open spec fn block_view(b: ContentBlock) -> BlockView {
    match b {
        ContentBlock::Text { text } => BlockView::Text(text@),
        ContentBlock::Image { media_type, data_base64, source_path, name } => BlockView::Image {
            media_type: media_type@,
            data_base64: data_base64@,
            source_path: opt_text_view(source_path),
            name: opt_text_view(name),
        },
    }
}

pub open spec fn blocks_view(v: Seq<ContentBlock>) -> Seq<BlockView> {
    v.map_values(|b: ContentBlock| block_view(b))
}

/// A turn of the conversation as the history shows it; `timestamp` is in
/// seconds since the Unix epoch.
#[derive(Debug, Clone)]
pub struct DisplayTurn {
    pub role: Role,
    pub agent: String,
    pub content: Vec<ContentBlock>,
    pub tool_calls: Vec<ToolSummary>,
    pub timestamp: u64,
}

/// The plain value of a shown turn: who, which agent, what, which tool
/// calls, and when.
pub open spec fn display_view(t: DisplayTurn) -> (Role, Seq<char>, Seq<BlockView>, Seq<(Seq<char>, Seq<char>)>, u64) {
    (t.role, t.agent@, blocks_view(t.content@), summaries_view(t.tool_calls@), t.timestamp)
}

/// How a timeline entry is shown: a user message as itself, by `user`; an
/// agent turn as its text in one block, with its tool calls.
pub open spec fn shown_entry(e: PersistedTaskTimelineEntry) -> (Role, Seq<char>, Seq<BlockView>, Seq<(Seq<char>, Seq<char>)>, u64) {
    match e {
        PersistedTaskTimelineEntry::UserMessage(m) => (Role::User, "user"@, blocks_view(m.content@), Seq::empty(), m.timestamp),
        PersistedTaskTimelineEntry::Turn(t) => (
            Role::Assistant,
            t.agent_id@,
            seq![BlockView::Text(messages_text(t@.messages))],
            messages_tool_summaries(t@.messages),
            t.timestamp,
        ),
    }
}

fn copy_opt(o: &Option<String>) -> (out: Option<String>)
    ensures
        opt_text_view(out) == opt_text_view(*o),
{
    match o {
        Some(s) => Some(to_owned(s.as_str())),
        None => None,
    }
}

/// A copy of a content block.
pub fn copy_block(b: &ContentBlock) -> (out: ContentBlock)
    ensures
        block_view(out) == block_view(*b),
{
    match b {
        ContentBlock::Text { text } => ContentBlock::Text { text: to_owned(text.as_str()) },
        ContentBlock::Image { media_type, data_base64, source_path, name } => ContentBlock::Image {
            media_type: to_owned(media_type.as_str()),
            data_base64: to_owned(data_base64.as_str()),
            source_path: copy_opt(source_path),
            name: copy_opt(name),
        },
    }
}

/// A copy of content blocks.
pub fn copy_blocks(v: &Vec<ContentBlock>) -> (out: Vec<ContentBlock>)
    ensures
        blocks_view(out@) == blocks_view(v@),
{
    let mut out: Vec<ContentBlock> = Vec::new();
    let mut i: usize = 0;
    while i < v.len()
        invariant
            i <= v@.len(),
            blocks_view(out@) == blocks_view(v@.take(i as int)),
        decreases v.len() - i,
    {
        let ghost before = out@;
        out.push(copy_block(&v[i]));
        assert(blocks_view(out@) =~= blocks_view(before).push(block_view(v@[i as int])));
        assert(blocks_view(v@.take(i + 1)) =~= blocks_view(v@.take(i as int)).push(block_view(v@[i as int])));
        i += 1;
    }
    assert(v@.take(i as int) =~= v@);
    out
}

/// The conversation history a task's timeline shows, entry by entry.
pub fn history_from_timeline(timeline: &[PersistedTaskTimelineEntry]) -> (out: Vec<DisplayTurn>)
    ensures
        out@.len() == timeline@.len(),
        forall|i: int| 0 <= i < timeline@.len() ==> display_view(#[trigger] out@[i]) == shown_entry(timeline@[i]),
{
    let mut turns: Vec<DisplayTurn> = Vec::new();
    let mut i: usize = 0;
    while i < timeline.len()
        invariant
            i <= timeline@.len(),
            turns@.len() == i,
            forall|k: int| 0 <= k < i ==> display_view(#[trigger] turns@[k]) == shown_entry(timeline@[k]),
        decreases timeline.len() - i,
    {
        let turn = match &timeline[i] {
            PersistedTaskTimelineEntry::UserMessage(message) => {
                let empty: Vec<ToolSummary> = Vec::new();
                assert(summaries_view(empty@) =~= Seq::<(Seq<char>, Seq<char>)>::empty());
                DisplayTurn {
                    role: Role::User,
                    agent: to_owned("user"),
                    content: copy_blocks(&message.content),
                    tool_calls: empty,
                    timestamp: message.timestamp,
                }
            },
            PersistedTaskTimelineEntry::Turn(t) => {
                let text = flatten_turn_text(t);
                let ghost tv = text@;
                let content = vec![ContentBlock::Text { text }];
                assert(blocks_view(content@) =~= seq![BlockView::Text(tv)]);
                DisplayTurn {
                    role: Role::Assistant,
                    agent: to_owned(t.agent_id.as_str()),
                    content,
                    tool_calls: flatten_turn_tool_summaries(t),
                    timestamp: t.timestamp,
                }
            },
        };
        proof {
            reveal_strlit("user");
        }
        turns.push(turn);
        i += 1;
    }
    turns
}

} // verus!
