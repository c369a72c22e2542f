use crate::generation::tools::{tool_call_views, ToolCall, ToolCallView};
use vstd::prelude::*;
use vstd::string::StringExecFns;

verus! {

/// Who authored a message.
#[derive(Debug, Clone, Copy, PartialEq, Eq, Structural)]
pub enum Role {
    System,
    User,
    Assistant,
    Tool,
}

/// One utterance of the conversation, possibly still growing while it streams in.
#[derive(Debug)]
pub struct Message {
    /// Role of the sender.
    pub role: Role,
    /// Main text, append-only while streaming.
    pub content: String,
    /// Reasoning text, kept apart from the content.
    pub thinking: Option<String>,
    /// Image references, append-only while streaming.
    pub images: Vec<String>,
    /// Tool invocations the message asks for.
    pub tool_calls: Vec<ToolCall>,
    /// True once no further fragment will arrive for this message.
    pub done: bool,
}

/// Mathematical value of a [`Message`].
pub struct MessageView {
    pub role: Role,
    pub content: Seq<char>,
    pub thinking: Option<Seq<char>>,
    pub images: Seq<Seq<char>>,
    pub tool_calls: Seq<ToolCallView>,
    pub done: bool,
}

/// The values of a sequence of strings, in order.
pub open spec fn string_views(strings: Seq<String>) -> Seq<Seq<char>> {
    strings.map_values(|s: String| s@)
}

/// Reasoning text after a fragment has been merged in: the fragment's text is
/// appended, or becomes the text where there was none.
pub open spec fn merge_thinking(ours: Option<Seq<char>>, theirs: Option<Seq<char>>) -> Option<
    Seq<char>,
> {
    match (ours, theirs) {
        (_, None) => ours,
        (None, Some(t)) => Some(t),
        (Some(o), Some(t)) => Some(o + t),
    }
}

impl MessageView {
    /// This message with the fragment `other` merged into it.
    pub open spec fn merge(self, other: MessageView) -> MessageView {
        MessageView {
            role: self.role,
            content: self.content + other.content,
            thinking: merge_thinking(self.thinking, other.thinking),
            images: self.images + other.images,
            tool_calls: self.tool_calls + other.tool_calls,
            done: other.done,
        }
    }

    /// A fresh message of `role` that holds only `content`.
    pub open spec fn fresh(role: Role, content: Seq<char>) -> MessageView {
        MessageView {
            role,
            content,
            thinking: None,
            images: Seq::empty(),
            tool_calls: Seq::empty(),
            done: false,
        }
    }
}

impl View for Message {
    type V = MessageView;

    open spec fn view(&self) -> MessageView {
        MessageView {
            role: self.role,
            content: self.content@,
            thinking: match self.thinking {
                Some(t) => Some(t@),
                None => None,
            },
            images: string_views(self.images@),
            tool_calls: tool_call_views(self.tool_calls@),
            done: self.done,
        }
    }
}

impl Clone for Message {
    fn clone(&self) -> (r: Self)
        ensures
            r@ == self@,
    {
        let r = Message {
            role: self.role,
            content: self.content.clone(),
            thinking: self.thinking.clone(),
            images: self.images.clone(),
            tool_calls: self.tool_calls.clone(),
            done: self.done,
        };
        assert(string_views(r.images@) =~= string_views(self.images@));
        assert(tool_call_views(r.tool_calls@) =~= tool_call_views(self.tool_calls@));
        r
    }
}

impl Message {
    /// A user prompt.
    pub fn user(content: &str) -> (r: Self)
        ensures
            r@ == MessageView::fresh(Role::User, content@),
    {
        Self::new(content, Role::User)
    }

    /// A system prompt.
    pub fn system(content: &str) -> (r: Self)
        ensures
            r@ == MessageView::fresh(Role::System, content@),
    {
        Self::new(content, Role::System)
    }

    /// The outcome of a tool run.
    pub fn tool(content: &str) -> (r: Self)
        ensures
            r@ == MessageView::fresh(Role::Tool, content@),
    {
        Self::new(content, Role::Tool)
    }

    fn new(content: &str, role: Role) -> (r: Self)
        ensures
            r@ == MessageView::fresh(role, content@),
    {
        let r = Message {
            role,
            content: content.to_owned(),
            thinking: None,
            images: Vec::new(),
            tool_calls: Vec::new(),
            done: false,
        };
        assert(string_views(r.images@) =~= Seq::empty());
        assert(tool_call_views(r.tool_calls@) =~= Seq::empty());
        r
    }

    /// Merges the fragment `other` into this message: text, reasoning text,
    /// images and tool calls are appended, and `done` is taken from `other`.
    ///
    /// Whether the two may be merged at all (same role, this one not yet
    /// done) is for the caller to decide.
    pub fn merge_from(&mut self, other: &Message)
        ensures
            final(self)@ == old(self)@.merge(other@),
    {
        self.content.append(other.content.as_str());
        match &other.thinking {
            Some(think) => {
                match &mut self.thinking {
                    Some(existing) => existing.append(think.as_str()),
                    None => self.thinking = Some(think.clone()),
                }
            },
            None => {},
        }
        self.images.extend_from_slice(other.images.as_slice());
        self.tool_calls.extend_from_slice(other.tool_calls.as_slice());
        self.done = other.done;
        assert(string_views(self.images@) =~= string_views(old(self).images@) + string_views(
            other.images@,
        ));
        assert(tool_call_views(self.tool_calls@) =~= tool_call_views(old(self).tool_calls@)
            + tool_call_views(other.tool_calls@));
    }
}

} // verus!
