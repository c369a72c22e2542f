use crate::generation::chat::message::Message;
use vstd::prelude::*;

verus! {

/// One frame of a chat response: a message, or a fragment of one, with the
/// backend's bookkeeping.
#[derive(Debug, Clone)]
pub struct ChatResponse {
    /// Model name.
    pub model: String,
    /// Name of the upstream model that generated the response.
    pub remote_model: Option<String>,
    /// URL of the upstream host that generated the response.
    pub remote_host: Option<String>,
    /// ISO 8601 timestamp of response creation.
    pub created_at: String,
    /// Message or part of a message from the model.
    pub message: Message,
    /// Whether generation has finished.
    pub done: bool,
    /// Reason the generation stopped.
    pub done_reason: Option<String>,
    /// Debug information for template rendering.
    pub debug_info: Option<DebugInfo>,
    /// Time spent generating the response, in nanoseconds.
    pub total_duration: Option<u64>,
    /// Time spent loading the model, in nanoseconds.
    pub load_duration: Option<u64>,
    /// Number of input tokens in the prompt.
    pub prompt_eval_count: Option<u64>,
    /// Time spent evaluating the prompt, in nanoseconds.
    pub prompt_eval_duration: Option<u64>,
    /// Number of output tokens generated in the response.
    pub eval_count: Option<u64>,
    /// Time spent generating tokens, in nanoseconds.
    pub eval_duration: Option<u64>,
}

/// Debug information for template rendering.
#[derive(Debug, Clone)]
pub struct DebugInfo {
    /// The rendered template used for generation.
    pub rendered_template: String,
    /// Number of images included in the generation.
    pub image_count: Option<u32>,
}

/// The frame with its `done` flag carried over to the message it holds.
pub open spec fn sealed(frame: ChatResponse) -> ChatResponse {
    ChatResponse { message: Message { done: frame.done, ..frame.message }, ..frame }
}

impl ChatResponse {
    /// Carries the frame's `done` flag over to the message it holds, so that
    /// the message is complete exactly when the response is.
    pub fn seal(self) -> (r: Self)
        ensures
            r == sealed(self),
    {
        let mut frame = self;
        frame.message.done = frame.done;
        frame
    }
}

} // verus!
