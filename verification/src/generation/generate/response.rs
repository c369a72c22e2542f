use vstd::prelude::*;

verus! {

/// One frame of a completion: generated text with the backend's bookkeeping.
#[derive(Debug, Clone)]
pub struct GenerateResponse {
    /// Model name.
    pub model: String,
    /// Name of the upstream model that generated the response.
    pub remote_model: Option<String>,
    /// URL of the upstream host that generated the response.
    pub remote_host: Option<String>,
    /// ISO 8601 timestamp of response creation.
    pub created_at: String,
    /// The generated text.
    pub response: String,
    /// The generated reasoning text.
    pub thinking: Option<String>,
    /// Whether generation has finished.
    pub done: bool,
    /// Reason the generation stopped.
    pub done_reason: Option<String>,
    /// Encoding of the conversation, to be sent along with a later request.
    pub context: Option<Vec<i32>>,
    /// Time spent generating the response, in nanoseconds.
    pub total_duration: Option<u64>,
    /// Time spent loading the model, in nanoseconds.
    pub load_duration: Option<u64>,
    /// Number of input tokens in the prompt.
    pub prompt_eval_count: Option<u64>,
    /// Time spent evaluating the prompt, in nanoseconds.
    pub prompt_eval_duration: Option<u64>,
    /// Number of output tokens generated in the response.
    pub eval_count: Option<u64>,
    /// Time spent generating tokens, in nanoseconds.
    pub eval_duration: Option<u64>,
    /// Debug information for template rendering.
    pub debug_info: Option<DebugInfo>,
}

/// Debug information for template rendering.
#[derive(Debug, Clone)]
pub struct DebugInfo {
    /// The rendered template used for generation.
    pub rendered_template: String,
    /// Number of images included in the generation.
    pub image_count: Option<u32>,
}

} // verus!
