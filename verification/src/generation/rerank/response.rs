use vstd::prelude::*;

verus! {

/// How many tokens a rerank request took.
#[derive(Debug, Clone, Copy, PartialEq, Eq)]
pub struct RerankResponseUsage {
    pub prompt_tokens: usize,
    pub total_tokens: usize,
}

} // verus!
