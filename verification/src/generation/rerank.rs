use vstd::prelude::*;
use vstd::string::StringExecFns;

pub mod request;
pub mod response;

verus! {

/// The part of the relevance prompt that stands before the query.
pub open spec fn prompt_head() -> Seq<char> {
    "\n<|im_start|>system\nJudge whether the Document meets the requirements based on the Query and the Instruct provided.\nThe answer can ONLY be \"yes\" or \"no\", nothing else.\n<|im_end|>\n\n<|im_start|>user\n<Instruct>: Is this document relevant to the query?\n<Query>: "@
}

/// The part of the relevance prompt between the query and the document.
pub open spec fn prompt_middle() -> Seq<char> {
    "\n<Document>: "@
}

/// The part of the relevance prompt that stands after the document.
pub open spec fn prompt_tail() -> Seq<char> {
    "\n<|im_end|>\n\n<|im_start|>assistant\n\n<think>\n\n\n\n</think>\n\n"@
}

/// The prompt that asks a generative model whether `document` is relevant to
/// `query`, to be answered with "yes" or "no".
pub fn rerank_prompt(query: &str, document: &str) -> (r: String)
    ensures
        r@ == prompt_head() + query@ + prompt_middle() + document@ + prompt_tail(),
{
    let mut prompt =
        "\n<|im_start|>system\nJudge whether the Document meets the requirements based on the Query and the Instruct provided.\nThe answer can ONLY be \"yes\" or \"no\", nothing else.\n<|im_end|>\n\n<|im_start|>user\n<Instruct>: Is this document relevant to the query?\n<Query>: ".to_owned();
    prompt.append(query);
    prompt.append("\n<Document>: ");
    prompt.append(document);
    prompt.append("\n<|im_end|>\n\n<|im_start|>assistant\n\n<think>\n\n\n\n</think>\n\n");
    prompt
}

} // verus!
