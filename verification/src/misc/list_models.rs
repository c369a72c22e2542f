use vstd::prelude::*;

verus! {

/// The models that the backend has available.
#[derive(Debug, Clone, Default, PartialEq, Eq, PartialOrd, Ord, Hash)]
pub struct ListModelsResponse {
    pub models: Vec<ModelInfo>,
}

/// One available model.
#[derive(Debug, Clone, Default, PartialEq, Eq, PartialOrd, Ord, Hash)]
pub struct ModelInfo {
    pub name: String,
    pub model: String,
    pub remote_model: Option<String>,
    pub remote_host: Option<String>,
    pub modified_at: String,
    pub size: i64,
    pub digest: String,
    pub details: Option<ModelDetails>,
}

/// How a model was built.
#[derive(Debug, Clone, Default, PartialEq, Eq, PartialOrd, Ord, Hash)]
pub struct ModelDetails {
    pub parent_model: String,
    pub format: String,
    pub family: String,
    pub families: Vec<String>,
    pub parameter_size: String,
    pub quantization_level: String,
}

} // verus!
