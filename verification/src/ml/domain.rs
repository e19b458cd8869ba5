use vstd::prelude::*;

verus! {

/// The state of the machine-learning sidecar.
#[derive(Debug, Clone, PartialEq)]
pub enum Status {
    Offline,
    Online {
        status: String,
        device: String,
        checkpoint: Option<String>,
        checkpoint_hash: Option<String>,
        encoder: String,
        model_loaded: bool,
        training_active: bool,
    },
}

/// A model checkpoint the sidecar knows.
#[derive(Debug, Clone, PartialEq)]
pub struct Model {
    pub name: String,
    pub hash: Option<String>,
    pub size_bytes: u64,
    pub resident: bool,
}

/// The sidecar's answer to a switch of checkpoint.
#[derive(Debug, Clone, PartialEq)]
pub struct ResetModel {
    pub checkpoint: Option<String>,
    pub checkpoint_hash: Option<String>,
    pub model_loaded: bool,
}

/// A per-die inference job of the sidecar.
#[derive(Debug, Clone, Copy, PartialEq, Eq, Structural)]
pub struct InferenceJob;

} // verus!
