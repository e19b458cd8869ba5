use vstd::prelude::*;

use crate::config::Config;
use crate::ml::domain::{Model, Status};

pub mod remote;

use remote::{BackendError, RemoteBackend};

verus! {

/// The machine-learning backend the server talks to.
pub enum Backend {
    Remote(RemoteBackend),
}

impl Backend {
    /// A backend that talks to the sidecar at the configured URL; fails
    /// when no HTTP client can be built.
    pub fn new_remote(config: &Config) -> (r: Result<Self, BackendError>)
        ensures
            r matches Ok(Backend::Remote(b)) ==> b.base@ == config.ml_sidecar_url@ && b.predict_pad
                == config.ml_predict_pad,
    {
        match RemoteBackend::new(config) {
            Ok(b) => Ok(Backend::Remote(b)),
            Err(e) => Err(e),
        }
    }

    /// The sidecar's state; the remote backend reports it offline.
    pub fn status(&self) -> (r: Result<Status, BackendError>)
        ensures
            r matches Ok(s) && s == Status::Offline,
    {
        match self {
            Backend::Remote(b) => b.status(),
        }
    }

    /// The checkpoints the sidecar knows; the remote backend lists none.
    pub fn models(&self) -> (r: Result<Vec<Model>, BackendError>)
        ensures
            r matches Ok(v) && v@.len() == 0,
    {
        match self {
            Backend::Remote(b) => b.models(),
        }
    }
}

} // verus!
