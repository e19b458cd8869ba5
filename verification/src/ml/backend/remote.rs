use vstd::prelude::*;

use crate::config::Config;
use crate::ml::domain::{Model, Status};

verus! {

/// An HTTP client.
#[verifier::external_type_specification]
#[verifier::external_body]
pub struct ExClient(reqwest::Client);

/// An error of the HTTP client.
#[verifier::external_type_specification]
#[verifier::external_body]
pub struct ExReqwestError(reqwest::Error);

/// Why the machine-learning backend failed.
#[derive(Debug)]
pub enum BackendError {
    /// The HTTP client could not be built.
    HttpClient(reqwest::Error),
}

/// Builds an HTTP client with `reqwest::ClientBuilder::new().build()`.
/// Whether that succeeds depends on the machine (its TLS and resolver
/// setup), so nothing is claimed of the result.
#[verifier::external_body]
fn build_client() -> (r: Result<reqwest::Client, reqwest::Error>) {
    reqwest::ClientBuilder::new().build()
}

/// A backend that talks to the sidecar over HTTP.
pub struct RemoteBackend {
    pub client: reqwest::Client,
    /// The sidecar's base URL.
    pub base: String,
    /// Margin in pixels added around the tiles sent for prediction.
    pub predict_pad: u32,
}

impl RemoteBackend {
    /// A backend over the given HTTP client, or the client's error, for the
    /// sidecar at the configured URL.
    pub fn from_client(client: Result<reqwest::Client, reqwest::Error>, config: &Config) -> (r: Result<Self, BackendError>)
        ensures
            client is Ok <==> r is Ok,
            r matches Ok(b) ==> b.base@ == config.ml_sidecar_url@ && b.predict_pad == config.ml_predict_pad,
    {
        match client {
            Ok(client) => Ok(RemoteBackend {
                client,
                base: config.ml_sidecar_url.clone(),
                predict_pad: config.ml_predict_pad,
            }),
            Err(e) => Err(BackendError::HttpClient(e)),
        }
    }

    /// A backend for the sidecar at the configured URL, with a new HTTP
    /// client; fails when the client cannot be built.
    pub fn new(config: &Config) -> (r: Result<Self, BackendError>)
        ensures
            r matches Ok(b) ==> b.base@ == config.ml_sidecar_url@ && b.predict_pad == config.ml_predict_pad,
    {
        Self::from_client(build_client(), config)
    }

    /// The sidecar's state: always offline so far.
    pub fn status(&self) -> (r: Result<Status, BackendError>)
        ensures
            r matches Ok(s) && s == Status::Offline,
    {
        Ok(Status::Offline)
    }

    /// The checkpoints the sidecar knows: none so far.
    pub fn models(&self) -> (r: Result<Vec<Model>, BackendError>)
        ensures
            r matches Ok(v) && v@.len() == 0,
    {
        Ok(Vec::new())
    }
}

} // verus!
