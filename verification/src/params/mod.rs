pub mod domain;
pub mod request;
