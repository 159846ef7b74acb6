//! Client library for the acme-dns HTTP API: account registration, TXT
//! record updates and health checks, with verified request shaping,
//! status handling and credential loading.

pub mod client;
pub mod credentials;
pub mod error;
pub mod json;

pub use crate::client::AcmeDnsClient;
pub use crate::credentials::{parse_allow_list, Credentials};
pub use crate::error::Error;
