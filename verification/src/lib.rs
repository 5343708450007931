//! Compares the responses of two HTTP endpoints under a named profile.
//!
//! A profile pairs two requests with the rules by which their responses are reduced to
//! text. Overrides given at invocation time are merged into both requests alike; the two
//! responses are reduced to text and compared line by line.
//!
//! - [`cli`]: override tokens and the arguments of a run.
//! - [`json`]: JSON documents, and the calls into `serde_json` and `serde_qs`.
//! - [`headers`]: header maps, how overrides are merged into one, and content types.
//! - [`urls`]: the calls into the `url` crate.
//! - [`request`]: request profiles and the merge of overrides into one.
//! - [`response`]: responses and their reduction to text.
//! - [`diff`]: the report of a comparison.
//! - [`config`]: comparisons and named collections of profiles.
//! - [`text`]: helpers for characters and strings.
//! - [`error`]: the errors of the library.
//!
//! Sending a request and reading a configuration file are left to the caller: the library
//! says what to send ([`RequestProfile::gen_req_config`]) and takes what came back
//! ([`ResponseExt`]).

pub mod cli;
pub mod config;
pub mod diff;
pub mod error;
pub mod headers;
pub mod json;
pub mod request;
pub mod response;
pub mod text;
pub mod urls;

pub use cli::ExtraArgs;
pub use config::{is_default, DiffConfig, DiffProfile, RequestConfig, ValidateConfig};
pub use diff::diff_text_to_terminal_inline;
pub use headers::get_content_type;
pub use json::{default_params, is_empty_value};
pub use request::RequestProfile;
pub use response::{
    filter_json, get_body_text, get_header_text, get_status_text, ResponseExt, ResponseProfile,
};
