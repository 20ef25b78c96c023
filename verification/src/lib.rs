//! The request-handling core of a single-page-application host.
//!
//! A request for a path is answered in at most two steps. [`begin`] looks at
//! the path alone: it replies at once with the application shell, with the
//! placeholder API text or with a denial, or it names a file below the asset
//! root that the caller is to read. [`finish`] turns the outcome of that one
//! read into the reply. Neither function touches the disk or the network,
//! and both are functions of their arguments alone.

pub mod asset;
mod bytes;
pub mod config;
pub mod escape;
pub mod locate;
pub mod response;
pub mod route;
pub mod server;
pub mod shell;

pub use asset::{serve, ReadOutcome};
pub use config::log_filter;
pub use locate::{locate, resolve, AssetFile};
pub use response::Response;
pub use route::{route, Route};
pub use server::{begin, finish, Step};
pub use shell::{api_auth, index_html, Shell};
