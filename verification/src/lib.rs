//! A small HTTP request router: a table from method to an ordered list of
//! routes, segment-by-segment path matching with first-registered-wins
//! precedence, parameter capture, and the per-request dispatch pipeline
//! expressed as a state machine over plain values.
//!
//! The library performs no I/O and runs no handler. A server hands it the
//! method and path of a request and gets back the handler to run and the
//! captured parameters, or the 404 response; it then reports the outcome of
//! each piece of outside work to the pipeline and is told what to do next.

pub mod config;
pub mod error;
pub mod literal;
pub mod params;
pub mod pipeline;
pub mod req;
pub mod response;
pub mod route;
pub mod router;
pub mod user;
pub mod util;

pub use crate::config::Config;
pub use crate::error::Error;
pub use crate::params::Params;
pub use crate::pipeline::{step, Action, Event, State};
pub use crate::req::{Req, Request};
pub use crate::response::{not_found, response, ContentType, Response};
pub use crate::route::{DynamicSegment, RawRoute, RawSegment, Route, StaticSegment};
pub use crate::router::{capture, paths_match, Dispatch, Method, Router};
pub use crate::util::has_body;
