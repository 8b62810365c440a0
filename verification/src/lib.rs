//! Core of a "what is my IP" service: the provider table and the engine that
//! fans one lookup out to several geolocation providers and settles on a result.
//!
//! The engine makes no call and keeps no clock. A driver starts one task per
//! requested provider, tells the engine of every task that ends and of the
//! deadline, and does what the engine answers. Two policies are at hand:
//! the race to the first success, and collect-all, which the service runs.
//!
//! - [`provider`]: the providers, their tags, endpoints and answer fields.
//! - [`request`]: from a caller's selection of tags to the providers to ask.
//! - [`adapter`]: from the outcome of one call to a location or an error.
//! - [`model`]: the resolver as a state machine over mathematical values.
//! - [`resolver`]: the same machine on machine values.
//! - [`budget`]: the two time budgets and what running over them means.
//! - [`laws`]: what holds of every resolution.
//! - [`headers`]: the address that a request's headers forward.
//! - [`location`], [`error`], [`response`]: the values that go in and out.
//! - [`cli`], [`text`]: the server's command line.

pub mod adapter;
pub mod budget;
pub mod cli;
pub mod error;
pub mod headers;
pub mod laws;
pub mod location;
pub mod model;
pub mod provider;
pub mod request;
pub mod resolver;
pub mod response;
pub mod text;
