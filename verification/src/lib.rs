//! A port-based forwarder for UDP datagrams and TCP connections.
//!
//! The router listens on the source socket of each rule and relays what
//! arrives there to the destinations of the rule, either to all of them
//! (broadcast) or to one at a time, in turn (round-robin). A control plane
//! over HTTP lists, creates, updates and deletes rules while the router
//! runs.
//!
//! This library is the core of the router, without its sockets: every
//! session, the manager and the control plane are written as functions from
//! what has happened to what is to be done next. A driver around them
//! performs the actions that they name and reports the outcome.
//!
//! - [`endpoint`], [`ipv4`], [`ipv6`], [`text`]: endpoints and their text.
//! - [`rules`]: rules, and the store that keeps them under stable
//!   identifiers.
//! - [`strategy`]: which destinations the next datagram or connection goes
//!   to.
//! - [`protocol`]: the UDP and TCP sessions.
//! - [`session`]: the manager of the sessions.
//! - [`json`], [`config`]: the configuration and the JSON form of rules.
//! - [`web`], [`form`]: the control plane.

pub mod config;
pub mod endpoint;
pub mod form;
pub mod ipv4;
pub mod ipv6;
pub mod json;
pub mod protocol;
pub mod rules;
pub mod session;
pub mod strategy;
pub mod text;
pub mod web;
