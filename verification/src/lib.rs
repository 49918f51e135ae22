//! Routing core of a gateway that presents several MCP backends as one server.
//!
//! A client of the gateway sees the tools, resources and prompts of all backends
//! of its virtual host, each under a name that starts with its backend. Modules
//! [`names`], [`order`] and [`listing`] say how these names are made, taken
//! apart and listed; [`routing`] and [`call`] say where a request for one item
//! goes, and [`delivery`] that what is listed can be asked for; [`connect`],
//! [`session`] and [`transport`] say how a session begins and which connections
//! it has; [`service`] holds what outlives a request. What callers can rely on is
//! stated in [`laws`].

pub mod call;
pub mod capabilities;
pub mod completion;
pub mod connect;
pub mod delivery;
pub mod error;
pub mod laws;
pub mod listing;
pub mod names;
pub mod order;
pub mod routing;
pub mod service;
pub mod session;
pub mod transport;
