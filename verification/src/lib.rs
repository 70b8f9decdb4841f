//! The logic of a connector to the Milvus vector database: it reads what a request asks for, decides
//! what to send to the server, and turns what comes back into an answer.
//!
//! Everything that only computes stands here and is proved to do what its contract says. Files,
//! sockets and locks are left to whoever calls: they hand over what came of an exchange, and get
//! back what to do next.
//!
//! - [`calls`] takes the calls of a user and answers them; [`reply`] is what an answer is, and
//!   [`connections`] the connections that are open.
//! - [`options`], [`config`] and [`tls`] read how a server is to be reached, set the client up, and
//!   keep secrets out of what is shown.
//! - [`query`] makes queries ready to be sent, [`exchange`] reads what comes back, and [`rows`] and
//!   [`schema`] turn it into tables and descriptions.
//! - [`json`], [`value`], [`order`] and [`text`] are the values that all of this works on.

pub mod calls;
pub mod config;
pub mod connections;
pub mod exchange;
pub mod json;
pub mod options;
pub mod order;
pub mod query;
pub mod reply;
pub mod rows;
pub mod schema;
pub mod text;
pub mod tls;
pub mod value;
