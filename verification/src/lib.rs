//! The decisions of a small HTTP front end, stated and proved.
//!
//! A request is read from the buffer it arrived in ([`http`], [`server`]),
//! the routes say what serves it ([`routing`]), and a route answers with a
//! file, with the output of a command ([`commands`]), or by starting a job.
//! A job is a list of actions from the configuration ([`configuration`],
//! [`json`]); the orchestrator hands the work of each action to the workers
//! and registers it with the aggregator, which knows the jobs in flight
//! ([`orchestration`]). What holds of the whole is proved in [`round_trip`],
//! [`buffer_round_trip`] and [`balance`].
//!
//! The library reads no file, opens no socket and starts no thread: where a
//! decision needs something done, it returns what is to be done and takes
//! the outcome back.

pub mod balance;
pub mod buffer_round_trip;
pub mod commands;
pub mod configuration;
pub mod headers;
pub mod http;
pub mod ids;
pub mod json;
pub mod logging;
pub mod numeral;
pub mod orchestration;
pub mod round_trip;
pub mod routing;
pub mod server;
pub mod text;
