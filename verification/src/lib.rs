//! A distributed job queue: clients submit shell-command jobs, a central
//! server schedules them over a pool of workers, and each worker executes
//! its assigned jobs and reports results back.
//!
//! This crate holds the verified core: the server's job manager (job and
//! worker lifecycle, the offer/confirm/withdraw protocol, FIFO scheduling
//! with per-worker exclude sets, maintenance of lost workers), the
//! worker-side controller (accept/defer/reject decisions, local resource
//! accounting, terminal status reporting), the message vocabulary, the
//! framing of the JSON message stream, and the authentication response
//! computation. Network and process I/O live outside the library and hand
//! it plain values.

pub mod auth;
pub mod config;
pub mod frame;
pub mod idlist;
pub mod jobs;
pub mod manager;
pub mod messages;
pub mod resources;
pub mod worker;
pub mod workers;
