//! Verified core of a browser test harness: the decisions that the harness
//! takes while it allocates ports, starts a server and a browser driver,
//! waits for readiness, polls the browser console and summarises timings.
//!
//! The modules hold plain data and functions with contracts. The program
//! around them performs the I/O: it reports what it observed and carries
//! out what the functions decide.

pub mod address;
pub mod bench;
pub mod console_log;
pub mod poller;
pub mod port;
pub mod readiness;
pub mod results;
pub mod server;
pub mod session;
pub mod stats;
pub mod text;
pub mod trace;
pub mod webdriver;
pub mod ws;
