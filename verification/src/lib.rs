//! Verified core of valet: the decision logic behind its random-access
//! readers, HTTP retry policy, self-update bookkeeping and native glue.

pub mod ara;
pub mod htfs;
pub mod text;
pub mod backoff;
pub mod httpkit;
pub mod libbutler;
pub mod selfupdate;
pub mod foreign;
pub mod config;
pub mod logging;
pub mod napi;
pub mod napi_stub;
pub mod mingw_setup;
pub mod winhook;
