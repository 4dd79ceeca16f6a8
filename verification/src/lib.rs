//! A stratum-1 GPS time source, verified: UBX frame codec and resynchronising
//! scanner, NAV payload decoding with GPS-to-UTC conversion, an NTP version 3
//! response engine, and ring-buffer quantile metrics with Prometheus text
//! output.

pub mod bytes;
pub mod feed;
pub mod metrics;
pub mod ntp;
pub mod server;
pub mod time;
pub mod ubx;
pub mod ubx_cfg;
pub mod ubx_nav;
