//! A usage monitor in two halves: a host that reads its own load, clock rate
//! and memory at a steady tick, and a small device that shows them on a
//! screen. This library holds what both halves decide and compute: how a
//! request is matched to an endpoint and under which discipline its handler
//! runs, how a pool of task slots admits and refuses calls, how the host's
//! session moves between its states, and how the message of each tick and the
//! text on the screen are put together. Reaching the broker, the transport,
//! pins and timers are left to the programs that use it.

pub mod dispatch;
pub mod error;
pub mod handlers;
pub mod icd;
pub mod io;
pub mod pool;
pub mod registry;
pub mod session;
pub mod telemetry;
pub mod text;
