use vstd::prelude::*;

pub mod aggregate;
pub mod check;
pub mod clock;
pub mod compare;
pub mod config;
pub mod debug;
pub mod engine;
pub mod flavor;
pub mod grpc;
pub mod har;
pub mod http3;
pub mod output;
pub mod pattern;
pub mod scheduler;
pub mod stats;
pub mod target;
pub mod text;
pub mod types;
pub mod ws;

verus! {
}
