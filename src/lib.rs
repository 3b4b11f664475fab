//! A tick-driven runtime for block-based visual programs: the dynamic value
//! model, the script control-flow machine, the scheduler's decisions, the pen
//! state machine and the reference resolution done at load time.
//!
//! Numbers are IEEE-754 doubles; the library holds each one as its 64-bit
//! pattern and decides everything that depends on the pattern alone. Floating
//! point arithmetic, parsing and formatting are done by the host program.

pub mod block;
pub mod loader;
pub mod pen;
pub mod project;
pub mod scheduler;
pub mod script;
pub mod target;
pub mod value;
