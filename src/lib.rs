//! Telemetry, framing and session logic for an agent that streams sensor data to a
//! simulation service and receives actuation instructions back.
//!
//! - `communication`: the board-to-board frame header and stream parser
//! - `buffer`: the fixed-capacity telemetry buffer
//! - `body`, `instruction`: the peripheral arena and the commands sent back to an agent
//! - `goals`: which dimensions to maximize or minimize
//! - `score`, `sim`, `orchestrate`: simulation outcomes and the batch orchestrator
//! - `session`, `state`: the per-connection session and the service's sessions
//! - `protocol`, `agent`, `point`: the agent side

pub mod agent;
pub mod body;
pub mod buffer;
pub mod communication;
pub mod goals;
pub mod instruction;
pub mod orchestrate;
pub mod point;
pub mod protocol;
pub mod score;
pub mod session;
pub mod sim;
pub mod state;
