//! The core of a territory game on a hexagonal grid whose tiles are live
//! machines: the replicated log of game events and the state derived from
//! it, the evaluator that turns sustained overload into captures, and the
//! flood with which tiles attack each other and measure the loss.
//!
//! Everything here decides and computes; reading clocks and sockets and
//! talking to the consensus library is left to the program around it.
pub mod api;
pub mod conversions;
pub mod events;
pub mod finalkill;
pub mod grid;
pub mod join;
pub mod keys;
pub mod logic;
pub mod network;
pub mod node_registry;
pub mod raft;
pub mod state;
pub mod storage;
pub mod tile;
pub mod udp;
pub mod wire;
