//! Verified core of a live-audio split controller.
//!
//! The library owns the logic of inspecting an audio server's routing graph,
//! planning the rewiring that duplicates one producer's signal into two
//! relay-backed paths, keeping a durable record of every severed link, and
//! deciding recovery steps when a relay process dies.  All interaction with
//! the outside world (running the server's command-line tools, spawning relay
//! processes, reading and writing record files, drawing the terminal
//! interface) is left to the surrounding application, which feeds this
//! library plain values and executes the plans it returns.

pub mod codec;
pub mod error;
pub mod graph;
pub mod lifecycle;
pub mod routing;
pub mod session;
pub mod state;
pub mod text;
