//! Client library for a motion and IO controller that speaks a compact ASCII
//! command/reply protocol over one shared connection.
//!
//! The library holds the protocol codec (command framing, reply checking,
//! integer and status decoding), the motor request builder, the decisions
//! of the motor's polling operations, and the bookkeeping of the task that
//! owns the connection (one request in flight, each reply frame handed to
//! the request that was in flight). Moving bytes over the connection is left
//! to the caller.

pub mod codec;
pub mod dispatch;
pub mod motor;
