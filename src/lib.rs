//! Lane pooling for multi-party protocols: a rotating pool of interchangeable
//! peer-to-peer transports, the wire format those transports speak, and the
//! parallel fan-out helpers that borrow lanes from the pool.

pub mod engine;
pub mod error;
pub mod net;
pub mod pool;
pub mod wire;
pub mod rotation;
