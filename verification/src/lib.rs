//! A verified core for a Restate service SDK: invocation types, the journal and
//! state machine that drive a durable invocation, the local state store, and the
//! wire format of the service protocol.

pub mod types;
pub mod wire;
pub mod entry;
pub mod codec;
pub mod store;
pub mod message;
pub mod shared_map;
pub mod invocation;
pub mod journal;
pub mod logger;
pub mod machine;
pub mod openapi;
pub mod syscall;
pub mod context;
pub mod endpoint;
pub mod test_utils;
