//! Verified core of an event-loop library: object pooling, priority
//! scheduling for a compute pool, round-robin dispatch, handler registry
//! bookkeeping and TCP connection bookkeeping.
pub mod event;
pub mod net;
pub mod object_pool;
pub mod reactor;
mod shared_map;
pub mod thread_pool;

pub use event::Event;
pub use object_pool::{ObjectPool, PooledObject};
pub use reactor::{HandlerRegistry, InterestSet};
pub use thread_pool::{ComputePoolMetrics, ComputeQueue, RoundRobin, TaskPriority};
