use vstd::prelude::*;

verus! {

/// Unique identifier of a connection.
///
/// Each TCP connection is given an id when it is accepted or established;
/// the id stays the same for the connection's lifetime.
#[derive(Debug, Clone, Copy, PartialEq, Eq, Hash, Structural)]
pub struct ConnectionId(pub u64);

impl ConnectionId {
    pub fn new(id: u64) -> (c: Self)
        ensures
            c.0 == id,
    {
        ConnectionId(id)
    }

    pub fn as_u64(&self) -> (id: u64)
        ensures
            id == self.0,
    {
        self.0
    }
}

/// Log levels for network events.
#[derive(Debug, Clone, Copy, PartialEq, Eq, Structural)]
pub enum LogLevel {
    Debug,
    Info,
    Warn,
    Error,
}

/// Logger for network events; implement it to handle logging as you prefer.
pub trait Logger: Send + Sync {
    fn log(&self, level: LogLevel, message: &str);
}

/// Logger that discards all messages.
#[derive(Clone, Copy)]
pub struct NoOpLogger;

impl Default for NoOpLogger {
    fn default() -> (l: Self) {
        NoOpLogger
    }
}

impl Logger for NoOpLogger {
    fn log(&self, level: LogLevel, message: &str) {
    }
}

} // verus!
