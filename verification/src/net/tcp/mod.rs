pub mod connections;
pub mod traits;

pub use connections::{
    AcceptAction, AcceptOutcome, ConnectionTable, HandlerReaction, ReadAction, ReadOutcome,
    SetupOutcome, TableView, handler_reaction,
};
pub use traits::{ConnectionId, LogLevel, Logger, NoOpLogger};
