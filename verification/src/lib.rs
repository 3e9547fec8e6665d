//! A bounded broadcast queue for a single-threaded publish/subscribe broker,
//! and the topic names and filters that address its channels.
//!
//! Every item sent on a channel is handed to every live [`broadcast::Receiver`];
//! a full queue pushes back on its senders, an empty one parks its receivers.
//! The queue's rules are verified in [`shared`] against the model in [`queue`];
//! [`laws`] proves what follows from them over whole runs. The handles and
//! the functions that make and serve them are also found at the root.

pub mod poll;
pub mod queue;
pub mod task;
pub mod shared;
pub mod broadcast;
pub mod intern;
pub mod session;
pub mod topic;
pub mod laws;

pub use broadcast::channel;
pub use broadcast::collect;
pub use broadcast::deliver;
pub use broadcast::keeps_item;
pub use broadcast::ReceiveError;
pub use broadcast::Receiver;
pub use broadcast::SendError;
pub use broadcast::Sender;
