//! An actor library: actors own their state, receive "tell" messages (no answer) and
//! "ask" messages (answered through a reply channel), and may poll extra channels.
use vstd::prelude::*;

pub mod actor;
pub mod channels;
pub mod expand;
pub mod expand_pakka;
pub mod naming;
pub mod syntax;

pub use actor::{ActorError, Message};
pub use channels::{DelayedMessage, IntervalMessage, Intervaller, RecvPoll, Singleshot};
