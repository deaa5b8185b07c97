//! Dispatch core for chat notifications: a batching dispatcher driven as a
//! state machine, the rate gate it consults, the producer queue, and the
//! provider-specific pieces that turn responses into delivery outcomes.

pub mod dispatch;
pub mod error;
pub mod matrix;
pub mod mattermost;
pub mod queue;
pub mod utils;
