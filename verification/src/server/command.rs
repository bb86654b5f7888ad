//! The messages of the hub: commands to it, and what it delivers to clients.

use crate::schedule::normalized::NormalizedSchedule;
use tokio::sync::mpsc::UnboundedSender;
use vstd::prelude::*;

verus! {

/// `tokio::sync::mpsc::UnboundedSender`, the sending half of a client's
/// queue. Nothing is known to the verifier of what is inside.
#[verifier::external_type_specification]
#[verifier::external_body]
#[verifier::reject_recursive_types(T)]
pub struct ExUnboundedSender<T>(UnboundedSender<T>);

/// `UnboundedSender::clone` gives another handle to the same queue; nothing
/// is claimed of it.
pub assume_specification<T>[ <UnboundedSender<T> as Clone>::clone ](
    sender: &UnboundedSender<T>,
) -> (copy: UnboundedSender<T>)
;

/// What a client receives.
#[derive(Clone, Debug, PartialEq, Eq)]
pub enum Message {
    /// The id the client was given when it connected.
    UserId(u128),
    /// News on a channel.
    Update { channel: String, data: String },
}

/// What the hub can be told to do.
#[derive(Clone, Debug)]
pub enum Command {
    Failure,
    /// Add the client to the channel's subscribers.
    Subscribe { channel: String, id: u128 },
    /// Take the client off the channel's subscribers.
    Unsubscribe { channel: String, id: u128 },
    /// Create the channel, if it is not there yet.
    Register { channel: String },
    /// Make a client known, with the queue that reaches it.
    ClientRegister { id: u128, sender: UnboundedSender<Message> },
    /// Send `data` to every subscriber of the channel.
    Update { channel: String, data: String },
    Unknown { input: String },
    /// Send a ping to every client.
    Ping,
    /// Have the kiln start firing the schedule.
    StartSchedule { schedule: NormalizedSchedule },
    /// Have the kiln stop.
    StopSchedule,
}

} // verus!
