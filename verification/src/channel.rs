//! Consumer channels of tokio.
//!
//! The connection works with any kind of channel. Applications use the
//! bounded channels of tokio, and this module puts commands into them. It
//! never waits: a channel that is full or closed does not get the command,
//! and the other channels are served all the same.
use vstd::prelude::*;
use tokio::sync::mpsc::Sender;
use crate::connection::{Command, Delivery};

verus! {

/// `tokio::sync::mpsc::Sender`, the sending end of a bounded channel. To the
/// verifier a value of it is opaque.
#[verifier::external_type_specification]
#[verifier::external_body]
#[verifier::reject_recursive_types(T)]
pub struct ExSender<T>(tokio::sync::mpsc::Sender<T>);

/// A command that did not get into its channel.
#[derive(Debug, PartialEq)]
pub enum Undelivered {
    /// The channel holds as many commands as it has room for.
    Full(Command),
    /// The receiving end of the channel is closed or gone.
    Closed(Command),
}

impl Undelivered {
    /// The command that was not delivered.
    pub open spec fn command(self) -> Command {
        match self {
            Undelivered::Full(command) => command,
            Undelivered::Closed(command) => command,
        }
    }
}

/// `Sender::try_send`: puts the command into the channel if the channel has
/// room and its receiving end is open, and returns at once in any case.
/// Whether the command gets in depends on the consumer; if it does not, it
/// comes back as it was.
#[verifier::external_body]
fn try_send(sender: &Sender<Command>, command: Command) -> (result: Result<(), Undelivered>)
    ensures
        result matches Err(failed) ==> failed.command() == command,
{
    match sender.try_send(command) {
        Ok(()) => Ok(()),
        Err(tokio::sync::mpsc::error::TrySendError::Full(command)) => Err(
            Undelivered::Full(command),
        ),
        Err(tokio::sync::mpsc::error::TrySendError::Closed(command)) => Err(
            Undelivered::Closed(command),
        ),
    }
}

/// True if `failed` are commands of `commands`, in the order of `commands`,
/// each position of `commands` used at most once.
pub open spec fn among(failed: Seq<Command>, commands: Seq<Command>) -> bool {
    exists|at: Seq<int>|
        {
            &&& at.len() == failed.len()
            &&& forall|j: int|
                0 <= j < at.len() ==> 0 <= #[trigger] at[j] < commands.len() && commands[at[j]]
                    == failed[j]
            &&& forall|a: int, b: int| 0 <= a < b < at.len() ==> at[a] < at[b]
        }
}

/// Puts a command into its channel without waiting. Where the channel does
/// not take it, the command comes back with the reason.
pub fn deliver(delivery: Delivery<Sender<Command>>) -> (result: Result<(), Undelivered>)
    ensures
        result matches Err(failed) ==> failed.command() == delivery.command,
{
    try_send(&delivery.sender, delivery.command)
}

/// Puts every command into its channel without waiting, in order. A channel
/// that does not take its command does not keep the others from getting
/// theirs: the result holds the commands that were not delivered, in order.
pub fn deliver_all(deliveries: Vec<Delivery<Sender<Command>>>) -> (failed: Vec<Undelivered>)
    ensures
        among(
            failed@.map_values(|u: Undelivered| u.command()),
            deliveries@.map_values(|d: Delivery<Sender<Command>>| d.command),
        ),
{
    let ghost commands = deliveries@.map_values(|d: Delivery<Sender<Command>>| d.command);
    let ghost mut at: Seq<int> = Seq::empty();
    let mut failed: Vec<Undelivered> = Vec::new();
    for delivery in iter: deliveries
        invariant
            iter.seq().len() == commands.len(),
            forall|j: int|
                0 <= j < iter.seq().len() ==> (#[trigger] iter.seq()[j]).command == commands[j],
            at.len() == failed@.len(),
            forall|j: int|
                0 <= j < at.len() ==> 0 <= #[trigger] at[j] < iter.index() && commands[at[j]]
                    == failed@[j].command(),
            forall|a: int, b: int| 0 <= a < b < at.len() ==> at[a] < at[b],
    {
        match deliver(delivery) {
            Ok(()) => {},
            Err(undelivered) => {
                failed.push(undelivered);
                proof {
                    at = at.push(iter.index());
                }
            },
        }
    }
    proof {
        let named = failed@.map_values(|u: Undelivered| u.command());
        assert(at.len() == named.len());
        assert forall|j: int| 0 <= j < at.len() implies 0 <= #[trigger] at[j] < commands.len()
            && commands[at[j]] == named[j] by {}
    }
    failed
}

} // verus!
