//! The channel from a logger to its writer.
//!
//! A channel has one end at which commands are handed to it, and one at which they
//! are taken. Neither end can be copied.

use crossbeam_channel::{Receiver, Sender};
use vstd::prelude::*;

use crate::message::LoggerCommand;

verus! {

/// Declares `crossbeam_channel::Sender`, of which nothing is known.
#[verifier::external_type_specification]
#[verifier::external_body]
#[verifier::reject_recursive_types(T)]
pub struct ExSender<T>(Sender<T>);

/// Declares `crossbeam_channel::Receiver`, of which nothing is known.
#[verifier::external_type_specification]
#[verifier::external_body]
#[verifier::reject_recursive_types(T)]
pub struct ExReceiver<T>(Receiver<T>);

/// The only sender of a channel.
pub struct CommandSender {
    tx: Sender<LoggerCommand>,
}

/// The only receiver of a channel.
pub struct CommandReceiver {
    rx: Receiver<LoggerCommand>,
}

/// The commands that were handed to the channel at this sender, oldest first.
pub uninterp spec fn handed(tx: CommandSender) -> Seq<LoggerCommand>;

/// The commands that were taken from the channel at this receiver, oldest first.
pub uninterp spec fn taken(rx: CommandReceiver) -> Seq<LoggerCommand>;

/// The times a command was looked for at this receiver, oldest first, each with
/// whether one was waited for.
pub uninterp spec fn tries(rx: CommandReceiver) -> Seq<bool>;

/// Which channel a sender leads into.
pub uninterp spec fn leads_into(tx: CommandSender) -> nat;

/// Which channel a receiver takes from.
pub uninterp spec fn takes_from(rx: CommandReceiver) -> nat;

/// All commands that are handed to a channel in its whole life, oldest first.
pub uninterp spec fn all_handed(channel: nat) -> Seq<LoggerCommand>;

/// `unbounded`, which makes a channel that holds any number of commands, and
/// gives its two ends, at which nothing has passed or was looked for yet.
#[verifier::external_body]
pub(crate) fn open_channel() -> (r: (CommandSender, CommandReceiver))
    ensures
        handed(r.0) == Seq::<LoggerCommand>::empty(),
        taken(r.1) == Seq::<LoggerCommand>::empty(),
        tries(r.1) == Seq::<bool>::empty(),
        leads_into(r.0) == takes_from(r.1),
{
    let (tx, rx) = crossbeam_channel::unbounded();
    (CommandSender { tx }, CommandReceiver { rx })
}

/// `Sender::try_send`, which hands `command` to the channel without waiting. As the
/// channel has no other sender, what was handed over here is what was handed to the
/// channel. A command that the channel refuses comes back unchanged. Left unsaid is
/// when that is: whether a receiver is left depends on other threads.
#[verifier::external_body]
pub(crate) fn try_send(tx: &mut CommandSender, command: LoggerCommand) -> (r: Result<
    (),
    LoggerCommand,
>)
    ensures
        handed(*final(tx)) == handed(*old(tx)).push(command),
        leads_into(*final(tx)) == leads_into(*old(tx)),
        handed(*final(tx)).is_prefix_of(all_handed(leads_into(*final(tx)))),
        r matches Err(back) ==> back == command,
{
    match tx.tx.try_send(command) {
        Ok(()) => Ok(()),
        Err(refused) => Err(refused.into_inner()),
    }
}

/// `Sender::send`, which hands `command` to the channel, and waits for room,
/// which an unbounded channel always has. As the channel has no other sender, what
/// was handed over here is what was handed to the channel. A command that the
/// channel refuses comes back unchanged. Left unsaid is when that is: whether a
/// receiver is left depends on other threads.
#[verifier::external_body]
pub(crate) fn send(tx: &mut CommandSender, command: LoggerCommand) -> (r: Result<
    (),
    LoggerCommand,
>)
    ensures
        handed(*final(tx)) == handed(*old(tx)).push(command),
        leads_into(*final(tx)) == leads_into(*old(tx)),
        handed(*final(tx)).is_prefix_of(all_handed(leads_into(*final(tx)))),
        r matches Err(back) ==> back == command,
{
    match tx.tx.send(command) {
        Ok(()) => Ok(()),
        Err(refused) => Err(refused.into_inner()),
    }
}

/// The drop of a `Sender`, after which nothing more is handed to its channel, as
/// that has no other sender.
#[verifier::external_body]
pub(crate) fn hang_up(slot: &mut Option<CommandSender>)
    ensures
        *final(slot) is None,
        *old(slot) matches Some(tx) ==> handed(tx) == all_handed(leads_into(tx)),
{
    drop(slot.take())
}

/// `Receiver::recv`, which waits for a command and takes it, or gives `None` once
/// the channel is empty and has no sender left, so that all that was ever handed to
/// it was taken. The commands come in the order in which they were handed over, and
/// as the channel has no other receiver, none is missing here. It is one try, which
/// waits. Left unsaid is which of the two comes: that depends on other threads.
#[verifier::external_body]
pub(crate) fn recv(rx: &mut CommandReceiver) -> (r: Option<LoggerCommand>)
    ensures
        takes_from(*final(rx)) == takes_from(*old(rx)),
        tries(*final(rx)) == tries(*old(rx)).push(true),
        taken(*final(rx)).is_prefix_of(all_handed(takes_from(*final(rx)))),
        match r {
            Some(command) => taken(*final(rx)) == taken(*old(rx)).push(command),
            None => taken(*final(rx)) == taken(*old(rx)) && taken(*final(rx)) == all_handed(
                takes_from(*final(rx)),
            ),
        },
{
    rx.rx.recv().ok()
}

/// `Receiver::try_recv`, which takes a command if one is there, and otherwise
/// gives `None` at once. The commands come in the order in which they were handed
/// over, and as the channel has no other receiver, none is missing here. It is one
/// try, which does not wait. Left unsaid is which of the two comes: that depends on
/// other threads.
#[verifier::external_body]
pub(crate) fn try_recv(rx: &mut CommandReceiver) -> (r: Option<LoggerCommand>)
    ensures
        takes_from(*final(rx)) == takes_from(*old(rx)),
        tries(*final(rx)) == tries(*old(rx)).push(false),
        taken(*final(rx)).is_prefix_of(all_handed(takes_from(*final(rx)))),
        match r {
            Some(command) => taken(*final(rx)) == taken(*old(rx)).push(command),
            None => taken(*final(rx)) == taken(*old(rx)),
        },
{
    rx.rx.try_recv().ok()
}

} // verus!
