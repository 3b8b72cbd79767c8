//! The logger: the end at which messages are logged.
//!
//! Its methods take it exclusively, so that what it has handed to its channel is
//! known. To share a logger, put it behind a lock.

use vstd::prelude::*;

use crate::channel::{
    all_handed, handed, hang_up, leads_into, open_channel, send, taken, takes_from, tries,
    try_send, CommandSender,
};
use crate::config::LoggerConfig;
use crate::level::LogLevel;
use crate::message::{messages_in, Entry, LogMsg, LoggerCommand};
use crate::writer::WriterSetup;

verus! {

/// A logger, which hands commands to its writer until it is shut down.
pub struct FLog {
    sender: Option<CommandSender>,
    /// The channel of a logger that was shut down.
    left: Ghost<nat>,
}

/// What can be known of a logger.
#[verifier::ext_equal]
pub struct FLogState {
    /// The channel that its commands go into.
    pub channel: nat,
    /// Whether it hands on what is asked of it, as it does until it is shut down.
    pub open: bool,
    /// The commands that it has handed to the channel, oldest first.
    pub commands: Seq<LoggerCommand>,
}

impl FLogState {
    /// A logger that leads into `channel` and has been asked for nothing.
    pub open spec fn fresh(channel: nat) -> Self {
        FLogState { channel, open: true, commands: Seq::empty() }
    }

    /// After one more command, which a logger hands on until it is shut down.
    pub open spec fn asked(self, command: LoggerCommand) -> Self {
        if self.open {
            FLogState { commands: self.commands.push(command), ..self }
        } else {
            self
        }
    }

    /// After shutting down: the last command is `Shutdown`, and none follows.
    pub open spec fn closed(self) -> Self {
        if self.open {
            FLogState {
                open: false,
                commands: self.commands.push(LoggerCommand::Shutdown),
                ..self
            }
        } else {
            self
        }
    }

    /// A logger that was shut down has handed over one `Shutdown`, last of all, and
    /// another one none.
    pub open spec fn orderly(self) -> bool {
        let n = self.commands.len();
        &&& !self.open ==> n > 0 && self.commands.last() == LoggerCommand::Shutdown
        &&& forall|i: int|
            0 <= i < (if self.open { n as int } else { n - 1 }) ==> #[trigger] self.commands[i]
                != LoggerCommand::Shutdown
    }
}

/// While a logger is open, its commands are those that were handed over at its
/// sender. Once it is shut down it has no sender any more, and its commands are all
/// that its channel was ever handed.
impl View for FLog {
    type V = FLogState;

    closed spec fn view(&self) -> FLogState {
        match self.sender {
            Some(tx) => FLogState { channel: leads_into(tx), open: true, commands: handed(tx) },
            None => FLogState {
                channel: self.left@,
                open: false,
                commands: all_handed(self.left@),
            },
        }
    }
}

/// The command to log a message.
pub open spec fn message(level: LogLevel, msg: String) -> LoggerCommand {
    LoggerCommand::Msg(LogMsg { level, msg })
}

impl FLog {
    /// What the logger has handed over while it is open came first of all that its
    /// channel is ever handed, in the same order.
    pub closed spec fn in_order(&self) -> bool {
        self.sender matches Some(tx) ==> handed(tx).is_prefix_of(all_handed(leads_into(tx)))
    }

    /// Makes a logger with the default tuning, and what its writer starts from.
    pub fn new() -> (r: (Self, WriterSetup))
        ensures
            r.0.in_order(),
            r.0@ == FLogState::fresh(takes_from(r.1.rx)),
            taken(r.1.rx) == Seq::<LoggerCommand>::empty(),
            tries(r.1.rx) == Seq::<bool>::empty(),
            r.1.config == LoggerConfig::balanced(),
    {
        Self::with_config(LoggerConfig::default())
    }

    /// Makes a logger, and what its writer starts from.
    pub fn with_config(config: LoggerConfig) -> (r: (Self, WriterSetup))
        ensures
            r.0.in_order(),
            r.0@ == FLogState::fresh(takes_from(r.1.rx)),
            taken(r.1.rx) == Seq::<LoggerCommand>::empty(),
            tries(r.1.rx) == Seq::<bool>::empty(),
            r.1.config == config,
    {
        let (tx, rx) = open_channel();
        let logger = FLog { sender: Some(tx), left: Ghost(leads_into(tx)) };
        (logger, WriterSetup { rx, config })
    }

    /// Logs a message at a level.
    pub fn log(&mut self, level: LogLevel, msg: String)
        ensures
            final(self).in_order(),
            final(self)@ == old(self)@.asked(message(level, msg)),
    {
        if let Some(sender) = &mut self.sender {
            let log_msg = LogMsg { level, msg };
            let _ = try_send(sender, LoggerCommand::Msg(log_msg));
        }
    }

    /// Logs a message at `Trace`.
    pub fn trace(&mut self, msg: String)
        ensures
            final(self).in_order(),
            final(self)@ == old(self)@.asked(message(LogLevel::Trace, msg)),
    {
        self.log(LogLevel::Trace, msg);
    }

    /// Logs a message at `Debug`.
    pub fn debug(&mut self, msg: String)
        ensures
            final(self).in_order(),
            final(self)@ == old(self)@.asked(message(LogLevel::Debug, msg)),
    {
        self.log(LogLevel::Debug, msg);
    }

    /// Logs a message at `Info`.
    pub fn info(&mut self, msg: String)
        ensures
            final(self).in_order(),
            final(self)@ == old(self)@.asked(message(LogLevel::Info, msg)),
    {
        self.log(LogLevel::Info, msg);
    }

    /// Logs a message at `Warn`.
    pub fn warn(&mut self, msg: String)
        ensures
            final(self).in_order(),
            final(self)@ == old(self)@.asked(message(LogLevel::Warn, msg)),
    {
        self.log(LogLevel::Warn, msg);
    }

    /// Logs a message at `Error`.
    pub fn error(&mut self, msg: String)
        ensures
            final(self).in_order(),
            final(self)@ == old(self)@.asked(message(LogLevel::Error, msg)),
    {
        self.log(LogLevel::Error, msg);
    }

    /// Asks the writer to write and flush all that was logged.
    pub fn flush(&mut self)
        ensures
            final(self).in_order(),
            final(self)@ == old(self)@.asked(LoggerCommand::Flush),
    {
        if let Some(sender) = &mut self.sender {
            let _ = send(sender, LoggerCommand::Flush);
        }
    }

    /// Asks the writer to write and flush all that was logged and then to stop,
    /// and takes no more messages.
    pub fn shutdown(&mut self)
        ensures
            final(self).in_order(),
            final(self)@ == old(self)@.closed(),
    {
        if let Some(sender) = &mut self.sender {
            let _ = send(sender, LoggerCommand::Shutdown);
            proof {
                self.left@ = old(self)@.channel;
            }
        }
        hang_up(&mut self.sender);
        assert(self@ =~= old(self)@.closed());
    }
}

/// Once a logger is shut down, nothing that is asked of it reaches its writer,
/// and shutting it down again changes nothing.
pub proof fn closed_loggers_stay_silent(logger: FLogState, command: LoggerCommand)
    ensures
        !logger.closed().open,
        logger.closed().asked(command) == logger.closed(),
        logger.closed().closed() == logger.closed(),
{
}

/// A new logger is orderly, and whatever is asked of a logger keeps it so.
pub proof fn loggers_stay_orderly(logger: FLogState, command: LoggerCommand)
    requires
        logger.orderly(),
        command != LoggerCommand::Shutdown,
    ensures
        FLogState::fresh(logger.channel).orderly(),
        logger.asked(command).orderly(),
        logger.closed().orderly(),
{
}

/// What a logger has handed over, be it open or shut down, are the first of all
/// commands that its channel is ever handed.
pub proof fn loggers_hand_over_in_order(logger: FLog)
    requires
        logger.in_order(),
    ensures
        logger@.commands.is_prefix_of(all_handed(logger@.channel)),
{
}

/// What a logger that was shut down has handed over is all that its channel was
/// ever handed.
pub proof fn closed_loggers_are_complete(logger: FLog)
    requires
        !logger@.open,
    ensures
        logger@.commands == all_handed(logger@.channel),
{
}

/// An open logger hands over what is asked of it once: the commands handed over grow
/// by that one command, behind the others, which stay as they are. A logger that was
/// shut down hands over nothing.
pub proof fn commands_are_handed_over_once(logger: FLogState, command: LoggerCommand)
    ensures
        logger.open ==> {
            let n = logger.commands.len() as int;
            &&& logger.asked(command).open
            &&& logger.asked(command).channel == logger.channel
            &&& logger.asked(command).commands.len() == n + 1
            &&& logger.asked(command).commands.take(n) == logger.commands
            &&& logger.asked(command).commands[n] == command
        },
        !logger.open ==> logger.asked(command) == logger,
{
    assert(logger.commands.push(command).take(logger.commands.len() as int) =~= logger.commands);
}

/// Shutting a logger down hands over one `Shutdown` behind the other commands, which
/// stay as they are, and closes the logger. It stays on its channel.
pub proof fn shutdowns_are_handed_over_once(logger: FLogState)
    ensures
        logger.closed().channel == logger.channel,
        !logger.closed().open,
        logger.open ==> {
            let n = logger.commands.len() as int;
            &&& logger.closed().commands.len() == n + 1
            &&& logger.closed().commands.take(n) == logger.commands
            &&& logger.closed().commands[n] == LoggerCommand::Shutdown
        },
        !logger.open ==> logger.closed().commands == logger.commands,
{
    assert(logger.commands.push(LoggerCommand::Shutdown).take(logger.commands.len() as int)
        =~= logger.commands);
}

/// A new logger is open, on its channel, and has handed over nothing.
pub proof fn new_loggers_are_open(channel: nat)
    ensures
        FLogState::fresh(channel).open,
        FLogState::fresh(channel).channel == channel,
        FLogState::fresh(channel).commands.len() == 0,
{
}

/// A message is handed over as it was given, with its level and its own string.
pub proof fn messages_are_handed_over_as_given(level: LogLevel, msg: String)
    ensures
        message(level, msg) matches LoggerCommand::Msg(log) && log.level == level && log.msg == msg,
{
}

/// However often a logger was asked to log, what it has handed over when it is shut
/// down are the messages that were logged, as many and in the same order.
pub proof fn all_that_was_logged_is_handed_over(
    states: Seq<FLogState>,
    levels: Seq<LogLevel>,
    texts: Seq<String>,
)
    requires
        levels.len() == texts.len(),
        states.len() == texts.len() + 1,
        states[0].open,
        states[0].commands.len() == 0,
        forall|i: int|
            0 <= i < texts.len() ==> #[trigger] states[i + 1] == states[i].asked(
                message(levels[i], texts[i]),
            ),
    ensures
        ({
            let end = states[texts.len() as int];
            let logged = messages_in(end.closed().commands);
            &&& end.open
            &&& end.orderly()
            &&& end.channel == states[0].channel
            &&& messages_in(end.commands) == logged
            &&& logged.len() == texts.len()
            &&& forall|i: int|
                0 <= i < texts.len() ==> (#[trigger] logged[i]).level == levels[i] && logged[i].text
                    == texts[i]@
        }),
    decreases texts.len(),
{
    let n = texts.len() as int;
    let end = states[n];
    if n > 0 {
        let earlier = states.drop_last();
        let l = levels.drop_last();
        let t = texts.drop_last();
        assert forall|i: int| 0 <= i < t.len() implies #[trigger] earlier[i + 1]
            == earlier[i].asked(message(l[i], t[i])) by {
            assert(states[i + 1] == states[i].asked(message(levels[i], texts[i])));
        }
        all_that_was_logged_is_handed_over(earlier, l, t);
        let before = states[n - 1];
        assert(states[n - 1 + 1] == before.asked(message(levels[n - 1], texts[n - 1])));
        assert(end.commands.drop_last() =~= before.commands);
        assert(messages_in(before.closed().commands) == messages_in(before.commands));
        let logged = messages_in(end.commands);
        assert(logged == messages_in(before.commands).push(
            Entry { level: levels[n - 1], text: texts[n - 1]@ },
        ));
        assert forall|i: int| 0 <= i < n implies (#[trigger] logged[i]).level == levels[i]
            && logged[i].text == texts[i]@ by {
            if i < n - 1 {
                assert(logged[i] == messages_in(before.commands)[i]);
                assert(l[i] == levels[i] && t[i] == texts[i]);
            }
        }
        loggers_stay_orderly(before, message(levels[n - 1], texts[n - 1]));
    }
    assert(end.closed().commands.drop_last() =~= end.commands);
}

impl FLog {
    /// What is known of an open logger is what went through its sender.
    proof fn view_shows_the_sender(&self)
        ensures
            self.sender matches Some(tx) ==> self@.open && self@.channel == leads_into(tx)
                && self@.commands == handed(tx),
            self.sender is None ==> !self@.open && self@.commands == all_handed(self@.channel),
    {
    }
}

} // verus!
