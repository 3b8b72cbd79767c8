//! Loggers that are shared by a process or belong to a thread.
//!
//! A scope keeps its logger in a slot, which is empty until the scope is
//! initialised.

use vstd::prelude::*;

use crate::channel::{taken, takes_from, tries};
use crate::config::LoggerConfig;
use crate::level::LogLevel;
use crate::logger::{
    commands_are_handed_over_once, message, shutdowns_are_handed_over_once, FLog, FLogState,
};
use crate::message::LoggerCommand;
use crate::pool::{without, StringPool};
use crate::report::{panic_report, report_panic, PanicLocation};
use crate::writer::WriterSetup;

verus! {

/// What comes of initialising a scope.
pub struct Started {
    /// What the writer of the new logger starts from.
    pub setup: WriterSetup,
    /// The logger that was in the slot before, now shut down.
    pub replaced: Option<FLog>,
}

/// Whether `after` is the logger `before`, if there is one, asked for one more
/// command.
pub open spec fn asked(before: Option<FLog>, after: Option<FLog>, command: LoggerCommand) -> bool {
    match (before, after) {
        (Some(b), Some(a)) => a@ == b@.asked(command) && a.in_order(),
        (None, None) => true,
        _ => false,
    }
}

/// Whether `after` is the logger `before`, if there is one, shut down.
pub open spec fn closed(before: Option<FLog>, after: Option<FLog>) -> bool {
    match (before, after) {
        (Some(b), Some(a)) => a@ == b@.closed() && a.in_order(),
        (None, None) => true,
        _ => false,
    }
}

/// Whether the slot was given a new logger with this tuning, and the one before it
/// was shut down.
pub open spec fn installed(
    before: Option<FLog>,
    after: Option<FLog>,
    config: LoggerConfig,
    started: Started,
) -> bool {
    &&& after matches Some(logger)
    &&& logger@ == FLogState::fresh(takes_from(started.setup.rx))
    &&& logger.in_order()
    &&& taken(started.setup.rx) == Seq::<LoggerCommand>::empty()
    &&& tries(started.setup.rx) == Seq::<bool>::empty()
    &&& started.setup.config == config
    &&& closed(before, started.replaced)
}

/// Shuts down the logger in the slot, if there is one, and takes it out.
fn retire(slot: &mut Option<FLog>) -> (r: Option<FLog>)
    ensures
        *final(slot) is None,
        closed(*old(slot), r),
{
    match slot.take() {
        Some(logger) => {
            let mut logger = logger;
            logger.shutdown();
            Some(logger)
        },
        None => None,
    }
}

/// Puts a new logger into the slot.
fn install(slot: &mut Option<FLog>, config: LoggerConfig) -> (r: Started)
    ensures
        installed(*old(slot), *final(slot), config, r),
{
    let (logger, setup) = FLog::with_config(config);
    let replaced = retire(slot);
    *slot = Some(logger);
    Started { setup, replaced }
}

/// Asks the logger of the process to flush. It has to be initialised.
pub fn flush_global(slot: &mut Option<FLog>)
    requires
        *old(slot) is Some,
    ensures
        asked(*old(slot), *final(slot), LoggerCommand::Flush),
{
    if let Some(logger) = slot {
        logger.flush();
    }
}

/// Asks the logger of the thread to flush, if it is initialised.
pub fn flush_local(slot: &mut Option<FLog>)
    ensures
        asked(*old(slot), *final(slot), LoggerCommand::Flush),
{
    if let Some(logger) = slot {
        logger.flush();
    }
}

/// Gives the thread a logger with the default tuning.
pub fn init_local(slot: &mut Option<FLog>) -> (r: Started)
    ensures
        r.setup.config == LoggerConfig::balanced(),
        installed(*old(slot), *final(slot), LoggerConfig::balanced(), r),
{
    init_local_with_config(slot, LoggerConfig::default())
}

/// Gives the thread a logger.
pub fn init_local_with_config(slot: &mut Option<FLog>, config: LoggerConfig) -> (r: Started)
    ensures
        r.setup.config == config,
        installed(*old(slot), *final(slot), config, r),
{
    install(slot, config)
}

/// Gives the process a logger.
pub fn init_global_with_config(slot: &mut Option<FLog>, config: LoggerConfig) -> (r: Started)
    ensures
        r.setup.config == config,
        installed(*old(slot), *final(slot), config, r),
{
    install(slot, config)
}

/// Gives the process a logger with the default tuning.
pub fn init_global(slot: &mut Option<FLog>) -> (r: Started)
    ensures
        r.setup.config == LoggerConfig::balanced(),
        installed(*old(slot), *final(slot), LoggerConfig::balanced(), r),
{
    init_global_with_config(slot, LoggerConfig::default())
}

/// Logs a message at the logger of the thread, if it is initialised.
pub fn local_log_with_level(slot: &mut Option<FLog>, level: LogLevel, msg: String)
    ensures
        asked(*old(slot), *final(slot), message(level, msg)),
{
    if let Some(logger) = slot {
        logger.log(level, msg);
    }
}

/// Logs a message at the logger of the process. It has to be initialised.
pub fn global_log_with_level(slot: &mut Option<FLog>, level: LogLevel, msg: String)
    requires
        *old(slot) is Some,
    ensures
        asked(*old(slot), *final(slot), message(level, msg)),
{
    if let Some(logger) = slot {
        logger.log(level, msg);
    }
}

/// Whether `after` is the logger `before`, if there is one, asked to flush and then
/// to log `text` as an error.
pub open spec fn reported(before: Option<FLog>, after: Option<FLog>, text: Seq<char>) -> bool {
    match (before, after) {
        (Some(b), Some(a)) => {
            &&& a.in_order()
            &&& exists|m: String|
                m@ == text && a@ == b@.asked(LoggerCommand::Flush).asked(
                    #[trigger] message(LogLevel::Error, m),
                )
        },
        (None, None) => true,
        _ => false,
    }
}

/// The number of loggers in a slot.
pub open spec fn initialised(slot: Option<FLog>) -> nat {
    if slot is Some {
        1
    } else {
        0
    }
}

/// Deals with a panic: of the loggers of the process and of the thread, those that
/// are initialised are flushed first, and then log the report of the panic as an
/// error, each in a string of the pool.
pub fn on_panic(
    global: &mut Option<FLog>,
    local: &mut Option<FLog>,
    location: &Option<PanicLocation>,
    payload: Option<&str>,
    pool: &mut StringPool,
)
    requires
        old(pool).wf(),
    ensures
        ({
            let text = panic_report(
                *location,
                match payload {
                    Some(m) => Some(m@),
                    None => None,
                },
            );
            &&& reported(*old(global), *final(global), text)
            &&& reported(*old(local), *final(local), text)
        }),
        final(pool).wf(),
        final(pool)@ == without(old(pool)@, initialised(*old(global)) + initialised(*old(local))),
{
    if let Some(logger) = global {
        logger.flush();
    }
    if let Some(logger) = local {
        logger.flush();
    }
    if let Some(logger) = global {
        let mut report = pool.get();
        report_panic(&mut report, location, payload);
        logger.error(report);
    }
    if let Some(logger) = local {
        let mut report = pool.get();
        report_panic(&mut report, location, payload);
        logger.error(report);
    }
}

/// Stands for the life of the logger of the process: where it ends, the logger is
/// shut down.
pub struct GlobalLogHelper {}

impl GlobalLogHelper {
    /// Shuts down the logger of the process, if it is initialised, and takes it
    /// out of its slot.
    pub fn release(&self, slot: &mut Option<FLog>) -> (r: Option<FLog>)
        ensures
            *final(slot) is None,
            closed(*old(slot), r),
    {
        retire(slot)
    }
}

/// A local logger that was not initialised drops messages and flushes without a
/// trace.
pub proof fn uninitialised_slots_stay_empty(after: Option<FLog>, command: LoggerCommand)
    requires
        asked(None, after, command),
    ensures
        after is None,
{
}

/// What is asked of a scope is asked of its logger once, and of nothing else: an open
/// logger hands over that command behind the others. A slot stays filled or empty.
pub proof fn scopes_ask_their_loggers_once(
    before: Option<FLog>,
    after: Option<FLog>,
    command: LoggerCommand,
)
    requires
        asked(before, after, command),
    ensures
        before is Some == after is Some,
        before is Some ==> {
            let b = before->Some_0@;
            let a = after->Some_0@;
            let n = b.commands.len() as int;
            &&& a.channel == b.channel
            &&& a.open == b.open
            &&& b.open ==> a.commands.len() == n + 1 && a.commands.take(n) == b.commands
                && a.commands[n] == command
            &&& !b.open ==> a.commands == b.commands
        },
{
    if before is Some {
        commands_are_handed_over_once(before->Some_0@, command);
    }
}

/// The logger that leaves a scope is shut down: it hands over one `Shutdown` behind
/// the other commands, and nothing more.
pub proof fn scopes_shut_their_loggers_down(before: Option<FLog>, after: Option<FLog>)
    requires
        closed(before, after),
    ensures
        before is Some == after is Some,
        before is Some ==> {
            let b = before->Some_0@;
            let a = after->Some_0@;
            let n = b.commands.len() as int;
            &&& a.channel == b.channel
            &&& !a.open
            &&& b.open ==> a.commands.len() == n + 1 && a.commands.take(n) == b.commands
                && a.commands[n] == LoggerCommand::Shutdown
            &&& !b.open ==> a.commands == b.commands
        },
{
    if before is Some {
        shutdowns_are_handed_over_once(before->Some_0@);
    }
}

/// A scope is initialised as it was asked to be: the writer of its new logger gets
/// the tuning that was given, in every part. The new logger is open and has been
/// asked for nothing, the writer is at the other end of its channel, and the logger
/// that was there before is shut down.
pub proof fn scopes_are_tuned_as_given(
    before: Option<FLog>,
    after: Option<FLog>,
    config: LoggerConfig,
    started: Started,
)
    requires
        installed(before, after, config, started),
    ensures
        started.setup.config.buffer_size == config.buffer_size,
        started.setup.config.batch_size == config.batch_size,
        started.setup.config.flush_threshold == config.flush_threshold,
        started.setup.config.flush_batch_threshold == config.flush_batch_threshold,
        started.setup.config.flush_interval.nanos == config.flush_interval.nanos,
        after is Some,
        after->Some_0@.open,
        after->Some_0@.commands.len() == 0,
        after->Some_0@.channel == takes_from(started.setup.rx),
        taken(started.setup.rx).len() == 0,
        tries(started.setup.rx).len() == 0,
        before is Some == started.replaced is Some,
        before is Some ==> {
            let b = before->Some_0@;
            let a = started.replaced->Some_0@;
            let n = b.commands.len() as int;
            &&& a.channel == b.channel
            &&& !a.open
            &&& b.open ==> a.commands.len() == n + 1 && a.commands.take(n) == b.commands
                && a.commands[n] == LoggerCommand::Shutdown
            &&& !b.open ==> a.commands == b.commands
        },
{
    scopes_shut_their_loggers_down(before, started.replaced);
}

/// On a panic an open logger is asked for two things behind all others: to flush, and
/// then to log the report as an error, once.
pub proof fn panics_are_reported_once(before: Option<FLog>, after: Option<FLog>, text: Seq<char>)
    requires
        reported(before, after, text),
    ensures
        before is Some == after is Some,
        before is Some ==> {
            let b = before->Some_0@;
            let a = after->Some_0@;
            let n = b.commands.len() as int;
            &&& a.channel == b.channel
            &&& a.open == b.open
            &&& b.open ==> {
                &&& a.commands.len() == n + 2
                &&& a.commands.take(n) == b.commands
                &&& a.commands[n] == LoggerCommand::Flush
                &&& a.commands[n + 1] matches LoggerCommand::Msg(log) && log.level
                    == LogLevel::Error && log.msg@ == text
            }
            &&& !b.open ==> a.commands == b.commands
        },
{
    if before is Some {
        let b = before->Some_0@;
        let a = after->Some_0@;
        let n = b.commands.len() as int;
        if b.open {
            assert(a.commands.take(n) =~= b.commands);
        }
    }
}

/// A slot holds one logger or none.
pub proof fn slots_hold_one_logger(logger: FLog)
    ensures
        initialised(Some(logger)) == 1,
        initialised(None) == 0,
{
}

} // verus!
