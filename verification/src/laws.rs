//! What holds of a logger and its writer as a whole.

use vstd::prelude::*;
use vstd::utf8::encode_utf8;

use crate::channel::all_handed;
use crate::clock::{Look, Reading, StampState, STAMP_LIFE_NANOS};
use crate::config::{Interval, LoggerConfig};
use crate::level::LogLevel;
use crate::logger::{
    all_that_was_logged_is_handed_over, closed_loggers_are_complete, loggers_hand_over_in_order,
    loggers_stay_orderly, message, FLog, FLogState,
};
use crate::message::{
    all_follow, all_readings, all_stamps_are_fresh, byte_len, entries, latest, lines, looks_join,
    messages_in, strings, waiting_bytes, Entry, LogMsg, LoggerCommand,
};
use crate::scope::{asked, reported};
use crate::state::{
    asks_for_flush, beginnings_are_wf, commands_keep_wf, done_flushes_keep_wf, noting_is_coherent,
    settling_keeps_wf, Phase, Printed, WriterState,
};
use crate::writer::{left_channel_alone, obeyed, settled, Output, Writer};

verus! {

/// What a writer is given in one turn.
pub enum Turn {
    /// A command, or none.
    Command(Option<LoggerCommand>),
    /// Time to settle, the clock having run for this long.
    Settle(Interval),
    /// Word that the flush is done, the clock having run for this long.
    Flushed(Interval),
}

/// A turn, and the looks at the clocks for the messages that became lines in it.
pub struct Move {
    pub turn: Turn,
    pub fresh: Seq<Look>,
}

/// Whether a writer in state `s` can make this move. A text that is printed fits
/// in memory.
pub open spec fn possible(s: WriterState, m: Move) -> bool {
    &&& all_follow(s.stamp, m.fresh)
    &&& match m.turn {
        Turn::Command(command) => s.takes_commands() && m.fresh.len() == s.rendered(command).len(),
        Turn::Settle(now) => {
            let since = now.after(s.flushed_at);
            &&& s.settles()
            &&& m.fresh.len() == s.settling_rendered(since).len()
            &&& s.write_due(since) ==> byte_len(lines(m.fresh, entries(s.pending))) <= usize::MAX
        },
        Turn::Flushed(_) => s.flushing && m.fresh.len() == 0,
    }
}

/// The state after a move.
#[verifier::opaque]
pub open spec fn moved(s: WriterState, m: Move) -> WriterState {
    match m.turn {
        Turn::Command(command) => s.accepted(command, m.fresh),
        Turn::Settle(now) => s.settled(now.after(s.flushed_at), m.fresh),
        Turn::Flushed(at) => s.flush_done(at),
    }
}

/// What is printed in a move.
#[verifier::opaque]
pub open spec fn printed(s: WriterState, m: Move) -> Printed {
    match m.turn {
        Turn::Command(command) => s.prints(command, m.fresh),
        Turn::Settle(now) => s.settling_prints(now.after(s.flushed_at), m.fresh),
        Turn::Flushed(_) => Printed { text: None, flush: false, spent: Seq::empty() },
    }
}

/// The text that an output holds, which is empty where it holds none.
pub open spec fn text_of(p: Printed) -> Seq<char> {
    match p.text {
        Some(text) => text,
        None => Seq::empty(),
    }
}

/// The state after several moves.
pub open spec fn run(s: WriterState, moves: Seq<Move>) -> WriterState
    decreases moves.len(),
{
    if moves.len() == 0 {
        s
    } else {
        moved(run(s, moves.drop_last()), moves.last())
    }
}

/// Whether a writer in state `s` can make these moves, one after the other.
pub open spec fn all_possible(s: WriterState, moves: Seq<Move>) -> bool
    decreases moves.len(),
{
    moves.len() > 0 ==> {
        &&& all_possible(s, moves.drop_last())
        &&& possible(run(s, moves.drop_last()), moves.last())
    }
}

/// All text that is printed in several moves.
pub open spec fn transcript(s: WriterState, moves: Seq<Move>) -> Seq<char>
    decreases moves.len(),
{
    if moves.len() == 0 {
        Seq::empty()
    } else {
        transcript(s, moves.drop_last()) + text_of(
            printed(run(s, moves.drop_last()), moves.last()),
        )
    }
}

/// The commands that are given in several moves, oldest first.
pub open spec fn commands_in(moves: Seq<Move>) -> Seq<LoggerCommand>
    decreases moves.len(),
{
    if moves.len() == 0 {
        Seq::empty()
    } else {
        let earlier = commands_in(moves.drop_last());
        match moves.last().turn {
            Turn::Command(Some(command)) => earlier.push(command),
            _ => earlier,
        }
    }
}

/// The messages among some commands, oldest first, with their strings.
pub open spec fn logs_in(commands: Seq<LoggerCommand>) -> Seq<LogMsg>
    decreases commands.len(),
{
    if commands.len() == 0 {
        Seq::empty()
    } else {
        let earlier = logs_in(commands.drop_last());
        match commands.last() {
            LoggerCommand::Msg(m) => earlier.push(m),
            _ => earlier,
        }
    }
}

/// The strings that are spent in several moves, oldest first.
pub open spec fn spent_in(s: WriterState, moves: Seq<Move>) -> Seq<String>
    decreases moves.len(),
{
    if moves.len() == 0 {
        Seq::empty()
    } else {
        spent_in(s, moves.drop_last()) + printed(run(s, moves.drop_last()), moves.last()).spent
    }
}

/// How long the clock had run when the last flush of several moves was done, or
/// when the one before them was.
pub open spec fn last_flush(before: Interval, moves: Seq<Move>) -> Interval
    decreases moves.len(),
{
    if moves.len() == 0 {
        before
    } else {
        match moves.last().turn {
            Turn::Flushed(at) => at,
            _ => last_flush(before, moves.drop_last()),
        }
    }
}

/// A move keeps a possible state possible. It prints just the text by which the
/// emitted text grows, and asks for a flush just when all of that counts as
/// flushed; otherwise what counts as flushed stays the same.
pub proof fn moves_keep_the_books(s: WriterState, m: Move)
    requires
        s.wf(),
        possible(s, m),
    ensures
        moved(s, m).wf(),
        moved(s, m).emitted == s.emitted + text_of(printed(s, m)),
        printed(s, m).flush ==> moved(s, m).flushed == moved(s, m).emitted,
        !printed(s, m).flush ==> moved(s, m).flushed == s.flushed,
{
    reveal(moved);
    reveal(printed);
    match m.turn {
        Turn::Command(command) => {
            commands_keep_wf(s, command, m.fresh);
        },
        Turn::Settle(now) => {
            settling_keeps_wf(s, now.after(s.flushed_at), m.fresh);
        },
        Turn::Flushed(at) => {
            done_flushes_keep_wf(s, at);
        },
    }
    if s.pending.len() == 0 && s.phase != Phase::Draining {
        assert(lines(m.fresh, entries(s.pending)) == Seq::<char>::empty());
    }
    assert(moved(s, m).emitted == s.emitted + text_of(printed(s, m)));
}

/// After any moves the state is possible, and the emitted text is the transcript.
pub proof fn runs_keep_the_books(s: WriterState, moves: Seq<Move>)
    requires
        s.wf(),
        all_possible(s, moves),
    ensures
        run(s, moves).wf(),
        run(s, moves).emitted == s.emitted + transcript(s, moves),
    decreases moves.len(),
{
    if moves.len() == 0 {
        assert(s.emitted + Seq::<char>::empty() == s.emitted);
    } else {
        let front = moves.drop_last();
        let m = moves.last();
        let before = run(s, front);
        runs_keep_the_books(s, front);
        moves_keep_the_books(before, m);
        let text = text_of(printed(before, m));
        assert(s.emitted + (transcript(s, front) + text) == (s.emitted + transcript(s, front))
            + text);
    }
}

/// After any moves the commands noted are those that were given.
pub proof fn runs_note_what_is_given(s: WriterState, moves: Seq<Move>)
    requires
        all_possible(s, moves),
    ensures
        run(s, moves).given == s.given + commands_in(moves),
    decreases moves.len(),
{
    if moves.len() == 0 {
        assert(s.given + Seq::<LoggerCommand>::empty() == s.given);
    } else {
        runs_note_what_is_given(s, moves.drop_last());
        reveal(moved);
        assert(run(s, moves).given =~= s.given + commands_in(moves));
    }
}

/// At every moment of a writer's life, what it has printed, with what it has
/// collected to print at its end, are the lines of the oldest messages that it
/// was given; the others wait, all in the order in which they came. So no message
/// is lost, doubled or overtaken.
pub proof fn output_follows_input(
    config: LoggerConfig,
    stamp: StampState,
    start: Interval,
    moves: Seq<Move>,
)
    requires
        config.holdable(),
        stamp.time.valid(),
        all_possible(WriterState::initial(config, stamp, start), moves),
    ensures
        ({
            let s = WriterState::initial(config, stamp, start);
            let end = run(s, moves);
            let given = messages_in(commands_in(moves));
            let done = end.looks.len() as int;
            &&& done <= given.len()
            &&& transcript(s, moves) + end.tail == lines(end.looks, given.take(done))
            &&& entries(end.pending) == given.skip(done)
        }),
{
    let s = WriterState::initial(config, stamp, start);
    beginnings_are_wf(config, stamp, start);
    runs_keep_the_books(s, moves);
    runs_note_what_is_given(s, moves);
    assert(s.emitted + transcript(s, moves) == transcript(s, moves));
    assert(s.given + commands_in(moves) == commands_in(moves));
}

/// In a move, the messages waiting and the one that comes become lines from the
/// oldest on, and their strings are spent; the others wait.
proof fn moves_spend_the_oldest(s: WriterState, m: Move, new: Seq<LogMsg>)
    requires
        s.phased(),
        possible(s, m),
        new == (match m.turn {
            Turn::Command(Some(LoggerCommand::Msg(log))) => seq![log],
            _ => Seq::empty(),
        }),
    ensures
        ({
            let k = moved(s, m).looks.len() - s.looks.len();
            &&& 0 <= k <= s.pending.len() + new.len()
            &&& printed(s, m).spent == strings((s.pending + new).take(k))
            &&& moved(s, m).pending == (s.pending + new).skip(k)
        }),
{
    reveal(moved);
    reveal(printed);
    let k = moved(s, m).looks.len() - s.looks.len();
    match m.turn {
        Turn::Command(command) => {
            assert(s.rendered(command) =~= (s.pending + new).take(k));
        },
        Turn::Settle(now) => {
            assert(s.settling_rendered(now.after(s.flushed_at)) =~= (s.pending + new).take(k));
        },
        Turn::Flushed(_) => {
            assert(printed(s, m).spent =~= strings((s.pending + new).take(k)));
        },
    }
    assert(moved(s, m).pending =~= (s.pending + new).skip(k));
}

/// Every string comes back to be used again, once: what is spent at any moment of a
/// writer's life are the strings of the messages that became lines, in order.
pub proof fn strings_come_back(
    config: LoggerConfig,
    stamp: StampState,
    start: Interval,
    moves: Seq<Move>,
)
    requires
        config.holdable(),
        stamp.time.valid(),
        all_possible(WriterState::initial(config, stamp, start), moves),
    ensures
        ({
            let s = WriterState::initial(config, stamp, start);
            let end = run(s, moves);
            let logs = logs_in(commands_in(moves));
            let done = end.looks.len() as int;
            &&& done <= logs.len()
            &&& spent_in(s, moves) == strings(logs.take(done))
            &&& end.pending == logs.skip(done)
        }),
    decreases moves.len(),
{
    let s = WriterState::initial(config, stamp, start);
    let end = run(s, moves);
    let logs = logs_in(commands_in(moves));
    let done = end.looks.len() as int;
    beginnings_are_wf(config, stamp, start);
    if moves.len() > 0 {
        let front = moves.drop_last();
        let m = moves.last();
        let before = run(s, front);
        let earlier = logs_in(commands_in(front));
        strings_come_back(config, stamp, start, front);
        runs_keep_the_books(s, front);
        let new = match m.turn {
            Turn::Command(Some(LoggerCommand::Msg(log))) => seq![log],
            _ => Seq::empty(),
        };
        moves_spend_the_oldest(before, m, new);
        if m.turn is Command && m.turn->Command_0 is Some {
            assert(commands_in(moves).drop_last() == commands_in(front));
        }
        let n = before.looks.len() as int;
        let k = done - n;
        assert(logs =~= earlier + new);
        assert(end.pending =~= logs.skip(done));
        assert(strings(logs.take(done)) =~= strings(earlier.take(n)) + strings(
            (before.pending + new).take(k),
        ));
    } else {
        assert(spent_in(s, moves) =~= strings(logs.take(done)));
        assert(end.pending =~= logs.skip(done));
    }
}

/// When a writer has stopped, it has printed one line for every message that it
/// was given, in order, and it flushed last of all, but for word that the flush was
/// done.
pub proof fn stopped_writers_have_printed_all(
    config: LoggerConfig,
    stamp: StampState,
    start: Interval,
    moves: Seq<Move>,
)
    requires
        config.holdable(),
        stamp.time.valid(),
        all_possible(WriterState::initial(config, stamp, start), moves),
        run(WriterState::initial(config, stamp, start), moves).phase == Phase::Stopped,
    ensures
        ({
            let s = WriterState::initial(config, stamp, start);
            let end = run(s, moves);
            let given = messages_in(commands_in(moves));
            &&& end.looks.len() == given.len()
            &&& transcript(s, moves) == lines(end.looks, given)
            &&& end.flushed == transcript(s, moves)
            &&& moves.len() > 0
            &&& printed(run(s, moves.drop_last()), moves.last()).flush || moves.last().turn
                is Flushed
        }),
{
    let s = WriterState::initial(config, stamp, start);
    let end = run(s, moves);
    let given = messages_in(commands_in(moves));
    reveal(moved);
    reveal(printed);
    beginnings_are_wf(config, stamp, start);
    runs_keep_the_books(s, moves);
    output_follows_input(config, stamp, start, moves);
    assert(given.skip(end.looks.len() as int).len() == 0);
    assert(given.take(end.looks.len() as int) == given);
    assert(transcript(s, moves) + end.tail == transcript(s, moves));
    assert(s.emitted + transcript(s, moves) == transcript(s, moves));
}

/// Every line has its stamp by the clocks, in batches and in what is collected at
/// the end alike: the clock is looked at for each line, and the stamp that the line
/// is given is less than a second old then.
pub proof fn lines_are_stamped_in_time(s: WriterState, moves: Seq<Move>)
    requires
        s.looks.len() == 0,
        all_possible(s, moves),
    ensures
        all_follow(s.stamp, run(s, moves).looks),
        run(s, moves).stamp == latest(s.stamp, run(s, moves).looks),
        forall|i: int|
            0 <= i < run(s, moves).looks.len() ==> (
            #[trigger] run(s, moves).looks[i]).tick.after(
                run(s, moves).looks[i].stamp.read_at,
            ).nanos < STAMP_LIFE_NANOS,
    decreases moves.len(),
{
    if moves.len() > 0 {
        let front = moves.drop_last();
        let m = moves.last();
        let before = run(s, front);
        lines_are_stamped_in_time(s, front);
        looks_join(s.stamp, before.looks, m.fresh);
        reveal(moved);
        assert(before.looks + m.fresh == run(s, moves).looks);
    }
    all_stamps_are_fresh(s.stamp, run(s, moves).looks);
}

/// The time to the next flush counts from the moment when the last one was done.
pub proof fn flushes_are_timed(s: WriterState, moves: Seq<Move>)
    requires
        all_possible(s, moves),
    ensures
        run(s, moves).flushed_at == last_flush(s.flushed_at, moves),
    decreases moves.len(),
{
    if moves.len() > 0 {
        flushes_are_timed(s, moves.drop_last());
        reveal(moved);
    }
}

/// Nothing is asked of a writer between a flush that it asks for and word that the
/// flush is done.
pub proof fn flushes_are_awaited(s: WriterState, m: Move, next: Move)
    requires
        possible(s, m),
        printed(s, m).flush,
        possible(moved(s, m), next),
    ensures
        next.turn is Flushed,
{
    reveal(moved);
    reveal(printed);
}

/// What was logged is what comes out. When the writer of a logger that was shut
/// down has stopped, it was given all that was asked of the logger and nothing else,
/// it has printed one line for every message that was logged, in the order in which
/// they were, and it has flushed them all.
pub proof fn logged_messages_come_out(logger: FLog, writer: Writer)
    requires
        !logger@.open,
        logger@.orderly(),
        writer.wf(),
        writer.in_step(),
        writer.channel() == logger@.channel,
        writer@.phase == Phase::Stopped,
    ensures
        writer@.given == logger@.commands,
        writer@.emitted == lines(writer@.looks, messages_in(logger@.commands)),
        writer@.looks.len() == messages_in(logger@.commands).len(),
        writer@.flushed == writer@.emitted,
{
    let given = writer@.given;
    let all = all_handed(logger@.channel);
    closed_loggers_are_complete(logger);
    if given.contains(LoggerCommand::Shutdown) {
        let k = given.index_of(LoggerCommand::Shutdown);
        assert(given[k] == all[k]);
        assert(k == all.len() - 1);
        assert(given == all);
    }
    let received = messages_in(given);
    assert(received.take(writer@.looks.len() as int) == received);
    assert(writer@.emitted + writer@.tail == writer@.emitted);
}

/// What a writer in step was given are the first commands that were handed to its
/// channel; so of the commands of the channel's logger, be it open or shut down, it
/// was given the first ones.
pub proof fn writers_are_given_what_was_asked(logger: FLog, writer: Writer)
    requires
        logger.in_order(),
        writer.in_step(),
        writer.channel() == logger@.channel,
    ensures
        writer@.given.is_prefix_of(all_handed(writer.channel())),
        forall|i: int|
            0 <= i < writer@.given.len() && i < logger@.commands.len() ==> (
            #[trigger] writer@.given[i]) == logger@.commands[i],
{
    let all = all_handed(writer.channel());
    let taken = writer.taken();
    loggers_hand_over_in_order(logger);
    assert(writer@.given =~= all.subrange(0, writer@.given.len() as int)) by {
        assert forall|i: int| 0 <= i < writer@.given.len() implies writer@.given[i] == all[i] by {
            assert(writer@.given[i] == taken[i]);
            assert(taken[i] == all.subrange(0, taken.len() as int)[i]);
        }
    }
    assert forall|i: int|
        0 <= i < writer@.given.len() && i < logger@.commands.len() implies (
    #[trigger] writer@.given[i]) == logger@.commands[i] by {
        assert(writer@.given[i] == all.subrange(0, writer@.given.len() as int)[i]);
        assert(logger@.commands[i] == all.subrange(0, logger@.commands.len() as int)[i]);
    }
}

/// What was logged is what comes out, while the logger runs as much as after. What
/// the writer of a logger has printed, with what it has collected to print at its
/// end, are the lines of the oldest messages among the commands that it has got to;
/// the others of these wait, all in the order in which they were logged.
pub proof fn live_messages_come_out(logger: FLog, writer: Writer)
    requires
        logger.in_order(),
        writer.wf(),
        writer.in_step(),
        writer.channel() == logger@.channel,
        writer@.given.len() <= logger@.commands.len(),
    ensures
        ({
            let asked = messages_in(logger@.commands.take(writer@.given.len() as int));
            let done = writer@.looks.len() as int;
            &&& writer@.given == logger@.commands.take(writer@.given.len() as int)
            &&& done <= asked.len()
            &&& writer@.emitted + writer@.tail == lines(writer@.looks, asked.take(done))
            &&& entries(writer@.pending) == asked.skip(done)
        }),
{
    writers_are_given_what_was_asked(logger, writer);
    assert(writer@.given =~= logger@.commands.take(writer@.given.len() as int));
}

/// What a writer finds in its channel is the next command that was asked of the
/// logger, where there is one. A writer that waits does find it; another one may
/// find nothing at the moment.
pub proof fn writers_find_what_was_asked(logger: FLog, writer: Writer)
    requires
        logger.in_order(),
        writer.in_step(),
        writer.held() is Some,
        writer.channel() == logger@.channel,
        writer@.given.len() < logger@.commands.len(),
    ensures
        writer.held()->Some_0 matches Some(command) ==> command
            == logger@.commands[writer@.given.len() as int],
        writer@.phase == Phase::Idle ==> writer.held()->Some_0 is Some,
{
    let all = all_handed(writer.channel());
    let n = writer@.given.len() as int;
    loggers_hand_over_in_order(logger);
    if let Some(command) = writer.held()->Some_0 {
        assert(writer.taken()[n] == command);
        assert(writer.taken()[n] == all.subrange(0, writer.taken().len() as int)[n]);
        assert(logger@.commands[n] == all.subrange(0, logger@.commands.len() as int)[n]);
    }
}

/// The turns that a running writer takes at most until it was given `n` commands,
/// where so many are in the channel.
pub open spec fn turns_to(s: WriterState, n: int) -> int {
    let missing = n - s.given.len();
    let rest: int = match s.phase {
        Phase::Gathering => 3,
        Phase::Settling => 2,
        _ => 0,
    };
    if missing <= 0 {
        0
    } else {
        5 * missing + rest + (if s.flushing { 1int } else { 0 })
    }
}

/// Whether a writer makes this move while it runs, and finds a command where it waits
/// for one.
pub open spec fn gets_on(s: WriterState, m: Move) -> bool {
    &&& s.phase == Phase::Idle || s.phase == Phase::Gathering || s.phase == Phase::Settling
    &&& s.phase == Phase::Idle && m.turn is Command ==> m.turn->Command_0 is Some
}

/// Whether a writer gets on in each of these moves, until it was given `n` commands.
pub open spec fn gets_on_to(s: WriterState, moves: Seq<Move>, n: int) -> bool
    decreases moves.len(),
{
    moves.len() > 0 ==> {
        let before = run(s, moves.drop_last());
        &&& gets_on_to(s, moves.drop_last(), n)
        &&& before.given.len() < n ==> gets_on(before, moves.last())
    }
}

/// A writer that gets on reaches every command in the channel in a bounded number of
/// turns, be the thresholds what they may.
pub proof fn writers_reach_every_command(s: WriterState, moves: Seq<Move>, n: int)
    requires
        all_possible(s, moves),
        gets_on_to(s, moves, n),
    ensures
        moves.len() >= turns_to(s, n) ==> run(s, moves).given.len() >= n,
        run(s, moves).given.len() >= n || turns_to(run(s, moves), n) + moves.len() <= turns_to(
            s,
            n,
        ),
    decreases moves.len(),
{
    if moves.len() > 0 {
        writers_reach_every_command(s, moves.drop_last(), n);
        reveal(moved);
    }
}

/// A flush brings out what was logged before it, while the logger runs on: once the
/// writer has got to the flush, the lines of all messages that were logged before it
/// are flushed, in the order in which they were logged, whatever the thresholds.
pub proof fn flushes_bring_out_what_was_logged(logger: FLog, writer: Writer, k: int)
    requires
        logger.in_order(),
        logger@.orderly(),
        0 <= k < logger@.commands.len(),
        logger@.commands[k] == LoggerCommand::Flush,
        writer.wf(),
        writer.in_step(),
        writer.channel() == logger@.channel,
        k < writer@.given.len(),
    ensures
        ({
            let logged = messages_in(logger@.commands.take(k));
            let n = logged.len() as int;
            &&& n <= writer@.looks.len()
            &&& lines(writer@.looks.take(n), logged).is_prefix_of(writer@.flushed)
        }),
{
    let given = writer@.given;
    writers_are_given_what_was_asked(logger, writer);
    assert(given.take(k) =~= logger@.commands.take(k)) by {
        assert forall|i: int| 0 <= i < k implies given.take(k)[i] == logger@.commands[i] by {
            assert(given[i] == logger@.commands[i]);
        }
    }
    assert(given[k] == logger@.commands[k]);
    assert(!given.take(k).contains(LoggerCommand::Shutdown)) by {
        assert forall|i: int| 0 <= i < k implies given.take(k)[i] != LoggerCommand::Shutdown by {
            assert(given.take(k)[i] == logger@.commands[i]);
        }
    }
    assert(asks_for_flush(given, k));
}

/// Logging a message in a scope and flushing the scope brings out that message and
/// all that were logged there before it, and leaves the logger running.
pub proof fn flushed_logging_comes_out(
    before: FLog,
    logged: FLog,
    after: FLog,
    level: LogLevel,
    msg: String,
    writer: Writer,
)
    requires
        before@.open,
        before@.orderly(),
        asked(Some(before), Some(logged), message(level, msg)),
        asked(Some(logged), Some(after), LoggerCommand::Flush),
        writer.wf(),
        writer.in_step(),
        writer.channel() == before@.channel,
        writer@.given.len() >= after@.commands.len(),
    ensures
        after@.open,
        ({
            let all = messages_in(before@.commands).push(Entry { level, text: msg@ });
            let n = all.len() as int;
            &&& n <= writer@.looks.len()
            &&& lines(writer@.looks.take(n), all).is_prefix_of(writer@.flushed)
        }),
{
    let k = logged@.commands.len() as int;
    assert(after@.commands.take(k) =~= logged@.commands);
    assert(logged@.commands.drop_last() =~= before@.commands);
    flushes_bring_out_what_was_logged(after, writer, k);
}

/// A panic brings out all that was logged before it.
pub proof fn panics_bring_out_what_was_logged(
    before: FLog,
    after: FLog,
    text: Seq<char>,
    writer: Writer,
)
    requires
        before@.open,
        before@.orderly(),
        reported(Some(before), Some(after), text),
        writer.wf(),
        writer.in_step(),
        writer.channel() == before@.channel,
        writer@.given.len() > before@.commands.len(),
    ensures
        after@.open,
        ({
            let all = messages_in(before@.commands);
            let n = all.len() as int;
            &&& n <= writer@.looks.len()
            &&& lines(writer@.looks.take(n), all).is_prefix_of(writer@.flushed)
        }),
{
    let k = before@.commands.len() as int;
    assert(after@.commands.take(k) =~= before@.commands);
    assert(after@.commands[k] == LoggerCommand::Flush);
    flushes_bring_out_what_was_logged(after, writer, k);
}

/// A flush leaves nothing waiting: all that was received up to it is written and
/// flushed.
pub proof fn flushing_leaves_nothing_waiting(s: WriterState, fresh: Seq<Look>)
    requires
        s.wf(),
        s.phase == Phase::Idle || s.phase == Phase::Gathering,
        possible(s, Move { turn: Turn::Command(Some(LoggerCommand::Flush)), fresh }),
    ensures
        ({
            let t = s.accepted(Some(LoggerCommand::Flush), fresh);
            &&& t.pending.len() == 0
            &&& t.flushed == lines(t.looks, s.received())
            &&& s.prints(Some(LoggerCommand::Flush), fresh).flush
        }),
{
    let t = s.accepted(Some(LoggerCommand::Flush), fresh);
    commands_keep_wf(s, Some(LoggerCommand::Flush), fresh);
    noting_is_coherent(s, Some(LoggerCommand::Flush));
    assert(t.received().take(t.looks.len() as int) == s.received());
    assert(t.emitted + t.tail == t.emitted);
}

/// As soon as the bytes that accumulated since the last flush, written or waiting,
/// the messages waiting or the time since that flush reach their thresholds,
/// settling writes and flushes all that was received.
pub proof fn thresholds_bring_a_flush(s: WriterState, now: Interval, fresh: Seq<Look>)
    requires
        s.wf(),
        possible(s, Move { turn: Turn::Settle(now), fresh }),
        s.bytes + waiting_bytes(s.stamp.time.stamp(), s.pending) >= s.config.flush_threshold
            || s.pending.len() >= s.config.flush_batch_threshold || now.after(s.flushed_at).nanos
            >= s.config.flush_interval.nanos,
    ensures
        ({
            let since = now.after(s.flushed_at);
            let t = s.settled(since, fresh);
            &&& t.pending.len() == 0
            &&& t.flushed == lines(t.looks, s.received())
            &&& s.settling_prints(since, fresh).flush
        }),
{
    let since = now.after(s.flushed_at);
    let t = s.settled(since, fresh);
    settling_keeps_wf(s, since, fresh);
    assert(t.received().take(t.looks.len() as int) == s.received());
    assert(t.emitted + t.tail == t.emitted);
}

/// A full batch is written when the writer settles, be a flush due or not.
pub proof fn full_batches_are_written(s: WriterState, now: Interval, fresh: Seq<Look>)
    requires
        s.wf(),
        possible(s, Move { turn: Turn::Settle(now), fresh }),
        s.pending.len() >= s.config.batch_size,
    ensures
        ({
            let t = s.settled(now.after(s.flushed_at), fresh);
            &&& t.pending.len() == 0
            &&& t.emitted == lines(t.looks, s.received())
        }),
{
    let t = s.settled(now.after(s.flushed_at), fresh);
    settling_keeps_wf(s, now.after(s.flushed_at), fresh);
    assert(t.received().take(t.looks.len() as int) == s.received());
    assert(t.emitted + t.tail == t.emitted);
}

/// No more messages wait than a batch takes, or one where a batch takes none.
pub proof fn waiting_messages_are_bounded(s: WriterState)
    requires
        s.wf(),
    ensures
        s.pending.len() <= s.config.batch_size || s.pending.len() <= 1,
{
}

/// A writer counts the bytes that it gave out since the last flush.
pub proof fn bytes_are_counted(s: WriterState)
    requires
        s.wf(),
    ensures
        exists|unflushed: Seq<char>|
            s.emitted == s.flushed + unflushed && s.bytes == #[trigger] byte_len(unflushed),
{
    let unflushed = s.emitted.skip(s.flushed.len() as int);
    assert(s.emitted == s.flushed + unflushed);
    assert(s.bytes == byte_len(unflushed));
}

/// A shutdown writes and flushes what was received up to it, and leaves the writer
/// draining.
pub proof fn shutting_down_begins_with_a_flush(s: WriterState, fresh: Seq<Look>)
    requires
        s.wf(),
        s.phase == Phase::Idle || s.phase == Phase::Gathering,
        possible(s, Move { turn: Turn::Command(Some(LoggerCommand::Shutdown)), fresh }),
    ensures
        s.accepted(Some(LoggerCommand::Shutdown), fresh).phase == Phase::Draining,
        s.accepted(Some(LoggerCommand::Shutdown), fresh).flushed == lines(
            s.accepted(Some(LoggerCommand::Shutdown), fresh).looks,
            s.received(),
        ),
{
    let t = s.accepted(Some(LoggerCommand::Shutdown), fresh);
    commands_keep_wf(s, Some(LoggerCommand::Shutdown), fresh);
    noting_is_coherent(s, Some(LoggerCommand::Shutdown));
    assert(t.received().take(t.looks.len() as int) == s.received());
    assert(t.emitted + t.tail == t.emitted);
}

/// A draining writer goes on with every command, and stops when there is none,
/// with every message written and flushed.
pub proof fn draining_ends_with_the_commands(
    s: WriterState,
    command: Option<LoggerCommand>,
    fresh: Seq<Look>,
)
    requires
        s.wf(),
        s.phase == Phase::Draining,
        possible(s, Move { turn: Turn::Command(command), fresh }),
    ensures
        command is Some ==> s.accepted(command, fresh).phase == Phase::Draining,
        command is None ==> s.accepted(command, fresh).phase == Phase::Stopped,
        command is None ==> s.accepted(command, fresh).flushed == lines(
            s.accepted(command, fresh).looks,
            s.received(),
        ),
{
    let t = s.accepted(command, fresh);
    commands_keep_wf(s, command, fresh);
    if command is None {
        assert(t.received().take(t.looks.len() as int) == s.received());
        assert(t.emitted + t.tail == t.emitted);
    }
}

/// An idle writer that is cut off from its logger writes and flushes all that it
/// received, and stops.
pub proof fn cut_off_writers_finish(s: WriterState, fresh: Seq<Look>)
    requires
        s.wf(),
        s.phase == Phase::Idle,
        possible(s, Move { turn: Turn::Command(None), fresh }),
    ensures
        s.accepted(None, fresh).phase == Phase::Stopped,
        s.accepted(None, fresh).flushed == lines(s.accepted(None, fresh).looks, s.received()),
{
    let t = s.accepted(None, fresh);
    commands_keep_wf(s, None, fresh);
    assert(t.received().take(t.looks.len() as int) == s.received());
    assert(t.emitted + t.tail == t.emitted);
}

/// A running writer keeps a message that it is given behind those that wait, with
/// nothing printed, flushed or looked up. It goes on gathering as long as fewer wait
/// than a batch takes, and otherwise settles.
pub proof fn messages_join_those_that_wait(
    before: Writer,
    log: LogMsg,
    after: Writer,
    output: Output,
)
    requires
        obeyed(before, Some(LoggerCommand::Msg(log)), after, output),
        before@.phase == Phase::Idle || before@.phase == Phase::Gathering,
    ensures
        output.text is None,
        !output.flush,
        output.spent@.len() == 0,
        after.readings() == before.readings(),
        after@ == (WriterState {
            phase: if before@.pending.len() + 1 < before@.config.batch_size {
                Phase::Gathering
            } else {
                Phase::Settling
            },
            pending: before@.pending.push(log),
            given: before@.given.push(LoggerCommand::Msg(log)),
            ..before@
        }),
{
    assert(output@.spent == output.spent@);
    assert(after@.looks_since(before@).len() == 0);
    assert(after.readings() =~= before.readings());
}

/// A running writer that is told to flush or to stop, or that will get no more
/// commands, prints the lines of all messages that wait, if there are any, asks for a
/// flush, and gives the strings of these messages back. Nothing waits any more, and
/// all that was ever printed counts as flushed.
pub proof fn flushes_print_all_that_waits(
    before: Writer,
    command: Option<LoggerCommand>,
    after: Writer,
    output: Output,
)
    requires
        obeyed(before, command, after, output),
        before@.phase == Phase::Idle && !(command matches Some(LoggerCommand::Msg(_)))
            || before@.phase == Phase::Gathering && (command == Some(LoggerCommand::Flush)
            || command == Some(LoggerCommand::Shutdown)),
    ensures
        ({
            let waiting = before@.pending;
            let done = before@.looks.len() as int;
            let fresh = after@.looks.skip(done);
            let text = lines(fresh, entries(waiting));
            &&& output.flush
            &&& waiting.len() == 0 ==> output.text is None
            &&& waiting.len() > 0 ==> output.text is Some && output.text->Some_0@ == text
            &&& output.spent@.len() == waiting.len()
            &&& forall|i: int|
                0 <= i < waiting.len() ==> #[trigger] output.spent@[i] == waiting[i].msg
            &&& after@.looks.len() == done + waiting.len()
            &&& after@.looks.take(done) == before@.looks
            &&& all_follow(before@.stamp, fresh)
            &&& after.readings() == before.readings() + all_readings(before@.stamp, fresh)
            &&& after@ == (WriterState {
                phase: match command {
                    Some(LoggerCommand::Shutdown) => Phase::Draining,
                    Some(_) => if before@.phase == Phase::Idle {
                        Phase::Idle
                    } else if before@.config.batch_size > 0 {
                        Phase::Gathering
                    } else {
                        Phase::Settling
                    },
                    None => Phase::Stopped,
                },
                pending: Seq::empty(),
                bytes: 0,
                stamp: if waiting.len() == 0 {
                    before@.stamp
                } else {
                    fresh[waiting.len() - 1].stamp
                },
                flushing: true,
                given: match command {
                    Some(c) => before@.given.push(c),
                    None => before@.given,
                },
                looks: after@.looks,
                emitted: before@.emitted + text,
                flushed: before@.emitted + text,
                ..before@
            })
        }),
{
    assert(output@.spent == output.spent@);
    assert(output@.spent == strings(before@.pending));
    assert(after@.looks.take(before@.looks.len() as int) =~= before@.looks);
}

/// A gathering writer that finds no command settles next, and does nothing else.
pub proof fn gathering_ends_in_settling(before: Writer, after: Writer, output: Output)
    requires
        obeyed(before, None, after, output),
        before@.phase == Phase::Gathering,
    ensures
        output.text is None,
        !output.flush,
        output.spent@.len() == 0,
        after.readings() == before.readings(),
        after@ == (WriterState { phase: Phase::Settling, ..before@ }),
{
    assert(output@.spent == output.spent@);
    assert(after@.looks_since(before@).len() == 0);
    assert(after.readings() =~= before.readings());
}

/// A draining writer collects the line of each message that it is given, prints
/// nothing yet, and gives the string of that message back. Another command changes
/// nothing.
pub proof fn draining_collects_lines(
    before: Writer,
    command: LoggerCommand,
    after: Writer,
    output: Output,
)
    requires
        obeyed(before, Some(command), after, output),
        before@.phase == Phase::Draining,
    ensures
        output.text is None,
        !output.flush,
        command matches LoggerCommand::Msg(log) ==> {
            let n = before@.looks.len() as int;
            let look = after@.looks[n];
            &&& output.spent@ == seq![log.msg]
            &&& all_follow(before@.stamp, seq![look])
            &&& after.readings() == before.readings() + all_readings(before@.stamp, seq![look])
            &&& after@ == (WriterState {
                stamp: look.stamp,
                tail: before@.tail + lines(
                    seq![look],
                    seq![Entry { level: log.level, text: log.msg@ }],
                ),
                given: before@.given.push(command),
                looks: before@.looks.push(look),
                ..before@
            })
        },
        !(command is Msg) ==> {
            &&& output.spent@.len() == 0
            &&& after.readings() == before.readings()
            &&& after@ == (WriterState { given: before@.given.push(command), ..before@ })
        },
{
    assert(output@.spent == output.spent@);
    let fresh = after@.looks_since(before@);
    if let LoggerCommand::Msg(log) = command {
        let n = before@.looks.len() as int;
        assert(fresh =~= seq![after@.looks[n]]);
        assert(after@.looks =~= before@.looks.push(after@.looks[n]));
        assert(output.spent@ =~= seq![log.msg]);
    } else {
        assert(fresh.len() == 0);
        assert(after.readings() =~= before.readings());
    }
}

/// A draining writer that finds no command prints what it has collected, asks for a
/// flush of all that was ever printed, and stops.
pub proof fn draining_ends_in_print(before: Writer, after: Writer, output: Output)
    requires
        obeyed(before, None, after, output),
        before@.phase == Phase::Draining,
    ensures
        output.text is Some,
        output.text->Some_0@ == before@.tail,
        output.flush,
        output.spent@.len() == 0,
        after.readings() == before.readings(),
        after@ == (WriterState {
            phase: Phase::Stopped,
            bytes: 0,
            tail: Seq::empty(),
            flushing: true,
            emitted: before@.emitted + before@.tail,
            flushed: before@.emitted + before@.tail,
            ..before@
        }),
{
    assert(output@.spent == output.spent@);
    assert(after@.looks_since(before@).len() == 0);
    assert(after.readings() =~= before.readings());
}

/// A writer that settles asks for a flush when a threshold is reached, and only then:
/// by the bytes printed since the last flush with those that wait, by the number of
/// messages that wait, or by the time since the last flush.
pub proof fn flushes_come_by_the_thresholds(
    before: Writer,
    since: Interval,
    made: Seq<Reading>,
    after: Writer,
    output: Output,
)
    requires
        settled(before, since, made, after, output),
    ensures
        output.flush == (before@.bytes + waiting_bytes(
            before@.stamp.time.stamp(),
            before@.pending,
        ) >= before@.config.flush_threshold || before@.pending.len()
            >= before@.config.flush_batch_threshold || since.nanos
            >= before@.config.flush_interval.nanos),
{
}

/// A writer that settles below every threshold, and with a batch that is not full,
/// leaves the messages to wait: it prints nothing, asks for no flush, and looks
/// nothing up.
pub proof fn messages_wait_below_the_thresholds(
    before: Writer,
    since: Interval,
    made: Seq<Reading>,
    after: Writer,
    output: Output,
)
    requires
        settled(before, since, made, after, output),
        before@.bytes + waiting_bytes(before@.stamp.time.stamp(), before@.pending)
            < before@.config.flush_threshold,
        before@.pending.len() < before@.config.flush_batch_threshold,
        since.nanos < before@.config.flush_interval.nanos,
        before@.pending.len() < before@.config.batch_size,
    ensures
        !output.flush,
        output.text is None,
        output.spent@.len() == 0,
        after.readings() == made,
        after@ == (WriterState { phase: Phase::Idle, ..before@ }),
{
    assert(output@.spent == output.spent@);
    assert(after@.looks_since(before@).len() == 0);
    assert(after.readings() =~= made);
}

/// A writer that settles with a full batch, or at a threshold, prints the lines of
/// all messages that wait, if there are any, and gives their strings back. Where no
/// flush is due, it counts the bytes of what it printed; where one is, it begins to
/// count anew, and all that was ever printed counts as flushed.
pub proof fn settling_prints_all_that_waits(
    before: Writer,
    since: Interval,
    made: Seq<Reading>,
    after: Writer,
    output: Output,
)
    requires
        settled(before, since, made, after, output),
        before@.bytes + waiting_bytes(before@.stamp.time.stamp(), before@.pending)
            >= before@.config.flush_threshold || before@.pending.len()
            >= before@.config.flush_batch_threshold || since.nanos
            >= before@.config.flush_interval.nanos || before@.pending.len()
            >= before@.config.batch_size,
    ensures
        ({
            let waiting = before@.pending;
            let done = before@.looks.len() as int;
            let fresh = after@.looks.skip(done);
            let text = lines(fresh, entries(waiting));
            &&& waiting.len() == 0 ==> output.text is None
            &&& waiting.len() > 0 ==> output.text is Some && output.text->Some_0@ == text
            &&& output.spent@.len() == waiting.len()
            &&& forall|i: int|
                0 <= i < waiting.len() ==> #[trigger] output.spent@[i] == waiting[i].msg
            &&& after@.looks.len() == done + waiting.len()
            &&& after@.looks.take(done) == before@.looks
            &&& all_follow(before@.stamp, fresh)
            &&& after.readings() == made + all_readings(before@.stamp, fresh)
            &&& after@ == (WriterState {
                phase: Phase::Idle,
                pending: Seq::empty(),
                bytes: if output.flush {
                    0
                } else {
                    before@.bytes + encode_utf8(text).len()
                },
                stamp: if waiting.len() == 0 {
                    before@.stamp
                } else {
                    fresh[waiting.len() - 1].stamp
                },
                flushing: output.flush || before@.flushing,
                looks: after@.looks,
                emitted: before@.emitted + text,
                flushed: if output.flush {
                    before@.emitted + text
                } else {
                    before@.flushed
                },
                ..before@
            })
        }),
{
    assert(output@.spent == output.spent@);
    assert(output@.spent == strings(before@.pending));
    assert(after@.looks.take(before@.looks.len() as int) =~= before@.looks);
}

/// A writer that deals with a command or settles takes nothing from its channel, and
/// does not look for anything in it.
pub proof fn channels_are_left_alone(before: Writer, after: Writer)
    requires
        left_channel_alone(before, after),
    ensures
        after.channel() == before.channel(),
        after.taken() == before.taken(),
        after.tries() == before.tries(),
{
}

/// What is logged comes out once: when a logger was asked to log some messages and
/// then shut down, and its writer has stopped, the writer has printed just one line
/// for each of these messages, in the order in which they were logged, and has
/// flushed them all.
pub proof fn logging_prints_each_message_once(
    states: Seq<FLogState>,
    levels: Seq<LogLevel>,
    texts: Seq<String>,
    logger: FLog,
    writer: Writer,
)
    requires
        levels.len() == texts.len(),
        states.len() == texts.len() + 1,
        states[0].open,
        states[0].commands.len() == 0,
        forall|i: int|
            0 <= i < texts.len() ==> #[trigger] states[i + 1] == states[i].asked(
                message(levels[i], texts[i]),
            ),
        logger@ == states[texts.len() as int].closed(),
        writer.wf(),
        writer.in_step(),
        writer.channel() == states[0].channel,
        writer@.phase == Phase::Stopped,
    ensures
        ({
            let logged = Seq::new(
                texts.len(),
                |i: int| Entry { level: levels[i], text: texts[i]@ },
            );
            &&& writer@.looks.len() == texts.len()
            &&& writer@.emitted == lines(writer@.looks, logged)
            &&& writer@.flushed == lines(writer@.looks, logged)
        }),
{
    all_that_was_logged_is_handed_over(states, levels, texts);
    loggers_stay_orderly(states[texts.len() as int], LoggerCommand::Flush);
    logged_messages_come_out(logger, writer);
    let logged = Seq::new(texts.len(), |i: int| Entry { level: levels[i], text: texts[i]@ });
    assert(messages_in(logger@.commands) =~= logged);
}

} // verus!
