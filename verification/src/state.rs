//! The writer as a state machine: what it holds, and how each command changes it.

use vstd::prelude::*;

use crate::clock::{Look, StampState};
use crate::config::{Interval, LoggerConfig};
use crate::message::{
    all_follow, byte_len, byte_len_adds_up, entries, latest, lines, lines_of_runs_join,
    messages_in, stamps_stay_valid, strings, waiting_bytes, Entry, LogMsg, LoggerCommand,
};

verus! {

/// What a writer does next.
#[derive(Debug, Clone, Copy, PartialEq, Eq, Structural)]
pub enum Phase {
    /// It waits for a command.
    Idle,
    /// It gathers the commands that are there already.
    Gathering,
    /// It decides whether to write and to flush what it gathered.
    Settling,
    /// It was told to stop, and collects what was sent before.
    Draining,
    /// It is done.
    Stopped,
}

/// What a writer holds, and what passed through it.
#[verifier::ext_equal]
pub struct WriterState {
    pub phase: Phase,
    pub config: LoggerConfig,
    /// Messages that wait to be written.
    pub pending: Seq<LogMsg>,
    /// Bytes written since the last flush.
    pub bytes: nat,
    /// The stamp in use.
    pub stamp: StampState,
    /// Lines collected while draining, not yet written.
    pub tail: Seq<char>,
    /// How long the clock had run when the last flush was done.
    pub flushed_at: Interval,
    /// Whether a flush was asked for that is not known to be done.
    pub flushing: bool,
    /// Every command given, oldest first.
    pub given: Seq<LoggerCommand>,
    /// The looks at the clocks for the messages that became lines, which are the
    /// oldest ones.
    pub looks: Seq<Look>,
    /// All text given out to be written.
    pub emitted: Seq<char>,
    /// All text that was given out when the last flush was asked for.
    pub flushed: Seq<char>,
}

/// Whether the command with the number `k` asks a writer to flush. Once it was told
/// to stop, it flushes at its end only.
pub open spec fn asks_for_flush(given: Seq<LoggerCommand>, k: int) -> bool {
    &&& 0 <= k < given.len()
    &&& given[k] == LoggerCommand::Flush || given[k] == LoggerCommand::Shutdown
    &&& !given.take(k).contains(LoggerCommand::Shutdown)
}

/// What a writer asks to be done with its output: write a text, if there is one,
/// and then flush, if it says so. The strings of the messages that became lines are
/// spent, and can be used again.
#[verifier::ext_equal]
pub struct Printed {
    pub text: Option<Seq<char>>,
    pub flush: bool,
    pub spent: Seq<String>,
}

impl WriterState {
    /// A writer that has received nothing.
    pub open spec fn initial(
        config: LoggerConfig,
        stamp: StampState,
        flushed_at: Interval,
    ) -> Self {
        WriterState {
            phase: Phase::Idle,
            config,
            pending: Seq::empty(),
            bytes: 0,
            stamp,
            tail: Seq::empty(),
            flushed_at,
            flushing: false,
            given: Seq::empty(),
            looks: Seq::empty(),
            emitted: Seq::empty(),
            flushed: Seq::empty(),
        }
    }

    /// The messages received, oldest first.
    pub open spec fn received(self) -> Seq<Entry> {
        messages_in(self.given)
    }

    /// Whether the writer is to be given a command next.
    pub open spec fn takes_commands(self) -> bool {
        &&& !self.flushing
        &&& self.phase == Phase::Idle || self.phase == Phase::Gathering || self.phase
            == Phase::Draining
    }

    /// Whether the writer is to settle next.
    pub open spec fn settles(self) -> bool {
        !self.flushing && self.phase == Phase::Settling
    }

    /// The text of the pending messages under the stamps of `fresh`, if there are
    /// any.
    pub open spec fn batch_text(self, fresh: Seq<Look>) -> Option<Seq<char>> {
        if self.pending.len() == 0 {
            None
        } else {
            Some(lines(fresh, entries(self.pending)))
        }
    }

    /// After writing the pending messages, under the stamps of `fresh`.
    pub open spec fn written(self, fresh: Seq<Look>) -> Self {
        let text = lines(fresh, entries(self.pending));
        WriterState {
            pending: Seq::empty(),
            bytes: self.bytes + byte_len(text),
            stamp: latest(self.stamp, fresh),
            looks: self.looks + fresh,
            emitted: self.emitted + text,
            ..self
        }
    }

    /// After asking for a flush of the output.
    pub open spec fn synced(self) -> Self {
        WriterState { bytes: 0, flushed: self.emitted, flushing: true, ..self }
    }

    /// After the flush was done, when the clock had run for `at`.
    pub open spec fn flush_done(self, at: Interval) -> Self {
        WriterState { flushed_at: at, flushing: false, ..self }
    }

    /// After noting a command, if there is one.
    pub open spec fn noted(self, command: Option<LoggerCommand>) -> Self {
        match command {
            Some(command) => WriterState { given: self.given.push(command), ..self },
            None => self,
        }
    }

    /// After putting a message among the pending ones.
    pub open spec fn queued(self, m: LogMsg) -> Self {
        WriterState { pending: self.pending.push(m), ..self }
    }

    /// Gathering goes on while there is room in the batch.
    pub open spec fn gathering(self) -> Self {
        let phase = if self.pending.len() < self.config.batch_size {
            Phase::Gathering
        } else {
            Phase::Settling
        };
        WriterState { phase, ..self }
    }

    /// After collecting a message while draining, under the stamp of `fresh`.
    pub open spec fn collected(self, entry: Entry, fresh: Seq<Look>) -> Self {
        WriterState {
            stamp: latest(self.stamp, fresh),
            tail: self.tail + lines(fresh, seq![entry]),
            looks: self.looks + fresh,
            ..self
        }
    }

    /// After writing what was collected while draining.
    pub open spec fn drained(self) -> Self {
        WriterState { tail: Seq::empty(), emitted: self.emitted + self.tail, ..self }
    }

    /// In another phase.
    pub open spec fn at(self, phase: Phase) -> Self {
        WriterState { phase, ..self }
    }

    /// The messages that become lines when `command` comes.
    pub open spec fn rendered(self, command: Option<LoggerCommand>) -> Seq<LogMsg> {
        match (self.phase, command) {
            (Phase::Idle, Some(LoggerCommand::Msg(_))) => Seq::empty(),
            (Phase::Idle, _) => self.pending,
            (Phase::Gathering, Some(LoggerCommand::Flush)) => self.pending,
            (Phase::Gathering, Some(LoggerCommand::Shutdown)) => self.pending,
            (Phase::Draining, Some(LoggerCommand::Msg(m))) => seq![m],
            _ => Seq::empty(),
        }
    }

    /// After `command` came, or none did, with `fresh` the looks at the clocks for
    /// the messages that became lines. No command means to an idle writer that none will come
    /// any more, and to another one that there is none at the moment.
    pub open spec fn accepted(self, command: Option<LoggerCommand>, fresh: Seq<Look>) -> Self {
        let noted = self.noted(command);
        match (self.phase, command) {
            (Phase::Idle, Some(LoggerCommand::Msg(m))) => noted.queued(m).gathering(),
            (Phase::Idle, Some(LoggerCommand::Flush)) => noted.written(fresh).synced(),
            (Phase::Idle, Some(LoggerCommand::Shutdown)) => noted.written(fresh).synced().at(
                Phase::Draining,
            ),
            (Phase::Idle, None) => noted.written(fresh).synced().at(Phase::Stopped),
            (Phase::Gathering, Some(LoggerCommand::Msg(m))) => noted.queued(m).gathering(),
            (Phase::Gathering, Some(LoggerCommand::Flush)) => noted.written(
                fresh,
            ).synced().gathering(),
            (Phase::Gathering, Some(LoggerCommand::Shutdown)) => noted.written(fresh).synced().at(
                Phase::Draining,
            ),
            (Phase::Gathering, None) => noted.at(Phase::Settling),
            (Phase::Draining, Some(LoggerCommand::Msg(m))) => noted.collected(m@, fresh),
            (Phase::Draining, None) => noted.drained().synced().at(Phase::Stopped),
            _ => noted,
        }
    }

    /// What is to be printed when `command` comes, or none does.
    pub open spec fn prints(self, command: Option<LoggerCommand>, fresh: Seq<Look>) -> Printed {
        let spent = strings(self.rendered(command));
        match (self.phase, command) {
            (Phase::Idle, Some(LoggerCommand::Msg(_))) => Printed {
                text: None,
                flush: false,
                spent,
            },
            (Phase::Idle, _) => Printed { text: self.batch_text(fresh), flush: true, spent },
            (Phase::Gathering, Some(LoggerCommand::Flush)) => Printed {
                text: self.batch_text(fresh),
                flush: true,
                spent,
            },
            (Phase::Gathering, Some(LoggerCommand::Shutdown)) => Printed {
                text: self.batch_text(fresh),
                flush: true,
                spent,
            },
            (Phase::Draining, None) => Printed { text: Some(self.tail), flush: true, spent },
            _ => Printed { text: None, flush: false, spent },
        }
    }

    /// Whether a flush is due, the last one being `since` ago: enough bytes were
    /// written since or wait to be, counted under the stamp in use, enough messages
    /// are waiting, or enough time has passed.
    pub open spec fn overdue(self, since: Interval) -> bool {
        ||| self.bytes + waiting_bytes(self.stamp.time.stamp(), self.pending)
            >= self.config.flush_threshold
        ||| self.pending.len() >= self.config.flush_batch_threshold
        ||| since.nanos >= self.config.flush_interval.nanos
    }

    /// Whether the pending messages are to be written: a flush is due, or the
    /// batch is full.
    pub open spec fn write_due(self, since: Interval) -> bool {
        self.overdue(since) || self.pending.len() >= self.config.batch_size
    }

    /// The messages that become lines when the writer settles.
    pub open spec fn settling_rendered(self, since: Interval) -> Seq<LogMsg> {
        if self.write_due(since) {
            self.pending
        } else {
            Seq::empty()
        }
    }

    /// After settling, the last flush being `since` ago.
    pub open spec fn settled(self, since: Interval, fresh: Seq<Look>) -> Self {
        let written = if self.write_due(since) {
            self.written(fresh)
        } else {
            self
        };
        let synced = if self.overdue(since) {
            written.synced()
        } else {
            written
        };
        synced.at(Phase::Idle)
    }

    /// What is to be printed on settling.
    pub open spec fn settling_prints(self, since: Interval, fresh: Seq<Look>) -> Printed {
        Printed {
            text: if self.write_due(since) {
                self.batch_text(fresh)
            } else {
                None
            },
            flush: self.overdue(since),
            spent: strings(self.settling_rendered(since)),
        }
    }

    /// The looks at the clocks that were made for lines since `before`.
    pub open spec fn looks_since(self, before: Self) -> Seq<Look> {
        self.looks.skip(before.looks.len() as int)
    }

    /// What passed through the writer accounts for what it holds.
    pub open spec fn coherent(self) -> bool {
        // the messages received are those that became lines, and the pending ones
        &&& self.looks.len() + self.pending.len() == self.received().len()
        &&& entries(self.pending) == self.received().skip(self.looks.len() as int)
        &&& self.emitted + self.tail == lines(
            self.looks,
            self.received().take(self.looks.len() as int),
        )
        // the stamps are of valid times
        &&& self.stamp.time.valid()
        &&& forall|i: int|
            0 <= i < self.looks.len() ==> (#[trigger] self.looks[i]).stamp.time.valid()
        // what was flushed was written before
        &&& self.flushed.len() <= self.emitted.len()
        &&& self.flushed == self.emitted.take(self.flushed.len() as int)
        &&& self.bytes == byte_len(self.emitted.skip(self.flushed.len() as int))
    }

    /// What each phase allows.
    pub open spec fn phased(self) -> bool {
        match self.phase {
            Phase::Idle => self.tail.len() == 0 && (self.pending.len() == 0 || self.pending.len()
                < self.config.batch_size),
            Phase::Gathering => self.tail.len() == 0 && self.pending.len()
                < self.config.batch_size,
            Phase::Settling => self.tail.len() == 0 && (self.pending.len() <= 1
                || self.pending.len() <= self.config.batch_size),
            Phase::Draining => self.pending.len() == 0 && self.given.contains(
                LoggerCommand::Shutdown,
            ),
            Phase::Stopped => self.pending.len() == 0 && self.tail.len() == 0 && self.flushed
                == self.emitted,
        }
    }

    /// The lines of all messages that came before a command to flush are flushed.
    pub open spec fn answered(self, k: int) -> bool {
        let before = messages_in(self.given.take(k));
        let n = before.len() as int;
        &&& n <= self.looks.len()
        &&& lines(self.looks.take(n), before).is_prefix_of(self.flushed)
    }

    /// Every command to flush is answered.
    pub open spec fn all_answered(self) -> bool {
        forall|k: int| #[trigger] asks_for_flush(self.given, k) ==> self.answered(k)
    }

    /// A state that a writer can be in.
    pub open spec fn wf(self) -> bool {
        &&& self.config.holdable()
        &&& self.coherent()
        &&& self.phased()
        &&& self.bytes <= self.config.flush_threshold + usize::MAX
        &&& self.flushing ==> self.flushed == self.emitted
        &&& self.all_answered()
    }
}

/// A writer that has received nothing is in a possible state.
pub proof fn beginnings_are_wf(config: LoggerConfig, stamp: StampState, flushed_at: Interval)
    requires
        config.holdable(),
        stamp.time.valid(),
    ensures
        WriterState::initial(config, stamp, flushed_at).wf(),
{
    let s = WriterState::initial(config, stamp, flushed_at);
    assert(entries(s.pending) == s.received().skip(0));
    assert(s.emitted + s.tail == Seq::<char>::empty());
    assert(s.flushed == s.emitted.take(0));
    assert(s.emitted.skip(0) == Seq::<char>::empty());
}

/// Writing the pending messages keeps the account.
pub proof fn writing_is_coherent(s: WriterState, fresh: Seq<Look>)
    requires
        s.coherent(),
        s.tail.len() == 0,
        fresh.len() == s.pending.len(),
        all_follow(s.stamp, fresh),
    ensures
        s.written(fresh).coherent(),
{
    let w = s.written(fresh);
    let text = lines(fresh, entries(s.pending));
    let n = s.looks.len() as int;
    let m = s.flushed.len() as int;
    assert(w.received().take(w.looks.len() as int) == s.received().take(n) + entries(s.pending));
    assert(entries(w.pending) == w.received().skip(w.looks.len() as int));
    assert(w.emitted + w.tail == lines(w.looks, s.received().take(n) + entries(s.pending))) by {
        lines_of_runs_join(s.looks, s.received().take(n), fresh, entries(s.pending));
        assert(s.emitted + s.tail == s.emitted);
        assert(w.emitted + w.tail == w.emitted);
    }
    assert(w.flushed == w.emitted.take(m));
    assert(w.bytes == byte_len(w.emitted.skip(m))) by {
        byte_len_adds_up(s.emitted.skip(m), text);
        assert(w.emitted.skip(m) == s.emitted.skip(m) + text);
    }
    stamps_stay_valid(s.stamp, fresh);
    assert forall|i: int| 0 <= i < w.looks.len() implies (
    #[trigger] w.looks[i]).stamp.time.valid() by {
        if i < n {
            assert(w.looks[i] == s.looks[i]);
        } else {
            assert(w.looks[i] == fresh[i - n]);
        }
    }
}

/// Asking for a flush keeps the account.
pub proof fn flushing_is_coherent(s: WriterState)
    requires
        s.coherent(),
    ensures
        s.synced().coherent(),
{
    let f = s.synced();
    assert(f.emitted.take(f.flushed.len() as int) == f.flushed);
    assert(f.emitted.skip(f.flushed.len() as int) == Seq::<char>::empty());
}

/// A command other than a message leaves the account as it is.
pub proof fn noting_is_coherent(s: WriterState, command: Option<LoggerCommand>)
    requires
        s.coherent(),
        !(command matches Some(LoggerCommand::Msg(_))),
    ensures
        s.noted(command).coherent(),
        s.noted(command).received() == s.received(),
{
    if let Some(c) = command {
        assert(s.noted(command).given.drop_last() == s.given);
    }
}

/// Taking a message in keeps the account.
pub proof fn queueing_is_coherent(s: WriterState, m: LogMsg)
    requires
        s.coherent(),
    ensures
        s.noted(Some(LoggerCommand::Msg(m))).queued(m).coherent(),
{
    let q = s.noted(Some(LoggerCommand::Msg(m))).queued(m);
    let n = s.looks.len() as int;
    assert(q.given.drop_last() == s.given);
    assert(q.received() == s.received().push(m@));
    assert(entries(q.pending) == entries(s.pending).push(m@));
    assert(q.received().skip(n) == s.received().skip(n).push(m@));
    assert(q.received().take(n) == s.received().take(n));
}

/// Collecting a message while draining keeps the account.
pub proof fn collecting_is_coherent(s: WriterState, m: LogMsg, fresh: Seq<Look>)
    requires
        s.coherent(),
        s.pending.len() == 0,
        fresh.len() == 1,
        all_follow(s.stamp, fresh),
    ensures
        s.noted(Some(LoggerCommand::Msg(m))).collected(m@, fresh).coherent(),
{
    let c = s.noted(Some(LoggerCommand::Msg(m))).collected(m@, fresh);
    let n = s.looks.len() as int;
    assert(c.given.drop_last() == s.given);
    assert(c.received() == s.received().push(m@));
    stamps_stay_valid(s.stamp, fresh);
    lines_of_runs_join(s.looks, s.received().take(n), fresh, seq![m@]);
    assert(s.received().take(n) + seq![m@] == c.received().take(c.looks.len() as int));
    assert(c.emitted + c.tail == (s.emitted + s.tail) + lines(fresh, seq![m@]));
    assert(entries(c.pending) == c.received().skip(c.looks.len() as int));
    assert forall|i: int| 0 <= i < c.looks.len() implies (
    #[trigger] c.looks[i]).stamp.time.valid() by {
        if i < n {
            assert(c.looks[i] == s.looks[i]);
        } else {
            assert(c.looks[i] == fresh[i - n]);
        }
    }
}

/// Commands to flush stay answered as long as what was looked up and flushed only
/// grows, and one more is answered when all that was received before is flushed.
pub proof fn answers_stay(s: WriterState, command: Option<LoggerCommand>, t: WriterState)
    requires
        s.all_answered(),
        t.given == s.noted(command).given,
        s.looks.is_prefix_of(t.looks),
        s.flushed.is_prefix_of(t.flushed),
        asks_for_flush(t.given, s.given.len() as int) ==> {
            &&& t.looks.len() == s.received().len()
            &&& t.flushed == lines(t.looks, s.received())
        },
    ensures
        t.all_answered(),
{
    assert forall|k: int| #[trigger] asks_for_flush(t.given, k) implies t.answered(k) by {
        if k < s.given.len() {
            assert(t.given.take(k) == s.given.take(k));
            assert(asks_for_flush(s.given, k));
            let before = messages_in(s.given.take(k));
            let n = before.len() as int;
            assert(t.looks.take(n) == s.looks.take(n));
            let text = lines(s.looks.take(n), before);
            assert(text == t.flushed.subrange(0, text.len() as int)) by {
                assert(text == s.flushed.subrange(0, text.len() as int));
                assert(s.flushed == t.flushed.subrange(0, s.flushed.len() as int));
            }
        } else {
            assert(t.given.take(k) == s.given);
            assert(t.looks.take(s.received().len() as int) == t.looks);
        }
    }
}

/// Every command leads from a possible state to a possible state.
pub proof fn commands_keep_wf(s: WriterState, command: Option<LoggerCommand>, fresh: Seq<Look>)
    requires
        s.wf(),
        s.takes_commands(),
        fresh.len() == s.rendered(command).len(),
        all_follow(s.stamp, fresh),
    ensures
        s.accepted(command, fresh).wf(),
{
    let noted = s.noted(command);
    if let Some(c) = command {
        assert(noted.given.last() == c);
        assert forall|x: LoggerCommand| s.given.contains(x) implies noted.given.contains(x) by {
            let i = s.given.index_of(x);
            assert(noted.given[i] == x);
        }
        assert(noted.given.contains(c));
    }
    if s.phase == Phase::Draining {
        match command {
            Some(LoggerCommand::Msg(m)) => {
                collecting_is_coherent(s, m, fresh);
            },
            Some(_) => {
                noting_is_coherent(s, command);
            },
            None => {
                let d = s.drained().synced();
                assert(d.emitted + d.tail == s.emitted + s.tail);
                assert(d.emitted.take(d.flushed.len() as int) == d.flushed);
                assert(d.emitted.skip(d.flushed.len() as int) == Seq::<char>::empty());
            },
        }
    } else {
        match command {
            Some(LoggerCommand::Msg(m)) => {
                queueing_is_coherent(s, m);
            },
            _ => {
                noting_is_coherent(s, command);
                if s.rendered(command) == s.pending {
                    writing_is_coherent(noted, fresh);
                    flushing_is_coherent(noted.written(fresh));
                }
            },
        }
    }
    let t = s.accepted(command, fresh);
    let k = s.given.len() as int;
    assert(s.looks =~= t.looks.subrange(0, s.looks.len() as int));
    assert(s.flushed =~= t.flushed.subrange(0, s.flushed.len() as int)) by {
        assert(s.flushed == s.emitted.take(s.flushed.len() as int));
    }
    if asks_for_flush(t.given, k) {
        assert(t.given.take(k) == s.given);
        assert(t.received().take(t.looks.len() as int) == s.received());
        assert(t.emitted + t.tail == t.emitted);
    }
    answers_stay(s, command, t);
}

/// Settling leads from a possible state to a possible state.
pub proof fn settling_keeps_wf(s: WriterState, since: Interval, fresh: Seq<Look>)
    requires
        s.wf(),
        s.settles(),
        fresh.len() == s.settling_rendered(since).len(),
        all_follow(s.stamp, fresh),
        s.write_due(since) ==> byte_len(lines(fresh, entries(s.pending))) <= usize::MAX,
    ensures
        s.settled(since, fresh).wf(),
{
    if s.write_due(since) {
        writing_is_coherent(s, fresh);
        if s.overdue(since) {
            flushing_is_coherent(s.written(fresh));
        }
    }
    let t = s.settled(since, fresh);
    assert(s.looks =~= t.looks.subrange(0, s.looks.len() as int));
    assert(s.flushed =~= t.flushed.subrange(0, s.flushed.len() as int)) by {
        assert(s.flushed == s.emitted.take(s.flushed.len() as int));
    }
    answers_stay(s, None, t);
}

/// A flush that was done leads from a possible state to a possible state.
pub proof fn done_flushes_keep_wf(s: WriterState, at: Interval)
    requires
        s.wf(),
    ensures
        s.flush_done(at).wf(),
{
}

/// A writer begins idle, under the tuning and the stamp that it was given, with
/// nothing received, waiting or printed, and no flush under way.
pub proof fn writers_begin_with_nothing(
    config: LoggerConfig,
    stamp: StampState,
    flushed_at: Interval,
)
    ensures
        ({
            let s = WriterState::initial(config, stamp, flushed_at);
            &&& s.phase == Phase::Idle
            &&& s.config == config
            &&& s.stamp == stamp
            &&& s.flushed_at == flushed_at
            &&& !s.flushing
            &&& s.bytes == 0
            &&& s.pending.len() == 0
            &&& s.tail.len() == 0
            &&& s.given.len() == 0
            &&& s.looks.len() == 0
            &&& s.emitted.len() == 0
            &&& s.flushed.len() == 0
        }),
{
}

/// When a flush is done, the time to the next one begins to count, and nothing else
/// changes.
pub proof fn done_flushes_restart_the_clock(s: WriterState, at: Interval)
    ensures
        s.flush_done(at).flushed_at == at,
        !s.flush_done(at).flushing,
        s.flush_done(at) == (WriterState { flushed_at: at, flushing: false, ..s }),
{
}

/// A writer takes commands while it is idle, gathers or drains, and settles where it
/// is time to, but never while a flush is under way.
pub proof fn phases_say_what_is_next(s: WriterState)
    ensures
        s.takes_commands() == (!s.flushing && (s.phase == Phase::Idle || s.phase == Phase::Gathering
            || s.phase == Phase::Draining)),
        s.settles() == (!s.flushing && s.phase == Phase::Settling),
{
}

} // verus!
