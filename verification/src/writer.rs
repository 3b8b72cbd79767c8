//! The writer: the end at which messages become lines of output.
//!
//! A writer does no output itself. Whoever runs it gives it a turn, prints what it
//! asks for, tells it when a flush is done, and goes on until it has stopped. A turn
//! is to settle when it is time to, and otherwise to fetch and to handle what is in
//! the channel.

use vstd::prelude::*;

use crate::batch::{batch_items, batch_limit, Batch};
use crate::channel::{
    all_handed, recv, taken, takes_from, tries, try_recv, CommandReceiver,
};
use crate::clock::{readings, readings_for, Clock, Look, Reading, Stamp};
use crate::config::{Interval, LoggerConfig};
use crate::message::{
    all_follow, all_follow_goes_on, all_readings, all_unstamped_bytes, append_line, byte_len,
    entries, latest, line, lines, strings, unstamped_len, waiting_bytes_split, LogMsg,
    LoggerCommand,
};
use crate::state::{
    beginnings_are_wf, commands_keep_wf, done_flushes_keep_wf, settling_keeps_wf, Phase, Printed,
    WriterState,
};

verus! {

/// What a writer starts from: its end of the channel, and its tuning.
pub struct WriterSetup {
    pub rx: CommandReceiver,
    pub config: LoggerConfig,
}

/// What is to be done with the output: write a text, if there is one, and then
/// flush, if it says so. The strings of the messages that became lines are spent,
/// and go back to the pool.
pub struct Output {
    pub text: Option<String>,
    pub flush: bool,
    pub spent: Vec<String>,
}

impl View for Output {
    type V = Printed;

    open spec fn view(&self) -> Printed {
        Printed {
            text: match self.text {
                Some(text) => Some(text@),
                None => None,
            },
            flush: self.flush,
            spent: self.spent@,
        }
    }
}

/// Turns messages into lines, each under the stamp of its moment, and gives their
/// strings back.
fn render(logs: Vec<LogMsg>, stamp: &mut Stamp, clock: &mut Clock) -> (r: (
    String,
    Vec<String>,
    Ghost<Seq<Look>>,
))
    requires
        old(stamp).wf(),
    ensures
        final(stamp).wf(),
        r.2@.len() == logs@.len(),
        all_follow(old(stamp)@, r.2@),
        readings(*final(clock)) == readings(*old(clock)) + all_readings(old(stamp)@, r.2@),
        final(stamp)@ == latest(old(stamp)@, r.2@),
        r.0@ == lines(r.2@, entries(logs@)),
        r.1@ == strings(logs@),
{
    let ghost all = entries(logs@);
    let mut buf = String::new();
    let mut spent: Vec<String> = Vec::new();
    let ghost mut looks: Seq<Look> = Seq::empty();
    assert(readings(*clock) + all_readings(stamp@, looks) == readings(*clock));
    for log in it: logs
        invariant
            it.seq() == logs@,
            all == entries(logs@),
            stamp.wf(),
            looks.len() == it.index(),
            all_follow(old(stamp)@, looks),
            readings(*clock) == readings(*old(clock)) + all_readings(old(stamp)@, looks),
            stamp@ == latest(old(stamp)@, looks),
            buf@ == lines(looks, all.take(it.index() as int)),
            spent@ == strings(logs@).take(it.index() as int),
    {
        let Ghost(look) = stamp.refresh(clock);
        append_line(&mut buf, stamp.as_str(), &log);
        spent.push(log.msg);
        proof {
            let done = it.index() as int;
            all_follow_goes_on(old(stamp)@, looks, look);
            assert(looks.push(look).drop_last() == looks);
            assert(all.take(done + 1).drop_last() == all.take(done));
            assert(all[done] == log@);
            assert(strings(logs@)[done] == log.msg);
            looks = looks.push(look);
        }
    }
    assert(all.take(all.len() as int) == all);
    (buf, spent, Ghost(looks))
}

/// A writer, which takes commands from its channel and says what to print.
pub struct Writer {
    rx: CommandReceiver,
    clock: Clock,
    config: LoggerConfig,
    phase: Phase,
    /// What was found in the channel, and is still to be dealt with.
    inbox: Option<Option<LoggerCommand>>,
    batch: Batch,
    /// The bytes that the lines of the batch take without their stamps, or the
    /// greatest number there is where they are more.
    waiting: u128,
    /// Wide enough for what can be written between two flushes.
    bytes: u128,
    stamp: Stamp,
    flushed_at: Interval,
    flushing: bool,
    tail: String,
    given: Ghost<Seq<LoggerCommand>>,
    looks: Ghost<Seq<Look>>,
    emitted: Ghost<Seq<char>>,
    flushed: Ghost<Seq<char>>,
}

impl View for Writer {
    type V = WriterState;

    closed spec fn view(&self) -> WriterState {
        WriterState {
            phase: self.phase,
            config: self.config,
            pending: batch_items(self.batch),
            bytes: self.bytes as nat,
            stamp: self.stamp@,
            flushed_at: self.flushed_at,
            flushing: self.flushing,
            tail: self.tail@,
            given: self.given@,
            looks: self.looks@,
            emitted: self.emitted@,
            flushed: self.flushed@,
        }
    }
}

/// Whether a writer has done what `command` asked for, and `output` says what is to
/// be printed for it. The looks at the clocks are those for the messages that became
/// lines, and there are no other readings.
pub open spec fn obeyed(
    before: Writer,
    command: Option<LoggerCommand>,
    after: Writer,
    output: Output,
) -> bool {
    let fresh = after@.looks_since(before@);
    &&& fresh.len() == before@.rendered(command).len()
    &&& all_follow(before@.stamp, fresh)
    &&& after.readings() =~= before.readings() + all_readings(before@.stamp, fresh)
    &&& after@ =~= before@.accepted(command, fresh)
    &&& output@ =~= before@.prints(command, fresh)
}

/// Whether a writer has settled, the last flush being `since` ago, and `output` says
/// what is to be printed for it. The readings that it makes for lines follow `made`.
pub open spec fn settled(
    before: Writer,
    since: Interval,
    made: Seq<Reading>,
    after: Writer,
    output: Output,
) -> bool {
    let fresh = after@.looks_since(before@);
    &&& fresh.len() == before@.settling_rendered(since).len()
    &&& all_follow(before@.stamp, fresh)
    &&& after.readings() =~= made + all_readings(before@.stamp, fresh)
    &&& before@.write_due(since) ==> byte_len(lines(fresh, entries(before@.pending)))
        <= usize::MAX
    &&& after@ =~= before@.settled(since, fresh)
    &&& output@ =~= before@.settling_prints(since, fresh)
}

/// Whether a writer has left its channel alone.
pub open spec fn left_channel_alone(before: Writer, after: Writer) -> bool {
    &&& after.channel() == before.channel()
    &&& after.taken() == before.taken()
    &&& after.tries() == before.tries()
}

impl Writer {
    /// The writer is in a possible state, and is sound.
    pub open spec fn wf(&self) -> bool {
        &&& self@.wf()
        &&& self.sound()
    }

    /// The writer counts what is waiting, as far as it can count, has room for a
    /// batch, and its stamp is well-formed.
    pub closed spec fn sound(&self) -> bool {
        let bytes = all_unstamped_bytes(self@.pending);
        &&& self.waiting == (if bytes <= u128::MAX {
            bytes
        } else {
            u128::MAX as nat
        })
        &&& batch_limit(self.batch) == self.config.batch_size
        &&& self.stamp.wf()
    }

    /// The commands that the writer took from its channel, oldest first.
    pub closed spec fn taken(&self) -> Seq<LoggerCommand> {
        taken(self.rx)
    }

    /// The times the writer looked for a command in its channel, oldest first,
    /// each with whether it waited for one.
    pub closed spec fn tries(&self) -> Seq<bool> {
        tries(self.rx)
    }

    /// The channel that the writer takes commands from.
    pub closed spec fn channel(&self) -> nat {
        takes_from(self.rx)
    }

    /// The readings that the writer made of its clock, oldest first.
    pub closed spec fn readings(&self) -> Seq<Reading> {
        readings(self.clock)
    }

    /// What the writer found in its channel, a command or none, and has still to
    /// deal with.
    pub closed spec fn held(&self) -> Option<Option<LoggerCommand>> {
        self.inbox
    }

    /// Whether the writer deals with what its channel hands on: it took the first
    /// commands that were handed to the channel, and was given them all in that
    /// order, but for the one that it still holds. It stops only when it was told
    /// to, or when the channel has nothing more to hand on, ever.
    pub open spec fn in_step(&self) -> bool {
        &&& self.taken().is_prefix_of(all_handed(self.channel()))
        &&& self.taken() == (match self.held() {
            Some(Some(command)) => self@.given.push(command),
            _ => self@.given,
        })
        &&& self.held() is Some ==> self@.takes_commands()
        &&& self.held() == Some(None::<LoggerCommand>) && self@.phase == Phase::Idle
            ==> self.taken() == all_handed(self.channel())
        &&& self@.phase == Phase::Stopped ==> self@.given.contains(LoggerCommand::Shutdown)
            || self.taken() == all_handed(self.channel())
    }

    /// Makes an idle writer, which looks at the clocks for the moment of the last
    /// flush, and for its first stamp.
    pub fn new(setup: WriterSetup) -> (r: Self)
        requires
            setup.config.holdable(),
        ensures
            r.wf(),
            r@ == WriterState::initial(setup.config, r@.stamp, r@.flushed_at),
            r.readings() == seq![
                Reading::Tick(r@.flushed_at),
                Reading::Wall(r@.stamp.time),
                Reading::Tick(r@.stamp.read_at),
            ],
            r.held() is None,
            r.taken() == taken(setup.rx),
            r.tries() == tries(setup.rx),
            r.channel() == takes_from(setup.rx),
            taken(setup.rx).len() == 0 ==> r.in_step(),
    {
        let batch = Batch::with_capacity(setup.config.batch_size);
        let mut clock = Clock::new();
        let flushed_at = clock.tick();
        let stamp = Stamp::new(&mut clock);
        let writer = Writer {
            rx: setup.rx,
            clock,
            config: setup.config,
            phase: Phase::Idle,
            inbox: None,
            batch,
            waiting: 0,
            bytes: 0,
            stamp,
            flushed_at,
            flushing: false,
            tail: String::new(),
            given: Ghost(Seq::empty()),
            looks: Ghost(Seq::empty()),
            emitted: Ghost(Seq::empty()),
            flushed: Ghost(Seq::empty()),
        };
        assert(writer@ == WriterState::initial(setup.config, writer@.stamp, writer@.flushed_at));
        proof {
            beginnings_are_wf(setup.config, writer@.stamp, writer@.flushed_at);
            if taken(setup.rx).len() == 0 {
                assert(writer.taken() == writer@.given);
            }
        }
        writer
    }

    /// What the writer does next.
    pub fn phase(&self) -> (r: Phase)
        ensures
            r == self@.phase,
    {
        self.phase
    }

    /// Writes the pending messages, and gives the text to print, if there were
    /// any, and their strings.
    fn write_batch(&mut self) -> (r: (Option<String>, Vec<String>))
        requires
            old(self)@.bytes <= 2 * usize::MAX,
            old(self).sound(),
        ensures
            final(self).rx == old(self).rx,
            final(self).inbox == old(self).inbox,
            final(self).sound(),
            ({
                let fresh = final(self)@.looks_since(old(self)@);
                &&& fresh.len() == old(self)@.pending.len()
                &&& all_follow(old(self)@.stamp, fresh)
                &&& final(self).readings() == old(self).readings() + all_readings(
                    old(self)@.stamp,
                    fresh,
                )
                &&& final(self)@ == old(self)@.written(fresh)
                &&& byte_len(lines(fresh, entries(old(self)@.pending))) <= usize::MAX
                &&& (Output { text: r.0, flush: false, spent: r.1 })@.text
                    == old(self)@.batch_text(fresh)
            }),
            r.1@ == strings(old(self)@.pending),
    {
        if self.batch.is_empty() {
            assert(self@.looks_since(self@) == Seq::<Look>::empty());
            assert(self@ == self@.written(Seq::empty()));
            return (None, Vec::new());
        }
        let logs = self.batch.drain();
        self.waiting = 0;
        let (text, spent, Ghost(fresh)) = render(logs, &mut self.stamp, &mut self.clock);
        let written: usize = text.as_str().as_bytes().len();
        self.bytes = self.bytes + written as u128;
        proof {
            self.emitted@ = self.emitted@ + text@;
            self.looks@ = self.looks@ + fresh;
        }
        assert(self@.looks_since(old(self)@) == fresh);
        assert(self@ == old(self)@.written(fresh));
        (Some(text), spent)
    }

    /// Notes that a flush of the output was asked for.
    fn flush_writer(&mut self)
        ensures
            final(self).rx == old(self).rx,
            final(self).inbox == old(self).inbox,
            final(self).readings() == old(self).readings(),
            final(self).sound() == old(self).sound(),
            final(self)@ == old(self)@.synced(),
    {
        self.bytes = 0;
        self.flushing = true;
        proof {
            self.flushed@ = self.emitted@;
        }
    }

    /// Looks at the clock when the flush that was asked for is done: the time to the
    /// next one counts from here.
    pub fn flush_done(&mut self)
        requires
            old(self).wf(),
            old(self)@.flushing,
        ensures
            final(self).wf(),
            final(self).held() == old(self).held(),
            left_channel_alone(*old(self), *final(self)),
            final(self).readings() == old(self).readings().push(
                Reading::Tick(final(self)@.flushed_at),
            ),
            final(self)@ == old(self)@.flush_done(final(self)@.flushed_at),
            old(self).in_step() ==> final(self).in_step(),
    {
        let ghost before = self@;
        self.flushed_at = self.clock.tick();
        self.flushing = false;
        proof {
            done_flushes_keep_wf(before, self.flushed_at);
        }
    }

    /// Looks for a command once: waits for one when idle, and otherwise takes one
    /// only if it is there.
    pub fn receive(&mut self) -> (r: Option<LoggerCommand>)
        requires
            old(self)@.takes_commands(),
        ensures
            final(self)@ == old(self)@,
            final(self).sound() == old(self).sound(),
            final(self).held() == old(self).held(),
            final(self).readings() == old(self).readings(),
            final(self).channel() == old(self).channel(),
            final(self).tries() == old(self).tries().push(old(self)@.phase == Phase::Idle),
            final(self).taken().is_prefix_of(all_handed(final(self).channel())),
            match r {
                Some(command) => final(self).taken() == old(self).taken().push(command),
                None => final(self).taken() == old(self).taken(),
            },
            r is None && old(self)@.phase == Phase::Idle ==> final(self).taken() == all_handed(
                final(self).channel(),
            ),
    {
        match self.phase {
            Phase::Idle => recv(&mut self.rx),
            _ => try_recv(&mut self.rx),
        }
    }

    /// Looks for a command once, and keeps what was found until it is dealt with.
    pub fn fetch(&mut self)
        requires
            old(self)@.takes_commands(),
            old(self).held() is None,
        ensures
            final(self)@ == old(self)@,
            final(self).sound() == old(self).sound(),
            final(self).readings() == old(self).readings(),
            final(self).channel() == old(self).channel(),
            final(self).tries() == old(self).tries().push(old(self)@.phase == Phase::Idle),
            match final(self).held() {
                Some(Some(command)) => final(self).taken() == old(self).taken().push(command),
                Some(None) => final(self).taken() == old(self).taken(),
                None => false,
            },
            old(self).in_step() ==> final(self).in_step(),
    {
        let found = self.receive();
        self.inbox = Some(found);
    }

    /// Deals with what was found in the channel.
    pub fn handle(&mut self) -> (r: Output)
        requires
            old(self).wf(),
            old(self)@.takes_commands(),
            old(self).held() is Some,
        ensures
            final(self).wf(),
            final(self).held() is None,
            left_channel_alone(*old(self), *final(self)),
            obeyed(*old(self), old(self).held()->Some_0, *final(self), r),
            old(self).in_step() ==> final(self).in_step(),
    {
        match self.inbox.take() {
            Some(command) => self.accept(command),
            None => Output { text: None, flush: false, spent: Vec::new() },
        }
    }

    /// Does what `command` asks for. No command means to an idle writer that none
    /// will come any more, and to another one that there is none at the moment.
    pub fn accept(&mut self, command: Option<LoggerCommand>) -> (r: Output)
        requires
            old(self).wf(),
            old(self)@.takes_commands(),
        ensures
            final(self).wf(),
            final(self).held() == old(self).held(),
            left_channel_alone(*old(self), *final(self)),
            obeyed(*old(self), command, *final(self), r),
    {
        let ghost before = self@;
        let output = match self.phase {
            Phase::Draining => self.accept_draining(command),
            _ => self.accept_running(command),
        };
        proof {
            commands_keep_wf(before, command, self@.looks_since(before));
        }
        output
    }

    /// Does what `command` asks for, of a writer that was not told to stop.
    fn accept_running(&mut self, command: Option<LoggerCommand>) -> (r:
        Output)
        requires
            old(self).wf(),
            old(self)@.phase == Phase::Idle || old(self)@.phase == Phase::Gathering,
        ensures
            final(self).rx == old(self).rx,
            final(self).inbox == old(self).inbox,
            final(self).sound(),
            obeyed(*old(self), command, *final(self), r),
    {
        let idle = match self.phase {
            Phase::Idle => true,
            _ => false,
        };
        proof {
            self.given@ = self@.noted(command).given;
            assert(self@ == old(self)@.noted(command));
        }
        match command {
            Some(LoggerCommand::Msg(log)) => {
                self.waiting = self.waiting.saturating_add(unstamped_len(&log));
                self.batch.push(log);
                assert(self@.pending.drop_last() == old(self)@.pending);
                self.gather();
                assert(self@.looks_since(old(self)@) == Seq::<Look>::empty());
                assert(self@ == old(self)@.noted(command).queued(log).gathering());
                Output { text: None, flush: false, spent: Vec::new() }
            },
            Some(LoggerCommand::Flush) => {
                let (text, spent) = self.write_batch();
                self.flush_writer();
                if !idle {
                    self.gather();
                }
                Output { text, flush: true, spent }
            },
            Some(LoggerCommand::Shutdown) => {
                let (text, spent) = self.write_batch();
                self.flush_writer();
                self.phase = Phase::Draining;
                Output { text, flush: true, spent }
            },
            None => {
                if idle {
                    let (text, spent) = self.write_batch();
                    self.flush_writer();
                    self.phase = Phase::Stopped;
                    Output { text, flush: true, spent }
                } else {
                    self.phase = Phase::Settling;
                    assert(self@.looks_since(old(self)@) == Seq::<Look>::empty());
                    Output { text: None, flush: false, spent: Vec::new() }
                }
            },
        }
    }

    /// Goes on gathering while there is room in the batch.
    fn gather(&mut self)
        ensures
            final(self).rx == old(self).rx,
            final(self).inbox == old(self).inbox,
            final(self).readings() == old(self).readings(),
            final(self).sound() == old(self).sound(),
            final(self)@ == old(self)@.gathering(),
    {
        self.phase = if self.batch.len() < self.config.batch_size {
            Phase::Gathering
        } else {
            Phase::Settling
        };
    }

    /// Does what `command` asks for, of a writer that was told to stop: it only
    /// collects messages, until there is no command left.
    fn accept_draining(&mut self, command: Option<LoggerCommand>) -> (r:
        Output)
        requires
            old(self).wf(),
            old(self)@.phase == Phase::Draining,
        ensures
            final(self).rx == old(self).rx,
            final(self).inbox == old(self).inbox,
            final(self).sound(),
            obeyed(*old(self), command, *final(self), r),
    {
        proof {
            self.given@ = self@.noted(command).given;
            assert(self@ == old(self)@.noted(command));
        }
        match command {
            Some(LoggerCommand::Msg(log)) => {
                let Ghost(look) = self.stamp.refresh(&mut self.clock);
                append_line(&mut self.tail, self.stamp.as_str(), &log);
                let ghost entry = log@;
                let mut spent: Vec<String> = Vec::new();
                spent.push(log.msg);
                proof {
                    assert(spent@ == strings(seq![log]));
                    self.looks@ = self.looks@.push(look);
                    let fresh = self@.looks_since(old(self)@);
                    assert(fresh == seq![look]);
                    assert(fresh.take(0) == Seq::<Look>::empty());
                    reveal_with_fuel(lines, 2);
                    reveal_with_fuel(all_readings, 2);
                    assert(fresh.drop_last() == Seq::<Look>::empty());
                    assert(all_readings(old(self)@.stamp, fresh) == readings_for(
                        old(self)@.stamp,
                        look,
                    ));
                    assert(lines(fresh, seq![entry]) == line(self.stamp@.time.stamp(), entry));
                    assert(self@ == old(self)@.noted(command).collected(entry, fresh));
                }
                Output { text: None, flush: false, spent }
            },
            Some(_) => {
                assert(self@.looks_since(old(self)@) == Seq::<Look>::empty());
                Output { text: None, flush: false, spent: Vec::new() }
            },
            None => {
                let mut text = String::new();
                std::mem::swap(&mut text, &mut self.tail);
                proof {
                    self.emitted@ = self.emitted@ + text@;
                }
                self.flush_writer();
                self.phase = Phase::Stopped;
                assert(self@.looks_since(old(self)@) == Seq::<Look>::empty());
                Output { text: Some(text), flush: true, spent: Vec::new() }
            },
        }
    }

    /// Looks at the clock, and decides by the time since the last flush, among other
    /// things, whether to write and to flush what was gathered.
    pub fn settle(&mut self) -> (r: Output)
        requires
            old(self).wf(),
            old(self)@.settles(),
        ensures
            final(self).wf(),
            final(self).held() == old(self).held(),
            left_channel_alone(*old(self), *final(self)),
            ({
                let first = final(self).readings()[old(self).readings().len() as int];
                let since = first->Tick_0.after(old(self)@.flushed_at);
                &&& first is Tick
                &&& settled(
                    *old(self),
                    since,
                    old(self).readings().push(first),
                    *final(self),
                    r,
                )
            }),
            old(self).in_step() ==> final(self).in_step(),
    {
        let now = self.clock.tick();
        let since = now.since(&self.flushed_at);
        self.settle_after(since)
    }

    /// Decides, the last flush being `since` ago, whether to write and to flush
    /// what was gathered.
    pub fn settle_after(&mut self, since: Interval) -> (r: Output)
        requires
            old(self).wf(),
            old(self)@.settles(),
        ensures
            final(self).wf(),
            final(self).held() == old(self).held(),
            left_channel_alone(*old(self), *final(self)),
            settled(*old(self), since, old(self).readings(), *final(self), r),
    {
        let ghost before = self@;
        let stamp_size: usize = self.stamp.as_str().as_bytes().len();
        let count: usize = self.batch.len();
        proof {
            assert(count * stamp_size <= u128::MAX) by (nonlinear_arith)
                requires
                    0 <= count <= u64::MAX,
                    0 <= stamp_size <= u64::MAX,
            ;
            waiting_bytes_split(before.stamp.time.stamp(), before.pending);
        }
        let stamps: u128 = count as u128 * stamp_size as u128;
        let accumulated: u128 = self.bytes.saturating_add(self.waiting).saturating_add(stamps);
        let should_flush = accumulated >= self.config.flush_threshold as u128 || count
            >= self.config.flush_batch_threshold || since.reaches(&self.config.flush_interval);
        let full = count >= self.config.batch_size;
        let (text, spent) = if should_flush || full {
            self.write_batch()
        } else {
            (None, Vec::new())
        };
        if should_flush {
            self.flush_writer();
        }
        self.phase = Phase::Idle;
        proof {
            let fresh = self@.looks_since(before);
            if !before.write_due(since) {
                assert(fresh == Seq::<Look>::empty());
            }
            settling_keeps_wf(before, since, fresh);
        }
        Output { text, flush: should_flush, spent }
    }
}

/// What an output asks for is what stands in it.
pub proof fn outputs_are_seen_as_they_are(output: Output)
    ensures
        output.text is None == output@.text is None,
        output.text matches Some(text) ==> output@.text == Some(text@),
        output@.flush == output.flush,
        output@.spent == output.spent@,
{
}

impl Writer {
    /// What is known of a writer is what it holds, and what passed through its
    /// channel and its clock.
    proof fn view_shows_the_fields(&self)
        ensures
            self@.phase == self.phase,
            self@.config == self.config,
            self@.pending == batch_items(self.batch),
            self@.bytes == self.bytes,
            self@.stamp == self.stamp@,
            self@.flushed_at == self.flushed_at,
            self@.flushing == self.flushing,
            self@.tail == self.tail@,
            self.held() == self.inbox,
            self.taken() == taken(self.rx),
            self.tries() == tries(self.rx),
            self.channel() == takes_from(self.rx),
            self.readings() == readings(self.clock),
    {
    }
}

} // verus!
