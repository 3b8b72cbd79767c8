//! Log messages, the commands that carry them to the writer, and the lines that
//! they become.

use vstd::prelude::*;
use vstd::utf8::encode_utf8;

use crate::clock::{
    follows, readings_for, stale, stamps_are_fresh, Look, Reading, StampState, STAMP_LIFE_NANOS,
};
use crate::level::{tags_begin_apart, LogLevel};

verus! {

/// One message on its way to the log.
pub struct LogMsg {
    pub level: LogLevel,
    pub msg: String,
}

/// What a logger asks of its writer.
pub enum LoggerCommand {
    /// Log this message.
    Msg(LogMsg),
    /// Write and flush all that is waiting.
    Flush,
    /// Write and flush all that was sent, then stop.
    Shutdown,
}

/// A message as its reader sees it.
pub struct Entry {
    pub level: LogLevel,
    pub text: Seq<char>,
}

impl View for LogMsg {
    type V = Entry;

    open spec fn view(&self) -> Entry {
        Entry { level: self.level, text: self.msg@ }
    }
}

/// The messages of a batch as their reader sees them.
pub open spec fn entries(messages: Seq<LogMsg>) -> Seq<Entry> {
    messages.map_values(|m: LogMsg| m@)
}

/// The messages among some commands, oldest first.
pub open spec fn messages_in(commands: Seq<LoggerCommand>) -> Seq<Entry>
    decreases commands.len(),
{
    if commands.len() == 0 {
        Seq::empty()
    } else {
        let earlier = messages_in(commands.drop_last());
        match commands.last() {
            LoggerCommand::Msg(m) => earlier.push(m@),
            _ => earlier,
        }
    }
}

/// The line of a message: its stamp, its level's tag in brackets, its text and a
/// line break, with spaces between.
pub open spec fn line(stamp: Seq<char>, entry: Entry) -> Seq<char> {
    stamp + " ["@ + entry.level.tag() + "] "@ + entry.text + "\n"@
}

/// The strings of some messages.
pub open spec fn strings(messages: Seq<LogMsg>) -> Seq<String> {
    messages.map_values(|m: LogMsg| m.msg)
}

/// The lines of several messages, each under the stamp of its look at the clocks,
/// one after the other.
pub open spec fn lines(looks: Seq<Look>, entries: Seq<Entry>) -> Seq<char>
    decreases entries.len(),
{
    if entries.len() == 0 {
        Seq::empty()
    } else {
        lines(looks.drop_last(), entries.drop_last()) + line(
            looks.last().stamp.time.stamp(),
            entries.last(),
        )
    }
}

/// The number of bytes that a text takes in UTF-8.
pub open spec fn byte_len(text: Seq<char>) -> nat {
    encode_utf8(text).len()
}

/// The bytes that the lines of some messages would take under a stamp.
pub open spec fn waiting_bytes(stamp: Seq<char>, messages: Seq<LogMsg>) -> nat
    decreases messages.len(),
{
    if messages.len() == 0 {
        0
    } else {
        waiting_bytes(stamp, messages.drop_last()) + byte_len(line(stamp, messages.last()@))
    }
}

/// The bytes of a message's line that follow the stamp.
pub open spec fn unstamped_bytes(entry: Entry) -> nat {
    byte_len(" ["@) + byte_len(entry.level.tag()) + byte_len("] "@) + byte_len(entry.text)
        + byte_len("\n"@)
}

/// The bytes of some messages' lines that follow the stamps.
pub open spec fn all_unstamped_bytes(messages: Seq<LogMsg>) -> nat
    decreases messages.len(),
{
    if messages.len() == 0 {
        0
    } else {
        all_unstamped_bytes(messages.drop_last()) + unstamped_bytes(messages.last()@)
    }
}

/// The stamp that is in use once `looks` came after `stamp`.
pub open spec fn latest(stamp: StampState, looks: Seq<Look>) -> StampState {
    if looks.len() == 0 {
        stamp
    } else {
        looks.last().stamp
    }
}

/// Whether `looks` can have been made one after the other, `stamp` being the one in
/// use before.
pub open spec fn all_follow(stamp: StampState, looks: Seq<Look>) -> bool {
    forall|i: int|
        0 <= i < looks.len() ==> follows(latest(stamp, looks.take(i)), #[trigger] looks[i])
}

/// The readings that are made in `looks`, one after the other, `stamp` being the
/// one in use before.
pub open spec fn all_readings(stamp: StampState, looks: Seq<Look>) -> Seq<Reading>
    decreases looks.len(),
{
    if looks.len() == 0 {
        Seq::empty()
    } else {
        let earlier = looks.drop_last();
        all_readings(stamp, earlier) + readings_for(latest(stamp, earlier), looks.last())
    }
}

/// Appends the line of `log` to `buf`.
pub fn append_line(buf: &mut String, stamp: &str, log: &LogMsg)
    ensures
        final(buf)@ == old(buf)@ + line(stamp@, log@),
{
    buf.append(stamp);
    buf.append(" [");
    buf.append(log.level.as_str());
    buf.append("] ");
    buf.append(log.msg.as_str());
    buf.append("\n");
}

/// Counts the bytes of the line of `log` that follow the stamp.
pub fn unstamped_len(log: &LogMsg) -> (r: u128)
    ensures
        r == unstamped_bytes(log@),
{
    let a: usize = " [".as_bytes().len();
    let b: usize = log.level.as_str().as_bytes().len();
    let c: usize = "] ".as_bytes().len();
    let d: usize = log.msg.as_str().as_bytes().len();
    let e: usize = "\n".as_bytes().len();
    a as u128 + b as u128 + c as u128 + d as u128 + e as u128
}

/// The lines of two runs of messages are those of the first and then those of
/// the second.
pub proof fn lines_of_runs_join(
    looks1: Seq<Look>,
    entries1: Seq<Entry>,
    looks2: Seq<Look>,
    entries2: Seq<Entry>,
)
    requires
        looks1.len() == entries1.len(),
        looks2.len() == entries2.len(),
    ensures
        lines(looks1 + looks2, entries1 + entries2) == lines(looks1, entries1) + lines(
            looks2,
            entries2,
        ),
    decreases entries2.len(),
{
    if entries2.len() == 0 {
        assert(looks1 + looks2 == looks1);
        assert(entries1 + entries2 == entries1);
    } else {
        lines_of_runs_join(looks1, entries1, looks2.drop_last(), entries2.drop_last());
        assert((looks1 + looks2).drop_last() == looks1 + looks2.drop_last());
        assert((entries1 + entries2).drop_last() == entries1 + entries2.drop_last());
    }
}

/// A text takes as many bytes as its parts.
pub proof fn byte_len_adds_up(a: Seq<char>, b: Seq<char>)
    ensures
        byte_len(a + b) == byte_len(a) + byte_len(b),
    decreases a.len(),
{
    if a.len() == 0 {
        assert(a + b == b);
    } else {
        byte_len_adds_up(a.drop_first(), b);
        assert((a + b).drop_first() == a.drop_first() + b);
    }
}

/// A line takes the bytes of its stamp and those that follow it.
proof fn line_bytes(stamp: Seq<char>, entry: Entry)
    ensures
        byte_len(line(stamp, entry)) == byte_len(stamp) + unstamped_bytes(entry),
{
    let tag = entry.level.tag();
    byte_len_adds_up(stamp, " ["@);
    byte_len_adds_up(stamp + " ["@, tag);
    byte_len_adds_up(stamp + " ["@ + tag, "] "@);
    byte_len_adds_up(stamp + " ["@ + tag + "] "@, entry.text);
    byte_len_adds_up(stamp + " ["@ + tag + "] "@ + entry.text, "\n"@);
}

/// The lines that wait take the bytes of as many stamps and those that follow them.
pub proof fn waiting_bytes_split(stamp: Seq<char>, messages: Seq<LogMsg>)
    ensures
        waiting_bytes(stamp, messages) == messages.len() * byte_len(stamp) + all_unstamped_bytes(
            messages,
        ),
    decreases messages.len(),
{
    if messages.len() > 0 {
        let front = messages.drop_last();
        waiting_bytes_split(stamp, front);
        line_bytes(stamp, messages.last()@);
        let n = front.len();
        let k = byte_len(stamp);
        assert((n + 1) * k == n * k + k) by (nonlinear_arith);
    }
}

/// The stamp after two runs of looks is the one after the second.
proof fn latest_joins(stamp: StampState, first: Seq<Look>, second: Seq<Look>)
    ensures
        latest(stamp, first + second) == latest(latest(stamp, first), second),
{
    if second.len() == 0 {
        assert(first + second == first);
    }
}

/// Looks that can follow each other go on doing so when one more follows the last
/// of them.
pub proof fn all_follow_goes_on(stamp: StampState, looks: Seq<Look>, look: Look)
    requires
        all_follow(stamp, looks),
        follows(latest(stamp, looks), look),
    ensures
        all_follow(stamp, looks.push(look)),
{
    let more = looks.push(look);
    assert forall|i: int| 0 <= i < more.len() implies follows(
        latest(stamp, more.take(i)),
        #[trigger] more[i],
    ) by {
        assert(more.take(i) == looks.take(i));
        if i < looks.len() {
            assert(more[i] == looks[i]);
        } else {
            assert(looks.take(i) == looks);
        }
    }
}

/// Looks that can follow each other go on doing so when more follow the last of
/// them, and the readings made are those of the first run and then those of the
/// second.
pub proof fn looks_join(stamp: StampState, first: Seq<Look>, second: Seq<Look>)
    requires
        all_follow(stamp, first),
        all_follow(latest(stamp, first), second),
    ensures
        all_follow(stamp, first + second),
        latest(stamp, first + second) == latest(latest(stamp, first), second),
        all_readings(stamp, first + second) == all_readings(stamp, first) + all_readings(
            latest(stamp, first),
            second,
        ),
    decreases second.len(),
{
    let all = first + second;
    latest_joins(stamp, first, second);
    if second.len() == 0 {
        assert(all == first);
    } else {
        let front = second.drop_last();
        all_follow_in_front(latest(stamp, first), second);
        looks_join(stamp, first, front);
        all_follow_goes_on(stamp, first + front, second.last());
        assert(all == (first + front).push(second.last()));
        assert(all.drop_last() == first + front);
    }
}

/// What follows a stamp of a valid time has a valid time too.
pub proof fn stamps_stay_valid(stamp: StampState, looks: Seq<Look>)
    requires
        stamp.time.valid(),
        all_follow(stamp, looks),
    ensures
        latest(stamp, looks).time.valid(),
        forall|i: int| 0 <= i < looks.len() ==> (#[trigger] looks[i]).stamp.time.valid(),
    decreases looks.len(),
{
    if looks.len() > 0 {
        let front = looks.drop_last();
        all_follow_in_front(stamp, looks);
        stamps_stay_valid(stamp, front);
        assert forall|i: int| 0 <= i < looks.len() implies (
        #[trigger] looks[i]).stamp.time.valid() by {
            if i < front.len() {
                assert(looks[i] == front[i]);
            } else {
                assert(looks.take(i) == front);
            }
        }
    }
}

/// Of looks that follow each other, those before the last do so too.
proof fn all_follow_in_front(stamp: StampState, looks: Seq<Look>)
    requires
        looks.len() > 0,
        all_follow(stamp, looks),
    ensures
        all_follow(stamp, looks.drop_last()),
        follows(latest(stamp, looks.drop_last()), looks.last()),
{
    let front = looks.drop_last();
    assert forall|i: int| 0 <= i < front.len() implies follows(
        latest(stamp, front.take(i)),
        #[trigger] front[i],
    ) by {
        assert(front.take(i) == looks.take(i));
        assert(front[i] == looks[i]);
    }
    let last = looks.len() - 1;
    assert(looks.take(last) == front);
    assert(follows(latest(stamp, looks.take(last)), looks[last]));
}

/// Every line has a stamp that was less than a second old when the clock was looked
/// at for that line.
pub proof fn all_stamps_are_fresh(stamp: StampState, looks: Seq<Look>)
    requires
        all_follow(stamp, looks),
    ensures
        forall|i: int|
            0 <= i < looks.len() ==> (#[trigger] looks[i]).tick.after(looks[i].stamp.read_at).nanos
                < STAMP_LIFE_NANOS,
{
    assert forall|i: int| 0 <= i < looks.len() implies (#[trigger] looks[i]).tick.after(
        looks[i].stamp.read_at,
    ).nanos < STAMP_LIFE_NANOS by {
        stamps_are_fresh(latest(stamp, looks.take(i)), looks[i]);
    }
}

/// A stamp is read anew only where the one before it is a second old or more.
pub proof fn stamps_last_a_second(stamp: StampState, looks: Seq<Look>, i: int)
    requires
        all_follow(stamp, looks),
        0 <= i < looks.len(),
        looks[i].tick.after(latest(stamp, looks.take(i)).read_at).nanos < STAMP_LIFE_NANOS,
    ensures
        looks[i].stamp == latest(stamp, looks.take(i)),
{
}

/// The clocks alone decide the stamps: for as many lines, the same readings give the
/// same looks.
pub proof fn readings_decide_the_stamps(stamp: StampState, a: Seq<Look>, b: Seq<Look>)
    requires
        all_follow(stamp, a),
        all_follow(stamp, b),
        a.len() == b.len(),
        all_readings(stamp, a) == all_readings(stamp, b),
    ensures
        a == b,
{
    readings_decide_beginnings(stamp, a, b, Seq::empty(), Seq::empty());
}

/// Readings that begin with those of two runs of looks, equally many, begin with the
/// same ones.
proof fn readings_decide_beginnings(
    stamp: StampState,
    a: Seq<Look>,
    b: Seq<Look>,
    rest_a: Seq<Reading>,
    rest_b: Seq<Reading>,
)
    requires
        all_follow(stamp, a),
        all_follow(stamp, b),
        a.len() == b.len(),
        all_readings(stamp, a) + rest_a == all_readings(stamp, b) + rest_b,
    ensures
        a == b,
        rest_a == rest_b,
    decreases a.len(),
{
    if a.len() == 0 {
        assert(all_readings(stamp, a) + rest_a == rest_a);
        assert(all_readings(stamp, b) + rest_b == rest_b);
    } else {
        let fa = a.drop_last();
        let fb = b.drop_last();
        all_follow_in_front(stamp, a);
        all_follow_in_front(stamp, b);
        let ma = readings_for(latest(stamp, fa), a.last()) + rest_a;
        let mb = readings_for(latest(stamp, fb), b.last()) + rest_b;
        assert(all_readings(stamp, a) + rest_a == all_readings(stamp, fa) + ma);
        assert(all_readings(stamp, b) + rest_b == all_readings(stamp, fb) + mb);
        readings_decide_beginnings(stamp, fa, fb, ma, mb);
        let s = latest(stamp, fa);
        let n = readings_for(s, a.last()).len() as int;
        assert(ma[0] == Reading::Tick(a.last().tick));
        assert(mb[0] == Reading::Tick(b.last().tick));
        if stale(a.last().tick.after(s.read_at)) {
            assert(ma[1] == Reading::Wall(a.last().stamp.time));
            assert(mb[1] == Reading::Wall(b.last().stamp.time));
            assert(ma[2] == Reading::Tick(a.last().stamp.read_at));
            assert(mb[2] == Reading::Tick(b.last().stamp.read_at));
        }
        assert(a.last() == b.last());
        assert(a == fa.push(a.last()));
        assert(b == fb.push(b.last()));
        assert(rest_a == ma.skip(n));
        assert(rest_b == mb.skip(n));
    }
}

/// A message is seen as it is: with its level and the text of its string.
pub proof fn messages_are_seen_as_they_are(log: LogMsg, messages: Seq<LogMsg>)
    ensures
        log@.level == log.level,
        log@.text == log.msg@,
        entries(messages).len() == messages.len(),
        strings(messages).len() == messages.len(),
        forall|i: int|
            0 <= i < messages.len() ==> {
                &&& (#[trigger] entries(messages)[i]).level == messages[i].level
                &&& entries(messages)[i].text == messages[i].msg@
            },
        forall|i: int|
            0 <= i < messages.len() ==> #[trigger] strings(messages)[i] == messages[i].msg,
{
}

/// The bytes of a text are those of its encoding in UTF-8.
pub proof fn bytes_are_those_of_the_encoding(text: Seq<char>)
    ensures
        byte_len(text) == encode_utf8(text).len(),
{
}

/// A command to log holds one message, its own, and the other commands hold none.
pub proof fn commands_hold_their_messages(log: LogMsg)
    ensures
        messages_in(seq![LoggerCommand::Msg(log)]).len() == 1,
        messages_in(seq![LoggerCommand::Msg(log)])[0].level == log.level,
        messages_in(seq![LoggerCommand::Msg(log)])[0].text == log.msg@,
        messages_in(seq![LoggerCommand::Flush]).len() == 0,
        messages_in(seq![LoggerCommand::Shutdown]).len() == 0,
        messages_in(Seq::empty()).len() == 0,
{
    reveal_with_fuel(messages_in, 2);
}

/// The messages of two runs of commands are those of the first and then those of the
/// second.
pub proof fn messages_of_runs_join(first: Seq<LoggerCommand>, second: Seq<LoggerCommand>)
    ensures
        messages_in(first + second) == messages_in(first) + messages_in(second),
    decreases second.len(),
{
    if second.len() == 0 {
        assert(first + second == first);
    } else {
        messages_of_runs_join(first, second.drop_last());
        assert((first + second).drop_last() == first + second.drop_last());
    }
}

/// A line shows its message: the stamp, the tag in brackets, the whole text and a
/// line break, each at its place, and nothing else.
pub proof fn lines_show_their_messages(stamp: Seq<char>, entry: Entry)
    ensures
        ({
            let l = line(stamp, entry);
            let tag = entry.level.tag();
            let s = stamp.len() as int;
            let t = s + 2 + tag.len();
            let n = t + 2 + entry.text.len();
            &&& l.len() == n + 1
            &&& l.subrange(0, s) == stamp
            &&& l[s] == ' '
            &&& l[s + 1] == '['
            &&& l.subrange(s + 2, t) == tag
            &&& l[t] == ']'
            &&& l[t + 1] == ' '
            &&& l.subrange(t + 2, n) == entry.text
            &&& l[n] == '\n'
        }),
{
    reveal_strlit(" [");
    reveal_strlit("] ");
    reveal_strlit("\n");
    let l = line(stamp, entry);
    let tag = entry.level.tag();
    let s = stamp.len() as int;
    let t = s + 2 + tag.len();
    assert(l.subrange(0, s) =~= stamp);
    assert(l.subrange(s + 2, t) =~= tag);
    assert(l.subrange(t + 2, t + 2 + entry.text.len()) =~= entry.text);
}

/// A line tells its message: under one stamp, no two messages have the same line.
pub proof fn lines_tell_messages_apart(stamp: Seq<char>, a: Entry, b: Entry)
    requires
        line(stamp, a) == line(stamp, b),
    ensures
        a == b,
{
    lines_show_their_messages(stamp, a);
    lines_show_their_messages(stamp, b);
    let l = line(stamp, a);
    let s = stamp.len() as int;
    tags_begin_apart(a.level, b.level);
    let ta = a.level.tag();
    let tb = b.level.tag();
    assert(ta[3] == l.subrange(s + 2, s + 2 + ta.len())[3]);
    assert(tb[3] == l.subrange(s + 2, s + 2 + tb.len())[3]);
    assert(a.level == b.level);
    assert(a.text == b.text);
}

/// One message has one line, under the stamp of its look, and no message has none.
pub proof fn messages_have_a_line_each(look: Look, entry: Entry)
    ensures
        lines(seq![look], seq![entry]) == line(look.stamp.time.stamp(), entry),
        lines(Seq::empty(), Seq::empty()).len() == 0,
{
    reveal_with_fuel(lines, 2);
    assert(lines(seq![look], seq![entry]) =~= line(look.stamp.time.stamp(), entry));
}

/// What waits takes the bytes of its lines: one message those of its line under the
/// stamp, and two runs of messages those of both.
pub proof fn waiting_lines_take_their_bytes(
    stamp: Seq<char>,
    log: LogMsg,
    first: Seq<LogMsg>,
    second: Seq<LogMsg>,
)
    ensures
        waiting_bytes(stamp, seq![log]) == encode_utf8(
            line(stamp, Entry { level: log.level, text: log.msg@ }),
        ).len(),
        waiting_bytes(stamp, first + second) == waiting_bytes(stamp, first) + waiting_bytes(
            stamp,
            second,
        ),
    decreases second.len(),
{
    reveal_with_fuel(waiting_bytes, 2);
    if second.len() == 0 {
        assert(first + second == first);
    } else {
        waiting_lines_take_their_bytes(stamp, log, first, second.drop_last());
        assert((first + second).drop_last() == first + second.drop_last());
    }
}

/// Of the bytes of a line, those that are not of its stamp are counted apart.
pub proof fn lines_are_counted_apart(stamp: Seq<char>, entry: Entry)
    ensures
        encode_utf8(line(stamp, entry)).len() == encode_utf8(stamp).len() + unstamped_bytes(entry),
{
    line_bytes(stamp, entry);
}

/// Each line has the stamp of the line before it, as long as less than a second has
/// passed since that was read, and otherwise one that was read for it, from the
/// moment of its own look on. The stamp of the last line stays in use.
pub proof fn stamps_are_handed_on(stamp: StampState, looks: Seq<Look>, i: int)
    requires
        all_follow(stamp, looks),
        0 <= i < looks.len(),
    ensures
        ({
            let before = if i == 0 { stamp } else { looks[i - 1].stamp };
            &&& looks[i].tick.nanos < before.read_at.nanos + 1_000_000_000 ==> looks[i].stamp
                == before
            &&& looks[i].tick.nanos >= before.read_at.nanos + 1_000_000_000
                ==> looks[i].stamp.read_at.nanos >= looks[i].tick.nanos
        }),
        latest(stamp, looks) == looks[looks.len() - 1].stamp,
        latest(stamp, Seq::empty()) == stamp,
{
    assert(follows(latest(stamp, looks.take(i)), looks[i]));
    if i > 0 {
        assert(looks.take(i).last() == looks[i - 1]);
    }
}

/// One look makes its own readings, and no look makes none.
pub proof fn looks_make_their_readings(stamp: StampState, look: Look)
    ensures
        all_readings(stamp, seq![look]) == readings_for(stamp, look),
        all_readings(stamp, Seq::empty()).len() == 0,
{
    reveal_with_fuel(all_readings, 2);
    assert(seq![look].drop_last() =~= Seq::<Look>::empty());
    assert(all_readings(stamp, seq![look]) =~= readings_for(stamp, look));
}

} // verus!
