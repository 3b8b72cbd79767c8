//! The message that a panic leaves in the log.

use vstd::prelude::*;

use crate::text::{append_decimal, decimal, decimals_hold_digits, decimals_tell_numbers_apart};

verus! {

/// Where a panic occurred.
pub struct PanicLocation {
    pub file: String,
    pub line: u32,
    pub column: u32,
}

/// What stands in for a panic's own message when it has none.
pub open spec fn panic_message(payload: Option<Seq<char>>) -> Seq<char> {
    match payload {
        Some(msg) => msg,
        None => "No panic message was set"@,
    }
}

/// The report of a panic: where it occurred, if that is known, and its message.
pub open spec fn panic_report(
    location: Option<PanicLocation>,
    payload: Option<Seq<char>>,
) -> Seq<char> {
    let msg = panic_message(payload);
    match location {
        Some(at) => "\x1b[31mPanic\x1b[0m occurred in file \x1b[31m'"@ + at.file@
            + "'\x1b[0m at line \x1b[31m"@ + decimal(at.line as nat)
            + "\x1b[0m, at character \x1b[31m"@ + decimal(at.column as nat)
            + "\x1b[0m, message : "@ + msg,
        None => "\x1b[31mPanic\x1b[0m occurred but location info is unavailable, message : "@
            + msg,
    }
}

/// Appends the report of a panic to `report`.
pub fn report_panic(report: &mut String, location: &Option<PanicLocation>, payload: Option<&str>)
    ensures
        final(report)@ == old(report)@ + panic_report(
            *location,
            match payload {
                Some(msg) => Some(msg@),
                None => None,
            },
        ),
{
    let msg = match payload {
        Some(msg) => msg,
        None => "No panic message was set",
    };
    match location {
        Some(at) => {
            report.append("\x1b[31mPanic\x1b[0m occurred in file \x1b[31m'");
            report.append(at.file.as_str());
            report.append("'\x1b[0m at line \x1b[31m");
            append_decimal(report, at.line);
            report.append("\x1b[0m, at character \x1b[31m");
            append_decimal(report, at.column);
            report.append("\x1b[0m, message : ");
        },
        None => {
            report.append("\x1b[31mPanic\x1b[0m occurred but location info is unavailable, message : ");
        },
    }
    report.append(msg);
}

/// The report of a panic whose place is known names it, whatever the panic's own
/// message: the file, the line and the column in decimal, and that message last, each
/// at its place.
pub proof fn reports_name_the_place(at: PanicLocation, payload: Option<Seq<char>>)
    ensures
        ({
            let report = panic_report(Some(at), payload);
            let opening = "\x1b[31mPanic\x1b[0m occurred in file \x1b[31m'"@;
            let to_line = "'\x1b[0m at line \x1b[31m"@;
            let to_column = "\x1b[0m, at character \x1b[31m"@;
            let to_message = "\x1b[0m, message : "@;
            let a = opening.len() as int;
            let b = a + at.file@.len();
            let c = b + to_line.len();
            let d = c + decimal(at.line as nat).len();
            let e = d + to_column.len();
            let f = e + decimal(at.column as nat).len();
            let g = f + to_message.len();
            &&& report.subrange(0, a) == opening
            &&& report.subrange(a, b) == at.file@
            &&& report.subrange(b, c) == to_line
            &&& report.subrange(c, d) == decimal(at.line as nat)
            &&& report.subrange(d, e) == to_column
            &&& report.subrange(e, f) == decimal(at.column as nat)
            &&& report.subrange(f, g) == to_message
            &&& payload matches Some(msg) ==> report.skip(g) == msg
            &&& payload is None ==> report.skip(g) == "No panic message was set"@
        }),
{
    let report = panic_report(Some(at), payload);
    let opening = "\x1b[31mPanic\x1b[0m occurred in file \x1b[31m'"@;
    let to_line = "'\x1b[0m at line \x1b[31m"@;
    let to_column = "\x1b[0m, at character \x1b[31m"@;
    let to_message = "\x1b[0m, message : "@;
    let a = opening.len() as int;
    let b = a + at.file@.len();
    let c = b + to_line.len();
    let d = c + decimal(at.line as nat).len();
    let e = d + to_column.len();
    let f = e + decimal(at.column as nat).len();
    let g = f + to_message.len();
    assert(report.subrange(0, a) =~= opening);
    assert(report.subrange(a, b) =~= at.file@);
    assert(report.subrange(b, c) =~= to_line);
    assert(report.subrange(c, d) =~= decimal(at.line as nat));
    assert(report.subrange(d, e) =~= to_column);
    assert(report.subrange(e, f) =~= decimal(at.column as nat));
    assert(report.subrange(f, g) =~= to_message);
    assert(report.skip(g) =~= panic_message(payload));
}

/// The report of a panic whose place is not known says so, and gives the panic's own
/// message last.
pub proof fn reports_admit_a_missing_place(payload: Option<Seq<char>>)
    ensures
        ({
            let report = panic_report(None, payload);
            let opening =
                "\x1b[31mPanic\x1b[0m occurred but location info is unavailable, message : "@;
            let a = opening.len() as int;
            &&& report.subrange(0, a) == opening
            &&& payload matches Some(msg) ==> report.skip(a) == msg
            &&& payload is None ==> report.skip(a) == "No panic message was set"@
        }),
{
    let report = panic_report(None, payload);
    let opening = "\x1b[31mPanic\x1b[0m occurred but location info is unavailable, message : "@;
    let a = opening.len() as int;
    assert(report.subrange(0, a) =~= opening);
    assert(report.skip(a) =~= panic_message(payload));
}

/// Where two texts end in digits after something else, the digits are the same if the
/// texts are.
proof fn digits_end_the_same(
    front1: Seq<char>,
    digits1: Seq<char>,
    front2: Seq<char>,
    digits2: Seq<char>,
)
    requires
        front1 + digits1 == front2 + digits2,
        front1.len() > 0,
        front2.len() > 0,
        front1.last() == 'm',
        front2.last() == 'm',
        forall|i: int| 0 <= i < digits1.len() ==> '0' <= #[trigger] digits1[i] <= '9',
        forall|i: int| 0 <= i < digits2.len() ==> '0' <= #[trigger] digits2[i] <= '9',
    ensures
        front1 == front2,
        digits1 == digits2,
{
    let all1 = front1 + digits1;
    let all2 = front2 + digits2;
    let n1 = front1.len() as int;
    let n2 = front2.len() as int;
    assert(all1.len() == n1 + digits1.len());
    assert(all2.len() == n2 + digits2.len());
    if n1 < n2 {
        assert(all2[n2 - 1] == 'm');
        assert(all1[n2 - 1] == digits1[n2 - 1 - n1]);
    } else if n2 < n1 {
        assert(all1[n1 - 1] == 'm');
        assert(all2[n1 - 1] == digits2[n1 - 1 - n2]);
    }
    assert(front1 =~= all1.take(n1));
    assert(front2 =~= all2.take(n2));
    assert(digits1 =~= all1.skip(n1));
    assert(digits2 =~= all2.skip(n2));
}

/// A report tells the place of its panic: for one message, no two places have the
/// same report, and none has the report of a panic whose place is not known.
pub proof fn reports_tell_places_apart(
    a: PanicLocation,
    b: PanicLocation,
    payload: Option<Seq<char>>,
    other: Option<Seq<char>>,
)
    ensures
        panic_report(Some(a), payload) == panic_report(Some(b), payload) ==> a.file@ == b.file@
            && a.line == b.line && a.column == b.column,
        panic_report(Some(a), payload) != panic_report(None, other),
{
    let opening = "\x1b[31mPanic\x1b[0m occurred in file \x1b[31m'"@;
    let to_line = "'\x1b[0m at line \x1b[31m"@;
    let to_column = "\x1b[0m, at character \x1b[31m"@;
    let to_message = "\x1b[0m, message : "@;
    let unknown = "\x1b[31mPanic\x1b[0m occurred but location info is unavailable, message : "@;
    reveal_strlit("\x1b[31mPanic\x1b[0m occurred in file \x1b[31m'");
    reveal_strlit("'\x1b[0m at line \x1b[31m");
    reveal_strlit("\x1b[0m, at character \x1b[31m");
    reveal_strlit("\x1b[31mPanic\x1b[0m occurred but location info is unavailable, message : ");
    assert(panic_report(Some(a), payload)[24] == opening[24]);
    assert(panic_report(None, other)[24] == unknown[24]);
    assert(opening[24] == 'i' && unknown[24] == 'b');
    if panic_report(Some(a), payload) == panic_report(Some(b), payload) {
        let line_a = opening + a.file@ + to_line;
        let line_b = opening + b.file@ + to_line;
        let column_a = line_a + decimal(a.line as nat) + to_column;
        let column_b = line_b + decimal(b.line as nat) + to_column;
        let place_a = column_a + decimal(a.column as nat);
        let place_b = column_b + decimal(b.column as nat);
        let rest = to_message + panic_message(payload);
        assert(panic_report(Some(a), payload) =~= place_a + rest);
        assert(panic_report(Some(b), payload) =~= place_b + rest);
        let whole = place_a + rest;
        assert(place_a =~= whole.take(whole.len() - rest.len()));
        assert(place_b =~= whole.take(whole.len() - rest.len()));
        decimals_hold_digits(a.line as nat);
        decimals_hold_digits(b.line as nat);
        decimals_hold_digits(a.column as nat);
        decimals_hold_digits(b.column as nat);
        digits_end_the_same(
            column_a,
            decimal(a.column as nat),
            column_b,
            decimal(b.column as nat),
        );
        decimals_tell_numbers_apart(a.column as nat, b.column as nat);
        let k = column_a.len() - to_column.len();
        assert(line_a + decimal(a.line as nat) =~= column_a.take(k));
        assert(line_b + decimal(b.line as nat) =~= column_b.take(k));
        digits_end_the_same(line_a, decimal(a.line as nat), line_b, decimal(b.line as nat));
        decimals_tell_numbers_apart(a.line as nat, b.line as nat);
        let n = opening.len() as int;
        let m = line_a.len() - to_line.len();
        assert(a.file@ =~= line_a.subrange(n, m));
        assert(b.file@ =~= line_b.subrange(n, m));
    }
}

} // verus!
