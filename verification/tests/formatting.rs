use f_log::{
    append_decimal, append_line, report_panic, stamp_text, Clock, Interval, LocalTime, LogLevel,
    LogMsg, PanicLocation, Stamp,
};
use std::time::Instant;

fn time(year: i32, month: u32, day: u32, hour: u32, minute: u32, second: u32) -> LocalTime {
    LocalTime { year, month, day, hour, minute, second }
}

#[test]
fn tags_of_all_levels() {
    assert_eq!(LogLevel::Trace.as_str(), "TRACE");
    assert_eq!(LogLevel::Debug.as_str(), "\u{1b}[34mDEBUG\u{1b}[0m");
    assert_eq!(LogLevel::Info.as_str(), "\u{1b}[32mINFO\u{1b}[0m");
    assert_eq!(LogLevel::Warn.as_str(), "\t\u{1b}[33mWARN\u{1b}[0m");
    assert_eq!(LogLevel::Error.as_str(), "\u{1b}[31mERROR\u{1b}[0m");
}

#[test]
fn tags_differ() {
    let tags = [
        LogLevel::Trace.as_str(),
        LogLevel::Debug.as_str(),
        LogLevel::Info.as_str(),
        LogLevel::Warn.as_str(),
        LogLevel::Error.as_str(),
    ];
    for i in 0..tags.len() {
        for j in 0..i {
            assert_ne!(tags[i], tags[j]);
        }
    }
}

#[test]
fn levels_are_numbered_by_severity() {
    assert_eq!(LogLevel::Trace as u8, 0);
    assert_eq!(LogLevel::Debug as u8, 1);
    assert_eq!(LogLevel::Info as u8, 2);
    assert_eq!(LogLevel::Warn as u8, 3);
    assert_eq!(LogLevel::Error as u8, 4);
}

#[test]
fn numbers_in_decimal() {
    let mut text = String::from("n=");
    append_decimal(&mut text, 0);
    text.push(',');
    append_decimal(&mut text, 7);
    text.push(',');
    append_decimal(&mut text, 1050);
    text.push(',');
    append_decimal(&mut text, u32::MAX);
    assert_eq!(text, "n=0,7,1050,4294967295");
}

#[test]
fn stamp_pads_with_zeros() {
    assert_eq!(stamp_text(&time(2024, 2, 29, 3, 4, 5)), "2024-02-29 03:04:05");
    assert_eq!(stamp_text(&time(1999, 12, 31, 23, 59, 59)), "1999-12-31 23:59:59");
    assert_eq!(stamp_text(&time(7, 1, 1, 0, 0, 0)), "0007-01-01 00:00:00");
    assert_eq!(stamp_text(&time(0, 10, 11, 12, 13, 14)), "0000-10-11 12:13:14");
    assert_eq!(stamp_text(&time(9999, 1, 1, 0, 0, 0)), "9999-01-01 00:00:00");
}

#[test]
fn stamp_signs_far_years() {
    assert_eq!(stamp_text(&time(10000, 1, 1, 0, 0, 0)), "+10000-01-01 00:00:00");
    assert_eq!(stamp_text(&time(-1, 1, 1, 0, 0, 0)), "-0001-01-01 00:00:00");
    assert_eq!(stamp_text(&time(262142, 12, 31, 0, 0, 0)), "+262142-12-31 00:00:00");
    assert_eq!(stamp_text(&time(-262143, 1, 1, 0, 0, 0)), "-262143-01-01 00:00:00");
}

#[test]
fn stamp_takes_every_day_of_the_calendar() {
    let lengths = [31, 28, 31, 30, 31, 30, 31, 31, 30, 31, 30, 31];
    for month in 1..=12u32 {
        let day = lengths[month as usize - 1];
        let text = stamp_text(&time(1900, month, day, 0, 0, 0));
        assert_eq!(text, format!("1900-{:02}-{:02} 00:00:00", month, day));
    }
    assert_eq!(stamp_text(&time(2000, 2, 29, 0, 0, 0)), "2000-02-29 00:00:00");
    assert_eq!(stamp_text(&time(-4, 2, 29, 0, 0, 0)), "-0004-02-29 00:00:00");
}

#[test]
fn stamp_goes_stale_after_a_second() {
    assert!(!Stamp::is_stale(Interval { nanos: 0 }));
    assert!(!Stamp::is_stale(Interval { nanos: 999_999_999 }));
    assert!(Stamp::is_stale(Interval { nanos: 1_000_000_000 }));
    assert!(Stamp::is_stale(Interval::from_millis(1500)));
}

#[test]
fn spans_since_others() {
    let short = Interval { nanos: 300 };
    let long = Interval { nanos: 1000 };
    assert_eq!(long.since(&short).nanos, 700);
    assert_eq!(short.since(&long).nanos, 0);
    assert_eq!(long.since(&long).nanos, 0);
}

#[test]
fn stamp_reads_the_clock() {
    let before = chrono::Local::now().format("%Y-%m-%d %H:%M:%S").to_string();
    let stamp = Stamp::new(&mut Clock::new());
    let after = chrono::Local::now().format("%Y-%m-%d %H:%M:%S").to_string();
    assert_eq!(stamp.as_str().len(), 19);
    assert!(before.as_str() <= stamp.as_str() && stamp.as_str() <= after.as_str());
}

#[test]
fn fresh_stamp_is_kept() {
    let mut clock = Clock::new();
    let mut stamp = Stamp::new(&mut clock);
    stamp.set(&time(2001, 2, 3, 4, 5, 6), Interval { nanos: 0 });
    assert_eq!(stamp.as_str(), "2001-02-03 04:05:06");
    stamp.refresh(&mut clock);
    assert_eq!(stamp.as_str(), "2001-02-03 04:05:06");
}

#[test]
fn stamp_follows_the_readings() {
    let mut stamp = Stamp::new(&mut Clock::new());
    let second = |nanos: u128| Interval { nanos: 5_000_000_000 + nanos };
    stamp.set(&time(2001, 2, 3, 4, 5, 6), second(0));
    stamp.refresh_from(second(999_999_999), &time(2001, 2, 3, 4, 5, 7), second(999_999_999));
    assert_eq!(stamp.as_str(), "2001-02-03 04:05:06");
    stamp.refresh_from(second(1_000_000_000), &time(2001, 2, 3, 4, 5, 7), second(1_000_000_500));
    assert_eq!(stamp.as_str(), "2001-02-03 04:05:07");
    stamp.refresh_from(second(2_000_000_499), &time(2001, 2, 3, 4, 5, 8), second(2_000_000_499));
    assert_eq!(stamp.as_str(), "2001-02-03 04:05:07");
    stamp.refresh_from(second(2_000_000_500), &time(2001, 2, 3, 4, 5, 8), second(2_000_000_600));
    assert_eq!(stamp.as_str(), "2001-02-03 04:05:08");
    stamp.refresh_from(Interval { nanos: 0 }, &time(2001, 2, 3, 4, 5, 9), Interval { nanos: 0 });
    assert_eq!(stamp.as_str(), "2001-02-03 04:05:08");
}

#[test]
fn steady_use_does_not_keep_a_stamp_fresh() {
    let mut clock = Clock::new();
    let mut stamp = Stamp::new(&mut clock);
    stamp.set(&time(2001, 2, 3, 4, 5, 6), Interval { nanos: 0 });
    let start = Instant::now();
    while start.elapsed().as_millis() < 1050 {
        stamp.refresh(&mut clock);
    }
    assert_ne!(stamp.as_str(), "2001-02-03 04:05:06");
}

#[test]
fn stale_stamp_is_read_anew() {
    let mut clock = Clock::new();
    let mut stamp = Stamp::new(&mut clock);
    stamp.set(&time(2001, 2, 3, 4, 5, 6), Interval { nanos: 0 });
    let start = Instant::now();
    while start.elapsed().as_millis() < 1050 {}
    stamp.refresh(&mut clock);
    let now = chrono::Local::now().format("%Y-%m-%d %H:%M:%S").to_string();
    assert!("2001-02-03 04:05:06" < stamp.as_str() && stamp.as_str() <= now.as_str());
    assert_eq!(stamp.as_str().len(), 19);
}

#[test]
fn line_layout() {
    let mut buf = String::from("before\n");
    let log = LogMsg { level: LogLevel::Warn, msg: String::from("disk at 91 %") };
    append_line(&mut buf, "2024-05-06 07:08:09", &log);
    assert_eq!(
        buf,
        "before\n2024-05-06 07:08:09 [\t\u{1b}[33mWARN\u{1b}[0m] disk at 91 %\n"
    );
}

#[test]
fn lines_follow_each_other() {
    let mut buf = String::new();
    let a = LogMsg { level: LogLevel::Trace, msg: String::from("a") };
    let b = LogMsg { level: LogLevel::Error, msg: String::from("b") };
    append_line(&mut buf, "s1", &a);
    append_line(&mut buf, "s2", &b);
    assert_eq!(buf, "s1 [TRACE] a\ns2 [\u{1b}[31mERROR\u{1b}[0m] b\n");
}

fn report(location: &Option<PanicLocation>, payload: Option<&str>) -> String {
    let mut text = String::from("> ");
    report_panic(&mut text, location, payload);
    text
}

#[test]
fn panic_report_with_location() {
    let at = PanicLocation { file: String::from("src/main.rs"), line: 42, column: 5 };
    assert_eq!(
        report(&Some(at), Some("boom")),
        "> \u{1b}[31mPanic\u{1b}[0m occurred in file \u{1b}[31m'src/main.rs'\u{1b}[0m at line \
         \u{1b}[31m42\u{1b}[0m, at character \u{1b}[31m5\u{1b}[0m, message : boom"
    );
}

#[test]
fn panic_report_without_location_or_message() {
    assert_eq!(
        report(&None, None),
        "> \u{1b}[31mPanic\u{1b}[0m occurred but location info is unavailable, message : \
         No panic message was set"
    );
    assert_eq!(
        report(&None, Some("")),
        "> \u{1b}[31mPanic\u{1b}[0m occurred but location info is unavailable, message : "
    );
}
