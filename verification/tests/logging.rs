use f_log::{
    flush_global, flush_local, global_log_with_level, init_global, init_global_with_config,
    init_local, init_local_with_config, local_log_with_level, on_panic, FLog, GlobalLogHelper,
    Interval, LogLevel, LogMsg, LoggerCommand, LoggerConfig, Output, PanicLocation, Phase,
    StringPool, Writer, WriterSetup,
};
use std::time::Instant;

fn config(batch: usize, bytes: usize, messages: usize, nanos: u128) -> LoggerConfig {
    LoggerConfig {
        buffer_size: 1024,
        batch_size: batch,
        flush_threshold: bytes,
        flush_batch_threshold: messages,
        flush_interval: Interval { nanos },
    }
}

/// A tuning under which nothing but a full batch makes a writer write.
fn patient(batch: usize) -> LoggerConfig {
    config(batch, usize::MAX, usize::MAX, u128::MAX)
}

fn writer(config: LoggerConfig) -> Writer {
    Writer::new(FLog::with_config(config).1)
}

fn msg(text: &str) -> Option<LoggerCommand> {
    Some(LoggerCommand::Msg(LogMsg { level: LogLevel::Info, msg: text.to_string() }))
}

/// What follows the stamp in each line.
fn unstamped(text: &str) -> Vec<String> {
    text.lines().map(|line| line[19..].to_string()).collect()
}

fn info_lines(texts: &[&str]) -> Vec<String> {
    texts.iter().map(|text| format!(" [\u{1b}[32mINFO\u{1b}[0m] {}", text)).collect()
}

fn assert_nothing(output: Output) {
    assert!(output.text.is_none());
    assert!(!output.flush);
}

/// Gives a writer a command, and word of the flush that it asks for.
fn give(w: &mut Writer, command: Option<LoggerCommand>) -> Output {
    let output = w.accept(command);
    if output.flush {
        w.flush_done();
    }
    output
}

/// Lets a writer settle, and gives it word of the flush that it asks for.
fn settle(w: &mut Writer, nanos: u128) -> Output {
    let output = w.settle_after(Interval { nanos });
    if output.flush {
        w.flush_done();
    }
    output
}

/// Runs a writer on its channel until it has stopped.
fn run_to_end(setup: WriterSetup) -> (String, usize) {
    let mut writer = Writer::new(setup);
    let mut printed = String::new();
    let mut flushes = 0;
    while writer.phase() != Phase::Stopped {
        let output = if writer.phase() == Phase::Settling {
            writer.settle()
        } else {
            writer.fetch();
            writer.handle()
        };
        if let Some(text) = output.text {
            printed.push_str(&text);
        }
        if output.flush {
            flushes += 1;
            writer.flush_done();
        }
    }
    (printed, flushes)
}

#[test]
fn logged_messages_are_printed_in_order() {
    let (mut logger, setup) = FLog::new();
    logger.trace("a".to_string());
    logger.debug("b".to_string());
    logger.info("c".to_string());
    logger.warn("d".to_string());
    logger.error("e".to_string());
    logger.log(LogLevel::Info, "f".to_string());
    logger.shutdown();
    let (printed, _) = run_to_end(setup);
    assert_eq!(
        unstamped(&printed),
        vec![
            " [TRACE] a",
            " [\u{1b}[34mDEBUG\u{1b}[0m] b",
            " [\u{1b}[32mINFO\u{1b}[0m] c",
            " [\t\u{1b}[33mWARN\u{1b}[0m] d",
            " [\u{1b}[31mERROR\u{1b}[0m] e",
            " [\u{1b}[32mINFO\u{1b}[0m] f",
        ]
    );
}

#[test]
fn messages_after_shutdown_are_dropped() {
    let (mut logger, setup) = FLog::with_config(patient(8));
    logger.info("kept".to_string());
    logger.shutdown();
    logger.info("dropped".to_string());
    logger.flush();
    logger.shutdown();
    let (printed, flushes) = run_to_end(setup);
    assert_eq!(unstamped(&printed), info_lines(&["kept"]));
    assert_eq!(flushes, 2);
}

#[test]
fn dropping_the_logger_ends_the_writer() {
    let (mut logger, setup) = FLog::with_config(patient(8));
    logger.info("a".to_string());
    logger.info("b".to_string());
    drop(logger);
    let (printed, flushes) = run_to_end(setup);
    assert_eq!(unstamped(&printed), info_lines(&["a", "b"]));
    assert_eq!(flushes, 1);
}

#[test]
fn logging_to_a_writer_that_is_gone_is_harmless() {
    let (mut logger, setup) = FLog::new();
    drop(setup);
    logger.info("a".to_string());
    logger.flush();
    logger.shutdown();
}

#[test]
fn many_messages_all_come_out() {
    for tuning in [
        LoggerConfig::default(),
        LoggerConfig::low_latency(),
        LoggerConfig::high_throughput(),
        patient(0),
        patient(1),
        patient(7),
    ] {
        let (mut logger, setup) = FLog::with_config(tuning);
        let texts: Vec<String> = (0..1500).map(|i| format!("message {}", i)).collect();
        for text in &texts {
            logger.info(text.clone());
        }
        logger.shutdown();
        let (printed, _) = run_to_end(setup);
        let expected: Vec<&str> = texts.iter().map(|text| text.as_str()).collect();
        assert_eq!(unstamped(&printed), info_lines(&expected));
    }
}

#[test]
fn idle_writer_flushes_on_request() {
    let mut w = writer(patient(4));
    let output = give(&mut w, Some(LoggerCommand::Flush));
    assert!(output.text.is_none());
    assert!(output.flush);
    assert_eq!(w.phase(), Phase::Idle);
}

#[test]
fn gathering_goes_on_until_nothing_is_there() {
    let mut w = writer(patient(4));
    assert_eq!(w.phase(), Phase::Idle);
    assert_nothing(give(&mut w, msg("a")));
    assert_eq!(w.phase(), Phase::Gathering);
    assert_nothing(give(&mut w, msg("b")));
    assert_eq!(w.phase(), Phase::Gathering);
    assert_nothing(give(&mut w, None));
    assert_eq!(w.phase(), Phase::Settling);
    assert_nothing(settle(&mut w, u128::MAX - 1));
    assert_eq!(w.phase(), Phase::Idle);
    let output = give(&mut w, Some(LoggerCommand::Flush));
    assert_eq!(unstamped(&output.text.unwrap()), info_lines(&["a", "b"]));
    assert!(output.flush);
}

#[test]
fn flush_while_gathering_goes_on_gathering() {
    let mut w = writer(patient(4));
    give(&mut w, msg("a"));
    let output = give(&mut w, Some(LoggerCommand::Flush));
    assert_eq!(unstamped(&output.text.unwrap()), info_lines(&["a"]));
    assert!(output.flush);
    assert_eq!(w.phase(), Phase::Gathering);
    assert_nothing(give(&mut w, msg("b")));
    assert_eq!(w.phase(), Phase::Gathering);
}

#[test]
fn full_batch_is_written_without_a_flush() {
    let mut w = writer(patient(2));
    give(&mut w, msg("a"));
    give(&mut w, msg("b"));
    assert_eq!(w.phase(), Phase::Settling);
    let output = settle(&mut w, 0);
    assert_eq!(unstamped(&output.text.unwrap()), info_lines(&["a", "b"]));
    assert!(!output.flush);
}

#[test]
fn batch_size_of_nothing_writes_each_message() {
    let mut w = writer(patient(0));
    give(&mut w, msg("a"));
    assert_eq!(w.phase(), Phase::Settling);
    let output = settle(&mut w, 0);
    assert_eq!(unstamped(&output.text.unwrap()), info_lines(&["a"]));
    assert!(!output.flush);
}

#[test]
fn no_more_messages_wait_than_a_batch_takes() {
    let mut w = writer(patient(3));
    for round in 0..4 {
        assert_eq!(w.phase(), Phase::Idle);
        give(&mut w, msg("a"));
        give(&mut w, msg("b"));
        assert_eq!(w.phase(), Phase::Gathering);
        give(&mut w, msg(&round.to_string()));
        assert_eq!(w.phase(), Phase::Settling);
        let output = settle(&mut w, 0);
        assert_eq!(output.text.unwrap().lines().count(), 3);
    }
}

#[test]
fn waiting_messages_bring_a_flush() {
    let mut w = writer(config(8, usize::MAX, 2, u128::MAX));
    give(&mut w, msg("a"));
    give(&mut w, None);
    assert_nothing(settle(&mut w, 0));
    give(&mut w, msg("b"));
    give(&mut w, None);
    let output = settle(&mut w, 0);
    assert_eq!(unstamped(&output.text.unwrap()), info_lines(&["a", "b"]));
    assert!(output.flush);
}

#[test]
fn time_brings_a_flush() {
    let mut w = writer(config(8, usize::MAX, usize::MAX, 100));
    give(&mut w, msg("a"));
    give(&mut w, None);
    assert_nothing(settle(&mut w, 99));
    give(&mut w, msg("b"));
    give(&mut w, None);
    let output = settle(&mut w, 100);
    assert_eq!(unstamped(&output.text.unwrap()), info_lines(&["a", "b"]));
    assert!(output.flush);
}

/// The bytes of a line without its text: stamp, " [", tag, "] " and line break.
const FRAME: usize = 19 + 2 + 13 + 2 + 1;

#[test]
fn written_bytes_bring_a_flush() {
    for (threshold, flushed) in [(2 * FRAME + 8, true), (2 * FRAME + 9, false)] {
        let mut w = writer(config(1, threshold, usize::MAX, u128::MAX));
        give(&mut w, msg("\u{e9}\u{e9}"));
        let first = settle(&mut w, 0);
        assert_eq!(first.text.unwrap().len(), FRAME + 4);
        assert!(!first.flush);
        give(&mut w, msg("next"));
        let second = settle(&mut w, 0);
        assert_eq!(unstamped(&second.text.unwrap()), info_lines(&["next"]));
        assert_eq!(second.flush, flushed);
    }
}

#[test]
fn waiting_bytes_bring_a_flush() {
    for (threshold, flushed) in [(2 * FRAME + 10, true), (2 * FRAME + 11, false)] {
        let mut w = writer(config(8, threshold, usize::MAX, u128::MAX));
        give(&mut w, msg("four"));
        give(&mut w, None);
        assert_nothing(settle(&mut w, 0));
        give(&mut w, msg("\u{e9}\u{e9}\u{e9}"));
        give(&mut w, None);
        let output = settle(&mut w, 0);
        assert_eq!(output.flush, flushed);
        assert_eq!(output.text.map(|text| text.len()), flushed.then_some(2 * FRAME + 10));
    }
}

#[test]
fn time_is_counted_from_the_last_flush() {
    let mut w = writer(config(8, usize::MAX, usize::MAX, 200_000_000));
    give(&mut w, msg("a"));
    give(&mut w, None);
    assert_nothing(w.settle());
    let start = Instant::now();
    while start.elapsed().as_millis() < 210 {}
    give(&mut w, msg("b"));
    give(&mut w, None);
    let output = w.settle();
    assert_eq!(unstamped(&output.text.unwrap()), info_lines(&["a", "b"]));
    assert!(output.flush);
    w.flush_done();
    give(&mut w, msg("c"));
    give(&mut w, None);
    assert_nothing(w.settle());
}

#[test]
fn large_message_is_flushed_at_once() {
    let mut w = writer(LoggerConfig::default());
    let text = "x".repeat(40960);
    give(&mut w, msg(&text));
    give(&mut w, None);
    let output = settle(&mut w, 0);
    assert_eq!(unstamped(&output.text.unwrap()), info_lines(&[&text]));
    assert!(output.flush);
    assert_eq!(w.phase(), Phase::Idle);
}

#[test]
fn flush_restarts_the_byte_count() {
    let mut w = writer(config(1, 2 * FRAME + 2, usize::MAX, u128::MAX));
    give(&mut w, msg("a"));
    assert!(!settle(&mut w, 0).flush);
    assert!(give(&mut w, Some(LoggerCommand::Flush)).flush);
    give(&mut w, msg("b"));
    assert!(!settle(&mut w, 0).flush);
    give(&mut w, msg("c"));
    assert!(settle(&mut w, 0).flush);
}

#[test]
fn settling_with_nothing_waiting_only_flushes() {
    let mut w = writer(config(4, 0, usize::MAX, u128::MAX));
    give(&mut w, msg("a"));
    give(&mut w, Some(LoggerCommand::Flush));
    give(&mut w, None);
    let output = settle(&mut w, 0);
    assert!(output.text.is_none());
    assert!(output.flush);
}

#[test]
fn shutdown_drains_the_channel() {
    let mut w = writer(patient(4));
    give(&mut w, msg("a"));
    let output = give(&mut w, Some(LoggerCommand::Shutdown));
    assert_eq!(unstamped(&output.text.unwrap()), info_lines(&["a"]));
    assert!(output.flush);
    assert_eq!(w.phase(), Phase::Draining);
    assert_nothing(give(&mut w, msg("b")));
    assert_nothing(give(&mut w, Some(LoggerCommand::Flush)));
    assert_nothing(give(&mut w, Some(LoggerCommand::Shutdown)));
    assert_nothing(give(&mut w, msg("c")));
    assert_eq!(w.phase(), Phase::Draining);
    let output = give(&mut w, None);
    assert_eq!(unstamped(&output.text.unwrap()), info_lines(&["b", "c"]));
    assert!(output.flush);
    assert_eq!(w.phase(), Phase::Stopped);
}

#[test]
fn shutdown_of_an_idle_writer() {
    let mut w = writer(patient(4));
    let output = give(&mut w, Some(LoggerCommand::Shutdown));
    assert!(output.text.is_none());
    assert!(output.flush);
    let output = give(&mut w, None);
    assert_eq!(output.text, Some(String::new()));
    assert!(output.flush);
    assert_eq!(w.phase(), Phase::Stopped);
}

#[test]
fn cut_off_writer_finishes() {
    let mut w = writer(patient(4));
    give(&mut w, msg("a"));
    give(&mut w, None);
    assert_nothing(settle(&mut w, 0));
    let output = give(&mut w, None);
    assert_eq!(unstamped(&output.text.unwrap()), info_lines(&["a"]));
    assert!(output.flush);
    assert_eq!(w.phase(), Phase::Stopped);
}

#[test]
fn written_strings_go_back_to_the_pool() {
    let mut pool = StringPool::new();
    for _ in 0..1000 {
        pool.get();
    }
    let mut w = writer(patient(4));
    let mut text = String::with_capacity(3000);
    text.push_str("large");
    let queued = give(
        &mut w,
        Some(LoggerCommand::Msg(LogMsg { level: LogLevel::Info, msg: text })),
    );
    assert!(queued.spent.is_empty());
    let output = give(&mut w, Some(LoggerCommand::Flush));
    assert_eq!(output.spent, vec!["large"]);
    pool.put_all(output.spent);
    let spare = pool.get();
    assert_eq!(spare, "");
    assert!(spare.capacity() >= 3000);
    assert!(pool.get().capacity() < 3000);
}

#[test]
fn strings_are_given_back_when_they_were_used() {
    let mut w = writer(config(8, usize::MAX, 2, u128::MAX));
    give(&mut w, msg("a"));
    give(&mut w, None);
    assert!(settle(&mut w, 0).spent.is_empty());
    give(&mut w, msg("b"));
    give(&mut w, None);
    assert_eq!(settle(&mut w, 0).spent, vec!["a", "b"]);
    give(&mut w, Some(LoggerCommand::Shutdown));
    assert_eq!(give(&mut w, msg("c")).spent, vec!["c"]);
    assert!(give(&mut w, None).spent.is_empty());
}

#[test]
fn receiving_takes_what_was_sent() {
    let (mut logger, setup) = FLog::with_config(patient(4));
    let mut w = Writer::new(setup);
    logger.info("a".to_string());
    logger.flush();
    let first = w.receive();
    assert!(matches!(&first, Some(LoggerCommand::Msg(m)) if m.msg == "a"));
    give(&mut w, first);
    assert!(matches!(w.receive(), Some(LoggerCommand::Flush)));
    assert!(w.receive().is_none());
}

#[test]
fn fetched_commands_are_handled() {
    let (mut logger, setup) = FLog::with_config(patient(4));
    let mut w = Writer::new(setup);
    logger.info("a".to_string());
    logger.flush();
    w.fetch();
    assert_nothing(w.handle());
    w.fetch();
    let output = w.handle();
    assert_eq!(unstamped(&output.text.unwrap()), info_lines(&["a"]));
    assert!(output.flush);
    w.flush_done();
    w.fetch();
    assert_nothing(w.handle());
    assert_eq!(w.phase(), Phase::Settling);
}

#[test]
fn shutting_down_hangs_up() {
    let (mut logger, setup) = FLog::with_config(patient(4));
    let mut w = Writer::new(setup);
    logger.shutdown();
    assert!(matches!(w.receive(), Some(LoggerCommand::Shutdown)));
    assert!(w.receive().is_none());
}

#[test]
fn panic_flushes_and_reports() {
    let mut pool = StringPool::new();
    let mut global = None;
    let mut local = None;
    let at = PanicLocation { file: String::from("a.rs"), line: 7, column: 9 };
    on_panic(&mut global, &mut local, &None, None, &mut pool);
    assert!(global.is_none() && local.is_none());
    let g = init_global_with_config(&mut global, patient(8));
    let l = init_local_with_config(&mut local, patient(8));
    local_log_with_level(&mut local, LogLevel::Info, "before".to_string());
    on_panic(&mut global, &mut local, &Some(at), Some("boom"), &mut pool);
    let report = " [\u{1b}[31mERROR\u{1b}[0m] \u{1b}[31mPanic\u{1b}[0m occurred in file \
                  \u{1b}[31m'a.rs'\u{1b}[0m at line \u{1b}[31m7\u{1b}[0m, at character \
                  \u{1b}[31m9\u{1b}[0m, message : boom";
    drop(global);
    let (printed, flushes) = run_to_end(g.setup);
    assert_eq!(unstamped(&printed), vec![report]);
    assert_eq!(flushes, 2);
    let mut w = Writer::new(l.setup);
    let first = w.receive();
    give(&mut w, first);
    assert!(matches!(w.receive(), Some(LoggerCommand::Flush)));
    assert!(matches!(w.receive(), Some(LoggerCommand::Msg(m)) if m.msg.ends_with("boom")));
}

#[test]
fn panic_with_a_local_logger_alone() {
    let mut pool = StringPool::new();
    let mut global = None;
    let mut local = None;
    let l = init_local_with_config(&mut local, patient(8));
    on_panic(&mut global, &mut local, &None, None, &mut pool);
    assert!(global.is_none());
    drop(local);
    let (printed, _) = run_to_end(l.setup);
    assert!(printed.ends_with("message : No panic message was set\n"));
}

#[test]
fn panic_reports_use_strings_of_the_pool() {
    let mut pool = StringPool::new();
    for _ in 0..1000 {
        pool.get();
    }
    for _ in 0..3 {
        pool.put(String::with_capacity(5000));
    }
    let mut global = None;
    let mut local = None;
    let g = init_global_with_config(&mut global, patient(8));
    let _l = init_local_with_config(&mut local, patient(8));
    on_panic(&mut global, &mut local, &None, Some("boom"), &mut pool);
    let mut w = Writer::new(g.setup);
    assert!(matches!(w.receive(), Some(LoggerCommand::Flush)));
    assert!(matches!(w.receive(), Some(LoggerCommand::Msg(m)) if m.msg.capacity() >= 5000));
    assert!(pool.get().capacity() >= 5000);
    assert!(pool.get().capacity() < 5000);
}

#[test]
fn flush_of_a_live_logger_brings_out_what_was_logged() {
    let mut slot = None;
    let started = init_global_with_config(&mut slot, patient(8));
    let mut w = Writer::new(started.setup);
    global_log_with_level(&mut slot, LogLevel::Info, "a".to_string());
    global_log_with_level(&mut slot, LogLevel::Info, "b".to_string());
    flush_global(&mut slot);
    let mut printed = String::new();
    let mut flushed = false;
    for _ in 0..3 {
        w.fetch();
        let output = w.handle();
        printed.push_str(&output.text.unwrap_or_default());
        if output.flush {
            flushed = true;
            w.flush_done();
        }
    }
    assert_eq!(unstamped(&printed), info_lines(&["a", "b"]));
    assert!(flushed);
    global_log_with_level(&mut slot, LogLevel::Info, "c".to_string());
    w.fetch();
    assert_nothing(w.handle());
    w.fetch();
    assert_nothing(w.handle());
    assert_eq!(w.phase(), Phase::Settling);
    assert_nothing(settle(&mut w, 0));
    flush_global(&mut slot);
    w.fetch();
    let output = w.handle();
    assert_eq!(unstamped(&output.text.unwrap()), info_lines(&["c"]));
    assert!(output.flush);
}

#[test]
fn local_scope() {
    let mut slot = None;
    local_log_with_level(&mut slot, LogLevel::Info, "lost".to_string());
    flush_local(&mut slot);
    assert!(slot.is_none());
    let first = init_local(&mut slot);
    assert!(first.replaced.is_none());
    assert_eq!(first.setup.config.batch_size, 512);
    local_log_with_level(&mut slot, LogLevel::Info, "one".to_string());
    flush_local(&mut slot);
    let second = init_local_with_config(&mut slot, LoggerConfig::low_latency());
    assert!(second.replaced.is_some());
    assert_eq!(second.setup.config.batch_size, 64);
    local_log_with_level(&mut slot, LogLevel::Info, "two".to_string());
    drop(slot);
    let (printed, _) = run_to_end(first.setup);
    assert_eq!(unstamped(&printed), info_lines(&["one"]));
    let (printed, _) = run_to_end(second.setup);
    assert_eq!(unstamped(&printed), info_lines(&["two"]));
}

#[test]
fn global_scope() {
    let mut slot = None;
    let first = init_global(&mut slot);
    assert_eq!(first.setup.config.batch_size, 512);
    let started = init_global_with_config(&mut slot, LoggerConfig::high_throughput());
    assert!(started.replaced.is_some());
    assert_eq!(started.setup.config.batch_size, 1024);
    global_log_with_level(&mut slot, LogLevel::Info, "one".to_string());
    flush_global(&mut slot);
    global_log_with_level(&mut slot, LogLevel::Info, "two".to_string());
    let helper = GlobalLogHelper {};
    assert!(helper.release(&mut slot).is_some());
    assert!(slot.is_none());
    assert!(helper.release(&mut slot).is_none());
    let (printed, flushes) = run_to_end(started.setup);
    assert_eq!(unstamped(&printed), info_lines(&["one", "two"]));
    assert_eq!(flushes, 3);
    let (printed, _) = run_to_end(first.setup);
    assert_eq!(printed, "");
}
