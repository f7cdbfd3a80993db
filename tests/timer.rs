use chrono::{DateTime, NaiveDateTime, TimeDelta, Utc};
use sleep_timer::commands::{
    interval_line, start_reply, stats_report, stop_reply, total_line, HelpCommandHandler,
    NewChatMemberHandler, StartCommandHandler, StatsCommandHandler, StopCommandHandler,
};
use sleep_timer::interval::{SleepDuration, SleepInterval};
use sleep_timer::registry::{ConversationTimer, StartOutcome, TimerRegistry};
use sleep_timer::text::{format_instant, instant_text_of, push_decimal, push_hours_minutes, push_signed_decimal};

const MINUTE: i64 = 60_000;

fn millis(input: &str) -> i64 {
    let naive = NaiveDateTime::parse_from_str(input, "%d.%m.%Y %H:%M:%S").unwrap();
    let datetime: DateTime<Utc> = DateTime::from_naive_utc_and_offset(naive, Utc);
    datetime.timestamp_millis()
}

fn closed(started_at: i64, stopped_at: i64) -> SleepDuration {
    SleepDuration { started_at, stopped_at: Some(stopped_at) }
}

fn open(started_at: i64) -> SleepDuration {
    SleepDuration { started_at, stopped_at: None }
}

#[test]
fn start_command_handler_tst() {
    let input = "30.08.2025 15:45:12";
    let format = "%d.%m.%Y %H:%M:%S";
    let naive = NaiveDateTime::parse_from_str(input, format).unwrap();
    let datetime: DateTime<Utc> = DateTime::from_naive_utc_and_offset(naive, Utc);
    let time = DateTime::from_timestamp_millis(datetime.timestamp_millis()).unwrap();
    println!("Parsed = {}, time = {}", datetime, time);
    assert_eq!(time, datetime);
    assert_eq!(format_instant(datetime.timestamp_millis()), datetime.to_string());
    assert_eq!(format_instant(datetime.timestamp_millis()), "2025-08-30 15:45:12 UTC");
}

#[test]
fn stats_command_handler_tst() {
    let t1 = millis("30.08.2025 15:45:12");
    let t2 = millis("30.08.2025 17:45:12");
    let t3 = millis("30.08.2025 18:20:12");
    let t4 = millis("30.08.2025 19:45:12");

    let delta1 = TimeDelta::milliseconds(t2 - t1);
    let delta2 = TimeDelta::milliseconds(t4 - t3);
    let delta3 = delta1 + delta2;
    println!("{}:{}", delta1.num_hours(), delta1.num_minutes());
    println!("{}:{}", delta2.num_hours(), delta2.num_minutes());
    println!("{}:{}", delta3.num_hours(), delta3.num_minutes());
    assert_eq!(delta3.num_minutes(), 60 * 3 + 25);

    let mut reg = TimerRegistry::new();
    let start = StartCommandHandler::new();
    let stop = StopCommandHandler::new();
    let stats = StatsCommandHandler::new();
    start.handle(&mut reg, 1, t1);
    stop.handle(&mut reg, 1, t2);
    start.handle(&mut reg, 1, t3);
    stop.handle(&mut reg, 1, t4);
    let report = stats.handle(&reg, 1);
    assert_eq!(
        report,
        "\u{1F4CA} Current state:\n\
         Started at 2025-08-30 15:45:12 UTC, Stopped at 2025-08-30 17:45:12 UTC, Time spent 2:0 \n\
         Started at 2025-08-30 18:20:12 UTC, Stopped at 2025-08-30 19:45:12 UTC, Time spent 1:25 \n\
         \nTotal sleep 3:25"
    );
}

#[test]
fn second_start_reports_already_running() {
    let mut reg = TimerRegistry::new();
    let t0 = millis("30.08.2025 15:45:12");
    let mut started = 0;
    let mut already = 0;
    for k in 0..10 {
        match reg.try_start(7, t0 + k * MINUTE) {
            StartOutcome::Started => started += 1,
            StartOutcome::AlreadyRunning(t) => {
                assert_eq!(t, t0);
                already += 1;
            }
        }
    }
    assert_eq!(started, 1);
    assert_eq!(already, 9);
    assert_eq!(reg.snapshot(7), vec![open(t0)]);
    assert!(reg.is_running(7));
}

#[test]
fn start_handler_replies() {
    let mut reg = TimerRegistry::new();
    let h = StartCommandHandler::new();
    let t0 = millis("30.08.2025 15:45:12");
    assert_eq!(h.handle(&mut reg, 3, t0), "Started at 2025-08-30 15:45:12 UTC");
    assert_eq!(
        h.handle(&mut reg, 3, t0 + 5 * MINUTE),
        "Timer already started at 2025-08-30 15:45:12 UTC"
    );
}

#[test]
fn stop_closes_trailing_interval() {
    let mut reg = TimerRegistry::new();
    let t0 = 1_000_000;
    let t1 = t0 + 90 * MINUTE;
    reg.try_start(1, t0);
    reg.stop(1, t1);
    assert_eq!(reg.snapshot(1), vec![closed(t0, t1)]);
    assert!(!reg.is_running(1));
    let line = interval_line(closed(t0, t1), "a", "b");
    assert_eq!(line, "Started at a, Stopped at b, Time spent 1:30 \n");
}

#[test]
fn stop_on_idle_keeps_log() {
    let mut reg = TimerRegistry::new();
    reg.stop(5, 100);
    assert_eq!(reg.snapshot(5), vec![]);
    reg.try_start(5, 200);
    reg.stop(5, 300);
    reg.stop(5, 400);
    assert_eq!(reg.snapshot(5), vec![closed(200, 300)]);
    let h = StopCommandHandler::new();
    assert_eq!(h.handle(&mut reg, 5, 0), "Ends at 1970-01-01 00:00:00 UTC");
    assert_eq!(reg.snapshot(5), vec![closed(200, 300)]);
}

#[test]
fn stats_on_unknown_conversation() {
    let reg = TimerRegistry::new();
    let report = StatsCommandHandler::new().handle(&reg, 42);
    assert_eq!(report, "\u{1F4CA} Current state:\n\nTotal sleep 0:0");
}

#[test]
fn aggregate_of_125_and_35_minutes() {
    let log = vec![closed(0, 125 * MINUTE), closed(200 * MINUTE, 235 * MINUTE)];
    let report = stats_report(&log);
    assert!(report.ends_with("\nTotal sleep 2:40"));
    assert!(report.contains("Time spent 2:5 \n"));
    assert!(report.contains("Time spent 0:35 \n"));
    assert_eq!(total_line(160 * 60_000), "\nTotal sleep 2:40");
}

#[test]
fn minutes_truncate() {
    assert_eq!(total_line(60_000 * 61 - 1), "\nTotal sleep 1:0");
    assert_eq!(total_line(59_999), "\nTotal sleep 0:0");
    let mut s = String::new();
    push_hours_minutes(&mut s, 3 * 3_600_000 + 7 * 60_000 + 59_999);
    assert_eq!(s, "3:7");
}

#[test]
fn interleaved_intervals() {
    let mut reg = TimerRegistry::new();
    let (t0, t1, t2, t3) = (1_000, 61_000, 100_000, 400_000);
    reg.try_start(9, t0);
    reg.stop(9, t1);
    reg.try_start(9, t2);
    reg.stop(9, t3);
    let log = reg.snapshot(9);
    assert_eq!(log, vec![closed(t0, t1), closed(t2, t3)]);
    let sum: i64 = log.iter().map(|d| d.stopped_at.unwrap() - d.started_at).sum();
    assert_eq!(sum, (t1 - t0) + (t3 - t2));
    let report = stats_report(&log);
    assert!(report.ends_with("\nTotal sleep 0:6"));
}

#[test]
fn mixed_commands_keep_logs_well_formed() {
    let mut reg = TimerRegistry::new();
    let mut seed: u64 = 0x2545_f491_4f6c_dd1d;
    for _ in 0..2000 {
        seed ^= seed << 13;
        seed ^= seed >> 7;
        seed ^= seed << 17;
        let id = (seed % 5) as i64;
        let t = ((seed >> 8) % 1_000_000) as i64 - 500_000;
        if (seed >> 40) % 2 == 0 {
            reg.try_start(id, t);
        } else {
            reg.stop(id, t);
        }
    }
    for id in 0..5 {
        let log = reg.snapshot(id);
        let opens = log.iter().filter(|d| d.stopped_at.is_none()).count();
        assert!(opens <= 1);
        if opens == 1 {
            assert!(log.last().unwrap().stopped_at.is_none());
        }
        assert_eq!(reg.is_running(id), opens == 1);
        for (i, d) in log.iter().enumerate() {
            if let Some(e) = d.stopped_at {
                assert!(e >= d.started_at);
                if i + 1 < log.len() {
                    assert!(log[i + 1].started_at >= e);
                }
            }
        }
    }
}

#[test]
fn conversations_are_independent() {
    let mut reg = TimerRegistry::new();
    reg.try_start(1, 10);
    reg.try_start(2, 20);
    reg.stop(1, 30);
    assert_eq!(reg.snapshot(1), vec![closed(10, 30)]);
    assert_eq!(reg.snapshot(2), vec![open(20)]);
}

#[test]
fn out_of_order_instants_are_clamped() {
    let mut reg = TimerRegistry::new();
    reg.try_start(1, 500);
    reg.stop(1, 100);
    assert_eq!(reg.snapshot(1), vec![closed(500, 500)]);
    reg.try_start(1, 200);
    assert_eq!(reg.snapshot(1), vec![closed(500, 500), open(500)]);
}

#[test]
fn open_interval_line() {
    assert_eq!(interval_line(open(5), "x", ""), "Started at x \n");
    let log = vec![closed(0, 60_000), open(120_000)];
    assert_eq!(
        stats_report(&log),
        "\u{1F4CA} Current state:\n\
         Started at 1970-01-01 00:00:00 UTC, Stopped at 1970-01-01 00:01:00 UTC, Time spent 0:1 \n\
         Started at 1970-01-01 00:02:00 UTC \n\
         \nTotal sleep 0:1"
    );
}

#[test]
fn extreme_spans_do_not_overflow() {
    let log = vec![closed(i64::MIN, i64::MAX), closed(i64::MAX, i64::MAX)];
    let report = stats_report(&log);
    let total_minutes = (u64::MAX / 60_000) as u128;
    let expected = format!("\nTotal sleep {}:{}", total_minutes / 60, total_minutes % 60);
    assert!(report.ends_with(&expected));
}

#[test]
fn instants_out_of_range_render_as_millis() {
    assert_eq!(format_instant(i64::MAX), "9223372036854775807 ms");
    assert_eq!(format_instant(i64::MIN), "-9223372036854775808 ms");
    assert_eq!(instant_text_of(-42, None), "-42 ms");
    assert_eq!(instant_text_of(-42, Some("given".to_string())), "given");
}

#[test]
fn instants_render_in_utc() {
    assert_eq!(format_instant(0), "1970-01-01 00:00:00 UTC");
    assert_eq!(format_instant(86_400_000), "1970-01-02 00:00:00 UTC");
}

#[test]
fn decimals() {
    let mut s = String::new();
    push_decimal(&mut s, 0);
    push_decimal(&mut s, 1907);
    assert_eq!(s, "01907");
    let mut s = String::new();
    push_signed_decimal(&mut s, -30);
    assert_eq!(s, "-30");
    let mut s = String::new();
    push_decimal(&mut s, u128::MAX);
    assert_eq!(s, u128::MAX.to_string());
}

#[test]
fn replies() {
    assert_eq!(start_reply(StartOutcome::Started, "now"), "Started at now");
    assert_eq!(start_reply(StartOutcome::AlreadyRunning(3), "then"), "Timer already started at then");
    assert_eq!(stop_reply("now"), "Ends at now");
}

#[test]
fn welcome_greeting() {
    let h = NewChatMemberHandler::new();
    assert_eq!(h.handle("Ann"), "\u{1F44B} Welcome, Ann!");
    let _help = HelpCommandHandler::new();
}

#[test]
fn conversation_timer_transitions() {
    let mut c = ConversationTimer::new();
    assert_eq!(c.try_start(10), StartOutcome::Started);
    assert_eq!(c.try_start(20), StartOutcome::AlreadyRunning(10));
    c.stop(30);
    assert!(!c.running);
    assert_eq!(c.log.dates_arr, vec![closed(10, 30)]);
    let mut log = SleepInterval::new();
    assert!(!log.has_open());
    log.start_timer(40);
    assert!(log.has_open());
    log.stop_timer(50);
    assert_eq!(log.dates_arr, vec![closed(40, 50)]);
}
