use clash_cli::api::{History, ProxyItem, Traffic};
use clash_cli::dispatch::{dispatch, input_step, InputPoll, LoopState};
use clash_cli::event::{AppEvent, InputEvent, KeyCode, KeyEvent, KeyEventKind};
use clash_cli::render::{delay_color, format_speed, proxy_line, shown_logs, ui, DelayColor};
use clash_cli::roster::{build_roster, delay_label, is_group, proxy_row, roster_event, sorts_before};
use clash_cli::store::{push_bounded, App, HISTORY_CAPACITY, LOG_CAPACITY};
use clash_cli::stream::{
    decode_log, decode_traffic, log_events, split_lines, traffic_events, traffic_from_members,
};
use clash_cli::numeral::{decimal_string, parse_u64};
use clash_cli::text::{bytes_eq, bytes_lt, str_before, str_eq};

fn key(code: KeyCode, kind: KeyEventKind) -> AppEvent {
    AppEvent::Input(InputEvent::Key(KeyEvent { code, kind }))
}

fn group(name: &str, kind: &str, now: Option<&str>, delays: Option<Vec<u64>>) -> (String, ProxyItem) {
    (
        name.to_string(),
        ProxyItem {
            name: name.to_string(),
            proxy_type: kind.to_string(),
            all: None,
            now: now.map(|n| n.to_string()),
            history: delays.map(|ds| {
                ds.into_iter().map(|delay| History { time: String::new(), delay }).collect()
            }),
        },
    )
}

fn row(name: &str, now: &str, delay: &str) -> (String, String, String) {
    (name.to_string(), now.to_string(), delay.to_string())
}

#[test]
fn push_bounded_appends_below_capacity() {
    let mut v = vec![1, 2];
    push_bounded(&mut v, 3, 5);
    assert_eq!(v, vec![1, 2, 3]);
}

#[test]
fn push_bounded_evicts_oldest_at_capacity() {
    let mut v = vec![1, 2, 3];
    push_bounded(&mut v, 4, 3);
    assert_eq!(v, vec![2, 3, 4]);
}

#[test]
fn push_bounded_trims_an_overfull_window() {
    let mut v = vec![1, 2, 3, 4, 5];
    push_bounded(&mut v, 6, 2);
    assert_eq!(v, vec![5, 6]);
}

#[test]
fn push_bounded_with_capacity_zero_keeps_nothing() {
    let mut v = vec![1];
    push_bounded(&mut v, 2, 0);
    assert_eq!(v, Vec::<i32>::new());
}

#[test]
fn push_bounded_never_exceeds_capacity() {
    for cap in 1..6usize {
        let mut v: Vec<usize> = Vec::new();
        for value in 0..20usize {
            push_bounded(&mut v, value, cap);
            assert!(v.len() <= cap);
            assert_eq!(*v.last().unwrap(), value);
        }
    }
}

#[test]
fn new_snapshot_is_zero_filled() {
    let app = App::new();
    assert_eq!(app.upload_history, vec![0u64; 300]);
    assert_eq!(app.download_history, vec![0u64; 300]);
    assert!(app.log_lines.is_empty());
    assert!(app.proxy_rows.is_empty());
    assert!(!app.should_quit);
    assert_eq!(HISTORY_CAPACITY, 300);
    assert_eq!(LOG_CAPACITY, 50);
}

#[test]
fn traffic_stream_of_two_lines_fills_both_tails() {
    let mut app = App::new();
    let events = traffic_events(b"{\"up\":100,\"down\":50}\n{\"up\":200,\"down\":75}\n");
    assert_eq!(events.len(), 2);
    for event in events {
        app.apply(event);
    }
    assert_eq!(app.upload_history.len(), 300);
    assert_eq!(app.upload_history[298..], [100, 200]);
    assert_eq!(app.download_history[298..], [50, 75]);
}

#[test]
fn history_keeps_the_newest_300_of_301_samples() {
    let mut app = App::new();
    for sample in 1..=301u64 {
        app.on_traffic(Traffic { up: sample, down: sample + 1000 });
    }
    assert_eq!(app.upload_history.len(), 300);
    assert_eq!(app.upload_history[0], 2);
    assert_eq!(app.upload_history[299], 301);
    assert_eq!(app.download_history.len(), 300);
    assert_eq!(app.download_history[0], 1002);
}

#[test]
fn log_window_keeps_the_newest_50_lines() {
    let mut app = App::new();
    for n in 0..51 {
        app.on_log(format!("line {}", n));
    }
    assert_eq!(app.log_lines.len(), 50);
    assert_eq!(app.log_lines[0], "line 1");
    assert_eq!(app.log_lines[49], "line 50");
}

#[test]
fn press_of_q_quits_and_release_does_not() {
    let mut app = App::new();
    let next = dispatch(&mut app, Some(key(KeyCode::Char('q'), KeyEventKind::Release)));
    assert_eq!(next, LoopState::Running);
    assert!(!app.should_quit);
    let next = dispatch(&mut app, Some(key(KeyCode::Char('q'), KeyEventKind::Repeat)));
    assert_eq!(next, LoopState::Running);
    let next = dispatch(&mut app, Some(key(KeyCode::Char('q'), KeyEventKind::Press)));
    assert_eq!(next, LoopState::Quitting);
    assert!(app.should_quit);
}

#[test]
fn press_of_escape_quits() {
    let mut app = App::new();
    assert_eq!(dispatch(&mut app, Some(key(KeyCode::Esc, KeyEventKind::Press))), LoopState::Quitting);
}

#[test]
fn other_input_is_ignored() {
    let mut app = App::new();
    assert_eq!(dispatch(&mut app, Some(key(KeyCode::Char('x'), KeyEventKind::Press))), LoopState::Running);
    assert_eq!(dispatch(&mut app, Some(key(KeyCode::Char('Q'), KeyEventKind::Press))), LoopState::Running);
    assert_eq!(dispatch(&mut app, Some(key(KeyCode::Other, KeyEventKind::Press))), LoopState::Running);
    assert_eq!(dispatch(&mut app, Some(AppEvent::Input(InputEvent::Other))), LoopState::Running);
    assert_eq!(dispatch(&mut app, Some(AppEvent::Tick)), LoopState::Running);
    assert_eq!(app, App::new());
}

#[test]
fn closed_channel_ends_the_loop() {
    let mut app = App::new();
    assert_eq!(dispatch(&mut app, None), LoopState::Quitting);
    assert!(!app.should_quit);
}

#[test]
fn quit_is_never_taken_back() {
    let mut app = App::new();
    app.apply(key(KeyCode::Esc, KeyEventKind::Press));
    let later = vec![
        AppEvent::Tick,
        key(KeyCode::Char('q'), KeyEventKind::Release),
        key(KeyCode::Char('x'), KeyEventKind::Press),
        AppEvent::Traffic(Traffic { up: 1, down: 2 }),
        AppEvent::Log("still here".to_string()),
        AppEvent::Roster(vec![row("GLOBAL", "a", "12")]),
        AppEvent::Input(InputEvent::Other),
    ];
    for event in later {
        app.apply(event);
        assert!(app.should_quit);
        assert_eq!(app.state(), LoopState::Quitting);
    }
}

#[test]
fn roster_event_replaces_rows() {
    let mut app = App::new();
    app.apply(AppEvent::Roster(vec![row("old", "x", "1"), row("older", "y", "2")]));
    let rows = vec![row("GLOBAL", "a", "12"), row("auto", "b", "0")];
    app.apply(AppEvent::Roster(rows.clone()));
    assert_eq!(app.proxy_rows, rows);
    app.apply(AppEvent::Roster(rows.clone()));
    assert_eq!(app.proxy_rows, rows);
}

#[test]
fn each_event_touches_its_own_fields() {
    let mut app = App::new();
    app.apply(AppEvent::Log("hello".to_string()));
    assert_eq!(app.log_lines, vec!["hello".to_string()]);
    assert_eq!(app.upload_history, vec![0u64; 300]);
    assert!(app.proxy_rows.is_empty());
    app.apply(AppEvent::Traffic(Traffic { up: 7, down: 9 }));
    assert_eq!(app.log_lines, vec!["hello".to_string()]);
    assert_eq!(app.upload_history[299], 7);
    assert_eq!(app.download_history[299], 9);
}

#[test]
fn input_source_turns() {
    assert_eq!(input_step(InputPoll::TimerFired), Some(AppEvent::Tick));
    assert_eq!(
        input_step(InputPoll::Event(InputEvent::Other)),
        Some(AppEvent::Input(InputEvent::Other))
    );
    assert_eq!(input_step(InputPoll::Failed), None);
    assert_eq!(input_step(InputPoll::Closed), None);
}

#[test]
fn roster_puts_global_first_and_sorts_the_rest() {
    let proxies = vec![
        group("proxy-b", "Selector", Some("node-2"), Some(vec![30, 45])),
        group("direct", "Direct", None, None),
        group("auto", "URLTest", Some("node-1"), Some(vec![])),
        group("GLOBAL", "Selector", Some("proxy-b"), None),
        group("Zeta", "Selector", None, Some(vec![700])),
        group("node-1", "Shadowsocks", None, Some(vec![20])),
    ];
    let rows = build_roster(&proxies);
    assert_eq!(
        rows,
        vec![
            row("GLOBAL", "proxy-b", "0"),
            row("Zeta", "", "700"),
            row("auto", "node-1", "0"),
            row("proxy-b", "node-2", "45"),
        ]
    );
}

#[test]
fn roster_order_does_not_depend_on_input_order() {
    let a = group("a", "Selector", None, None);
    let b = group("b", "URLTest", None, None);
    let g = group("GLOBAL", "Selector", None, None);
    let want = vec![row("GLOBAL", "", "0"), row("a", "", "0"), row("b", "", "0")];
    let orders = vec![
        vec![a.clone(), b.clone(), g.clone()],
        vec![a.clone(), g.clone(), b.clone()],
        vec![b.clone(), a.clone(), g.clone()],
        vec![b.clone(), g.clone(), a.clone()],
        vec![g.clone(), a.clone(), b.clone()],
        vec![g.clone(), b.clone(), a.clone()],
    ];
    for order in orders {
        assert_eq!(build_roster(&order), want);
    }
}

#[test]
fn roster_of_nothing_is_empty() {
    assert!(build_roster(&Vec::new()).is_empty());
    assert!(build_roster(&vec![group("n", "Direct", None, None)]).is_empty());
}

#[test]
fn roster_source_skips_a_failed_poll() {
    assert_eq!(roster_event(None), None);
    assert_eq!(
        roster_event(Some(vec![group("g", "Selector", Some("n"), Some(vec![5]))])),
        Some(AppEvent::Roster(vec![row("g", "n", "5")]))
    );
}

#[test]
fn group_kinds() {
    assert!(is_group("Selector"));
    assert!(is_group("URLTest"));
    assert!(!is_group("selector"));
    assert!(!is_group("Direct"));
    assert!(!is_group(""));
}

#[test]
fn delay_label_is_the_latest_sample() {
    assert_eq!(delay_label(&None), "0");
    assert_eq!(delay_label(&Some(vec![])), "0");
    let samples = vec![
        History { time: "t1".to_string(), delay: 80 },
        History { time: "t2".to_string(), delay: 1234 },
    ];
    assert_eq!(delay_label(&Some(samples)), "1234");
}

#[test]
fn proxy_row_takes_the_listed_name() {
    let (name, mut item) = group("listed", "Selector", Some("n"), Some(vec![9]));
    item.name = "inner".to_string();
    assert_eq!(proxy_row(&name, &item), row("listed", "n", "9"));
}

#[test]
fn display_order_of_names() {
    assert!(sorts_before("GLOBAL", "A"));
    assert!(!sorts_before("A", "GLOBAL"));
    assert!(!sorts_before("GLOBAL", "GLOBAL"));
    assert!(sorts_before("A", "a"));
    assert!(sorts_before("a", "ab"));
    assert!(!sorts_before("ab", "a"));
    assert!(!sorts_before("a", "a"));
    assert!(sorts_before("z", "é"));
    assert!(sorts_before("é", "日本"));
}

#[test]
fn string_order_is_the_order_of_std() {
    let words = ["", "a", "A", "ab", "b", "GLOBAL", "é", "日本", "z", "aa", "\u{10000}"];
    for a in words {
        for b in words {
            assert_eq!(str_before(a, b), a < b);
            assert_eq!(str_eq(a, b), a == b);
            assert_eq!(bytes_lt(a.as_bytes(), b.as_bytes()), a.as_bytes() < b.as_bytes());
            assert_eq!(bytes_eq(a.as_bytes(), b.as_bytes()), a == b);
        }
    }
}

#[test]
fn decimal_numerals() {
    assert_eq!(decimal_string(0), "0");
    assert_eq!(decimal_string(7), "7");
    assert_eq!(decimal_string(10), "10");
    assert_eq!(decimal_string(1234567890), "1234567890");
    assert_eq!(decimal_string(u64::MAX), "18446744073709551615");
}

#[test]
fn numerals_are_read_as_std_reads_them() {
    let texts = [
        "", "+", "-", "0", "+0", "-0", "007", "12", "+12", "++12", "12a", " 12", "12 ", "1_000",
        "18446744073709551615", "18446744073709551616", "99999999999999999999", "٣", "1.5",
    ];
    for text in texts {
        assert_eq!(parse_u64(text), text.parse::<u64>().ok());
    }
    assert_eq!(parse_u64("18446744073709551615"), Some(u64::MAX));
    assert_eq!(parse_u64("18446744073709551616"), None);
}

#[test]
fn lines_of_a_chunk() {
    let none: Vec<&[u8]> = Vec::new();
    assert_eq!(split_lines(b""), none);
    assert_eq!(split_lines(b"a"), vec![&b"a"[..]]);
    assert_eq!(split_lines(b"a\n"), vec![&b"a"[..]]);
    assert_eq!(split_lines(b"a\r\nb"), vec![&b"a"[..], &b"b"[..]]);
    assert_eq!(split_lines(b"\n\nb\n"), vec![&b""[..], &b""[..], &b"b"[..]]);
    assert_eq!(split_lines(b"a\rb\r"), vec![&b"a\rb\r"[..]]);
    assert_eq!(split_lines(b"\r\n"), vec![&b""[..]]);
}

#[test]
fn lines_are_the_lines_of_std() {
    let chunks = ["", "\n", "a", "a\n", "a\nb", "a\r\nb\r\n", "\r\n\r\n", "a\r", "a\n\r", "x\r\r\ny", "\n\n\n"];
    for chunk in chunks {
        let want: Vec<&[u8]> = chunk.lines().map(|line| line.as_bytes()).collect();
        assert_eq!(split_lines(chunk.as_bytes()), want);
    }
}

#[test]
fn truncated_line_is_skipped() {
    let events = traffic_events(b"{\"up\":100,\"down\":50}\n{\"up\":20");
    assert_eq!(events, vec![AppEvent::Traffic(Traffic { up: 100, down: 50 })]);
    let events = log_events(b"{\"type\":\"info\",\"payload\":\"hello\"}\n{\"type\":\"info\",\"pay");
    assert_eq!(events, vec![AppEvent::Log("hello".to_string())]);
}

#[test]
fn garbled_lines_between_good_ones_are_skipped() {
    let events = traffic_events(b"down\":1}\r\n{\"up\":1,\"down\":2}\r\n\r\nnull\n{\"up\":3,\"down\":4}");
    assert_eq!(
        events,
        vec![
            AppEvent::Traffic(Traffic { up: 1, down: 2 }),
            AppEvent::Traffic(Traffic { up: 3, down: 4 }),
        ]
    );
    assert!(traffic_events(b"").is_empty());
    assert!(log_events(b"\n\n").is_empty());
}

#[test]
fn traffic_lines() {
    assert_eq!(decode_traffic("{\"up\":100,\"down\":50}"), Some(Traffic { up: 100, down: 50 }));
    assert_eq!(decode_traffic(" {\"down\": 5, \"up\": 18446744073709551615, \"x\": 1} "), Some(Traffic { up: u64::MAX, down: 5 }));
    assert_eq!(decode_traffic("{\"up\":100}"), None);
    assert_eq!(decode_traffic("{\"up\":-1,\"down\":50}"), None);
    assert_eq!(decode_traffic("{\"up\":1.5,\"down\":50}"), None);
    assert_eq!(decode_traffic("{\"up\":\"1\",\"down\":50}"), None);
    assert_eq!(decode_traffic("{\"up\":1,\"down\":50"), None);
    assert_eq!(decode_traffic("{\"up\":1,\"down\":50} x"), None);
    assert_eq!(decode_traffic("up"), None);
    assert_eq!(decode_traffic(""), None);
}

#[test]
fn traffic_needs_both_counters() {
    assert_eq!(traffic_from_members(Some(1), Some(2)), Some(Traffic { up: 1, down: 2 }));
    assert_eq!(traffic_from_members(None, Some(2)), None);
    assert_eq!(traffic_from_members(Some(1), None), None);
    assert_eq!(traffic_from_members(None, None), None);
}

#[test]
fn log_lines() {
    assert_eq!(
        decode_log("{\"type\":\"info\",\"payload\":\"[TCP] 10.0.0.1 --> example.com\"}"),
        Some("[TCP] 10.0.0.1 --> example.com".to_string())
    );
    assert_eq!(decode_log("{\"payload\":\"a\\nb \\u65e5\"}"), Some("a\nb 日".to_string()));
    assert_eq!(decode_log("{\"type\":\"info\"}"), None);
    assert_eq!(decode_log("{\"payload\":5}"), None);
    assert_eq!(decode_log("[\"payload\"]"), None);
    assert_eq!(decode_log("payload"), None);
    assert_eq!(decode_log("{\"payload\":\"cut"), None);
}

#[test]
fn bytes_that_are_not_text_are_replaced() {
    let events = log_events(b"{\"payload\":\"a\xffb\"}\n");
    assert_eq!(events, vec![AppEvent::Log("a\u{fffd}b".to_string())]);
    let events = log_events("{\"payload\":\"日志\"}\n".as_bytes());
    assert_eq!(events, vec![AppEvent::Log("日志".to_string())]);
}

#[test]
fn rates_in_bytes() {
    assert_eq!(format_speed(0), "0 B");
    assert_eq!(format_speed(1), "1 B");
    assert_eq!(format_speed(1023), "1023 B");
}

#[test]
fn rates_in_kb() {
    assert_eq!(format_speed(1024), "1.0 KB");
    assert_eq!(format_speed(1536), "1.5 KB");
    assert_eq!(format_speed(2000), "2.0 KB");
    assert_eq!(format_speed(1048575), "1024.0 KB");
}

#[test]
fn rates_in_mb() {
    assert_eq!(format_speed(1048576), "1.0 MB");
    assert_eq!(format_speed(1572864), "1.5 MB");
    assert_eq!(format_speed(10 * 1048576 + 524288), "10.5 MB");
    assert_eq!(format_speed(1073741824), "1024.0 MB");
}

fn float_label(speed: u64) -> String {
    if speed < 1024 {
        format!("{} B", speed)
    } else if speed < 1024 * 1024 {
        format!("{:.1} KB", speed as f64 / 1024.0)
    } else {
        format!("{:.1} MB", speed as f64 / 1024.0 / 1024.0)
    }
}

#[test]
fn rates_agree_with_float_formatting_at_halves() {
    // 1280 / 1024 = 1.25 and 1382.4 / 1024 = 1.35: exact halves of a tenth.
    for speed in [1280u64, 1792, 2304, 3328, 52_429 * 1024 / 10, 1310720, 1835008, 2359296] {
        assert_eq!(format_speed(speed), float_label(speed));
    }
}

#[test]
fn rates_agree_with_float_formatting_on_small_rates() {
    for speed in 0..70_000u64 {
        assert_eq!(format_speed(speed), float_label(speed));
    }
}

#[test]
fn rates_agree_with_float_formatting_on_large_rates() {
    let mut speed: u64 = 1;
    let mut step: u64 = 1;
    while speed < u64::MAX / 3 {
        for delta in [0u64, 1, 2, 3, 51, 52, 53, 511, 512, 513, 1023, 1024, 1025, 52428, 52429, 104857, 104858] {
            let s = speed.saturating_add(delta);
            assert_eq!(format_speed(s), float_label(s));
            let s = speed.saturating_sub(delta);
            assert_eq!(format_speed(s), float_label(s));
        }
        speed = speed * 2 + step % 7;
        step += 1;
    }
    for s in [u64::MAX, u64::MAX - 1, u64::MAX - 1024, 1 << 53, (1 << 53) + 1, (1 << 53) + 2, (1 << 53) + 3, (1 << 54) + 2, (1 << 54) + 6, (1 << 63) + 1024, (1 << 63) + 1025, u64::MAX - 2047, u64::MAX - 2048] {
        assert_eq!(format_speed(s), float_label(s));
    }
}

#[test]
fn delay_colours() {
    assert_eq!(delay_color(0), DelayColor::Red);
    assert_eq!(delay_color(1), DelayColor::Green);
    assert_eq!(delay_color(499), DelayColor::Green);
    assert_eq!(delay_color(500), DelayColor::Yellow);
    assert_eq!(delay_color(u64::MAX), DelayColor::Yellow);
}

#[test]
fn roster_line_spans() {
    let line = proxy_line(&row("GLOBAL", "node-1", "120"));
    assert_eq!(line.name, "GLOBAL: ");
    assert_eq!(line.now, "node-1 ");
    assert_eq!(line.delay, "(120ms)");
    assert_eq!(line.color, DelayColor::Green);
    assert_eq!(proxy_line(&row("g", "", "0")).color, DelayColor::Red);
    assert_eq!(proxy_line(&row("g", "", "n/a")).color, DelayColor::Red);
    assert_eq!(proxy_line(&row("g", "", "n/a")).delay, "(n/ams)");
    assert_eq!(proxy_line(&row("g", "", "500")).color, DelayColor::Yellow);
}

#[test]
fn log_panel_shows_what_fits() {
    let logs: Vec<String> = (0..10).map(|n| n.to_string()).collect();
    assert_eq!(shown_logs(&logs, 10), &logs[..]);
    assert_eq!(shown_logs(&logs, 50), &logs[..]);
    assert_eq!(shown_logs(&logs, 9), &logs[3..]);
    assert_eq!(shown_logs(&logs, 4), &logs[8..]);
    assert_eq!(shown_logs(&logs, 3), &logs[9..]);
    assert!(shown_logs(&logs, 2).is_empty());
    assert!(shown_logs(&logs, 1).is_empty());
    assert!(shown_logs(&logs, 0).is_empty());
    assert!(shown_logs(&[], 0).is_empty());
}

#[test]
fn frame_of_a_snapshot() {
    let mut app = App::new();
    for n in 0..30 {
        app.on_log(format!("log {}", n));
    }
    app.on_traffic(Traffic { up: 2048, down: 3 * 1048576 });
    app.apply(AppEvent::Roster(vec![row("GLOBAL", "auto", "0"), row("auto", "hk-1", "87")]));
    let screen = ui(&app, 12);
    assert_eq!(screen.log_title, "日志 (Real-time Logs)");
    assert_eq!(screen.roster_title, "节点状态 (Proxies)");
    assert_eq!(screen.log_lines, &app.log_lines[20..]);
    assert_eq!(screen.roster_lines.len(), 2);
    assert_eq!(screen.roster_lines[1].name, "auto: ");
    assert_eq!(screen.roster_lines[1].color, DelayColor::Green);
    assert_eq!(screen.upload_title, "上传速度 (Upload): 2.0 KB/s");
    assert_eq!(screen.download_title, "下载速度 (Download): 3.0 MB/s");
    assert_eq!(screen.upload_data, &app.upload_history[..]);
    assert_eq!(screen.download_data, &app.download_history[..]);
}

#[test]
fn frame_of_an_empty_snapshot() {
    let app = App {
        log_lines: vec![],
        upload_history: vec![],
        download_history: vec![],
        proxy_rows: vec![],
        should_quit: false,
    };
    let screen = ui(&app, 0);
    assert!(screen.log_lines.is_empty());
    assert!(screen.roster_lines.is_empty());
    assert_eq!(screen.upload_title, "上传速度 (Upload): 0 B/s");
    assert_eq!(screen.download_title, "下载速度 (Download): 0 B/s");
}
