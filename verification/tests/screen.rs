//! The screen: shortcut bar, panels and help.

use speed_test::app::{App, RunState, Tab};
use speed_test::dsl::DslSnapshot;
use speed_test::footer::{advance_footer_marquee, footer, footer_entries, slice_line};
use speed_test::history::TestRecord;
use speed_test::measure::{LiveRate, Mean, Moment, Quotient, Rate, Timestamp, SECOND};
use speed_test::modem_view::{modem_banner, modem_editor_rows, modem_log_rows, modem_value_rows};
use speed_test::monitor::ProbeSample;
use speed_test::monitor_view::{
    banner_row, log_rows, log_title, ping_graph, ping_quality_color, popup, readout_rows,
    stability_color, stability_gauge, target_editor_row, Area,
};
use speed_test::net::{ConnectionInfo, LatencyStats, Metrics, Phase};
use speed_test::panels::{
    error_row, graph_panel, info_strip, isp_label, jitter_color, latency_color, latency_panel,
    location_label, megabits_text, mode_row, profile_row, speed_color, status_body, status_title, tab_title,
    too_small, Series, StatusBody,
};
use speed_test::records_view::{help_text, history_row, history_title};
use speed_test::style::{bold, fg, Color, Line, Span};
use speed_test::text::fixed_text;

const MS: u64 = 1_000_000;
const MBPS: u64 = 1_000_000;
const BILLION: u128 = 1_000_000_000;

fn span(s: &str) -> Span {
    Span { text: s.to_string(), style: fg(Color::Cyan) }
}

fn joined(spans: &[Span]) -> String {
    spans.iter().map(|s| s.text.as_str()).collect()
}

fn text(line: &Line) -> String {
    joined(&line.spans)
}

fn at(ticks: u64) -> Moment {
    Moment { ticks, wall: Timestamp { secs: 0, nanos: 0 } }
}

#[test]
fn slice_returns_everything_when_it_fits() {
    let spans = vec![span("abc"), span("def")];
    let out = slice_line(&spans, 0, 10);
    assert_eq!(joined(&out), "abcdef");
}

#[test]
fn slice_clips_both_sides_and_keeps_styles() {
    let spans = vec![span("aaaa"), span("bb"), span("cccc")];
    // Window [3, 8): tail of first span, whole second, head of third.
    let out = slice_line(&spans, 3, 5);
    assert_eq!(joined(&out), "abbcc");
    assert!(out.iter().all(|s| s.style.fg == Some(Color::Cyan)));
}

#[test]
fn every_character_keeps_its_style() {
    let colors = [Color::Red, Color::Green, Color::Blue];
    let mut spans = vec![span("aaaa"), span("bb"), span("cccc")];
    for (s, c) in spans.iter_mut().zip(colors) {
        s.style.fg = Some(c);
    }
    let out = slice_line(&spans, 3, 4);
    let seen: Vec<_> = out.iter().map(|s| (s.text.as_str(), s.style.fg)).collect();
    assert_eq!(
        seen,
        vec![("a", Some(Color::Red)), ("bb", Some(Color::Green)), ("c", Some(Color::Blue))]
    );
}

#[test]
fn slice_beyond_content_is_empty() {
    let spans = vec![span("ab")];
    assert!(slice_line(&spans, 5, 4).is_empty());
}

#[test]
fn marquee_pings_pong_between_bounds_with_edge_pauses() {
    let mut app = App::new(0);
    let total: u16 = 200;
    let viewport: u16 = 100;
    let max = total - viewport;
    let now = SECOND;

    // Scroll right to the edge.
    for _ in 0..max + 5 {
        advance_footer_marquee(&mut app, total, viewport, at(now));
        app.footer_next_step = Some(now); // force each step
        if app.footer_scroll == max {
            break;
        }
    }
    assert_eq!(app.footer_scroll, max);
    // One more step must flip direction and pause at the edge.
    app.footer_next_step = Some(now);
    advance_footer_marquee(&mut app, total, viewport, at(now));
    assert_eq!(app.footer_dir, -1);

    // And back down to zero, flipping again.
    for _ in 0..max + 5 {
        app.footer_next_step = Some(now);
        advance_footer_marquee(&mut app, total, viewport, at(now));
        if app.footer_scroll == 0 {
            break;
        }
    }
    assert_eq!(app.footer_scroll, 0);
    app.footer_next_step = Some(now);
    advance_footer_marquee(&mut app, total, viewport, at(now));
    assert_eq!(app.footer_dir, 1);
}

#[test]
fn the_bar_rests_between_steps_and_longer_at_an_edge() {
    let mut app = App::new(0);
    advance_footer_marquee(&mut app, 101, 100, at(0));
    assert_eq!((app.footer_scroll, app.footer_next_step), (1, Some(110 * MS)));
    advance_footer_marquee(&mut app, 101, 100, at(109 * MS));
    assert_eq!((app.footer_scroll, app.footer_dir), (1, 1));
    advance_footer_marquee(&mut app, 101, 100, at(110 * MS));
    assert_eq!((app.footer_scroll, app.footer_dir), (1, -1));
    assert_eq!(app.footer_next_step, Some(1610 * MS));
    // A wider terminal brings the bar back at once.
    advance_footer_marquee(&mut app, 101, 200, at(111 * MS));
    assert_eq!(app.footer_scroll, 0);
}

#[test]
fn windows_count_columns() {
    // A wide character takes two columns, but is one character.
    let spans = vec![span("漢漢"), span("ab")];
    assert_eq!(joined(&slice_line(&spans, 4, 1)), "a");
    assert_eq!(joined(&slice_line(&spans, 5, 9)), "b");
    assert!(slice_line(&spans, 0, 0).is_empty());
}

#[test]
fn the_shortcut_bar_lists_the_tab_first() {
    let mut app = App::new(0);
    let line = footer_entries(&app);
    assert!(text(&line).starts_with(" ENTER  start test  |  INS "));
    assert!(text(&line).contains(" F10  quit "));
    app.run_state = RunState::Running;
    assert!(text(&footer_entries(&app)).starts_with(" ENTER  stop loop "));
    app.tab = Tab::Monitor;
    app.monitor.running = true;
    assert!(text(&footer_entries(&app)).starts_with(" ENTER  stop ping "));
}

#[test]
fn the_shortcut_bar_scrolls_only_where_it_must() {
    let mut app = App::new(0);
    app.footer_scroll = 7;
    let whole = text(&footer_entries(&app));
    let line = footer(&mut app, 1000, at(0));
    assert_eq!(text(&line), whole);
    assert_eq!((app.footer_scroll, app.footer_dir, app.footer_next_step), (0, 1, None));
    let line = footer(&mut app, 50, at(0));
    assert_eq!(app.footer_scroll, 1);
    assert_eq!(text(&line), whole[1..51].to_string());
}

fn info(city: Option<&str>, country: Option<&str>, colo: Option<&str>) -> ConnectionInfo {
    ConnectionInfo {
        client_ip: "1.2.3.4".to_string(),
        as_organization: "Net".to_string(),
        asn: Some(-5),
        city: city.map(str::to_string),
        country: country.map(str::to_string),
        colo: colo.map(str::to_string),
    }
}

#[test]
fn connection_labels_use_what_is_known() {
    assert_eq!(isp_label(&info(None, None, None)), "Net (AS-5)");
    let mut c = info(None, None, None);
    c.asn = None;
    assert_eq!(isp_label(&c), "Net");
    assert_eq!(location_label(&info(Some("Bonn"), Some("DE"), None)), "Bonn | DE");
    assert_eq!(location_label(&info(Some("Bonn"), Some(""), None)), "Bonn");
    assert_eq!(location_label(&info(Some(""), Some("DE"), None)), "DE");
    assert_eq!(location_label(&info(None, None, Some("FRA"))), "FRA");
    assert_eq!(location_label(&info(None, None, None)), "unknown");
}

#[test]
fn the_strip_shows_the_connection() {
    let mut app = App::new(0);
    let strip = info_strip(&app);
    assert_eq!(text(&strip.ip[1]), "  …");
    assert_eq!(text(&strip.isp[0]), "▌ ISP   resolving…");
    app.connection = Some(info(Some("Bonn"), None, None));
    app.connection_refreshing = true;
    let strip = info_strip(&app);
    assert_eq!(text(&strip.ip[0]), "▌ IP       ");
    assert_eq!(text(&strip.ip[1]), "  1.2.3.4  [F5]");
    assert_eq!(strip.ip[1].spans[0].style, bold(Color::Cyan));
    assert_eq!(text(&strip.location[1]), "  Bonn  [F5]");
}

#[test]
fn colours_follow_thresholds() {
    let bps = |n: u64| Quotient { num: n as u128, den: 1 };
    assert_eq!(speed_color(&bps(300 * MBPS)), Color::LightGreen);
    assert_eq!(speed_color(&bps(300 * MBPS - 1)), Color::Green);
    let ms = |n: u64| Quotient { num: (n * MS) as u128, den: 1 };
    assert_eq!(latency_color(&Quotient { num: 40 * MS as u128 - 1, den: 2 }), Color::Green);
    assert_eq!(latency_color(&ms(20)), Color::Yellow);
    assert_eq!(latency_color(&ms(60)), Color::Red);
    assert_eq!(jitter_color(&ms(4)), Color::Green);
    assert_eq!(jitter_color(&ms(5)), Color::Yellow);
    assert_eq!(jitter_color(&ms(20)), Color::Red);
    assert_eq!(ping_quality_color(&ms(60), true), Color::Green);
    assert_eq!(ping_quality_color(&ms(61), true), Color::Yellow);
    assert_eq!(ping_quality_color(&ms(101), true), Color::Red);
    assert_eq!(ping_quality_color(&ms(160), false), Color::Yellow);
    let pct = |n: u128| Quotient { num: n, den: 1 };
    assert_eq!(stability_color(&pct(95)), Color::LightGreen);
    assert_eq!(stability_color(&pct(94)), Color::Green);
    assert_eq!(stability_color(&pct(65)), Color::Yellow);
    assert_eq!(stability_color(&pct(64)), Color::Red);
}

#[test]
fn the_frame_has_five_tabs_and_a_minimum_size() {
    assert!(too_small(49, 12) && too_small(50, 11) && !too_small(50, 12));
    let titles: Vec<&str> = (0..5).map(tab_title).collect();
    assert_eq!(titles, vec![" Test ", " Monitor ", " Modem ", " History ", " Help "]);
}

fn rate(bps: u64) -> Rate {
    Rate { bytes: bps, ns: 8 * SECOND }
}

fn mean(ns: u64) -> Mean {
    Mean { ns, part: 0, of: 1 }
}

fn metrics() -> Metrics {
    Metrics {
        down: rate(42_050_000),
        up: rate(20_150_000),
        latency: LatencyStats {
            min_ns: 10 * MS,
            avg: mean(15_500_000),
            max_ns: 30 * MS,
            jitter: mean(2_250_000),
        },
    }
}

#[test]
fn the_latency_panel_waits_for_data() {
    let mut app = App::new(0);
    let p = latency_panel(&app);
    assert_eq!(text(&p.notice.unwrap()), "no data — run a test");
    app.run_state = RunState::Running;
    app.spinner_frame = 1;
    assert_eq!(text(&latency_panel(&app).notice.unwrap()), "/");
    app.pings = vec![1_499_999, 1_500_000];
    app.latency = Some(metrics().latency);
    let p = latency_panel(&app);
    assert!(p.notice.is_none());
    assert_eq!(p.pings, vec![1, 2]);
    let lines: Vec<String> = p.figures.unwrap().iter().map(text).collect();
    assert_eq!(lines, vec![" avg 15.5 ms   min 10.0 ms", " max 30.0 ms   jitter 2.2 ms", ""]);
}

#[test]
fn the_profile_panel_shows_the_choice() {
    let mut app = App::new(0);
    assert_eq!(text(&profile_row(app.profile, true)), " > Standard 10s down / 10s up");
    assert_eq!(text(&profile_row(app.profile.next(), false)), "   Maximum  20s down / 20s up");
    assert_eq!(text(&mode_row(&app).unwrap()), "   Single   [Ins]");
    app.continuous_mode = true;
    assert_eq!(text(&mode_row(&app).unwrap()), " > Continuous[Ins]");
    app.run_state = RunState::Running;
    assert!(mode_row(&app).is_none());
    app.runs_completed = 2;
    app.agg_down_sum = 101 * MBPS as u128 * BILLION;
    app.agg_up_sum = 20 * MBPS as u128 * BILLION;
    assert_eq!(text(&mode_row(&app).unwrap()), " runs: 2   avg dl 50 / up 10 Mbps");
}

#[test]
fn the_status_panel_follows_the_run() {
    let mut app = App::new(0);
    assert_eq!(status_title(&app), (" STATUS ".to_string(), Color::DarkGray));
    match status_body(&app, 7) {
        StatusBody::Invitation(t) => {
            assert_eq!(text(&t[1]), "Press ENTER to start the test");
            assert!(t[1].centered);
        }
        other => panic!("{other:?}"),
    }
    app.run_state = RunState::Running;
    assert!(matches!(status_body(&app, 7), StatusBody::Quiet));
    app.phase = Phase::Download;
    assert_eq!(status_title(&app), (" | Download test ".to_string(), Color::Yellow));
    app.continuous_mode = true;
    app.runs_completed = 3;
    app.down_instant = LiveRate { bps: 99_950_000, billionths: 0 };
    app.down_avg = rate(5 * MBPS);
    match status_body(&app, 6) {
        StatusBody::Progress { figure, gauge, hint } => {
            assert_eq!(text(&figure), "   100.0 Mbps   avg 5.0");
            assert_eq!(gauge.label, "DOWNLOAD  · loop run #4");
            assert_eq!(gauge.color, Color::Yellow);
            assert_eq!(gauge.filled, Quotient { num: 20, den: 1000 });
            assert_eq!(text(&hint.unwrap()), "ENTER stops after this run");
        }
        other => panic!("{other:?}"),
    }
    app.phase = Phase::Latency;
    app.pings = vec![1, 2, 3];
    match status_body(&app, 5) {
        StatusBody::Progress { gauge, hint, .. } => {
            assert_eq!(gauge.filled, Quotient { num: 3, den: 12 });
            assert!(hint.is_none());
        }
        other => panic!("{other:?}"),
    }
}

#[test]
fn the_status_panel_shows_results() {
    let mut app = App::new(0);
    app.run_state = RunState::Finished;
    assert!(matches!(status_body(&app, 7), StatusBody::Stopped(_)));
    app.metrics = Some(metrics());
    app.runs_completed = 1;
    match status_body(&app, 7) {
        StatusBody::Results { result, session } => {
            assert_eq!(text(&result), " C   down 42.0 Mbps   up 20.1 Mbps   ping 16 ms");
            assert_eq!(
                text(&session.unwrap()),
                "1 completed run — results saved to history"
            );
        }
        other => panic!("{other:?}"),
    }
    app.runs_completed = 2;
    app.agg_down_sum = 90 * MBPS as u128 * BILLION;
    app.agg_up_sum = 40 * MBPS as u128 * BILLION;
    app.agg_ping_sum = 31 * MS as u128 * 27_720;
    app.best_down = rate(50 * MBPS);
    match status_body(&app, 7) {
        StatusBody::Results { session, .. } => assert_eq!(
            text(&session.unwrap()),
            "session: 2 runs · avg down 45 / up 20 Mbps · best 50 · avg ping 16 ms"
        ),
        other => panic!("{other:?}"),
    }
    assert!(error_row(&app).is_none());
    app.error = Some("boom".to_string());
    assert_eq!(text(&error_row(&app).unwrap()), " ERROR: boom ");
}

#[test]
fn the_graph_panel_picks_its_samples() {
    let mut app = App::new(0);
    let g = graph_panel(&app);
    assert_eq!((g.title, g.color, g.series), (" THROUGHPUT ", Color::DarkGray, Series::Nothing));
    assert_eq!(g.hint, Some("throughput graph will appear here during the test"));
    app.run_state = RunState::Running;
    app.phase = Phase::Upload;
    assert_eq!(graph_panel(&app).hint, Some("warming up…"));
    app.up_samples = vec![1];
    let g = graph_panel(&app);
    assert_eq!((g.series, g.hint), (Series::Upload, None));
    app.run_state = RunState::Finished;
    assert_eq!(graph_panel(&app).title, " THROUGHPUT - LAST RUN ");
    assert_eq!(graph_panel(&app).hint, Some(""));
}

#[test]
fn the_monitor_tab_shows_figures() {
    let mut app = App::new(0);
    let stats = app.monitor.stats(0);
    let line = banner_row(&app, &stats, 60);
    assert_eq!(text(&line), "[idle] press ENTER to start continuous ping        NO DATA ");
    app.monitor.running = true;
    app.monitor.gaming = true;
    for rtt in [Some(20 * MS), None, Some(21 * MS)] {
        app.monitor.on_sample(ProbeSample { rtt_ns: rtt }, at(SECOND));
    }
    let stats = app.monitor.stats(9 * SECOND);
    let line = banner_row(&app, &stats, 10);
    assert_eq!(text(&line), "LIVE monitoring · stable for 8sUNSTABLE ");
    let rows: Vec<String> = readout_rows(true, &stats, 11).iter().map(text).collect();
    assert_eq!(rows[1], " 21.0 ms  current");
    assert_eq!(rows[4], " avg       20.5 ms   min       20.0 ms ");
    assert_eq!(rows[5], " max       21.0 ms   jitter     0.0 ms ");
    assert_eq!(rows[6], " loss      33.33 %   stability  66.7 % ");
    assert_eq!(rows[7], " probes        2/3 ");
    assert_eq!(rows.len(), 10);
    assert_eq!(readout_rows(true, &stats, 10).len(), 8);
    let gauge = stability_gauge(true, &stats, 15).unwrap();
    assert_eq!(gauge.label, "STABILITY 67%");
    assert_eq!(gauge.filled, Quotient { num: 200, den: 300 });
    assert!(stability_gauge(true, &stats, 14).is_none());
    let graph = ping_graph(&app, &stats, 5);
    assert_eq!(graph.title, " LIVE PING — speed.cloudflare.com @ 1000ms ");
    assert_eq!(graph.data, vec![20, 0, 21]);
    assert_eq!(graph.marker.as_deref(), Some(" [1] lost probes shown as dips "));
    assert!(graph.hint.is_none());
}

#[test]
fn trouble_is_announced() {
    let mut app = App::new(0);
    app.monitor.running = true;
    for _ in 0..3 {
        app.monitor.on_sample(ProbeSample { rtt_ns: None }, at(SECOND));
    }
    let stats = app.monitor.stats(2 * SECOND);
    assert!(text(&banner_row(&app, &stats, 80))
        .starts_with(" !! NETWORK TROUBLE DETECTED - 3 probes lost in a row "));
    assert_eq!(
        log_title(&app, 2 * SECOND),
        (" EVENTS / TROUBLE LOG (2 ) ".to_string(), Color::Red)
    );
    let clocks = vec!["10:00:00".to_string(), "10:00:02".to_string()];
    let rows: Vec<String> = log_rows(&app, &clocks, 9).iter().map(text).collect();
    assert_eq!(
        rows,
        vec![
            " 10:00:02  OUTAGE  3 probes lost in a row",
            " 10:00:00  LOSS  probe timed out",
        ]
    );
    assert_eq!(log_rows(&app, &clocks, 1).len(), 1);
}

#[test]
fn popups_are_centered() {
    let area = Area { x: 2, y: 3, width: 80, height: 25 };
    assert_eq!(popup(area, 5), Area { x: 11, y: 13, width: 62, height: 5 });
    let small = Area { x: 0, y: 0, width: 3, height: 2 };
    assert_eq!(popup(small, 5), Area { x: 1, y: 0, width: 0, height: 5 });
    let mut app = App::new(0);
    app.monitor.input_buf = "abcdef".to_string();
    assert_eq!(text(&target_editor_row(&app, 10)), " > abcd█   ENTER apply · ESC cancel");
}

#[test]
fn the_modem_tab_shows_dashes_for_what_is_missing() {
    let mut app = App::new(0);
    assert_eq!(text(&modem_banner(&app)), "[idle] press ENTER to start polling the modem");
    let rows: Vec<String> = modem_value_rows(&app).iter().map(text).collect();
    assert_eq!(rows[0], " state             -");
    assert_eq!(rows[6], " SNR margin        -               -");
    app.begin_dsl_polling();
    assert_eq!(text(&modem_banner(&app)), "[waiting] looking for the modem…");
    let mut s = DslSnapshot::default();
    s.available = true;
    s.snr_down_db = Some(29_000);
    s.rate_up_bps = Some(32_100_000);
    s.uptime_secs = Some(61);
    s.wireless_clients = Some(4);
    app.dsl.on_snapshot(s, at(SECOND));
    assert_eq!(text(&modem_banner(&app)), "LIVE line statistics from the modem");
    let lines = modem_value_rows(&app);
    let rows: Vec<String> = lines.iter().map(text).collect();
    assert_eq!(rows[2], " uptime            61s");
    assert_eq!(rows[6], " SNR margin        2.9 dB          -");
    assert_eq!(lines[6].spans[1].style, bold(Color::Red));
    assert_eq!(rows[8], " rate              -               32.10 Mbps");
    assert_eq!(rows[13], " wireless clients  4");
    let log = modem_log_rows(&app, &vec!["09:00:00".to_string()], 5);
    assert_eq!(
        text(&log[0]),
        " 09:00:00  CRIT  SNR margin downstream: 2.9 dB (expected >= 6 dB (critical below 3))"
    );
}

#[test]
fn the_modem_editor_hides_the_password() {
    let mut app = App::new(0);
    app.dsl.buf_addr = "h".to_string();
    app.dsl.buf_pass = "secret".to_string();
    app.dsl.edit_field = 2;
    app.spinner_frame = 1;
    let rows: Vec<String> = modem_editor_rows(&app).iter().map(text).collect();
    assert_eq!(rows[0], "   address   h");
    assert_eq!(rows[2], " > password  ****** ");
}

#[test]
fn history_rows_line_up() {
    let mut app = App::new(0);
    assert_eq!(history_title(&app), " HISTORY (0 runs) ");
    app.load_history(vec![TestRecord {
        timestamp: Timestamp { secs: 0, nanos: 0 },
        profile: "Quick".to_string(),
        down: rate(123_450_000),
        up: rate(9_960_000),
        ping: mean(12_500_000),
        jitter: mean(1_250_000),
        grade: 'A',
    }]);
    assert_eq!(history_title(&app), " HISTORY (1 runs) ");
    let l = history_row(0, &app.history[0], "2024-01-01 00:00");
    let cells: Vec<&str> = l.spans.iter().map(|s| s.text.as_str()).collect();
    assert_eq!(
        cells,
        vec![
            "1",
            "2024-01-01 00:00",
            " A ",
            "  123.5 Mbps",
            "   10.0 Mbps",
            "   12 ms",
            "  1.2 ms",
            "Quick",
        ]
    );
    assert_eq!(l.spans[2].style.bg, Some(Color::Green));
}

#[test]
fn the_help_lists_shortcuts_by_scope() {
    let rows: Vec<String> = help_text().iter().map(text).collect();
    assert_eq!(rows[1], " GENERAL ");
    assert!(rows.iter().any(|r| r == " MODEM "));
    assert!(rows.iter().any(|r| r.starts_with(" F9 ")));
    assert!(rows.iter().any(|r| r == " INS / M  single / loop"));
    assert_eq!(
        rows.last().unwrap(),
        "  S: ≥ 300 Mbps   A: ≥ 100   B: ≥ 50   C: ≥ 25   D: ≥ 10   F: < 10 "
    );
}

#[test]
fn decimals_are_those_of_a_binary_number() {
    for (kbps, shown) in [
        (20_150, "20.1"),
        (123_450, "123.5"),
        (250, "0.2"),
        (750, "0.8"),
        (350, "0.3"),
        (1_450, "1.4"),
        (2_650, "2.6"),
        (99_950, "100.0"),
        (0, "0.0"),
        (49, "0.0"),
        (51, "0.1"),
    ] {
        assert_eq!(megabits_text(&rate(kbps * 1000).bps(), 1), shown);
        assert_eq!(shown, format!("{:.1}", kbps as f64 / 1000.0));
    }
    // As formatted floating-point numbers, over a range of ties and near-ties.
    for n in 0..20_000u64 {
        let q = Quotient { num: n as u128, den: 1 };
        for decimals in 0..3u8 {
            let shown = format!("{:.*}", decimals as usize, n as f64 / 1000.0);
            assert_eq!(fixed_text(q.num, 1000, decimals), shown);
        }
    }
    for (num, den) in [(1u128, 3u128), (2, 3), (1_000_000_007, 7), (1, 1 << 90), (5, 1 << 60)] {
        assert_eq!(fixed_text(num, den, 2), format!("{:.2}", num as f64 / den as f64));
    }
    for num in [1u128 << 53, (1 << 53) + 1, (1 << 60) + 129, (1 << 100) + (1 << 47) + 1] {
        assert_eq!(fixed_text(num, 1, 1), format!("{:.1}", num as f64));
    }
}
