//! The session: tests, chaining, watchdog, monitor and editors.

use speed_test::app::{App, Effect, Env, RunState, Tab};
use speed_test::control::{normalize_stored_target, valid_target};
use speed_test::dsl::DslSnapshot;
use speed_test::history::{history_place, starting_history, HistoryFile, HistoryPlace, TestRecord};
use speed_test::keys::{Action, KeyCode, KeyEvent, KeyEventKind, KeyModifiers};
use speed_test::measure::{LiveRate, Mean, Moment, Rate, Timestamp, SECOND};
use speed_test::monitor::ProbeSample;
use speed_test::net::{ConnectionInfo, LatencyStats, Metrics, Phase, Profile, TestEvent};
use speed_test::style::Color;
use speed_test::tick::{Arrivals, Tick};

const MBPS: u64 = 1_000_000;
const MS: u64 = 1_000_000;

fn at(secs: u64) -> Moment {
    Moment { ticks: secs * SECOND, wall: Timestamp { secs: 1_700_000_000 + secs as i64, nanos: 0 } }
}

fn env(secs: u64) -> Env {
    Env { now: at(secs), client_error: None }
}

fn nothing() -> Arrivals {
    Arrivals {
        samples: Vec::new(),
        snapshots: Vec::new(),
        events: Vec::new(),
        ended: false,
        lookup: None,
    }
}

fn events(list: Vec<TestEvent>) -> Arrivals {
    Arrivals { events: list, ..nothing() }
}

/// One step of the main loop with a history that can be written.
fn step(app: &mut App, arrivals: Arrivals, env: &Env) {
    match app.tick(arrivals, env) {
        Tick::Done => {}
        Tick::Save(metrics, lookup) => app.tick_after_save(metrics, None, lookup, env),
    }
}

fn press(app: &mut App, code: KeyCode, env: &Env) {
    app.on_key(KeyEvent::new(code, KeyModifiers::none()), env);
}

fn mbps(n: u64) -> Rate {
    Rate { bytes: n * 125_000, ns: SECOND }
}

fn mean(ns: u64) -> Mean {
    Mean { ns, part: 0, of: 1 }
}

fn live(bps: u64) -> LiveRate {
    LiveRate { bps, billionths: 0 }
}

fn sample_metrics() -> Metrics {
    Metrics {
        down: mbps(42),
        up: mbps(20),
        latency: LatencyStats {
            min_ns: 10 * MS,
            avg: mean(15 * MS),
            max_ns: 30 * MS,
            jitter: mean(2 * MS),
        },
    }
}

#[test]
fn continuous_loop_keeps_new_channel_alive_when_chaining() {
    let mut app = App::new(0);
    app.continuous_mode = true;
    app.install_fake_test_channel(SECOND);

    step(
        &mut app,
        events(vec![
            TestEvent::Phase(Phase::Connect),
            TestEvent::Finished(sample_metrics()),
        ]),
        &env(1),
    );

    assert!(app.test_tx, "chained run's channel must survive");
    assert_eq!(app.runs_completed, 1);
    assert_eq!(app.run_state, RunState::Running);
    assert_eq!(app.best_down, mbps(42));
    assert_eq!(app.take_effects(), vec![Effect::SpawnTest]);
}

#[test]
fn graceful_continuous_stop_is_not_an_error() {
    let mut app = App::new(0);
    app.continuous_mode = true;
    app.install_fake_test_channel(SECOND);

    step(&mut app, events(vec![TestEvent::Finished(sample_metrics())]), &env(1));
    assert_eq!(app.run_state, RunState::Running);

    app.install_fake_test_channel(2 * SECOND);
    app.stop_requested = true;
    step(
        &mut app,
        events(vec![TestEvent::Failed(
            "download was interrupted before it could run".to_string(),
        )]),
        &env(2),
    );

    assert_eq!(app.run_state, RunState::Finished);
    assert!(app.error.is_none());
    assert_eq!(app.runs_completed, 1);
    assert!(!app.stop_requested);
}

#[test]
fn unexpected_failure_shows_error_and_returns_to_idle() {
    let mut app = App::new(0);
    app.run_state = RunState::Running;
    app.last_test_event = Some(SECOND);
    app.install_fake_test_channel(SECOND);

    step(
        &mut app,
        events(vec![TestEvent::Failed(
            "download test failed: could not connect".to_string(),
        )]),
        &env(1),
    );

    assert_eq!(app.run_state, RunState::Idle);
    assert!(app.error.is_some());
    assert_eq!(app.error.as_deref(), Some("download test failed: could not connect"));
}

/// The watchdog must rescue a silent engine instead of hanging forever.
#[test]
fn stall_watchdog_aborts_after_silence() {
    let mut app = App::new(0);
    app.run_state = RunState::Running;
    app.phase = Phase::Connect;
    app.last_test_event = Some((100 - 25) * SECOND);

    app.run_stall_watchdog(&env(100));

    assert_eq!(app.run_state, RunState::Idle);
    assert!(app.error.is_some());
    assert_eq!(
        app.error.as_deref(),
        Some("speed test stalled — no data from the server for 20s; your connection may be unstable")
    );
}

#[test]
fn watchdog_ignores_recent_activity_in_any_phase() {
    let mut app = App::new(0);
    for phase in [Phase::Connect, Phase::Latency, Phase::Download, Phase::Upload] {
        app.run_state = RunState::Running;
        app.phase = phase;
        app.last_test_event = Some(100 * SECOND - 500 * MS);

        app.run_stall_watchdog(&env(100));

        assert_eq!(app.run_state, RunState::Running, "phase {phase:?} aborted");
        assert!(app.error.is_none());
    }
}

#[test]
fn stall_while_stop_requested_finalizes_gracefully() {
    let mut app = App::new(0);
    app.continuous_mode = true;
    app.run_state = RunState::Running;
    app.metrics = Some(sample_metrics());
    app.stop_requested = true;
    app.last_test_event = Some((100 - 25) * SECOND);

    app.run_stall_watchdog(&env(100));

    assert_eq!(app.run_state, RunState::Finished);
    assert!(app.error.is_none());
    assert!(!app.stop_requested);
}

#[test]
fn refresh_replaces_existing_connection_info() {
    let mut app = App::new(0);
    app.connection = Some(ConnectionInfo {
        client_ip: "1.2.3.4".to_string(),
        as_organization: "Old ISP".to_string(),
        asn: None,
        city: None,
        country: None,
        colo: None,
    });
    assert!(!app.connection_refreshing);

    // Simulate the lookup completing with new data.
    app.finish_connection_lookup(
        Ok(ConnectionInfo {
            client_ip: "5.6.7.8".to_string(),
            as_organization: "New ISP".to_string(),
            asn: Some(123),
            city: Some("Berlin".to_string()),
            country: Some("Germany".to_string()),
            colo: Some("FRA".to_string()),
        }),
        at(1),
    );

    let conn = app.connection.as_ref().unwrap();
    assert_eq!(conn.client_ip, "5.6.7.8");
    assert_eq!(conn.city.as_deref(), Some("Berlin"));
    assert!(!app.connection_refreshing);
}

#[test]
fn watchdog_waits_for_twenty_seconds_exactly() {
    let mut app = App::new(0);
    app.run_state = RunState::Running;
    app.last_test_event = Some(0);
    app.run_stall_watchdog(&env(20));
    assert_eq!(app.run_state, RunState::Running);
    app.run_stall_watchdog(&Env {
        now: Moment { ticks: 20 * SECOND + 1, wall: Timestamp { secs: 0, nanos: 0 } },
        client_error: None,
    });
    assert_eq!(app.run_state, RunState::Idle);
}

#[test]
fn an_empty_queue_leaves_a_run_alone() {
    let mut app = App::new(0);
    app.start_test(true, SECOND);
    for i in 1..10 {
        step(&mut app, nothing(), &env(i));
        assert!(app.test_tx);
        assert_eq!(app.run_state, RunState::Running);
    }
}

#[test]
fn a_vanished_engine_is_an_error() {
    let mut app = App::new(0);
    app.start_test(true, SECOND);
    step(&mut app, Arrivals { ended: true, ..nothing() }, &env(1));
    assert!(!app.test_tx);
    assert_eq!(app.run_state, RunState::Idle);
    assert_eq!(
        app.error.as_deref(),
        Some("the speed test stopped unexpectedly — please try again")
    );
}

#[test]
fn a_stopped_loop_ends_with_its_results() {
    let mut app = App::new(0);
    app.continuous_mode = true;
    press(&mut app, KeyCode::Enter, &env(1));
    step(&mut app, events(vec![TestEvent::Finished(sample_metrics())]), &env(2));
    assert_eq!(app.take_effects(), vec![Effect::SpawnTest, Effect::SpawnTest]);
    press(&mut app, KeyCode::Enter, &env(3));
    assert!(app.stop_requested);
    assert_eq!(app.take_effects(), vec![Effect::CancelTest]);
    // The engine, told to stop, goes without a word.
    step(&mut app, Arrivals { ended: true, ..nothing() }, &env(4));
    assert_eq!(app.run_state, RunState::Finished);
    assert!(app.error.is_none());
    assert!(!app.stop_requested);
    assert_eq!(app.runs_completed, 1);
}

#[test]
fn a_single_run_is_recorded_and_finishes() {
    let mut app = App::new(0);
    press(&mut app, KeyCode::Enter, &env(1));
    step(
        &mut app,
        events(vec![
            TestEvent::Phase(Phase::Latency),
            TestEvent::PingSample(12 * MS),
            TestEvent::LatencyDone(sample_metrics().latency),
            TestEvent::Phase(Phase::Download),
            TestEvent::Throughput { instant: live(42_600_000), avg: mbps(40) },
            TestEvent::PhaseDone,
            TestEvent::Phase(Phase::Upload),
            TestEvent::Throughput { instant: live(20_400_000), avg: mbps(19) },
            TestEvent::Finished(sample_metrics()),
            TestEvent::Failed("too late".to_string()),
        ]),
        &env(2),
    );
    assert_eq!(app.run_state, RunState::Finished);
    assert!(!app.test_tx);
    assert!(app.error.is_none());
    assert_eq!(app.pings, vec![12 * MS]);
    assert_eq!(app.down_samples, vec![43]);
    assert_eq!(app.up_samples, vec![20]);
    assert_eq!(app.down_avg, mbps(40));
    assert_eq!(app.history.len(), 1);
    let r = &app.history[0];
    assert_eq!(r.profile, "Standard");
    assert_eq!(r.grade, 'C');
    assert_eq!(r.timestamp.secs, 1_700_000_002);
    assert_eq!(r.ping, mean(15 * MS));
    assert_eq!(app.agg_down_sum, 42 * MBPS as u128 * 1_000_000_000);
    assert_eq!(app.agg_ping_sum, 15 * MS as u128 * 27_720);
}

#[test]
fn a_history_that_cannot_be_written_is_reported() {
    let mut app = App::new(0);
    app.start_test(true, SECOND);
    let e = env(2);
    match app.tick(events(vec![TestEvent::Finished(sample_metrics())]), &e) {
        Tick::Save(metrics, lookup) => {
            app.tick_after_save(metrics, Some("disk full".to_string()), lookup, &e)
        }
        Tick::Done => panic!("a completed run asks for the history to be written"),
    }
    assert_eq!(
        app.error.as_deref(),
        Some("could not save history: disk full — check disk space / permissions")
    );
    assert_eq!(app.run_state, RunState::Finished);
}

#[test]
fn errors_fade_after_fifteen_seconds() {
    let mut app = App::new(0);
    app.set_error("oops".to_string(), at(1));
    step(&mut app, nothing(), &env(16));
    assert_eq!(app.error.as_deref(), Some("oops"));
    step(&mut app, nothing(), &env(17));
    assert!(app.error.is_none());
}

#[test]
fn a_lookup_is_asked_for_once_and_a_failure_keeps_what_is_known() {
    let mut app = App::new(0);
    app.begin_connection_lookup();
    app.begin_connection_lookup();
    assert_eq!(app.take_effects(), vec![Effect::LookupConnection]);
    let info = ConnectionInfo {
        client_ip: "9.9.9.9".to_string(),
        as_organization: "ISP".to_string(),
        asn: None,
        city: None,
        country: None,
        colo: None,
    };
    step(&mut app, Arrivals { lookup: Some(Ok(info)), ..nothing() }, &env(1));
    assert!(!app.pending_meta && !app.connection_refreshing);
    press(&mut app, KeyCode::F(5), &env(2));
    step(
        &mut app,
        Arrivals { lookup: Some(Err("no route".to_string())), ..nothing() },
        &env(3),
    );
    assert_eq!(app.connection.as_ref().unwrap().client_ip, "9.9.9.9");
    assert_eq!(app.error.as_deref(), Some("connection info unavailable: no route"));
}

#[test]
fn the_monitor_pauses_for_a_test_and_comes_back() {
    let mut app = App::new(0);
    press(&mut app, KeyCode::F(2), &env(1));
    press(&mut app, KeyCode::Enter, &env(1));
    assert!(app.monitor.running);
    assert_eq!(app.take_effects(), vec![Effect::SpawnMonitor]);
    app.start_test(true, 2 * SECOND);
    assert!(app.monitor.paused && !app.monitor.running);
    assert_eq!(app.take_effects(), vec![Effect::CancelMonitor, Effect::SpawnTest]);
    // While it is paused, its key does nothing.
    press(&mut app, KeyCode::Enter, &env(2));
    assert!(app.monitor.paused);
    app.cancel_test(&env(3));
    assert!(app.monitor.running && !app.monitor.paused);
    assert_eq!(app.take_effects(), vec![Effect::CancelTest, Effect::SpawnMonitor]);
}

#[test]
fn without_a_client_no_monitor_claims_to_run() {
    let mut app = App::new(0);
    let e = Env { now: at(1), client_error: Some("no TLS".to_string()) };
    app.start_monitor(&e);
    assert!(!app.monitor.running && !app.monitor.rx && !app.monitor.cancel);
    assert_eq!(app.error.as_deref(), Some("could not initialise networking: no TLS"));
    assert!(app.take_effects().is_empty());
}

#[test]
fn probes_are_read_while_the_monitor_runs() {
    let mut app = App::new(0);
    let probes = || Arrivals {
        samples: vec![ProbeSample { rtt_ns: Some(20 * MS) }, ProbeSample { rtt_ns: None }],
        ..nothing()
    };
    step(&mut app, probes(), &env(1));
    assert_eq!(app.monitor.sent, 0);
    app.start_monitor(&env(1));
    step(&mut app, probes(), &env(2));
    assert_eq!((app.monitor.sent, app.monitor.lost), (2, 1));
}

#[test]
fn only_the_newest_snapshot_counts_and_none_while_paused() {
    let mut app = App::new(0);
    app.begin_dsl_polling();
    let snaps = || {
        let mut old = DslSnapshot::default();
        old.available = true;
        old.crc_errors = Some(1);
        let mut new = DslSnapshot::default();
        new.available = true;
        new.crc_errors = Some(2);
        Arrivals { snapshots: vec![old, new], ..nothing() }
    };
    app.tab = Tab::Dsl;
    press(&mut app, KeyCode::Enter, &env(1));
    assert!(app.dsl.paused && !app.reads_snapshots());
    step(&mut app, snaps(), &env(1));
    assert!(app.dsl.current.is_none());
    press(&mut app, KeyCode::Enter, &env(2));
    step(&mut app, snaps(), &env(2));
    assert_eq!(app.dsl.current.as_ref().unwrap().crc_errors, Some(2));
    assert!(app.dsl.incidents.is_empty());
}

#[test]
fn settings_are_fixed_while_a_test_runs() {
    let mut app = App::new(0);
    press(&mut app, KeyCode::Down, &env(1));
    assert_eq!(app.profile, Profile::Max);
    press(&mut app, KeyCode::Up, &env(1));
    assert_eq!(app.profile, Profile::Standard);
    press(&mut app, KeyCode::Char('m'), &env(1));
    assert!(app.continuous_mode);
    app.start_test(true, SECOND);
    press(&mut app, KeyCode::Char('m'), &env(1));
    press(&mut app, KeyCode::Down, &env(1));
    assert!(app.continuous_mode);
    assert_eq!(app.profile, Profile::Standard);
}

#[test]
fn escape_abandons_a_test_first_and_then_quits() {
    let mut app = App::new(0);
    app.start_test(true, SECOND);
    press(&mut app, KeyCode::Esc, &env(1));
    assert_eq!(app.run_state, RunState::Idle);
    assert!(!app.should_quit && !app.test_tx);
    press(&mut app, KeyCode::Esc, &env(1));
    assert!(app.should_quit);
}

#[test]
fn ctrl_c_quits_even_from_an_editor() {
    let mut app = App::new(0);
    app.tab = Tab::Monitor;
    press(&mut app, KeyCode::F(7), &env(1));
    assert!(app.monitor.editing_target);
    app.start_test(true, SECOND);
    app.on_key(KeyEvent::new(KeyCode::Char('c'), KeyModifiers::control()), &env(1));
    assert!(app.should_quit);
    assert_eq!(app.run_state, RunState::Idle);
}

#[test]
fn ctrl_c_quits_on_a_russian_layout() {
    let mut app = App::new(0);
    app.on_key(KeyEvent::new(KeyCode::Char('с'), KeyModifiers::control()), &env(1));
    assert!(app.should_quit);
}

#[test]
fn a_running_test_keeps_a_channel() {
    let mut app = App::new(0);
    app.start_test(true, SECOND);
    step(&mut app, nothing(), &env(2));
    assert!(app.run_state == RunState::Running && app.test_tx);
    step(&mut app, Arrivals { ended: true, ..nothing() }, &env(3));
    assert!(app.run_state == RunState::Idle && !app.test_tx && app.error.is_some());
}

#[test]
fn releases_do_nothing() {
    let mut app = App::new(0);
    let mut up = KeyEvent::new(KeyCode::F(10), KeyModifiers::none());
    up.kind = KeyEventKind::Release;
    app.on_key(up, &env(1));
    assert!(!app.should_quit);
}

#[test]
fn tabs_cycle_both_ways() {
    let mut app = App::new(0);
    let mut seen = Vec::new();
    for _ in 0..5 {
        seen.push(app.tab);
        press(&mut app, KeyCode::Tab, &env(1));
    }
    assert_eq!(seen, Tab::ALL.to_vec());
    assert_eq!(app.tab, Tab::Test);
    press(&mut app, KeyCode::BackTab, &env(1));
    assert_eq!(app.tab, Tab::Help);
    assert_eq!(Tab::Monitor.index(), 1);
    assert_eq!(Tab::Help.next(), Tab::Test);
    assert_eq!(Tab::Dsl.prev(), Tab::Monitor);
}

#[test]
fn the_target_editor_applies_a_host_name() {
    let mut app = App::new(0);
    app.tab = Tab::Monitor;
    press(&mut app, KeyCode::Enter, &env(1));
    press(&mut app, KeyCode::Char('t'), &env(1));
    assert_eq!(app.monitor.input_buf, "speed.cloudflare.com");
    for _ in 0.."speed.cloudflare.com".len() {
        press(&mut app, KeyCode::Backspace, &env(1));
    }
    for c in " HTTPS://nothing".chars() {
        press(&mut app, KeyCode::Char(c), &env(1));
    }
    app.take_effects();
    press(&mut app, KeyCode::Enter, &env(2));
    assert!(!app.monitor.editing_target);
    assert_eq!(
        app.error.as_deref(),
        Some("'HTTPS://nothing' is not a valid host name — expected something like example.com")
    );
    assert_eq!(app.monitor.target, "speed.cloudflare.com");

    press(&mut app, KeyCode::F(7), &env(3));
    app.monitor.input_buf = " https://Example.com/ ".to_string();
    press(&mut app, KeyCode::Enter, &env(3));
    assert_eq!(app.monitor.target, "example.com");
    assert_eq!(app.take_effects(), vec![Effect::CancelMonitor, Effect::SpawnMonitor]);
}

#[test]
fn an_input_field_is_limited() {
    let mut app = App::new(0);
    app.tab = Tab::Monitor;
    app.monitor.editing_target = true;
    for _ in 0..200 {
        press(&mut app, KeyCode::Char('é'), &env(1));
    }
    assert_eq!(app.monitor.input_buf.chars().count(), 128);
    press(&mut app, KeyCode::Esc, &env(1));
    assert!(!app.monitor.editing_target);
    assert!(!app.should_quit);
}

#[test]
fn the_modem_editor_applies_all_fields() {
    let mut app = App::new(0);
    app.begin_dsl_polling();
    app.take_effects();
    app.tab = Tab::Dsl;
    press(&mut app, KeyCode::F(7), &env(1));
    assert_eq!(app.dsl.buf_addr, "fritz.box");
    press(&mut app, KeyCode::Char('x'), &env(1));
    press(&mut app, KeyCode::Down, &env(1));
    press(&mut app, KeyCode::Char('u'), &env(1));
    press(&mut app, KeyCode::Char(' '), &env(1));
    press(&mut app, KeyCode::Down, &env(1));
    press(&mut app, KeyCode::Down, &env(1));
    assert_eq!(app.dsl.edit_field, 2);
    press(&mut app, KeyCode::Char('p'), &env(1));
    press(&mut app, KeyCode::Char(' '), &env(1));
    press(&mut app, KeyCode::Up, &env(1));
    assert_eq!(app.dsl.edit_field, 1);
    press(&mut app, KeyCode::Enter, &env(1));
    assert_eq!(app.dsl.config.host, "fritz.boxx");
    assert_eq!(app.dsl.config.username, "u");
    assert_eq!(app.dsl.config.password, "p ");
    assert!(!app.dsl.editing);
    assert_eq!(app.take_effects(), vec![Effect::CancelPoller, Effect::SpawnPoller]);

    press(&mut app, KeyCode::Char('t'), &env(2));
    app.dsl.buf_addr = "   ".to_string();
    press(&mut app, KeyCode::Enter, &env(2));
    assert_eq!(app.dsl.config.host, "fritz.boxx");
    assert!(app.take_effects().is_empty());
}

fn record(n: u64) -> TestRecord {
    TestRecord {
        timestamp: Timestamp { secs: n as i64, nanos: 0 },
        profile: "Quick".to_string(),
        down: mbps(n),
        up: mbps(1),
        ping: mean(10 * MS),
        jitter: mean(MS),
        grade: 'F',
    }
}

#[test]
fn history_entries_are_selected_and_deleted() {
    let mut app = App::new(0);
    app.load_history(vec![record(1), record(2), record(3)]);
    assert_eq!(app.history_selected, 2);
    app.tab = Tab::History;
    press(&mut app, KeyCode::Down, &env(1));
    assert_eq!(app.history_selected, 2);
    press(&mut app, KeyCode::Char('k'), &env(1));
    assert_eq!(app.history_selected, 1);
    press(&mut app, KeyCode::Delete, &env(1));
    assert_eq!(app.history.iter().map(|r| r.down).collect::<Vec<_>>(), vec![mbps(1), mbps(3)]);
    assert_eq!(app.history_selected, 0);
    assert_eq!(app.take_effects(), vec![Effect::SaveHistory]);
    press(&mut app, KeyCode::Up, &env(1));
    assert_eq!(app.history_selected, 0);
    press(&mut app, KeyCode::Char('x'), &env(1));
    assert!(app.history.is_empty());
    assert_eq!(app.take_effects(), vec![Effect::SaveHistory]);
    app.dispatch(Action::DeleteEntry, &env(1));
    app.dispatch(Action::ClearAll, &env(1));
    assert!(app.take_effects().is_empty());
}

#[test]
fn graphs_keep_a_window() {
    let mut app = App::new(0);
    app.start_test(true, SECOND);
    let mut list = vec![TestEvent::Phase(Phase::Download)];
    for i in 0..700u64 {
        list.push(TestEvent::Throughput { instant: live(i * MBPS), avg: mbps(0) });
    }
    step(&mut app, events(list), &env(2));
    assert_eq!(app.down_samples.len(), 600);
    assert_eq!(app.down_samples[0], 100);
    assert_eq!(app.down_samples[599], 699);
    assert!(app.up_samples.is_empty());
}

#[test]
fn the_modem_poller_is_replaced() {
    let mut app = App::new(0);
    app.begin_dsl_polling();
    app.begin_dsl_polling();
    assert_eq!(
        app.take_effects(),
        vec![Effect::SpawnPoller, Effect::CancelPoller, Effect::SpawnPoller]
    );
    app.stop_dsl_polling();
    assert!(!app.dsl.polling);
    assert_eq!(app.take_effects(), vec![Effect::CancelPoller]);
}

#[test]
fn gaming_mode_probes_twice_as_often() {
    let mut app = App::new(0);
    assert_eq!(app.monitor.interval_ms, 1000);
    app.toggle_gaming();
    assert!(app.monitor.gaming);
    assert_eq!(app.monitor.interval_ms, 500);
    app.toggle_gaming();
    assert_eq!(app.monitor.interval_ms, 1000);
}

#[test]
fn grades_follow_the_download_rate() {
    let grades: Vec<(u64, char, Color)> = vec![
        (300, 'S', Color::LightGreen),
        (299, 'A', Color::Green),
        (100, 'A', Color::Green),
        (50, 'B', Color::Yellow),
        (25, 'C', Color::LightYellow),
        (10, 'D', Color::LightRed),
        (9, 'F', Color::Red),
    ];
    for (rate, grade, color) in grades {
        assert_eq!(App::grade(mbps(rate)), (grade, color));
    }
}

#[test]
fn targets_are_normalized_and_judged() {
    assert_eq!(normalize_stored_target(" https://Example.com// "), "example.com");
    assert_eq!(normalize_stored_target("http://A.B"), "a.b");
    assert!(valid_target("example.com"));
    assert!(valid_target("10.0.0.1:8080"));
    assert!(!valid_target(""));
    assert!(!valid_target("localhost"));
    assert!(!valid_target("exa mple.com"));
    assert!(!valid_target("exämple.com"));
}

#[test]
fn the_history_file_is_found_and_kept_safe() {
    let some = |s: &str| Some(s.to_string());
    assert!(matches!(
        history_place(some("/x.json"), some("u"), some("h")),
        HistoryPlace::File(f) if f == "/x.json"
    ));
    assert!(matches!(
        history_place(None, some("u"), some("h")),
        HistoryPlace::Directory(d) if d == "u"
    ));
    assert!(matches!(
        history_place(None, None, some("h")),
        HistoryPlace::Directory(d) if d == "h"
    ));
    assert!(matches!(
        history_place(None, None, None),
        HistoryPlace::Directory(d) if d == "."
    ));
    let (records, aside) = starting_history(HistoryFile::Corrupt);
    assert!(records.is_empty() && aside);
    let (records, aside) = starting_history(HistoryFile::Missing);
    assert!(records.is_empty() && !aside);
    let (records, aside) = starting_history(HistoryFile::Records(vec![record(1)]));
    assert!(records.len() == 1 && !aside);
}
