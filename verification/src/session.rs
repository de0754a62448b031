//! What holds of a whole session, whatever keys are pressed and whatever
//! arrives.

use crate::app::{
    fresh_app, grade_of, AppView, Effect, EnvView, RunState, Tab, ERROR_VISIBLE,
};
use crate::control::{host_text, stored_target};
use crate::dsl::SnapshotView;
use crate::keys::{
    ctrl_c, editor_meaning, resolve_from, Action, EditorKey, KeyCode, KeyEvent, KeyEventKind,
};
use crate::measure::{added, at_least_one, LiveRate, Moment, Rate, MEGABIT};
use crate::modem::DslView;
use crate::monitor::{MonitorView, ProbeSample};
use crate::net::{ConnectionView, LatencyStats, Metrics, Phase, Profile, TestEventView};
use crate::style::Color;
use crate::text::{trim, with_char, without_last, INPUT_LIMIT};
use crate::tick::{graph_sample, ArrivalsView, RunOutcomeView};
use vstd::prelude::*;

verus! {

impl AppView {
    /// The flags of a session agree with each other: a running test has an open
    /// channel, has been heard of and can be told to stop; the monitor never
    /// runs beside it; the monitor and the modem poller claim to run exactly
    /// where there is a task; a monitor is paused only for a running test; a
    /// lookup is awaited exactly while the strip shows it; an error is shown
    /// exactly while it has a deadline; the monitor has a target that can be a
    /// host name.
    pub open spec fn coherent(self) -> bool {
        &&& self.run_state == RunState::Running ==> self.test_tx && self.cancel_flag
            && self.last_test_event is Some && !self.monitor.running
        &&& self.monitor.running == self.monitor.cancel
        &&& self.monitor.running == self.monitor.rx
        &&& self.monitor.paused ==> self.run_state == RunState::Running
        &&& self.dsl.polling == self.dsl.cancel
        &&& self.dsl.polling == self.dsl.rx
        &&& self.pending_meta == self.connection_refreshing
        &&& self.error is Some <==> self.error_until is Some
        &&& host_text(self.monitor.target)
    }
}

// ---- probes and snapshots leave the flags alone ---------------------------

/// The flags and the target of a monitor.
pub open spec fn same_task(a: MonitorView, b: MonitorView) -> bool {
    &&& a.running == b.running
    &&& a.paused == b.paused
    &&& a.cancel == b.cancel
    &&& a.rx == b.rx
    &&& a.target == b.target
}

proof fn probes_keep_the_task(v: MonitorView, samples: Seq<ProbeSample>, m: Moment)
    ensures
        same_task(v.sampled_all(samples, m), v),
    decreases samples.len(),
{
    if samples.len() > 0 {
        probes_keep_the_task(v, samples.drop_last(), m);
    }
}

proof fn snapshots_keep_the_poller(v: DslView, snap: SnapshotView, m: Moment)
    ensures
        v.polled(snap, m).polling == v.polling,
        v.polled(snap, m).cancel == v.cancel,
        v.polled(snap, m).rx == v.rx,
{
    reveal(DslView::judged_uptime);
    reveal(DslView::judged_crc);
    reveal(DslView::judged_wireless);
    reveal(DslView::judged_snr);
    reveal(DslView::judged_attenuation);
    reveal(DslView::judged_rates);
}

// ---- every step keeps a session coherent ----------------------------------

proof fn monitor_steps_keep(s: AppView, env: EnvView)
    requires
        s.coherent(),
    ensures
        s.monitor_stopped().coherent() || s.monitor.paused || s.run_state == RunState::Running,
        s.monitor_started(env).coherent(),
        s.monitor_toggled(env).coherent(),
{
    reveal(AppView::monitor_stopped);
    reveal(AppView::monitor_started);
    reveal(AppView::monitor_toggled);
    reveal(AppView::errored);
}

/// A session that is coherent but for a monitor that still waits for a test
/// which no longer runs is coherent once the monitor has resumed.
proof fn resuming_restores(s: AppView, env: EnvView)
    requires
        s.run_state != RunState::Running,
        s.monitor.paused ==> !s.monitor.running,
        (AppView { monitor: s.monitor.held(false), ..s }).coherent(),
    ensures
        s.monitor_resumed(env).coherent(),
        s.monitor_resumed(env).run_state == s.run_state,
        s.monitor_resumed(env).test_tx == s.test_tx,
{
    reveal(AppView::monitor_resumed);
    reveal(AppView::monitor_started);
    reveal(AppView::errored);
}

proof fn run_ends_keep(s: AppView, msg: Seq<char>, env: EnvView)
    requires
        s.coherent(),
    ensures
        s.finalized(env).coherent(),
        s.finalized(env).run_state == RunState::Finished,
        s.aborted(msg, env).coherent(),
        s.aborted(msg, env).run_state == RunState::Idle,
        s.run_failed(msg, env).coherent(),
        s.run_failed(msg, env).run_state != RunState::Running,
        s.test_cancelled(env).coherent(),
        s.test_cancelled(env).run_state == RunState::Idle,
        s.closed(env).coherent(),
        s.closed(env).run_state != RunState::Running,
        s.watched(env).coherent(),
{
    reveal(AppView::finalized);
    reveal(AppView::aborted);
    reveal(AppView::run_failed);
    reveal(AppView::test_cancelled);
    reveal(AppView::test_told_to_stop);
    reveal(AppView::errored);
    reveal(AppView::watched);
    resuming_restores(
        AppView { run_state: RunState::Finished, stop_requested: false, ..s },
        env,
    );
    resuming_restores(AppView { run_state: RunState::Idle, ..s.errored(msg, env.now) }, env);
    resuming_restores(
        AppView {
            test_tx: false,
            run_state: RunState::Idle,
            stop_requested: false,
            ..s.test_told_to_stop()
        },
        env,
    );
    stall_keeps(s, env);
    closing_keeps(s, env);
}

proof fn stall_keeps(s: AppView, env: EnvView)
    requires
        s.coherent(),
    ensures
        s.watched(env).coherent(),
{
    reveal(AppView::finalized);
    reveal(AppView::aborted);
    reveal(AppView::errored);
    reveal(AppView::watched);
    let msg =
        "speed test stalled — no data from the server for 20s; your connection may be unstable"@;
    resuming_restores(
        AppView { run_state: RunState::Finished, stop_requested: false, ..s },
        env,
    );
    resuming_restores(AppView { run_state: RunState::Idle, ..s.errored(msg, env.now) }, env);
}

proof fn closing_keeps(s: AppView, env: EnvView)
    requires
        s.coherent(),
    ensures
        s.closed(env).coherent(),
        s.closed(env).run_state != RunState::Running,
        !s.closed(env).test_tx,
{
    reveal(AppView::closed);
    reveal(AppView::finalized);
    reveal(AppView::aborted);
    reveal(AppView::errored);
    let msg = "the speed test stopped unexpectedly — please try again"@;
    let t = AppView { test_tx: false, ..s };
    resuming_restores(AppView { run_state: RunState::Idle, ..t.errored(msg, env.now) }, env);
    resuming_restores(
        AppView { run_state: RunState::Finished, stop_requested: false, ..t },
        env,
    );
}

proof fn starting_keeps(s: AppView, reset: bool, now: u64)
    requires
        s.coherent(),
    ensures
        s.test_started(reset, now).coherent(),
        s.test_started(reset, now).run_state == RunState::Running,
{
    reveal(AppView::test_started);
    reveal(AppView::run_reset);
    reveal(AppView::monitor_paused);
    reveal(AppView::monitor_stopped);
}

proof fn leaving_keeps(s: AppView, env: EnvView)
    requires
        s.coherent(),
    ensures
        s.quitting(env).coherent(),
        s.escaped(env).coherent(),
{
    reveal(AppView::quitting);
    reveal(AppView::escaped);
    run_ends_keep(s, Seq::empty(), env);
}

proof fn test_actions_keep(s: AppView, tab: Tab, profile: Profile, env: EnvView)
    requires
        s.coherent(),
    ensures
        s.looking_up().coherent(),
        s.on_tab(tab).coherent(),
        s.test_toggled(env.now.ticks).coherent(),
        s.continuous_toggled().coherent(),
        s.with_profile(profile).coherent(),
{
    reveal(AppView::looking_up);
    reveal(AppView::on_tab);
    reveal(AppView::test_toggled);
    reveal(AppView::stopping);
    reveal(AppView::test_told_to_stop);
    reveal(AppView::continuous_toggled);
    reveal(AppView::with_profile);
    starting_keeps(s, true, env.now.ticks);
}

proof fn actions_keep(s: AppView, action: Action, env: EnvView)
    requires
        s.coherent(),
    ensures
        s.dispatched(action, env).coherent(),
{
    match action {
        Action::Quit => leaving_keeps(s, env),
        Action::CancelTest => leaving_keeps(s, env),
        Action::TabNext => test_actions_keep(s, s.tab.successor(), s.profile, env),
        Action::TabPrev => test_actions_keep(s, s.tab.predecessor(), s.profile, env),
        Action::TabTest => test_actions_keep(s, Tab::Test, s.profile, env),
        Action::TabMonitor => test_actions_keep(s, Tab::Monitor, s.profile, env),
        Action::TabHistory => test_actions_keep(s, Tab::History, s.profile, env),
        Action::TabHelp => test_actions_keep(s, Tab::Help, s.profile, env),
        Action::TabDsl => test_actions_keep(s, Tab::Dsl, s.profile, env),
        Action::ProfileNext => test_actions_keep(s, s.tab, s.profile.successor(), env),
        Action::ProfilePrev => test_actions_keep(s, s.tab, s.profile.predecessor(), env),
        Action::RefreshConnection => test_actions_keep(s, s.tab, s.profile, env),
        Action::StartStopTest => test_actions_keep(s, s.tab, s.profile, env),
        Action::ToggleContinuous => test_actions_keep(s, s.tab, s.profile, env),
        Action::MonitorToggle => monitor_steps_keep(s, env),
        _ => tab_actions_keep(s, env),
    }
}

proof fn tab_actions_keep(s: AppView, env: EnvView)
    requires
        s.coherent(),
    ensures
        s.gaming_toggled().coherent(),
        s.target_editor_opened().coherent(),
        s.session_cleared(env.now.ticks).coherent(),
        s.modem_toggled().coherent(),
        s.modem_editor_opened().coherent(),
        s.modem_log_cleared().coherent(),
        s.selected_up().coherent(),
        s.selected_down().coherent(),
        s.entry_deleted().coherent(),
        s.history_cleared().coherent(),
{
    reveal(AppView::gaming_toggled);
    reveal(AppView::target_editor_opened);
    reveal(AppView::session_cleared);
    reveal(AppView::modem_toggled);
    reveal(AppView::polling_begun);
    reveal(AppView::modem_editor_opened);
    reveal(AppView::modem_log_cleared);
    reveal(AppView::selected_up);
    reveal(AppView::selected_down);
    reveal(AppView::entry_deleted);
    reveal(AppView::history_cleared);
}

proof fn retargeting_keeps(s: AppView, entered: Seq<char>, env: EnvView)
    requires
        s.coherent(),
    ensures
        s.retargeted(entered, env).coherent(),
{
    reveal(AppView::retargeted);
    reveal(AppView::errored);
    reveal(AppView::monitor_stopped);
    reveal(AppView::session_cleared);
    reveal(AppView::monitor_started);
}

proof fn target_editor_keeps(s: AppView, key: EditorKey, env: EnvView)
    requires
        s.coherent(),
    ensures
        s.target_edited(key, env).coherent(),
{
    reveal(AppView::target_editor_closed);
    reveal(AppView::target_confirmed);
    reveal(AppView::target_erased);
    reveal(AppView::target_typed);
    retargeting_keeps(s.target_editor_closed(), trim(s.monitor.input_buf), env);
}

proof fn polling_keeps(s: AppView)
    requires
        s.coherent(),
    ensures
        s.polling_stopped().coherent(),
        s.polling_begun().coherent(),
{
    reveal(AppView::polling_stopped);
    reveal(AppView::polling_begun);
}

proof fn modem_editor_keeps(s: AppView, key: EditorKey)
    requires
        s.coherent(),
    ensures
        s.modem_edited(key).coherent(),
{
    match key {
        EditorKey::Confirm => {
            reveal(AppView::modem_confirmed);
            reveal(AppView::modem_editor_closed);
            let c = s.modem_editor_closed();
            let d = AppView { dsl: c.dsl.configured(), ..c };
            polling_keeps(d);
            polling_keeps(d.polling_stopped());
        },
        EditorKey::Cancel => {
            reveal(AppView::modem_editor_closed);
        },
        EditorKey::Backspace => {
            reveal(AppView::modem_erased);
        },
        EditorKey::Char(c) => {
            reveal(AppView::modem_typed);
        },
        EditorKey::Ignored => {},
    }
}

proof fn arrivals_keep(s: AppView, arrivals: ArrivalsView, m: Moment)
    requires
        s.coherent(),
    ensures
        s.prepared(arrivals, m).coherent(),
{
    reveal(AppView::frame_advanced);
    reveal(AppView::error_expired);
    reveal(AppView::probed);
    reveal(AppView::modem_read);
    let t = s.frame_advanced().error_expired(m.ticks);
    probes_keep_the_task(t.monitor, arrivals.samples, m);
    let u = t.probed(arrivals.samples, m);
    snapshots_keep_the_poller(u.dsl, arrivals.snapshots.last(), m);
}

proof fn events_keep(s: AppView, events: Seq<TestEventView>, m: Moment)
    requires
        s.coherent(),
    ensures
        s.drained(events, m).0.coherent(),
    decreases events.len(),
{
    reveal(AppView::heard);
    if events.len() > 0 {
        match events[0] {
            TestEventView::Finished(metrics) => {},
            TestEventView::Failed(msg) => {},
            ev => {
                events_keep(s.heard(ev, m), events.drop_first(), m);
            },
        }
    }
}

proof fn settling_keeps(
    s: AppView,
    lookup: Option<Result<ConnectionView, Seq<char>>>,
    env: EnvView,
)
    requires
        s.coherent(),
    ensures
        s.settled(lookup, env).coherent(),
        s.settled(lookup, env).run_state == s.watched(env).run_state,
        s.settled(lookup, env).last_test_event == s.watched(env).last_test_event,
{
    reveal(AppView::lookup_taken);
    reveal(AppView::looked_up);
    reveal(AppView::errored);
    stall_keeps(s, env);
}

// ---- laws -----------------------------------------------------------------

/// A session is coherent when it begins.
pub proof fn a_session_begins_coherent(now: u64)
    ensures
        fresh_app(MonitorView::fresh(now), DslView::fresh()).coherent(),
{
    let target = "speed.cloudflare.com"@;
    reveal_strlit("speed.cloudflare.com");
    assert(target[5] == '.');
    assert(host_text(target));
}

/// No key ever makes a coherent session incoherent.
pub proof fn every_key_keeps_a_session_coherent(s: AppView, key: KeyEvent, env: EnvView)
    requires
        s.coherent(),
    ensures
        s.keyed(key, env).coherent(),
{
    reveal(AppView::modem_keyed);
    target_editor_keeps(s, editor_meaning(key), env);
    modem_editor_keeps(s, editor_meaning(key));
    leaving_keeps(s, env);
    match resolve_from(0, key, s.tab) {
        Some(action) => actions_keep(s, action, env),
        None => {},
    }
}

/// No step of the main loop ever makes a coherent session incoherent, whatever
/// arrives and whether or not the history can be written.
pub proof fn every_step_keeps_a_session_coherent(
    s: AppView,
    arrivals: ArrivalsView,
    failure: Option<Seq<char>>,
    env: EnvView,
)
    requires
        s.coherent(),
    ensures
        s.ticked(arrivals, env).0.coherent(),
        match s.ticked(arrivals, env).1 {
            Some(metrics) => s.ticked(arrivals, env).0.ticked_after_save(
                metrics,
                failure,
                arrivals.lookup,
                env,
            ).coherent(),
            None => true,
        },
{
    arrivals_keep(s, arrivals, env.now);
    let p = s.prepared(arrivals, env.now);
    settling_keeps(p, arrivals.lookup, env);
    if p.test_tx {
        events_keep(p, arrivals.events, env.now);
        let (d, end) = p.drained(arrivals.events, env.now);
        match end {
            RunOutcomeView::Pending => {
                closing_keeps(d, env);
                settling_keeps(d, arrivals.lookup, env);
                settling_keeps(d.closed(env), arrivals.lookup, env);
            },
            RunOutcomeView::Failed(msg) => {
                run_ends_keep(d, msg, env);
                let f = d.run_failed(msg, env);
                closing_keeps(f, env);
                settling_keeps(f.closed(env), arrivals.lookup, env);
            },
            RunOutcomeView::Finished(metrics) => {
                reveal(AppView::run_recorded);
                let r = AppView { metrics: Some(metrics), ..d }.run_recorded(metrics, env.now);
                assert(r.coherent());
                saving_keeps(r, metrics, failure, arrivals.lookup, env);
            },
        }
    }
}

proof fn saving_keeps(
    s: AppView,
    metrics: Metrics,
    failure: Option<Seq<char>>,
    lookup: Option<Result<ConnectionView, Seq<char>>>,
    env: EnvView,
)
    requires
        s.coherent(),
    ensures
        s.ticked_after_save(metrics, failure, lookup, env).coherent(),
{
    reveal(AppView::history_saved);
    reveal(AppView::errored);
    reveal(AppView::run_counted);
    let t = s.history_saved(failure, env.now).run_counted(metrics);
    assert(t.coherent());
    starting_keeps(t, false, env.now.ticks);
    settling_keeps(t.test_started(false, env.now.ticks), lookup, env);
    run_ends_keep(t, Seq::empty(), env);
    closing_keeps(t.finalized(env), env);
    settling_keeps(t.finalized(env).closed(env), lookup, env);
}

/// A complete step never leaves a run going that has been silent for too long:
/// a silent hang always ends, as an error or, where a stop was asked for, as
/// the end of the session.
pub proof fn no_step_leaves_a_stalled_run(s: AppView, arrivals: ArrivalsView, env: EnvView)
    requires
        s.coherent(),
        s.ticked(arrivals, env).1 is None,
    ensures
        !s.ticked(arrivals, env).0.stalled(env.now.ticks),
{
    arrivals_keep(s, arrivals, env.now);
    let p = s.prepared(arrivals, env.now);
    watching_settles(p, arrivals.lookup, env);
    if p.test_tx {
        events_keep(p, arrivals.events, env.now);
        let (d, end) = p.drained(arrivals.events, env.now);
        match end {
            RunOutcomeView::Pending => {
                closing_keeps(d, env);
                watching_settles(d, arrivals.lookup, env);
                watching_settles(d.closed(env), arrivals.lookup, env);
            },
            RunOutcomeView::Failed(msg) => {
                run_ends_keep(d, msg, env);
                let f = d.run_failed(msg, env);
                closing_keeps(f, env);
                watching_settles(f.closed(env), arrivals.lookup, env);
            },
            RunOutcomeView::Finished(metrics) => {},
        }
    }
}

proof fn watching_settles(
    s: AppView,
    lookup: Option<Result<ConnectionView, Seq<char>>>,
    env: EnvView,
)
    requires
        s.coherent(),
    ensures
        !s.settled(lookup, env).stalled(env.now.ticks),
{
    settling_keeps(s, lookup, env);
    reveal(AppView::watched);
    if s.stalled(env.now.ticks) {
        run_ends_keep(
            s,
            "speed test stalled — no data from the server for 20s; your connection may be unstable"@,
            env,
        );
    }
}

/// A test that is stuck is given up: it no longer runs, and an error says so
/// unless the user had asked for the stop.
pub proof fn a_stalled_run_is_given_up(s: AppView, env: EnvView)
    requires
        s.coherent(),
        s.stalled(env.now.ticks),
    ensures
        s.stop_requested ==> s.watched(env).run_state == RunState::Finished,
        !s.stop_requested ==> s.watched(env).run_state == RunState::Idle && s.watched(
            env,
        ).error is Some,
        !s.watched(env).stop_requested,
{
    reveal(AppView::watched);
    reveal(AppView::finalized);
    reveal(AppView::aborted);
    reveal(AppView::errored);
    reveal(AppView::monitor_resumed);
    reveal(AppView::monitor_started);
}

/// A running test that is not silent for too long is left alone, in whatever
/// phase it is.
pub proof fn recent_activity_is_left_alone(s: AppView, env: EnvView)
    requires
        !s.stalled(env.now.ticks),
    ensures
        s.watched(env) == s,
{
    reveal(AppView::watched);
}

/// While the queue of events is merely empty the channel stays open and the run
/// goes on.
pub proof fn an_empty_queue_keeps_the_channel(s: AppView, arrivals: ArrivalsView, env: EnvView)
    requires
        s.test_tx,
        s.run_state == RunState::Running,
        arrivals.events.len() == 0,
        !arrivals.ended,
        !s.stalled(env.now.ticks),
    ensures
        s.run_heard(arrivals, env).0.test_tx,
        s.run_heard(arrivals, env).0.run_state == RunState::Running,
        s.run_heard(arrivals, env).1 is None,
{
    reveal(AppView::watched);
    reveal(AppView::lookup_taken);
    reveal(AppView::looked_up);
    reveal(AppView::errored);
}

/// A step never leaves a test running without a channel, whatever the state and
/// whatever has arrived. Where nothing is queued and the engine of a running
/// test that nobody asked to stop is gone, the step ends idle, with the channel
/// closed and an error shown.
pub proof fn a_running_test_has_a_channel(
    s: AppView,
    arrivals: ArrivalsView,
    failure: Option<Seq<char>>,
    env: EnvView,
)
    requires
        s.test_tx,
    ensures
        ({
            let (t, done) = s.ticked(arrivals, env);
            &&& t.run_state == RunState::Running ==> t.test_tx
            &&& match done {
                Some(metrics) => ({
                    let u = t.ticked_after_save(metrics, failure, arrivals.lookup, env);
                    u.run_state == RunState::Running ==> u.test_tx
                }),
                None => true,
            }
            &&& arrivals.events.len() == 0 && arrivals.ended && s.run_state == RunState::Running
                && !s.stop_requested ==> done is None && !t.test_tx && t.run_state
                == RunState::Idle && t.error is Some
        }),
{
    let p = s.prepared(arrivals, env.now);
    assert(p.test_tx && p.run_state == s.run_state && p.stop_requested == s.stop_requested) by {
        reveal(AppView::frame_advanced);
        reveal(AppView::error_expired);
        reveal(AppView::probed);
        reveal(AppView::modem_read);
    }
    events_keep_the_channel(p, arrivals.events, env.now);
    let (d, end) = p.drained(arrivals.events, env.now);
    match end {
        RunOutcomeView::Pending => {
            closing_ends_the_run(d, env);
            settling_keeps_the_channel(d, arrivals.lookup, env);
            settling_keeps_the_channel(d.closed(env), arrivals.lookup, env);
        },
        RunOutcomeView::Failed(msg) => {
            let f = d.run_failed(msg, env);
            closing_ends_the_run(f, env);
            settling_keeps_the_channel(f.closed(env), arrivals.lookup, env);
        },
        RunOutcomeView::Finished(metrics) => {
            let r = AppView { metrics: Some(metrics), ..d }.run_recorded(metrics, env.now);
            assert(r.test_tx) by {
                reveal(AppView::run_recorded);
            }
            let c = r.history_saved(failure, env.now).run_counted(metrics);
            let next = c.test_started(false, env.now.ticks);
            assert(next.test_tx) by {
                reveal(AppView::test_started);
            }
            settling_keeps_the_channel(next, arrivals.lookup, env);
            closing_ends_the_run(c.finalized(env), env);
            settling_keeps_the_channel(c.finalized(env).closed(env), arrivals.lookup, env);
        },
    }
}

proof fn events_keep_the_channel(s: AppView, events: Seq<TestEventView>, m: Moment)
    ensures
        s.drained(events, m).0.test_tx == s.test_tx,
    decreases events.len(),
{
    if events.len() > 0 {
        let next = s.heard(events[0], m);
        assert(next.test_tx == s.test_tx) by {
            reveal(AppView::heard);
        }
        events_keep_the_channel(next, events.drop_first(), m);
    }
}

proof fn closing_ends_the_run(s: AppView, env: EnvView)
    ensures
        !s.closed(env).test_tx,
        s.closed(env).run_state != RunState::Running,
        s.run_state == RunState::Running && !s.stop_requested ==> s.closed(env).run_state
            == RunState::Idle && s.closed(env).error is Some,
{
    reveal(AppView::closed);
    reveal(AppView::finalized);
    reveal(AppView::aborted);
    reveal(AppView::errored);
    reveal(AppView::monitor_resumed);
    reveal(AppView::monitor_started);
}

proof fn settling_keeps_the_channel(
    s: AppView,
    lookup: Option<Result<ConnectionView, Seq<char>>>,
    env: EnvView,
)
    requires
        s.run_state == RunState::Running ==> s.test_tx,
    ensures
        ({
            let t = s.settled(lookup, env);
            &&& t.run_state == RunState::Running ==> t.test_tx
            &&& s.run_state != RunState::Running ==> t.run_state == s.run_state && t.test_tx
                == s.test_tx && (s.error is Some ==> t.error is Some)
        }),
{
    reveal(AppView::watched);
    reveal(AppView::finalized);
    reveal(AppView::aborted);
    reveal(AppView::errored);
    reveal(AppView::monitor_resumed);
    reveal(AppView::monitor_started);
    reveal(AppView::lookup_taken);
    reveal(AppView::looked_up);
}

/// An engine that vanishes without an outcome never leaves the test running: it
/// ends idle, with the channel closed and an error shown; where a stop was asked
/// for, the session ends as finished and without a new error (unless a paused
/// monitor cannot be started again).
pub proof fn a_vanished_engine_ends_the_run(s: AppView, env: EnvView)
    requires
        s.coherent(),
        s.run_state == RunState::Running,
    ensures
        !s.closed(env).test_tx,
        !s.stop_requested ==> s.closed(env).run_state == RunState::Idle && s.closed(
            env,
        ).error is Some,
        s.stop_requested ==> s.closed(env).run_state == RunState::Finished && !s.closed(
            env,
        ).stop_requested,
        s.stop_requested && (!s.monitor.paused || env.client_error is None) ==> s.closed(env).error
            == s.error,
{
    closing_keeps(s, env);
    reveal(AppView::closed);
    reveal(AppView::finalized);
    reveal(AppView::aborted);
    reveal(AppView::errored);
    reveal(AppView::monitor_resumed);
    reveal(AppView::monitor_started);
}

/// A stop that was asked for is no error: whatever the engine reports, the
/// session ends as finished, with the results so far and no new error (unless a
/// paused monitor cannot be started again).
pub proof fn a_requested_stop_is_no_error(s: AppView, msg: Seq<char>, env: EnvView)
    requires
        s.stop_requested,
    ensures
        s.run_failed(msg, env).run_state == RunState::Finished,
        !s.run_failed(msg, env).stop_requested,
        s.run_failed(msg, env).runs_completed == s.runs_completed,
        s.run_failed(msg, env).metrics == s.metrics,
        !s.monitor.paused || env.client_error is None ==> s.run_failed(msg, env).error == s.error,
{
    reveal(AppView::run_failed);
    reveal(AppView::finalized);
    reveal(AppView::monitor_resumed);
    reveal(AppView::monitor_started);
    reveal(AppView::errored);
}

/// A failure that nobody asked for is shown and leaves the session idle.
pub proof fn an_unexpected_failure_is_shown(s: AppView, msg: Seq<char>, env: EnvView)
    requires
        !s.stop_requested,
    ensures
        s.run_failed(msg, env).run_state == RunState::Idle,
        s.run_failed(msg, env).error is Some,
        !s.monitor.paused || env.client_error is None ==> s.run_failed(msg, env).error == Some(msg),
{
    reveal(AppView::run_failed);
    reveal(AppView::aborted);
    reveal(AppView::monitor_resumed);
    reveal(AppView::monitor_started);
    reveal(AppView::errored);
}

/// In continuous mode a completed run counts and is followed by another one at
/// once: its channel is open, and the totals of the session go on.
pub proof fn continuous_mode_chains_runs(
    s: AppView,
    metrics: Metrics,
    failure: Option<Seq<char>>,
    lookup: Option<Result<ConnectionView, Seq<char>>>,
    env: EnvView,
)
    requires
        s.chains(),
        s.runs_completed < u64::MAX,
    ensures
        ({
            let t = s.ticked_after_save(metrics, failure, lookup, env);
            &&& t.run_state == RunState::Running
            &&& t.test_tx
            &&& t.runs_completed == s.runs_completed + 1
            &&& t.agg_down_sum == added(s.agg_down_sum, metrics.down.fine())
            &&& t.agg_up_sum == added(s.agg_up_sum, metrics.up.fine())
            &&& t.agg_ping_sum == added(s.agg_ping_sum, metrics.latency.avg.grains())
            &&& !s.best_down.above(t.best_down)
            &&& !metrics.down.above(t.best_down)
            &&& t.outbox.contains(Effect::SpawnTest)
        }),
{
    reveal(AppView::history_saved);
    reveal(AppView::errored);
    reveal(AppView::run_counted);
    reveal(AppView::test_started);
    reveal(AppView::run_reset);
    reveal(AppView::monitor_paused);
    reveal(AppView::monitor_stopped);
    reveal(AppView::watched);
    reveal(AppView::lookup_taken);
    reveal(AppView::looked_up);
    let c = s.history_saved(failure, env.now).run_counted(metrics);
    let t = c.test_started(false, env.now.ticks);
    assert(t.outbox.last() == Effect::SpawnTest);
    assert(t.outbox[t.outbox.len() - 1] == Effect::SpawnTest);
    assert(!t.stalled(env.now.ticks));
}

/// A monitor that runs when a test starts is stopped for its duration and runs
/// again once the test is over, however it ends (where a client can be built).
pub proof fn a_monitor_comes_back_after_a_test(
    s: AppView,
    reset: bool,
    now: u64,
    msg: Seq<char>,
    env: EnvView,
)
    requires
        s.coherent(),
        s.monitor.running,
        env.client_error is None,
    ensures
        ({
            let t = s.test_started(reset, now);
            &&& t.monitor.paused
            &&& !t.monitor.running
            &&& t.finalized(env).monitor.running
            &&& t.aborted(msg, env).monitor.running
            &&& t.test_cancelled(env).monitor.running
        }),
{
    reveal(AppView::test_started);
    reveal(AppView::run_reset);
    reveal(AppView::monitor_paused);
    reveal(AppView::monitor_stopped);
    reveal(AppView::finalized);
    reveal(AppView::aborted);
    reveal(AppView::errored);
    reveal(AppView::test_cancelled);
    reveal(AppView::test_told_to_stop);
    reveal(AppView::monitor_resumed);
    reveal(AppView::monitor_started);
}

/// Without a network client the monitor never claims to run: nothing of it
/// changes, and an error is shown.
pub proof fn no_client_no_monitor(s: AppView, env: EnvView)
    requires
        env.client_error is Some,
        !s.monitor.running,
        s.run_state != RunState::Running,
    ensures
        s.monitor_started(env).monitor == s.monitor,
        s.monitor_started(env).outbox == s.outbox,
        s.monitor_started(env).error is Some,
{
    reveal(AppView::monitor_started);
    reveal(AppView::errored);
}

/// A lookup that succeeds replaces what is known of the connection; one that
/// fails keeps it and shows an error. Either way it is over.
pub proof fn a_lookup_replaces_or_keeps(
    s: AppView,
    result: Result<ConnectionView, Seq<char>>,
    m: Moment,
)
    ensures
        !s.looked_up(result, m).connection_refreshing,
        match result {
            Ok(info) => s.looked_up(result, m).connection == Some(info) && s.looked_up(
                result,
                m,
            ).error == s.error,
            Err(e) => s.looked_up(result, m).connection == s.connection && s.looked_up(
                result,
                m,
            ).error is Some,
        },
{
    reveal(AppView::looked_up);
    reveal(AppView::errored);
}

/// Only one lookup is on its way at a time.
pub proof fn one_lookup_at_a_time(s: AppView)
    ensures
        s.looking_up().looking_up() == s.looking_up(),
        s.looking_up().connection == s.connection,
{
    reveal(AppView::looking_up);
}

/// An error is shown for fifteen seconds, and then no longer.
pub proof fn errors_fade(s: AppView, msg: Seq<char>, m: Moment, now: u64)
    requires
        m.valid(),
    ensures
        now <= m.ticks + ERROR_VISIBLE ==> s.errored(msg, m).error_expired(now).error == Some(msg),
        now > m.ticks + ERROR_VISIBLE ==> s.errored(msg, m).error_expired(now).error is None,
{
    reveal(AppView::errored);
    reveal(AppView::error_expired);
}

/// Quitting never leaves a test running.
pub proof fn quitting_abandons_the_test(s: AppView, env: EnvView)
    requires
        s.coherent(),
    ensures
        s.quitting(env).should_quit,
        s.quitting(env).run_state != RunState::Running,
        s.run_state == RunState::Running ==> s.quitting(env).outbox.contains(Effect::CancelTest),
{
    reveal(AppView::quitting);
    reveal(AppView::test_cancelled);
    reveal(AppView::test_told_to_stop);
    reveal(AppView::monitor_resumed);
    reveal(AppView::monitor_started);
    reveal(AppView::errored);
    if s.run_state == RunState::Running {
        let n = s.outbox.len() as int;
        assert(s.quitting(env).outbox[n] == Effect::CancelTest);
    }
}

/// While a test runs, neither the profile nor continuous mode can be changed.
pub proof fn settings_are_fixed_during_a_test(s: AppView, action: Action, env: EnvView)
    requires
        s.run_state == RunState::Running,
        action == Action::ToggleContinuous || action == Action::ProfileNext || action
            == Action::ProfilePrev,
    ensures
        s.dispatched(action, env) == s,
{
    reveal(AppView::continuous_toggled);
    reveal(AppView::with_profile);
}

/// Deleting takes exactly the selected entry out of a history that has one, and
/// the history is then written.
pub proof fn deleting_takes_one_entry(s: AppView)
    requires
        s.valid(),
        s.history.len() > 0,
    ensures
        s.entry_deleted().history.len() == s.history.len() - 1,
        s.entry_deleted().history == s.history.remove(s.history_selected as int),
        s.entry_deleted().outbox == s.outbox.push(Effect::SaveHistory),
{
    reveal(AppView::entry_deleted);
}

/// A completed run becomes the newest entry of the history and is selected; the
/// entries before it stay.
pub proof fn a_run_becomes_the_newest_entry(s: AppView, metrics: Metrics, m: Moment)
    requires
        s.history.len() < usize::MAX,
    ensures
        s.run_recorded(metrics, m).history.drop_last() == s.history,
        s.run_recorded(metrics, m).history.last().down == metrics.down,
        s.run_recorded(metrics, m).history.last().up == metrics.up,
        s.run_recorded(metrics, m).history.last().ping == metrics.latency.avg,
        s.run_recorded(metrics, m).history.last().timestamp == m.wall,
        s.run_recorded(metrics, m).history_selected == s.history.len(),
{
    reveal(AppView::run_recorded);
    assert(s.run_recorded(metrics, m).history.drop_last() =~= s.history);
}

/// How good a grade is.
pub open spec fn grade_rank(grade: char) -> int {
    if grade == 'S' {
        5
    } else if grade == 'A' {
        4
    } else if grade == 'B' {
        3
    } else if grade == 'C' {
        2
    } else if grade == 'D' {
        1
    } else {
        0
    }
}

/// A faster download never gets a worse grade.
pub proof fn grades_follow_the_rate(slow: Rate, fast: Rate)
    requires
        !slow.above(fast),
    ensures
        grade_rank(grade_of(slow.bits()).0) <= grade_rank(grade_of(fast.bits()).0),
{
    faster_reaches(slow, fast, 300 * MEGABIT);
    faster_reaches(slow, fast, 100 * MEGABIT);
    faster_reaches(slow, fast, 50 * MEGABIT);
    faster_reaches(slow, fast, 25 * MEGABIT);
    faster_reaches(slow, fast, 10 * MEGABIT);
}

proof fn faster_reaches(slow: Rate, fast: Rate, bound: int)
    requires
        !slow.above(fast),
    ensures
        slow.bits().reaches(bound) ==> fast.bits().reaches(bound),
{
    let (a, b) = (at_least_one(slow.ns) as int, at_least_one(fast.ns) as int);
    let (x, y) = (slow.bytes as int, fast.bytes as int);
    assert(slow.bits().num == x * 8_000_000_000 && fast.bits().num == y * 8_000_000_000);
    assert(x * 8_000_000_000 >= bound * a ==> y * 8_000_000_000 >= bound * b) by (nonlinear_arith)
        requires
            x * b <= y * a,
            a > 0,
            b > 0,
            x >= 0,
            y >= 0,
    {
        if x * 8_000_000_000 >= bound * a && y * 8_000_000_000 < bound * b {
            assert((x * 8_000_000_000) * b >= (bound * a) * b);
            assert((y * 8_000_000_000) * a < (bound * b) * a);
        }
    }
}

/// Backspace undoes a typed character, where there was room for it.
pub proof fn backspace_undoes_typing(s: Seq<char>, c: char)
    requires
        s.len() < INPUT_LIMIT,
    ensures
        without_last(with_char(s, c)) == s,
{
    assert(without_last(with_char(s, c)) =~= s);
}

/// Only key presses count, and an open editor takes every key but Ctrl+C: no
/// shortcut fires through it.
pub proof fn editors_capture_all_keys(s: AppView, key: KeyEvent, env: EnvView)
    ensures
        key.kind != KeyEventKind::Press ==> s.keyed(key, env) == s,
        key.kind == KeyEventKind::Press && ctrl_c(key) ==> s.keyed(key, env) == s.quitting(env),
        key.kind == KeyEventKind::Press && !ctrl_c(key) && s.tab == Tab::Monitor
            && s.monitor.editing_target ==> s.keyed(key, env) == s.target_edited(
            editor_meaning(key),
            env,
        ),
        key.kind == KeyEventKind::Press && !ctrl_c(key) && s.tab == Tab::Dsl && s.dsl.editing
            ==> s.keyed(key, env) == s.modem_keyed(key),
{
}

// ---- events of a run ------------------------------------------------------

/// A rate counts for the phase in which it is measured: while downloading it is
/// the download rate and the newest point of that graph, while uploading the same
/// of the upload, and else it counts for nothing. A graph keeps 600 points.
pub proof fn a_rate_counts_for_its_phase(s: AppView, instant: LiveRate, avg: Rate, m: Moment)
    requires
        s.valid(),
    ensures
        ({
            let t = s.heard(TestEventView::Throughput { instant, avg }, m);
            let down_kept = t.down_instant == s.down_instant && t.down_avg == s.down_avg
                && t.down_samples == s.down_samples;
            let up_kept = t.up_instant == s.up_instant && t.up_avg == s.up_avg && t.up_samples
                == s.up_samples;
            &&& s.phase == Phase::Download ==> up_kept && t.down_instant == instant && t.down_avg
                == avg && t.down_samples.len() > 0 && t.down_samples.last() == graph_sample(instant)
            &&& s.phase == Phase::Upload ==> down_kept && t.up_instant == instant && t.up_avg == avg
                && t.up_samples.len() > 0 && t.up_samples.last() == graph_sample(instant)
            &&& s.phase != Phase::Download && s.phase != Phase::Upload ==> down_kept && up_kept
            &&& s.phase == Phase::Download && s.down_samples.len() < 600 ==> t.down_samples
                == s.down_samples.push(graph_sample(instant))
            &&& s.phase == Phase::Upload && s.up_samples.len() < 600 ==> t.up_samples
                == s.up_samples.push(graph_sample(instant))
            &&& s.phase == Phase::Download && s.down_samples.len() == 600 ==> t.down_samples
                == s.down_samples.push(graph_sample(instant)).drop_first()
            &&& s.phase == Phase::Upload && s.up_samples.len() == 600 ==> t.up_samples
                == s.up_samples.push(graph_sample(instant)).drop_first()
            &&& t.phase == s.phase && t.pings == s.pings && t.latency == s.latency
            &&& t.last_test_event == Some(m.ticks)
            &&& t.run_state == s.run_state && t.metrics == s.metrics
        }),
{
    reveal(AppView::heard);
    crate::measure::a_bounded_list_keeps_the_newest(s.down_samples, graph_sample(instant), 600);
    crate::measure::a_bounded_list_keeps_the_newest(s.up_samples, graph_sample(instant), 600);
}

/// A point of a graph is the rate in megabits per second, to the nearest whole.
pub proof fn graph_points_are_whole_megabits(r: LiveRate)
    ensures
        -500_000_000_000_000 <= graph_sample(r) * 1_000_000_000_000_000 - r.fine()
            <= 500_000_000_000_000,
{
}

/// Every other event of a run changes what it tells of alone: the phase, the
/// times of the probes, the latency. Each is a sign of life.
pub proof fn events_change_what_they_tell_of(
    s: AppView,
    p: Phase,
    ns: u64,
    st: LatencyStats,
    m: Moment,
)
    ensures
        s.heard(TestEventView::Phase(p), m) == (AppView {
            phase: p,
            last_test_event: Some(m.ticks),
            ..s
        }),
        s.heard(TestEventView::PingSample(ns), m) == (AppView {
            pings: s.pings.push(ns),
            last_test_event: Some(m.ticks),
            ..s
        }),
        s.heard(TestEventView::LatencyDone(st), m) == (AppView {
            latency: Some(st),
            last_test_event: Some(m.ticks),
            ..s
        }),
        s.heard(TestEventView::PhaseDone, m) == (AppView {
            last_test_event: Some(m.ticks),
            ..s
        }),
{
    reveal(AppView::heard);
}

/// Whether an event ends a run.
pub open spec fn ends_run(ev: TestEventView) -> bool {
    ev is Finished || ev is Failed
}

/// Events are heard in their order up to the first that ends the run; that is its
/// outcome, and nothing behind it is heard.
pub proof fn events_are_heard_in_order(
    s: AppView,
    before: Seq<TestEventView>,
    end: TestEventView,
    after: Seq<TestEventView>,
    m: Moment,
)
    requires
        forall|i: int| 0 <= i < before.len() ==> !ends_run(#[trigger] before[i]),
        ends_run(end),
    ensures
        s.drained(before, m).1 == RunOutcomeView::Pending,
        end matches TestEventView::Finished(metrics) ==> s.drained(
            before + seq![end] + after,
            m,
        ).1 == RunOutcomeView::Finished(metrics) && s.drained(before + seq![end] + after, m).0
            == s.drained(before, m).0.alive(m),
        end matches TestEventView::Failed(msg) ==> s.drained(before + seq![end] + after, m)
            == (s.drained(before, m).0, RunOutcomeView::Failed(msg)),
    decreases before.len(),
{
    let all = before + seq![end] + after;
    if before.len() == 0 {
        assert(all[0] == end);
    } else {
        assert(!ends_run(before[0]));
        assert(all[0] == before[0]);
        let rest = before.drop_first();
        assert(all.drop_first() =~= rest + seq![end] + after);
        assert forall|i: int| 0 <= i < rest.len() implies !ends_run(#[trigger] rest[i]) by {
            assert(rest[i] == before[i + 1]);
        }
        events_are_heard_in_order(s.heard(before[0], m), rest, end, after, m);
    }
}

// ---- runs -----------------------------------------------------------------

/// A test that starts has forgotten the figures and the error of the last one,
/// begins with the connection, and is asked for once; the totals of a session
/// start over with a new session and go on within one.
pub proof fn a_test_starts_from_nothing(s: AppView, reset: bool, now: u64)
    requires
        s.coherent(),
    ensures
        ({
            let t = s.test_started(reset, now);
            &&& t.run_state == RunState::Running && t.phase == Phase::Connect
            &&& t.error is None && t.error_until is None
            &&& t.pings.len() == 0 && t.latency is None
            &&& t.down_samples.len() == 0 && t.up_samples.len() == 0
            &&& t.down_instant.fine() == 0 && t.up_instant.fine() == 0
            &&& t.down_avg.bytes == 0 && t.up_avg.bytes == 0
            &&& t.last_test_event == Some(now)
            &&& t.test_tx && t.cancel_flag
            &&& reset ==> t.runs_completed == 0 && t.agg_down_sum == 0 && t.agg_up_sum == 0
                && t.agg_ping_sum == 0 && t.best_down.bytes == 0
            &&& !reset ==> t.runs_completed == s.runs_completed && t.agg_down_sum
                == s.agg_down_sum && t.agg_up_sum == s.agg_up_sum && t.agg_ping_sum
                == s.agg_ping_sum && t.best_down == s.best_down
            &&& t.outbox == (if s.monitor.running {
                s.outbox.push(Effect::CancelMonitor).push(Effect::SpawnTest)
            } else {
                s.outbox.push(Effect::SpawnTest)
            })
            &&& t.profile == s.profile && t.continuous_mode == s.continuous_mode
            &&& t.history == s.history && t.tab == s.tab && t.connection == s.connection
        }),
{
    reveal(AppView::test_started);
    reveal(AppView::run_reset);
    reveal(AppView::monitor_paused);
    reveal(AppView::monitor_stopped);
}

/// A test is started where none runs, and a running one is asked to stop where
/// runs follow one another; a single run is left to end by itself.
pub proof fn the_start_key_starts_or_stops(s: AppView, env: EnvView)
    requires
        s.coherent(),
    ensures
        ({
            let t = s.dispatched(Action::StartStopTest, env);
            &&& s.run_state != RunState::Running ==> t.run_state == RunState::Running
                && t.outbox.last() == Effect::SpawnTest && t.runs_completed == 0
            &&& s.run_state == RunState::Running && s.continuous_mode ==> t.stop_requested
                && t.run_state == RunState::Running && t.outbox == s.outbox.push(Effect::CancelTest)
            &&& s.run_state == RunState::Running && !s.continuous_mode ==> t == s
        }),
{
    reveal(AppView::test_toggled);
    reveal(AppView::stopping);
    reveal(AppView::test_told_to_stop);
    a_test_starts_from_nothing(s, true, env.now.ticks);
}

/// A completed run counts once, with its own figures, and the best download is
/// the highest of all.
pub proof fn a_run_counts_once(s: AppView, metrics: Metrics)
    requires
        s.runs_completed < u64::MAX,
    ensures
        ({
            let t = s.run_counted(metrics);
            &&& t.runs_completed == s.runs_completed + 1
            &&& t.agg_down_sum == added(s.agg_down_sum, metrics.down.fine())
            &&& t.agg_up_sum == added(s.agg_up_sum, metrics.up.fine())
            &&& t.agg_ping_sum == added(s.agg_ping_sum, metrics.latency.avg.grains())
            &&& t.best_down == metrics.down || t.best_down == s.best_down
            &&& !metrics.down.above(t.best_down) && !s.best_down.above(t.best_down)
            &&& t.history == s.history && t.run_state == s.run_state && t.metrics == s.metrics
        }),
{
    reveal(AppView::run_counted);
}

/// A record tells of its own run: the profile, all four figures, the moment, and
/// the grade of the download.
pub proof fn a_record_tells_of_its_run(s: AppView, metrics: Metrics, m: Moment)
    ensures
        ({
            let r = s.run_recorded(metrics, m).history.last();
            &&& r.timestamp == m.wall
            &&& r.profile == s.profile.title()
            &&& r.down == metrics.down && r.up == metrics.up
            &&& r.ping == metrics.latency.avg && r.jitter == metrics.latency.jitter
            &&& r.grade == grade_of(metrics.down.bits()).0
        }),
        s.run_recorded(metrics, m).runs_completed == s.runs_completed,
{
    reveal(AppView::run_recorded);
}

/// The grades begin at 300, 100, 50, 25 and 10 megabits per second; each has its
/// letter and its colour.
pub proof fn grades_have_their_bounds(r: Rate)
    ensures
        ({
            let bits = r.bytes * 8_000_000_000;
            let ns = at_least_one(r.ns) as int;
            let g = grade_of(r.bits());
            &&& g == ('S', Color::LightGreen) <==> bits >= 300_000_000 * ns
            &&& g == ('A', Color::Green) <==> 100_000_000 * ns <= bits < 300_000_000 * ns
            &&& g == ('B', Color::Yellow) <==> 50_000_000 * ns <= bits < 100_000_000 * ns
            &&& g == ('C', Color::LightYellow) <==> 25_000_000 * ns <= bits < 50_000_000 * ns
            &&& g == ('D', Color::LightRed) <==> 10_000_000 * ns <= bits < 25_000_000 * ns
            &&& g == ('F', Color::Red) <==> bits < 10_000_000 * ns
        }),
{
    assert(r.bits().num == r.bytes * 8_000_000_000);
}

/// A step that hears of a completed run puts it in the history and shows its
/// figures.
pub proof fn a_completed_run_is_taken_in(
    s: AppView,
    metrics: Metrics,
    arrivals: ArrivalsView,
    env: EnvView,
)
    requires
        s.test_tx,
        arrivals.events == seq![TestEventView::Finished(metrics)],
    ensures
        ({
            let (t, done) = s.run_heard(arrivals, env);
            &&& done == Some(metrics)
            &&& t.metrics == Some(metrics)
            &&& t.history.len() == s.history.len() + 1
            &&& t.history.last().down == metrics.down
            &&& t.run_state == s.run_state && t.test_tx
        }),
{
    let fin = TestEventView::Finished(metrics);
    let none = Seq::<TestEventView>::empty();
    events_are_heard_in_order(s, none, fin, none, env.now);
    assert(none + seq![fin] + none =~= seq![fin]);
    reveal(AppView::run_recorded);
}

/// A step that hears of a failure closes the channel and ends the run; the history
/// and the figures of the last run stay.
pub proof fn a_failed_run_is_closed(
    s: AppView,
    msg: Seq<char>,
    arrivals: ArrivalsView,
    env: EnvView,
)
    requires
        s.test_tx,
        arrivals.events == seq![TestEventView::Failed(msg)],
    ensures
        ({
            let (t, done) = s.run_heard(arrivals, env);
            done is None && !t.test_tx && t.run_state != RunState::Running && t.history == s.history
                && t.metrics == s.metrics
        }),
{
    let bad = TestEventView::Failed(msg);
    let none = Seq::<TestEventView>::empty();
    events_are_heard_in_order(s, none, bad, none, env.now);
    assert(none + seq![bad] + none =~= seq![bad]);
    assert(s.drained(none, env.now).0 == s);
    let f = s.run_failed(msg, env);
    failing_keeps_results(s, msg, env);
    closing_ends_the_run(f, env);
    closing_keeps_results(f, env);
    settling_keeps_the_channel(f.closed(env), arrivals.lookup, env);
    settling_keeps_results(f.closed(env), arrivals.lookup, env);
}

proof fn resuming_keeps_results(s: AppView, env: EnvView)
    ensures
        s.monitor_resumed(env).history == s.history,
        s.monitor_resumed(env).metrics == s.metrics,
{
    reveal(AppView::monitor_resumed);
    reveal(AppView::monitor_started);
    reveal(AppView::errored);
}

proof fn ending_keeps_results(s: AppView, msg: Seq<char>, env: EnvView)
    ensures
        s.finalized(env).history == s.history && s.finalized(env).metrics == s.metrics,
        s.aborted(msg, env).history == s.history && s.aborted(msg, env).metrics == s.metrics,
{
    reveal(AppView::finalized);
    reveal(AppView::aborted);
    reveal(AppView::errored);
    resuming_keeps_results(
        AppView { run_state: RunState::Finished, stop_requested: false, ..s },
        env,
    );
    resuming_keeps_results(AppView { run_state: RunState::Idle, ..s.errored(msg, env.now) }, env);
}

proof fn failing_keeps_results(s: AppView, msg: Seq<char>, env: EnvView)
    ensures
        s.run_failed(msg, env).history == s.history && s.run_failed(msg, env).metrics == s.metrics,
{
    reveal(AppView::run_failed);
    ending_keeps_results(s, msg, env);
}

proof fn closing_keeps_results(s: AppView, env: EnvView)
    ensures
        s.closed(env).history == s.history && s.closed(env).metrics == s.metrics,
{
    reveal(AppView::closed);
    ending_keeps_results(
        AppView { test_tx: false, ..s },
        "the speed test stopped unexpectedly — please try again"@,
        env,
    );
}

proof fn settling_keeps_results(
    s: AppView,
    lookup: Option<Result<ConnectionView, Seq<char>>>,
    env: EnvView,
)
    ensures
        s.settled(lookup, env).history == s.history && s.settled(lookup, env).metrics == s.metrics,
{
    reveal(AppView::watched);
    reveal(AppView::lookup_taken);
    reveal(AppView::looked_up);
    reveal(AppView::errored);
    ending_keeps_results(
        s,
        "speed test stalled — no data from the server for 20s; your connection may be unstable"@,
        env,
    );
}

/// Silence of more than twenty seconds is a stall, and only of a running test.
pub proof fn twenty_seconds_of_silence_are_a_stall(s: AppView, now: u64)
    ensures
        s.stalled(now) ==> s.run_state == RunState::Running && s.last_test_event is Some && now
            - s.last_test_event->0 > 20_000_000_000,
        s.run_state == RunState::Running && s.last_test_event is Some && now - s.last_test_event->0
            > 20_000_000_000 ==> s.stalled(now),
{
    if s.last_test_event is Some {
        crate::measure::elapsed_time_adds_up(now, s.last_test_event->0);
    }
}

/// A new error replaces the last one and is shown until fifteen seconds later, to
/// the nanosecond; nothing else changes.
pub proof fn errors_stay_for_fifteen_seconds(s: AppView, msg: Seq<char>, m: Moment, now: u64)
    requires
        m.valid(),
    ensures
        ({
            let t = s.errored(msg, m);
            &&& t == (AppView { error: Some(msg), error_until: t.error_until, ..s })
            &&& t.error_expired(now).error is Some <==> now <= m.ticks + 15_000_000_000
            &&& t.error_expired(now).run_state == s.run_state
        }),
{
    reveal(AppView::errored);
    reveal(AppView::error_expired);
}

/// Escape abandons a running test, and leaves only where none runs; a test that is
/// abandoned is told to stop, is no longer heard and leaves no stop asked for.
pub proof fn escape_abandons_before_it_leaves(s: AppView, env: EnvView)
    requires
        s.coherent(),
    ensures
        ({
            let t = s.dispatched(Action::CancelTest, env);
            &&& s.run_state == RunState::Running ==> t.run_state == RunState::Idle && !t.test_tx
                && !t.stop_requested && t.should_quit == s.should_quit && t.outbox.contains(
                Effect::CancelTest,
            )
            &&& s.run_state != RunState::Running ==> t == (AppView { should_quit: true, ..s })
        }),
        s.dispatched(Action::Quit, env).should_quit,
{
    reveal(AppView::escaped);
    reveal(AppView::quitting);
    reveal(AppView::test_cancelled);
    reveal(AppView::test_told_to_stop);
    reveal(AppView::monitor_resumed);
    reveal(AppView::monitor_started);
    reveal(AppView::errored);
    if s.run_state == RunState::Running {
        let n = s.outbox.len() as int;
        assert(s.escaped(env).outbox[n] == Effect::CancelTest);
    }
}

// ---- tabs, profiles and the history ---------------------------------------

/// Each tab key leads to its own tab, and the arrows to the neighbours; nothing
/// else changes.
pub proof fn tab_keys_lead_to_their_tabs(s: AppView, env: EnvView)
    ensures
        s.dispatched(Action::TabTest, env) == (AppView { tab: Tab::Test, ..s }),
        s.dispatched(Action::TabMonitor, env) == (AppView { tab: Tab::Monitor, ..s }),
        s.dispatched(Action::TabDsl, env) == (AppView { tab: Tab::Dsl, ..s }),
        s.dispatched(Action::TabHistory, env) == (AppView { tab: Tab::History, ..s }),
        s.dispatched(Action::TabHelp, env) == (AppView { tab: Tab::Help, ..s }),
        s.dispatched(Action::TabNext, env).tab.place() == (s.tab.place() + 1) % 5,
        s.dispatched(Action::TabPrev, env).tab.place() == (s.tab.place() + 4) % 5,
        s.dispatched(Action::TabPrev, env).dispatched(Action::TabNext, env) == s,
{
    reveal(AppView::on_tab);
}

/// Where no test runs, the profile keys go to the next and the last profile and
/// continuous mode is switched over; twice the latter changes nothing.
pub proof fn settings_change_between_tests(s: AppView, env: EnvView)
    requires
        s.run_state != RunState::Running,
    ensures
        s.dispatched(Action::ProfileNext, env).profile.place() == (s.profile.place() + 1) % 3,
        s.dispatched(Action::ProfilePrev, env).profile.place() == (s.profile.place() + 2) % 3,
        s.dispatched(Action::ToggleContinuous, env).continuous_mode == !s.continuous_mode,
        s.dispatched(Action::ToggleContinuous, env).dispatched(Action::ToggleContinuous, env) == s,
        s.dispatched(Action::ProfileNext, env).dispatched(Action::ProfilePrev, env) == s,
{
    reveal(AppView::with_profile);
    reveal(AppView::continuous_toggled);
}

/// The selection moves by one entry at a time and stops at both ends; clearing
/// takes every entry and writes the history, where there is one.
pub proof fn the_selection_stays_in_the_history(s: AppView, env: EnvView)
    requires
        s.valid(),
        s.history.len() < usize::MAX,
    ensures
        ({
            let u = s.dispatched(Action::HistoryUp, env);
            let d = s.dispatched(Action::HistoryDown, env);
            let c = s.dispatched(Action::ClearAll, env);
            let x = s.dispatched(Action::DeleteEntry, env);
            &&& s.history_selected > 0 ==> u.history_selected == s.history_selected - 1
            &&& s.history_selected == 0 ==> u.history_selected == 0
            &&& s.history_selected + 1 < s.history.len() ==> d.history_selected
                == s.history_selected + 1
            &&& s.history_selected + 1 >= s.history.len() ==> d.history_selected
                == s.history_selected
            &&& u.history == s.history && d.history == s.history
            &&& c.history.len() == 0 && c.history_selected == 0
            &&& s.history.len() > 0 ==> c.outbox == s.outbox.push(Effect::SaveHistory)
            &&& s.history.len() == 0 ==> c.outbox == s.outbox && x == s
            &&& s.history.len() > 0 && s.history_selected > 0 ==> x.history_selected
                == s.history_selected - 1
        }),
{
    reveal(AppView::selected_up);
    reveal(AppView::selected_down);
    reveal(AppView::history_cleared);
    reveal(AppView::entry_deleted);
    if s.history.len() == 0 {
        assert(s.history =~= Seq::empty());
    }
}

/// A lookup is asked for where none is on its way.
pub proof fn lookups_are_asked_for(s: AppView, env: EnvView)
    requires
        !s.pending_meta,
        !s.connection_refreshing,
    ensures
        ({
            let t = s.dispatched(Action::RefreshConnection, env);
            t.pending_meta && t.connection_refreshing && t.outbox == s.outbox.push(
                Effect::LookupConnection,
            )
        }),
{
    reveal(AppView::looking_up);
}

/// The result of a lookup counts only where one is awaited, and then it no longer
/// is.
pub proof fn only_awaited_lookups_count(
    s: AppView,
    result: Result<ConnectionView, Seq<char>>,
    m: Moment,
)
    ensures
        !s.pending_meta ==> s.lookup_taken(Some(result), m) == s,
        s.pending_meta ==> !s.lookup_taken(Some(result), m).pending_meta,
        s.pending_meta && result is Ok ==> s.lookup_taken(Some(result), m).connection == Some(
            result->Ok_0,
        ),
        s.lookup_taken(None, m) == s,
{
    reveal(AppView::lookup_taken);
    reveal(AppView::looked_up);
    reveal(AppView::errored);
}

// ---- the monitor ----------------------------------------------------------

/// The monitor key stops a running monitor and starts one at rest, asking for
/// either; one that waits for a test is left alone. No figure is lost.
pub proof fn the_monitor_key_starts_or_stops(s: AppView, env: EnvView)
    requires
        s.coherent(),
        env.client_error is None,
    ensures
        ({
            let t = s.dispatched(Action::MonitorToggle, env);
            &&& s.monitor.paused ==> t == s
            &&& s.monitor.running && !s.monitor.paused ==> !t.monitor.running && !t.monitor.rx
                && !t.monitor.cancel && t.outbox == s.outbox.push(Effect::CancelMonitor)
            &&& !s.monitor.running && !s.monitor.paused && s.run_state != RunState::Running
                ==> t.monitor.running && t.monitor.rx && t.monitor.cancel && t.outbox
                == s.outbox.push(Effect::SpawnMonitor) && t.monitor.stable_since == env.now.ticks
            &&& !s.monitor.running && s.run_state == RunState::Running ==> t == s
            &&& t.monitor.sent == s.monitor.sent && t.monitor.lost == s.monitor.lost
            &&& t.monitor.rtt_window == s.monitor.rtt_window && t.monitor.recent
                == s.monitor.recent && t.monitor.incidents == s.monitor.incidents
            &&& t.monitor.target == s.monitor.target
        }),
{
    reveal(AppView::monitor_toggled);
    reveal(AppView::monitor_stopped);
    reveal(AppView::monitor_started);
    reveal(AppView::errored);
}

/// A target that can be a host name is taken, bare and in small letters; a running
/// monitor then starts over on it. Any other is refused with an error that quotes
/// it, and nothing else changes.
pub proof fn a_target_is_taken_or_refused(s: AppView, entered: Seq<char>, env: EnvView)
    requires
        s.coherent(),
        env.client_error is None,
    ensures
        ({
            let t = s.retargeted(entered, env);
            let target = stored_target(entered);
            &&& host_text(target) ==> t.monitor.target == target && t.error == s.error
            &&& host_text(target) && s.monitor.running ==> {
                &&& t.monitor.running
                &&& t.outbox == s.outbox.push(Effect::CancelMonitor).push(Effect::SpawnMonitor)
                &&& t.monitor.sent == 0 && t.monitor.incidents.len() == 0
            }
            &&& host_text(target) && !s.monitor.running ==> t == (AppView {
                monitor: MonitorView { target, ..s.monitor },
                ..s
            })
            &&& !host_text(target) ==> t.monitor == s.monitor && t.outbox == s.outbox && t.error
                == Some(
                "'"@ + entered + "' is not a valid host name — expected something like example.com"@,
            )
        }),
{
    reveal(AppView::retargeted);
    reveal(AppView::monitor_stopped);
    reveal(AppView::session_cleared);
    reveal(AppView::monitor_started);
    reveal(AppView::errored);
}

/// The target editor begins with the target; keys change its input alone, and
/// only confirming it changes the target: to what was entered, where that is more
/// than space.
pub proof fn the_target_editor_edits_a_copy(s: AppView, c: char, env: EnvView)
    requires
        s.coherent(),
    ensures
        !s.monitor.editing_target ==> ({
            let t = s.dispatched(Action::EditTarget, env);
            t == (AppView {
                monitor: MonitorView {
                    editing_target: true,
                    input_buf: s.monitor.target,
                    ..s.monitor
                },
                ..s
            })
        }),
        s.target_edited(EditorKey::Char(c), env) == (AppView {
            monitor: MonitorView {
                input_buf: with_char(s.monitor.input_buf, c),
                ..s.monitor
            },
            ..s
        }),
        s.target_edited(EditorKey::Backspace, env) == (AppView {
            monitor: MonitorView {
                input_buf: without_last(s.monitor.input_buf),
                ..s.monitor
            },
            ..s
        }),
        s.target_edited(EditorKey::Cancel, env) == (AppView {
            monitor: MonitorView { editing_target: false, ..s.monitor },
            ..s
        }),
        s.target_edited(EditorKey::Ignored, env) == s,
        ({
            let t = s.target_edited(EditorKey::Confirm, env);
            let entered = trim(s.monitor.input_buf);
            &&& !t.monitor.editing_target
            &&& entered.len() == 0 ==> t.monitor.target == s.monitor.target && t.error == s.error
            &&& entered.len() > 0 && host_text(stored_target(entered)) ==> t.monitor.target
                == stored_target(entered)
            &&& entered.len() > 0 && !host_text(stored_target(entered)) ==> t.monitor.target
                == s.monitor.target && t.error is Some
        }),
{
    reveal(AppView::target_editor_opened);
    reveal(AppView::target_editor_closed);
    reveal(AppView::target_confirmed);
    reveal(AppView::target_erased);
    reveal(AppView::target_typed);
    reveal(AppView::retargeted);
    reveal(AppView::monitor_stopped);
    reveal(AppView::session_cleared);
    reveal(AppView::monitor_started);
    reveal(AppView::errored);
}

// ---- the modem ------------------------------------------------------------

/// The modem key starts a poller where there is none, and else pauses or resumes
/// the reading of the one there is.
pub proof fn the_modem_key_starts_or_pauses(s: AppView, env: EnvView)
    requires
        s.coherent(),
    ensures
        ({
            let t = s.dispatched(Action::DslPauseResume, env);
            &&& !s.dsl.polling ==> t.dsl.polling && t.dsl.rx && t.dsl.cancel && t.dsl.paused
                == s.dsl.paused && t.outbox == s.outbox.push(Effect::SpawnPoller)
            &&& s.dsl.polling ==> t == (AppView {
                dsl: DslView { paused: !s.dsl.paused, ..s.dsl },
                ..s
            })
        }),
        s.dispatched(Action::ClearModemLog, env) == (AppView {
            dsl: DslView { incidents: Seq::empty(), ..s.dsl },
            ..s
        }),
{
    reveal(AppView::modem_toggled);
    reveal(AppView::polling_begun);
    reveal(AppView::modem_log_cleared);
}

/// The modem editor begins with the configuration, on the address; keys change the
/// chosen field alone, and the arrow keys choose the one above or below.
pub proof fn the_modem_editor_edits_one_field(s: AppView, c: char, env: EnvView)
    requires
        s.dsl.valid(),
    ensures
        !s.dsl.editing ==> ({
            let t = s.dispatched(Action::EditModem, env);
            t == (AppView {
                dsl: DslView {
                    editing: true,
                    edit_field: 0,
                    buf_addr: s.dsl.config.host,
                    buf_user: s.dsl.config.username,
                    buf_pass: s.dsl.config.password,
                    ..s.dsl
                },
                ..s
            })
        }),
        ({
            let t = s.modem_edited(EditorKey::Char(c)).dsl;
            &&& s.dsl.edit_field == 0 ==> t == (DslView {
                buf_addr: with_char(s.dsl.buf_addr, c),
                ..s.dsl
            })
            &&& s.dsl.edit_field == 1 ==> t == (DslView {
                buf_user: with_char(s.dsl.buf_user, c),
                ..s.dsl
            })
            &&& s.dsl.edit_field == 2 ==> t == (DslView {
                buf_pass: with_char(s.dsl.buf_pass, c),
                ..s.dsl
            })
        }),
        ({
            let t = s.modem_edited(EditorKey::Backspace).dsl;
            &&& s.dsl.edit_field == 0 ==> t == (DslView {
                buf_addr: without_last(s.dsl.buf_addr),
                ..s.dsl
            })
            &&& s.dsl.edit_field == 1 ==> t == (DslView {
                buf_user: without_last(s.dsl.buf_user),
                ..s.dsl
            })
            &&& s.dsl.edit_field == 2 ==> t == (DslView {
                buf_pass: without_last(s.dsl.buf_pass),
                ..s.dsl
            })
        }),
        s.dsl.edit_field < 2 ==> s.dsl.field_moved(KeyCode::Down) == (DslView {
            edit_field: (s.dsl.edit_field + 1) as usize,
            ..s.dsl
        }),
        s.dsl.edit_field == 2 ==> s.dsl.field_moved(KeyCode::Down) == s.dsl,
        s.dsl.edit_field > 0 ==> s.dsl.field_moved(KeyCode::Up) == (DslView {
            edit_field: (s.dsl.edit_field - 1) as usize,
            ..s.dsl
        }),
        s.dsl.edit_field == 0 ==> s.dsl.field_moved(KeyCode::Up) == s.dsl,
        s.dsl.field_moved(KeyCode::Char(c)) == s.dsl,
{
    reveal(AppView::modem_editor_opened);
    reveal(AppView::modem_typed);
    reveal(AppView::modem_erased);
}

/// Confirming the modem editor applies all three fields, the address and the user
/// without the space around them and the password as it was typed, and starts the
/// poller over; without an address, and on cancelling, nothing is applied.
pub proof fn the_modem_editor_applies_its_fields(s: AppView)
    requires
        s.coherent(),
    ensures
        ({
            let t = s.modem_edited(EditorKey::Confirm);
            let blank = trim(s.dsl.buf_addr).len() == 0;
            &&& !t.dsl.editing
            &&& blank ==> t == (AppView { dsl: DslView { editing: false, ..s.dsl }, ..s })
            &&& !blank ==> t.dsl.config.host == trim(s.dsl.buf_addr) && t.dsl.config.username
                == trim(s.dsl.buf_user) && t.dsl.config.password == s.dsl.buf_pass
            &&& !blank ==> t.dsl.polling && t.dsl.rx && t.outbox == (if s.dsl.polling {
                s.outbox.push(Effect::CancelPoller).push(Effect::SpawnPoller)
            } else {
                s.outbox.push(Effect::SpawnPoller)
            })
        }),
        s.modem_edited(EditorKey::Cancel) == (AppView {
            dsl: DslView { editing: false, ..s.dsl },
            ..s
        }),
{
    reveal(AppView::modem_confirmed);
    reveal(AppView::modem_editor_closed);
    reveal(AppView::polling_stopped);
    reveal(AppView::polling_begun);
}

/// A step reads the probes of a running monitor and the newest snapshot of a modem
/// that is not paused, and moves the spinner on; what is not read changes nothing.
pub proof fn a_step_reads_what_is_wanted(s: AppView, arrivals: ArrivalsView, m: Moment)
    requires
        s.valid(),
    ensures
        ({
            let t = s.prepared(arrivals, m);
            &&& t.spinner_frame == (s.spinner_frame + 1) % 4
            &&& !s.monitor.rx ==> t.monitor == s.monitor
            &&& s.monitor.rx ==> t.monitor == s.monitor.sampled_all(arrivals.samples, m)
            &&& s.dsl.paused || !s.dsl.rx || arrivals.snapshots.len() == 0 ==> t.dsl == s.dsl
            &&& !s.dsl.paused && s.dsl.rx && arrivals.snapshots.len() > 0 ==> t.dsl
                == s.dsl.polled(arrivals.snapshots[arrivals.snapshots.len() - 1], m)
            &&& t.run_state == s.run_state && t.history == s.history && t.outbox == s.outbox
        }),
{
    reveal(AppView::frame_advanced);
    reveal(AppView::error_expired);
    reveal(AppView::probed);
    reveal(AppView::modem_read);
}

/// Where no editor is open, a key press does what its shortcut stands for on the
/// tab, and a key without one does nothing.
pub proof fn shortcuts_are_carried_out(s: AppView, key: KeyEvent, env: EnvView)
    requires
        key.kind == KeyEventKind::Press,
        !ctrl_c(key),
        !(s.tab == Tab::Monitor && s.monitor.editing_target),
        !(s.tab == Tab::Dsl && s.dsl.editing),
    ensures
        resolve_from(0, key, s.tab) matches Some(a) ==> s.keyed(key, env) == s.dispatched(a, env),
        resolve_from(0, key, s.tab) is None ==> s.keyed(key, env) == s,
{
}

/// The shortcuts of the monitor and history tabs do what they say: gaming mode is
/// switched over, the session starts over.
pub proof fn monitor_shortcuts_do_what_they_say(s: AppView, env: EnvView)
    ensures
        s.dispatched(Action::ToggleGaming, env).monitor.gaming == !s.monitor.gaming,
        s.dispatched(Action::ResetSession, env).monitor.sent == 0,
        s.dispatched(Action::ResetSession, env).monitor.incidents.len() == 0,
        s.dispatched(Action::ResetSession, env).monitor.running == s.monitor.running,
        s.dispatched(Action::ResetSession, env).history == s.history,
{
    reveal(AppView::gaming_toggled);
    reveal(AppView::session_cleared);
}

/// A run that no other follows counts and ends the session: it is finished, the
/// channel is closed and no stop is asked for any longer. A history that could not
/// be written is told.
pub proof fn a_last_run_ends_the_session(
    s: AppView,
    metrics: Metrics,
    failure: Option<Seq<char>>,
    env: EnvView,
)
    requires
        !s.chains(),
        !s.monitor.paused,
        s.runs_completed < u64::MAX,
    ensures
        ({
            let t = s.ticked_after_save(metrics, failure, None, env);
            &&& t.run_state == RunState::Finished && !t.test_tx && !t.stop_requested
            &&& t.runs_completed == s.runs_completed + 1
            &&& t.metrics == s.metrics && t.history == s.history
            &&& failure is None ==> t.error == s.error
            &&& failure matches Some(e) ==> t.error == Some(
                "could not save history: "@ + e + " — check disk space / permissions"@,
            )
        }),
        s.chains() <==> s.continuous_mode && !s.stop_requested,
{
    reveal(AppView::history_saved);
    reveal(AppView::errored);
    reveal(AppView::run_counted);
    reveal(AppView::finalized);
    reveal(AppView::monitor_resumed);
    reveal(AppView::closed);
    reveal(AppView::watched);
    reveal(AppView::lookup_taken);
}

/// Letters, digits, dots, hyphens and colons make a host name, and nothing else
/// does; there is a dot in it.
pub proof fn host_names_are_made_of_host_characters(a: Seq<char>, c: char, b: Seq<char>)
    ensures
        !('a' <= c <= 'z' || 'A' <= c <= 'Z' || '0' <= c <= '9' || c == '.' || c == '-' || c
            == ':') ==> !host_text(a + seq![c] + b),
        host_text(a + b) && ('a' <= c <= 'z' || 'A' <= c <= 'Z' || '0' <= c <= '9' || c == '.' || c
            == '-' || c == ':') ==> host_text(a + seq![c] + b),
        !a.contains('.') ==> !host_text(a),
{
    let x = a + seq![c] + b;
    assert(x[a.len() as int] == c);
    if host_text(a + b) {
        let k = choose|k: int| 0 <= k < (a + b).len() && (a + b)[k] == '.';
        if k < a.len() {
            assert(x[k] == '.');
        } else {
            assert(x[k + 1] == '.');
        }
        assert forall|i: int| 0 <= i < x.len() && i != a.len() implies crate::control::host_char(
            #[trigger] x[i],
        ) by {
            if i < a.len() {
                assert(x[i] == (a + b)[i]);
            } else {
                assert(x[i] == (a + b)[i - 1]);
            }
        }
    }
}

/// A target is stored in small letters: however its scheme, its slashes and the
/// space around it were typed, and whatever the case of its letters, it is the
/// same target.
pub proof fn targets_are_stored_in_small_letters(h: Seq<char>, i: int)
    requires
        crate::net::plain_host(h),
        0 <= i < h.len(),
    ensures
        stored_target(h).len() == h.len(),
        'A' <= h[i] <= 'Z' ==> stored_target(h)[i] as u32 == h[i] as u32 + 32,
        !('A' <= h[i] <= 'Z') ==> stored_target(h)[i] == h[i],
        stored_target("https://"@ + h) == stored_target(h),
        stored_target("http://"@ + h) == stored_target(h),
        stored_target(h.push('/')) == stored_target(h),
{
    let e = Seq::<char>::empty();
    crate::net::a_target_is_its_host(h, e, e);
    let (x, y, z) = ("https://"@ + h, "http://"@ + h, h.push('/'));
    assert(e + x + e =~= x);
    assert(e + y + e =~= y);
    assert(e + z + e =~= z);
    assert(e + h + e =~= h);
}

/// A session begins on the test tab, with the standard profile and single runs, and
/// has done nothing and asked for nothing.
pub proof fn a_session_begins_at_rest(monitor: MonitorView, dsl: DslView)
    ensures
        ({
            let s = fresh_app(monitor, dsl);
            &&& s.tab == Tab::Test && s.profile == Profile::Standard && !s.continuous_mode
            &&& s.run_state == RunState::Idle && !s.stop_requested && !s.should_quit
            &&& s.runs_completed == 0 && s.history.len() == 0 && s.outbox.len() == 0
            &&& s.error is None && s.metrics is None && s.connection is None && s.latency is None
            &&& !s.pending_meta && !s.test_tx && !s.cancel_flag
            &&& s.footer_scroll == 0 && s.footer_dir == 1 && s.footer_next_step is None
        }),
{
}

/// What goes wrong is told: a test whose engine is gone or that is stuck, a lookup
/// that failed, a client that cannot be built.
pub proof fn what_goes_wrong_is_told(s: AppView, e: Seq<char>, env: EnvView)
    requires
        !s.monitor.paused,
    ensures
        s.run_state == RunState::Running && !s.stop_requested ==> s.closed(env).error == Some(
            "the speed test stopped unexpectedly — please try again"@,
        ),
        s.stalled(env.now.ticks) && !s.stop_requested ==> s.watched(env).error == Some(
            "speed test stalled — no data from the server for 20s; your connection may be unstable"@,
        ),
        s.looked_up(Err(e), env.now).error == Some("connection info unavailable: "@ + e),
        env.client_error is Some && !s.monitor.running && s.run_state != RunState::Running
            ==> s.monitor_started(env).error == Some(
            "could not initialise networking: "@ + env.client_error->0,
        ),
{
    reveal(AppView::closed);
    reveal(AppView::watched);
    reveal(AppView::aborted);
    reveal(AppView::errored);
    reveal(AppView::monitor_resumed);
    reveal(AppView::monitor_started);
    reveal(AppView::looked_up);
}

/// In the modem editor an arrow key moves to another field and changes nothing
/// else; any other key edits and leaves the field.
pub proof fn arrow_keys_change_the_field_alone(s: AppView, key: KeyEvent)
    ensures
        key.code == KeyCode::Up || key.code == KeyCode::Down ==> s.modem_keyed(key) == (AppView {
            dsl: s.dsl.field_moved(key.code),
            ..s
        }),
        key.code is Char || key.code == KeyCode::Backspace || key.code == KeyCode::Enter || key.code
            == KeyCode::Esc ==> s.modem_keyed(key) == s.modem_edited(editor_meaning(key)),
{
    reveal(AppView::modem_keyed);
}

/// Deleting the first entry leaves the first one selected, and what is left keeps
/// its order.
pub proof fn deleting_keeps_the_others(s: AppView, i: int)
    requires
        s.valid(),
        s.history.len() > 0,
        0 <= i < s.history.len() - 1,
    ensures
        s.history_selected == 0 ==> s.entry_deleted().history_selected == 0,
        s.entry_deleted().history[i] == (if i < s.history_selected {
            s.history[i]
        } else {
            s.history[i + 1]
        }),
        s.entry_deleted().history_selected < s.history.len(),
{
    reveal(AppView::entry_deleted);
}

} // verus!
