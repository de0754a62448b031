//! Application state and orchestration.

use crate::history::{record_views, RecordView, TestRecord};
use crate::measure::{
    added, pushed, LiveRate, Moment, Quotient, Rate, MEGABIT, SECOND, SUM_LIMIT,
};
use crate::modem::{DslState, DslView};
use crate::monitor::{MonitorState, MonitorView};
use crate::net::{ConnectionInfo, ConnectionView, LatencyStats, Metrics, Phase, Profile};
use crate::style::Color;
use crate::text::{concat, opt_text};
use vstd::prelude::*;

verus! {

/// How long an error stays visible, in nanoseconds.
pub const ERROR_VISIBLE: u64 = 15 * SECOND;

/// A healthy run emits events at least every 250 ms in every phase. If nothing
/// arrives for this long, in nanoseconds, the connection or server is stuck.
pub const STALL_WATCHDOG: u64 = 20 * SECOND;

/// Throughput samples kept for the live graph (about a minute). Older points
/// slide out, so continuous sessions never grow without bound.
pub const MAX_THROUGHPUT_SAMPLES: usize = 600;

/// Frames of the spinner.
pub const SPINNER_FRAMES: usize = 4;

/// A tab of the interface.
#[derive(Debug, Clone, Copy, PartialEq, Eq, Structural)]
pub enum Tab {
    Test,
    Monitor,
    Dsl,
    History,
    Help,
}

impl Tab {
    pub const ALL: [Tab; 5] = [Tab::Test, Tab::Monitor, Tab::Dsl, Tab::History, Tab::Help];

    /// The position of the tab in the tab bar.
    pub open spec fn place(self) -> int {
        match self {
            Tab::Test => 0,
            Tab::Monitor => 1,
            Tab::Dsl => 2,
            Tab::History => 3,
            Tab::Help => 4,
        }
    }

    pub fn index(self) -> (i: usize)
        ensures
            i == self.place(),
            i < 5,
    {
        match self {
            Tab::Test => 0,
            Tab::Monitor => 1,
            Tab::Dsl => 2,
            Tab::History => 3,
            Tab::Help => 4,
        }
    }

    /// The tab to the right, the first one after the last.
    pub open spec fn successor(self) -> Self {
        match self {
            Tab::Test => Tab::Monitor,
            Tab::Monitor => Tab::Dsl,
            Tab::Dsl => Tab::History,
            Tab::History => Tab::Help,
            Tab::Help => Tab::Test,
        }
    }

    /// The tab to the left, the last one before the first.
    pub open spec fn predecessor(self) -> Self {
        match self {
            Tab::Test => Tab::Help,
            Tab::Monitor => Tab::Test,
            Tab::Dsl => Tab::Monitor,
            Tab::History => Tab::Dsl,
            Tab::Help => Tab::History,
        }
    }

    pub fn next(self) -> (t: Self)
        ensures
            t == self.successor(),
    {
        Self::ALL[(self.index() + 1) % 5]
    }

    pub fn prev(self) -> (t: Self)
        ensures
            t == self.predecessor(),
    {
        Self::ALL[(self.index() + 4) % 5]
    }
}

/// The tabs form a cycle in the order of the tab bar: a step to the right and a
/// step to the left undo each other, and five steps lead back.
pub proof fn tabs_cycle(t: Tab)
    ensures
        t.successor().predecessor() == t,
        t.predecessor().successor() == t,
        t.successor().place() == (t.place() + 1) % 5,
        t.successor().successor().successor().successor().successor() == t,
{
}

#[derive(Debug, Clone, Copy, PartialEq, Eq, Structural)]
pub enum RunState {
    Idle,
    Running,
    Finished,
}

/// Work that the state asks its surroundings to do, in order.
#[derive(Debug, Clone, Copy, PartialEq, Eq, Structural)]
pub enum Effect {
    /// Run a speed test with the current profile, on a new channel.
    SpawnTest,
    /// Tell the latest speed test to stop.
    CancelTest,
    /// Probe the monitor's target, on a new channel.
    SpawnMonitor,
    /// Tell the monitor's probe task to stop.
    CancelMonitor,
    /// Poll the configured modem, on a new channel.
    SpawnPoller,
    /// Tell the modem poller to stop.
    CancelPoller,
    /// Look the connection information up.
    LookupConnection,
    /// Write the history to disk.
    SaveHistory,
}

/// What the surroundings tell of one step: the time, and why no network client
/// can be built, where that is so.
#[derive(Debug)]
pub struct Env {
    pub now: Moment,
    pub client_error: Option<String>,
}

/// The contents of an [`Env`].
pub struct EnvView {
    pub now: Moment,
    pub client_error: Option<Seq<char>>,
}

impl View for Env {
    type V = EnvView;

    open spec fn view(&self) -> EnvView {
        EnvView { now: self.now, client_error: opt_text(self.client_error) }
    }
}

/// The whole state of the application. Times are in nanoseconds.
#[derive(Debug)]
pub struct App {
    pub tab: Tab,
    pub should_quit: bool,
    pub profile: Profile,
    pub continuous_mode: bool,
    pub stop_requested: bool,
    pub runs_completed: u64,
    /// In billionths of a bit per second.
    pub agg_down_sum: u128,
    /// In billionths of a bit per second.
    pub agg_up_sum: u128,
    /// In grains of a nanosecond.
    pub agg_ping_sum: u128,
    pub best_down: Rate,
    pub run_state: RunState,
    pub phase: Phase,
    pub error: Option<String>,
    pub error_until: Option<u64>,
    pub connection: Option<ConnectionInfo>,
    pub connection_refreshing: bool,
    pub pings: Vec<u64>,
    pub latency: Option<LatencyStats>,
    pub down_instant: LiveRate,
    pub down_avg: Rate,
    pub up_instant: LiveRate,
    pub up_avg: Rate,
    /// Whole megabits per second.
    pub down_samples: Vec<u64>,
    /// Whole megabits per second.
    pub up_samples: Vec<u64>,
    pub metrics: Option<Metrics>,
    pub spinner_frame: usize,
    pub monitor: MonitorState,
    pub dsl: DslState,
    /// Whether the events of a speed test are read.
    pub test_tx: bool,
    /// Whether there is a speed test that can be told to stop.
    pub cancel_flag: bool,
    /// Whether a connection lookup is awaited.
    pub pending_meta: bool,
    /// When the most recent event of a speed test came in.
    pub last_test_event: Option<u64>,
    /// Scroll offset (columns) of the shortcut bar.
    pub footer_scroll: u16,
    /// 1 = scrolling right, -1 = scrolling left (ping-pong).
    pub footer_dir: i8,
    /// When the next 1-column step of the shortcut bar may happen.
    pub footer_next_step: Option<u64>,
    pub history: Vec<TestRecord>,
    pub history_selected: usize,
    /// Work that is still to be done, in order.
    pub outbox: Vec<Effect>,
}

/// The contents of an [`App`].
pub struct AppView {
    pub tab: Tab,
    pub should_quit: bool,
    pub profile: Profile,
    pub continuous_mode: bool,
    pub stop_requested: bool,
    pub runs_completed: u64,
    pub agg_down_sum: u128,
    pub agg_up_sum: u128,
    pub agg_ping_sum: u128,
    pub best_down: Rate,
    pub run_state: RunState,
    pub phase: Phase,
    pub error: Option<Seq<char>>,
    pub error_until: Option<u64>,
    pub connection: Option<ConnectionView>,
    pub connection_refreshing: bool,
    pub pings: Seq<u64>,
    pub latency: Option<LatencyStats>,
    pub down_instant: LiveRate,
    pub down_avg: Rate,
    pub up_instant: LiveRate,
    pub up_avg: Rate,
    pub down_samples: Seq<u64>,
    pub up_samples: Seq<u64>,
    pub metrics: Option<Metrics>,
    pub spinner_frame: usize,
    pub monitor: MonitorView,
    pub dsl: DslView,
    pub test_tx: bool,
    pub cancel_flag: bool,
    pub pending_meta: bool,
    pub last_test_event: Option<u64>,
    pub footer_scroll: u16,
    pub footer_dir: i8,
    pub footer_next_step: Option<u64>,
    pub history: Seq<RecordView>,
    pub history_selected: usize,
    pub outbox: Seq<Effect>,
}

/// The contents of optional connection information.
#[verifier::opaque]
pub open spec fn opt_connection(c: Option<ConnectionInfo>) -> Option<ConnectionView> {
    match c {
        Some(c) => Some(c@),
        None => None,
    }
}

impl View for App {
    type V = AppView;

    open spec fn view(&self) -> AppView {
        AppView {
            tab: self.tab,
            should_quit: self.should_quit,
            profile: self.profile,
            continuous_mode: self.continuous_mode,
            stop_requested: self.stop_requested,
            runs_completed: self.runs_completed,
            agg_down_sum: self.agg_down_sum,
            agg_up_sum: self.agg_up_sum,
            agg_ping_sum: self.agg_ping_sum,
            best_down: self.best_down,
            run_state: self.run_state,
            phase: self.phase,
            error: opt_text(self.error),
            error_until: self.error_until,
            connection: opt_connection(self.connection),
            connection_refreshing: self.connection_refreshing,
            pings: self.pings@,
            latency: self.latency,
            down_instant: self.down_instant,
            down_avg: self.down_avg,
            up_instant: self.up_instant,
            up_avg: self.up_avg,
            down_samples: self.down_samples@,
            up_samples: self.up_samples@,
            metrics: self.metrics,
            spinner_frame: self.spinner_frame,
            monitor: self.monitor@,
            dsl: self.dsl@,
            test_tx: self.test_tx,
            cancel_flag: self.cancel_flag,
            pending_meta: self.pending_meta,
            last_test_event: self.last_test_event,
            footer_scroll: self.footer_scroll,
            footer_dir: self.footer_dir,
            footer_next_step: self.footer_next_step,
            history: record_views(self.history@),
            history_selected: self.history_selected,
            outbox: self.outbox@,
        }
    }
}

/// The grade of a download rate in bits per second, and its colour.
pub open spec fn grade_of(bps: Quotient) -> (char, Color) {
    if bps.reaches(300 * MEGABIT) {
        ('S', Color::LightGreen)
    } else if bps.reaches(100 * MEGABIT) {
        ('A', Color::Green)
    } else if bps.reaches(50 * MEGABIT) {
        ('B', Color::Yellow)
    } else if bps.reaches(25 * MEGABIT) {
        ('C', Color::LightYellow)
    } else if bps.reaches(10 * MEGABIT) {
        ('D', Color::LightRed)
    } else {
        ('F', Color::Red)
    }
}

/// The grade of a rate in bits per second, and its colour.
pub fn grade_bps(bps: &Quotient) -> (g: (char, Color))
    requires
        bps.small(),
    ensures
        g == grade_of(*bps),
{
    if bps.at_least(300 * MEGABIT) {
        ('S', Color::LightGreen)
    } else if bps.at_least(100 * MEGABIT) {
        ('A', Color::Green)
    } else if bps.at_least(50 * MEGABIT) {
        ('B', Color::Yellow)
    } else if bps.at_least(25 * MEGABIT) {
        ('C', Color::LightYellow)
    } else if bps.at_least(10 * MEGABIT) {
        ('D', Color::LightRed)
    } else {
        ('F', Color::Red)
    }
}

/// A position before the end of a list of `len` items, zero where it is empty.
pub open spec fn last_index(len: int) -> int {
    if len > 0 {
        len - 1
    } else {
        0
    }
}

impl AppView {
    /// The parts keep their own invariants, the totals keep their limit,
    /// the graphs keep their bound, and the selection is in
    /// the history.
    pub open spec fn valid(self) -> bool {
        &&& self.monitor.valid()
        &&& self.dsl.valid()
        &&& self.spinner_frame < SPINNER_FRAMES
        &&& self.agg_down_sum <= SUM_LIMIT
        &&& self.agg_up_sum <= SUM_LIMIT
        &&& self.agg_ping_sum <= SUM_LIMIT
        &&& self.down_samples.len() <= MAX_THROUGHPUT_SAMPLES
        &&& self.up_samples.len() <= MAX_THROUGHPUT_SAMPLES
        &&& self.history_selected <= last_index(self.history.len() as int)
    }

    /// With one more thing to do.
    pub open spec fn asking(self, effect: Effect) -> Self {
        AppView { outbox: self.outbox.push(effect), ..self }
    }

    /// With an error shown.
    #[verifier::opaque]
    pub open spec fn errored(self, msg: Seq<char>, m: Moment) -> Self {
        AppView {
            error: Some(msg),
            error_until: Some((m.ticks + ERROR_VISIBLE) as u64),
            ..self
        }
    }

    /// With a connection lookup on its way, unless one is.
    #[verifier::opaque]
    pub open spec fn looking_up(self) -> Self {
        if self.pending_meta || self.connection_refreshing {
            self
        } else {
            AppView { pending_meta: true, connection_refreshing: true, ..self }.asking(
                Effect::LookupConnection,
            )
        }
    }

    /// After a finished lookup: new information always replaces the old, a
    /// failure leaves it.
    #[verifier::opaque]
    pub open spec fn looked_up(
        self,
        result: Result<ConnectionView, Seq<char>>,
        m: Moment,
    ) -> Self {
        let s = AppView { connection_refreshing: false, ..self };
        match result {
            Ok(info) => AppView { connection: Some(info), ..s },
            Err(e) => s.errored("connection info unavailable: "@ + e, m),
        }
    }

    // ---- monitor ----

    /// With the probe task told to stop.
    #[verifier::opaque]
    pub open spec fn monitor_stopped(self) -> Self {
        let s = if self.monitor.cancel {
            self.asking(Effect::CancelMonitor)
        } else {
            self
        };
        AppView {
            monitor: self.monitor.task_stopped(),
            ..s
        }
    }

    /// With the monitor started, unless it or a speed test runs; where no
    /// client can be built, with an error instead.
    #[verifier::opaque]
    pub open spec fn monitor_started(self, env: EnvView) -> Self {
        if self.monitor.running || self.run_state == RunState::Running {
            self
        } else {
            match env.client_error {
                Some(e) => self.errored("could not initialise networking: "@ + e, env.now),
                None => AppView {
                    monitor: self.monitor.task_started(env.now.ticks),
                    ..self
                }.asking(Effect::SpawnMonitor),
            }
        }
    }

    /// With a monitor that was paused for a speed test started again.
    #[verifier::opaque]
    pub open spec fn monitor_resumed(self, env: EnvView) -> Self {
        if self.monitor.paused {
            AppView {
                monitor: self.monitor.held(false),
                ..self
            }.monitor_started(env)
        } else {
            self
        }
    }

    /// With gaming mode switched over: it probes twice a second.
    #[verifier::opaque]
    pub open spec fn gaming_toggled(self) -> Self {
        AppView { monitor: self.monitor.gaming_toggled(), ..self }
    }

    /// With the figures of the monitor session forgotten.
    #[verifier::opaque]
    pub open spec fn session_cleared(self, now: u64) -> Self {
        AppView { monitor: self.monitor.cleared(now), ..self }
    }

    // ---- modem ----

    /// With a poller started on the configured modem, in place of any other.
    #[verifier::opaque]
    pub open spec fn polling_begun(self) -> Self {
        let s = if self.dsl.cancel {
            self.asking(Effect::CancelPoller)
        } else {
            self
        };
        AppView { dsl: self.dsl.polling_on(), ..s }.asking(Effect::SpawnPoller)
    }

    /// With the poller told to stop.
    #[verifier::opaque]
    pub open spec fn polling_stopped(self) -> Self {
        let s = if self.dsl.cancel {
            self.asking(Effect::CancelPoller)
        } else {
            self
        };
        AppView { dsl: self.dsl.polling_off(), ..s }
    }

    /// With an empty modem log.
    #[verifier::opaque]
    pub open spec fn modem_log_cleared(self) -> Self {
        AppView { dsl: self.dsl.log_cleared(), ..self }
    }

    // ---- speed test ----

    /// With every figure of the current run forgotten.
    #[verifier::opaque]
    pub open spec fn run_reset(self, reset_aggregates: bool, now: u64) -> Self {
        let s = if reset_aggregates {
            AppView {
                runs_completed: 0,
                agg_down_sum: 0,
                agg_up_sum: 0,
                agg_ping_sum: 0,
                best_down: Rate::zero(),
                ..self
            }
        } else {
            self
        };
        AppView {
            run_state: RunState::Running,
            phase: Phase::Connect,
            error: None,
            error_until: None,
            pings: Seq::empty(),
            latency: None,
            down_instant: LiveRate::zero(),
            down_avg: Rate::zero(),
            up_instant: LiveRate::zero(),
            up_avg: Rate::zero(),
            down_samples: Seq::empty(),
            up_samples: Seq::empty(),
            last_test_event: Some(now),
            ..s
        }
    }

    /// With a running monitor paused, so that its probes never distort a
    /// measurement.
    #[verifier::opaque]
    pub open spec fn monitor_paused(self) -> Self {
        if self.monitor.running {
            AppView {
                monitor: self.monitor.held(true),
                ..self
            }.monitor_stopped()
        } else {
            self
        }
    }

    /// With a speed test started on a new channel.
    #[verifier::opaque]
    pub open spec fn test_started(self, reset_aggregates: bool, now: u64) -> Self {
        AppView {
            cancel_flag: true,
            test_tx: true,
            ..self.run_reset(reset_aggregates, now).monitor_paused()
        }.asking(Effect::SpawnTest)
    }

    /// With the running test told to stop, where there is one.
    #[verifier::opaque]
    pub open spec fn test_told_to_stop(self) -> Self {
        if self.cancel_flag {
            self.asking(Effect::CancelTest)
        } else {
            self
        }
    }

    /// After a graceful stop of continuous mode is asked for.
    #[verifier::opaque]
    pub open spec fn stopping(self) -> Self {
        AppView { stop_requested: true, ..self }.test_told_to_stop()
    }

    /// After the test is abandoned.
    #[verifier::opaque]
    pub open spec fn test_cancelled(self, env: EnvView) -> Self {
        AppView {
            test_tx: false,
            run_state: RunState::Idle,
            stop_requested: false,
            ..self.test_told_to_stop()
        }.monitor_resumed(env)
    }

    /// With a completed run at the end of the history.
    #[verifier::opaque]
    pub open spec fn run_recorded(self, metrics: Metrics, m: Moment) -> Self {
        let history = self.history.push(
            RecordView {
                timestamp: m.wall,
                profile: self.profile.title(),
                down: metrics.down,
                up: metrics.up,
                ping: metrics.latency.avg,
                jitter: metrics.latency.jitter,
                grade: grade_of(metrics.down.bits()).0,
            },
        );
        AppView { history, history_selected: last_index(history.len() as int) as usize, ..self }
    }

    /// After the history was written, or not.
    #[verifier::opaque]
    pub open spec fn history_saved(self, failure: Option<Seq<char>>, m: Moment) -> Self {
        match failure {
            Some(e) => self.errored(
                "could not save history: "@ + e + " — check disk space / permissions"@,
                m,
            ),
            None => self,
        }
    }

    /// With a completed run in the totals of the session.
    #[verifier::opaque]
    pub open spec fn run_counted(self, metrics: Metrics) -> Self {
        AppView {
            runs_completed: (self.runs_completed + 1) as u64,
            agg_down_sum: added(self.agg_down_sum, metrics.down.fine()),
            agg_up_sum: added(self.agg_up_sum, metrics.up.fine()),
            agg_ping_sum: added(self.agg_ping_sum, metrics.latency.avg.grains()),
            best_down: if metrics.down.above(self.best_down) {
                metrics.down
            } else {
                self.best_down
            },
            ..self
        }
    }

    /// At the end of a session: with its results shown.
    #[verifier::opaque]
    pub open spec fn finalized(self, env: EnvView) -> Self {
        AppView {
            run_state: RunState::Finished,
            stop_requested: false,
            ..self
        }.monitor_resumed(env)
    }

    /// After a run was given up with an error.
    #[verifier::opaque]
    pub open spec fn aborted(self, msg: Seq<char>, env: EnvView) -> Self {
        AppView { run_state: RunState::Idle, ..self.errored(msg, env.now) }.monitor_resumed(env)
    }

    /// After a failed or stopped run. A stop that was asked for is no error: it
    /// ends the session with whatever results exist.
    #[verifier::opaque]
    pub open spec fn run_failed(self, msg: Seq<char>, env: EnvView) -> Self {
        if self.stop_requested {
            self.finalized(env)
        } else {
            self.aborted(msg, env)
        }
    }

    /// Whether a completed run is followed by another.
    pub open spec fn chains(self) -> bool {
        self.continuous_mode && !self.stop_requested
    }

    /// Whether the running test has been silent for too long.
    pub open spec fn stalled(self, now: u64) -> bool {
        self.run_state == RunState::Running && match self.last_test_event {
            Some(t) => crate::measure::elapsed(now, t) > STALL_WATCHDOG,
            None => false,
        }
    }

    /// After a look at a running test that may have gone silent.
    #[verifier::opaque]
    pub open spec fn watched(self, env: EnvView) -> Self {
        if !self.stalled(env.now.ticks) {
            self
        } else if self.stop_requested {
            self.finalized(env)
        } else {
            self.aborted(
                "speed test stalled — no data from the server for 20s; your connection may be unstable"@,
                env,
            )
        }
    }
}

/// The state in which the application starts.
pub open spec fn fresh_app(monitor: MonitorView, dsl: DslView) -> AppView {
    AppView {
        tab: Tab::Test,
        should_quit: false,
        profile: Profile::Standard,
        continuous_mode: false,
        stop_requested: false,
        runs_completed: 0,
        agg_down_sum: 0,
        agg_up_sum: 0,
        agg_ping_sum: 0,
        best_down: Rate::zero(),
        run_state: RunState::Idle,
        phase: Phase::Connect,
        error: None,
        error_until: None,
        connection: None,
        connection_refreshing: false,
        pings: Seq::empty(),
        latency: None,
        down_instant: LiveRate::zero(),
        down_avg: Rate::zero(),
        up_instant: LiveRate::zero(),
        up_avg: Rate::zero(),
        down_samples: Seq::empty(),
        up_samples: Seq::empty(),
        metrics: None,
        spinner_frame: 0,
        monitor,
        dsl,
        test_tx: false,
        cancel_flag: false,
        pending_meta: false,
        last_test_event: None,
        footer_scroll: 0,
        footer_dir: 1,
        footer_next_step: None,
        history: Seq::empty(),
        history_selected: 0,
        outbox: Seq::empty(),
    }
}

impl App {
    /// The application as it starts, with nothing measured yet.
    pub fn new(now: u64) -> (a: Self)
        ensures
            a@ == fresh_app(a@.monitor, a@.dsl),
            a@.monitor == MonitorView::fresh(now),
            a@.dsl == DslView::fresh(),
            a@.valid(),
    {
        let a = App {
            tab: Tab::Test,
            should_quit: false,
            profile: Profile::Standard,
            continuous_mode: false,
            stop_requested: false,
            runs_completed: 0,
            agg_down_sum: 0,
            agg_up_sum: 0,
            agg_ping_sum: 0,
            best_down: Rate::zero(),
            run_state: RunState::Idle,
            phase: Phase::Connect,
            error: None,
            error_until: None,
            connection: None,
            connection_refreshing: false,
            pings: Vec::new(),
            latency: None,
            down_instant: LiveRate::zero(),
            down_avg: Rate::zero(),
            up_instant: LiveRate::zero(),
            up_avg: Rate::zero(),
            down_samples: Vec::new(),
            up_samples: Vec::new(),
            metrics: None,
            spinner_frame: 0,
            monitor: MonitorState::new(now),
            dsl: DslState::new(),
            test_tx: false,
            cancel_flag: false,
            pending_meta: false,
            last_test_event: None,
            footer_scroll: 0,
            footer_dir: 1,
            footer_next_step: None,
            history: Vec::new(),
            history_selected: 0,
            outbox: Vec::new(),
        };
        reveal(opt_connection);
        assert(record_views(a.history@) =~= Seq::empty()) by {
            reveal(record_views);
        }
        a
    }

    /// Starts with the history that was found on disk, its newest entry
    /// selected.
    pub fn load_history(&mut self, records: Vec<TestRecord>)
        requires
            old(self)@.valid(),
        ensures
            final(self)@ == (AppView {
                history: record_views(records@),
                history_selected: last_index(records@.len() as int) as usize,
                ..old(self)@
            }),
            final(self)@.valid(),
    {
        let n: usize = records.len();
        assert(record_views(records@).len() == n) by {
            reveal(record_views);
        }
        self.history = records;
        self.history_selected = if n > 0 {
            n - 1
        } else {
            0
        };
    }

    /// The grade of a download rate, and its colour.
    pub fn grade(down: Rate) -> (g: (char, Color))
        ensures
            g == grade_of(down.bits()),
    {
        grade_bps(&down.bps())
    }

    /// Hands over the work that is still to be done.
    pub fn take_effects(&mut self) -> (effects: Vec<Effect>)
        ensures
            effects@ == old(self)@.outbox,
            final(self)@ == (AppView { outbox: Seq::empty(), ..old(self)@ }),
    {
        let mut effects: Vec<Effect> = Vec::new();
        std::mem::swap(&mut effects, &mut self.outbox);
        effects
    }

    /// Shows an error for a while.
    pub fn set_error(&mut self, msg: String, m: Moment)
        requires
            m.valid(),
        ensures
            final(self)@ == old(self)@.errored(msg@, m),
            old(self)@.valid() ==> final(self)@.valid(),
    {
        reveal(AppView::errored);
        self.error = Some(msg);
        self.error_until = Some(m.ticks + ERROR_VISIBLE);
    }

    /// Asks for the lookup that fills the IP / ISP / LOCATION strip, unless one
    /// is on its way.
    pub fn begin_connection_lookup(&mut self)
        ensures
            final(self)@ == old(self)@.looking_up(),
            old(self)@.valid() ==> final(self)@.valid(),
    {
        reveal(AppView::looking_up);
        if self.pending_meta || self.connection_refreshing {
            return ;
        }
        self.pending_meta = true;
        self.connection_refreshing = true;
        self.outbox.push(Effect::LookupConnection);
    }

    /// Applies a finished lookup. New information always replaces the old, so
    /// that a refresh picks up a changed address or location; a failure keeps
    /// what is known.
    pub fn finish_connection_lookup(&mut self, result: Result<ConnectionInfo, String>, m: Moment)
        requires
            m.valid(),
        ensures
            final(self)@ == old(self)@.looked_up(lookup_view(result), m),
            old(self)@.valid() ==> final(self)@.valid(),
    {
        reveal(AppView::looked_up);
        self.connection_refreshing = false;
        match result {
            Ok(info) => {
                self.connection = Some(info);
                reveal(opt_connection);
            },
            Err(e) => {
                let msg = concat("connection info unavailable: ", e.as_str());
                self.set_error(msg, m);
            },
        }
    }

    // ---- speed test ----

    fn reset_totals(&mut self)
        requires
            old(self)@.valid(),
        ensures
            final(self)@ == (AppView {
                runs_completed: 0,
                agg_down_sum: 0,
                agg_up_sum: 0,
                agg_ping_sum: 0,
                best_down: Rate::zero(),
                ..old(self)@
            }),
            final(self)@.valid(),
    {
        self.runs_completed = 0;
        self.agg_down_sum = 0;
        self.agg_up_sum = 0;
        self.agg_ping_sum = 0;
        self.best_down = Rate::zero();
    }

    fn reset_run(&mut self, reset_aggregates: bool, now: u64)
        requires
            old(self)@.valid(),
        ensures
            final(self)@ == old(self)@.run_reset(reset_aggregates, now),
            final(self)@.valid(),
    {
        reveal(AppView::run_reset);
        if reset_aggregates {
            self.reset_totals();
        }
        self.run_state = RunState::Running;
        self.phase = Phase::Connect;
        self.error = None;
        self.error_until = None;
        self.pings.clear();
        self.latency = None;
        self.down_instant = LiveRate::zero();
        self.down_avg = Rate::zero();
        self.up_instant = LiveRate::zero();
        self.up_avg = Rate::zero();
        self.down_samples.clear();
        self.up_samples.clear();
        self.last_test_event = Some(now);
    }

    // The monitor shares the connection: it is paused, so that probing traffic
    // can never distort the measurement (and vice versa).
    fn pause_monitor(&mut self)
        requires
            old(self)@.valid(),
        ensures
            final(self)@ == old(self)@.monitor_paused(),
            final(self)@.valid(),
    {
        reveal(AppView::monitor_paused);
        if self.monitor.running {
            self.monitor.hold(true);
            self.stop_monitor_task();
        }
    }

    /// Starts a speed test. The totals of the session survive unless they are
    /// reset. A running monitor is paused.
    pub fn start_test(&mut self, reset_aggregates: bool, now: u64)
        requires
            old(self)@.valid(),
        ensures
            final(self)@ == old(self)@.test_started(reset_aggregates, now),
            final(self)@.valid(),
    {
        reveal(AppView::test_started);
        self.reset_run(reset_aggregates, now);
        self.pause_monitor();
        self.cancel_flag = true;
        self.test_tx = true;
        self.outbox.push(Effect::SpawnTest);
    }

    fn tell_test_to_stop(&mut self)
        ensures
            final(self)@ == old(self)@.test_told_to_stop(),
            old(self)@.valid() ==> final(self)@.valid(),
    {
        reveal(AppView::test_told_to_stop);
        if self.cancel_flag {
            self.outbox.push(Effect::CancelTest);
        }
    }

    /// Graceful stop for continuous mode: the run in flight is told to stop,
    /// and the session ends with the results so far once it has.
    pub fn stop_continuous(&mut self)
        ensures
            final(self)@ == old(self)@.stopping(),
            old(self)@.valid() ==> final(self)@.valid(),
    {
        reveal(AppView::stopping);
        self.stop_requested = true;
        self.tell_test_to_stop();
    }

    /// Abandons the running test.
    pub fn cancel_test(&mut self, env: &Env)
        requires
            old(self)@.valid(),
            env.now.valid(),
        ensures
            final(self)@ == old(self)@.test_cancelled(env@),
            final(self)@.valid(),
    {
        reveal(AppView::test_cancelled);
        self.tell_test_to_stop();
        self.test_tx = false;
        self.run_state = RunState::Idle;
        self.stop_requested = false;
        self.resume_monitor_after_test(env);
    }

    /// Appends a completed run to the history and selects it.
    pub fn finish_run(&mut self, metrics: Metrics, m: Moment)
        requires
            old(self)@.valid(),
        ensures
            final(self)@ == old(self)@.run_recorded(metrics, m),
            final(self)@.valid(),
    {
        reveal(AppView::run_recorded);
        let (grade, _) = Self::grade(metrics.down);
        let record = TestRecord {
            timestamp: m.wall,
            profile: self.profile.name().to_owned(),
            down: metrics.down,
            up: metrics.up,
            ping: metrics.latency.avg,
            jitter: metrics.latency.jitter,
            grade,
        };
        let ghost before = self.history@;
        let ghost r = record;
        self.history.push(record);
        assert(record_views(self.history@) =~= record_views(before).push(r@)) by {
            reveal(record_views);
        }
        assert(record_views(self.history@).len() == self.history@.len()) by {
            reveal(record_views);
        }
        self.history_selected = self.history.len() - 1;
    }

    /// Ends the session with its results shown.
    pub fn finalize_session(&mut self, env: &Env)
        requires
            old(self)@.valid(),
            env.now.valid(),
        ensures
            final(self)@ == old(self)@.finalized(env@),
            final(self)@.valid(),
    {
        reveal(AppView::finalized);
        self.run_state = RunState::Finished;
        self.stop_requested = false;
        self.resume_monitor_after_test(env);
    }

    pub(crate) fn abort_run(&mut self, msg: String, env: &Env)
        requires
            old(self)@.valid(),
            env.now.valid(),
        ensures
            final(self)@ == old(self)@.aborted(msg@, env@),
            final(self)@.valid(),
    {
        reveal(AppView::aborted);
        self.set_error(msg, env.now);
        self.run_state = RunState::Idle;
        self.resume_monitor_after_test(env);
    }

    fn resume_monitor_after_test(&mut self, env: &Env)
        requires
            old(self)@.valid(),
            env.now.valid(),
        ensures
            final(self)@ == old(self)@.monitor_resumed(env@),
            final(self)@.valid(),
    {
        reveal(AppView::monitor_resumed);
        if self.monitor.paused {
            self.monitor.hold(false);
            self.start_monitor(env);
        }
    }

    /// Handles a failed or stopped run. A stop that the user asked for is no
    /// error: it ends the session with whatever results exist.
    pub fn on_run_failed(&mut self, msg: String, env: &Env)
        requires
            old(self)@.valid(),
            env.now.valid(),
        ensures
            final(self)@ == old(self)@.run_failed(msg@, env@),
            final(self)@.valid(),
    {
        reveal(AppView::run_failed);
        if self.stop_requested {
            self.finalize_session(env);
        } else {
            self.abort_run(msg, env);
        }
    }

    /// Never allows a silent infinite hang: prolonged silence of a running test
    /// means that the connection or server is stuck.
    pub fn run_stall_watchdog(&mut self, env: &Env)
        requires
            old(self)@.valid(),
            env.now.valid(),
        ensures
            final(self)@ == old(self)@.watched(env@),
            final(self)@.valid(),
    {
        reveal(AppView::watched);
        if self.run_state != RunState::Running {
            return ;
        }
        let quiet_for: u64 = match self.last_test_event {
            Some(t) => crate::measure::elapsed_since(env.now.ticks, t),
            None => return ,
        };
        if quiet_for <= STALL_WATCHDOG {
            return ;
        }
        if self.stop_requested {
            self.finalize_session(env);
            return ;
        }
        self.abort_run(
            "speed test stalled — no data from the server for 20s; your connection may be unstable".to_owned(),
            env,
        );
    }

    /// Reads events although no speed test was started.
    pub fn install_fake_test_channel(&mut self, now: u64)
        ensures
            final(self)@ == (AppView {
                test_tx: true,
                last_test_event: Some(now),
                ..old(self)@
            }),
    {
        self.test_tx = true;
        self.last_test_event = Some(now);
    }

    // ---- monitor ----

    /// Starts the monitor, unless it or a speed test runs. Without a network
    /// client an error is shown and nothing claims to run.
    pub fn start_monitor(&mut self, env: &Env)
        requires
            old(self)@.valid(),
            env.now.valid(),
        ensures
            final(self)@ == old(self)@.monitor_started(env@),
            final(self)@.valid(),
    {
        reveal(AppView::monitor_started);
        if self.monitor.running || self.run_state == RunState::Running {
            return ;
        }
        match &env.client_error {
            Some(e) => {
                let msg = concat("could not initialise networking: ", e.as_str());
                self.set_error(msg, env.now);
            },
            None => {
                self.monitor.start_task(env.now.ticks);
                self.outbox.push(Effect::SpawnMonitor);
            },
        }
    }

    /// Tells the probe task to stop.
    pub fn stop_monitor_task(&mut self)
        ensures
            final(self)@ == old(self)@.monitor_stopped(),
            old(self)@.valid() ==> final(self)@.valid(),
    {
        reveal(AppView::monitor_stopped);
        if self.monitor.cancel {
            self.outbox.push(Effect::CancelMonitor);
        }
        self.monitor.stop_task();
    }

    /// Switches gaming mode over, which probes twice a second.
    pub fn toggle_gaming(&mut self)
        ensures
            final(self)@ == old(self)@.gaming_toggled(),
            old(self)@.valid() ==> final(self)@.valid(),
    {
        reveal(AppView::gaming_toggled);
        self.monitor.toggle_gaming();
    }

    /// Forgets the figures of the monitor session.
    pub fn clear_monitor_session(&mut self, now: u64)
        requires
            old(self)@.valid(),
        ensures
            final(self)@ == old(self)@.session_cleared(now),
            final(self)@.valid(),
    {
        reveal(AppView::session_cleared);
        self.monitor.clear(now);
    }

    // ---- modem ----

    /// Starts the poller on the configured modem. Safe to call again after a
    /// change of the configuration: it replaces any other poller.
    pub fn begin_dsl_polling(&mut self)
        ensures
            final(self)@ == old(self)@.polling_begun(),
            old(self)@.valid() ==> final(self)@.valid(),
    {
        reveal(AppView::polling_begun);
        if self.dsl.cancel {
            self.outbox.push(Effect::CancelPoller);
        }
        self.dsl.start_polling();
        self.outbox.push(Effect::SpawnPoller);
    }

    /// Tells the poller to stop.
    pub fn stop_dsl_polling(&mut self)
        ensures
            final(self)@ == old(self)@.polling_stopped(),
            old(self)@.valid() ==> final(self)@.valid(),
    {
        reveal(AppView::polling_stopped);
        if self.dsl.cancel {
            self.outbox.push(Effect::CancelPoller);
        }
        self.dsl.stop_polling();
    }

    /// Empties the modem log.
    pub fn clear_modem_log(&mut self)
        ensures
            final(self)@ == old(self)@.modem_log_cleared(),
            old(self)@.valid() ==> final(self)@.valid(),
    {
        reveal(AppView::modem_log_cleared);
        self.dsl.clear_log();
    }
}

/// What the result of a lookup says.
pub open spec fn lookup_view(result: Result<ConnectionInfo, String>) -> Result<
    ConnectionView,
    Seq<char>,
> {
    match result {
        Ok(info) => Ok(info@),
        Err(e) => Err(e@),
    }
}

/// Appends a sample and keeps the list at a fixed window.
pub fn push_capped(samples: &mut Vec<u64>, value: u64)
    ensures
        final(samples)@ == pushed(old(samples)@, value, MAX_THROUGHPUT_SAMPLES as nat),
{
    let ghost before = samples@;
    if samples.len() >= MAX_THROUGHPUT_SAMPLES {
        samples.remove(0);
    }
    samples.push(value);
    assert(samples@ =~= pushed(before, value, MAX_THROUGHPUT_SAMPLES as nat));
}

} // verus!
