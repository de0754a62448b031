//! One step of the main loop: what has arrived is taken in, runs are recorded
//! and chained, silence is noticed.

use crate::app::{
    lookup_view, push_capped, App, AppView, Env, EnvView, RunState, MAX_THROUGHPUT_SAMPLES,
    SPINNER_FRAMES,
};
use crate::dsl::{DslSnapshot, SnapshotView};
use crate::measure::{added, added_to, pushed, LiveRate, Moment, Rate, SUM_LIMIT};
use crate::monitor::ProbeSample;
use crate::net::{
    event_views, ConnectionInfo, ConnectionView, LatencyStats, Metrics, Phase, TestEvent,
    TestEventView,
};
use vstd::prelude::*;

verus! {

/// What has arrived since the last step: probes of the monitor, snapshots of
/// the modem, events of the speed test and whether its engine is gone, and the
/// result of a connection lookup.
#[derive(Debug)]
pub struct Arrivals {
    pub samples: Vec<ProbeSample>,
    pub snapshots: Vec<DslSnapshot>,
    pub events: Vec<TestEvent>,
    pub ended: bool,
    pub lookup: Option<Result<ConnectionInfo, String>>,
}

/// The contents of [`Arrivals`].
pub struct ArrivalsView {
    pub samples: Seq<ProbeSample>,
    pub snapshots: Seq<SnapshotView>,
    pub events: Seq<TestEventView>,
    pub ended: bool,
    pub lookup: Option<Result<ConnectionView, Seq<char>>>,
}

/// The contents of every snapshot of a list.
pub open spec fn snapshot_views(list: Seq<DslSnapshot>) -> Seq<SnapshotView> {
    list.map_values(|s: DslSnapshot| s@)
}

/// What an optional result of a lookup says.
pub open spec fn opt_lookup(result: Option<Result<ConnectionInfo, String>>) -> Option<
    Result<ConnectionView, Seq<char>>,
> {
    match result {
        Some(r) => Some(lookup_view(r)),
        None => None,
    }
}

impl View for Arrivals {
    type V = ArrivalsView;

    open spec fn view(&self) -> ArrivalsView {
        ArrivalsView {
            samples: self.samples@,
            snapshots: snapshot_views(self.snapshots@),
            events: event_views(self.events@),
            ended: self.ended,
            lookup: opt_lookup(self.lookup),
        }
    }
}

/// What a step asks for.
#[derive(Debug)]
pub enum Tick {
    /// Nothing: the step is complete.
    Done,
    /// A run was completed: write the history, then complete the step with
    /// [`App::tick_after_save`].
    Save(Metrics, Option<Result<ConnectionInfo, String>>),
}

/// What a [`RunOutcome`] says.
pub enum RunOutcomeView {
    Pending,
    Finished(Metrics),
    Failed(Seq<char>),
}

/// A rate in whole megabits per second, rounded.
pub open spec fn graph_sample(r: LiveRate) -> u64 {
    ((r.fine() + 500_000_000_000_000) / 1_000_000_000_000_000) as u64
}

fn graph_sample_of(r: LiveRate) -> (s: u64)
    ensures
        s == graph_sample(r),
{
    ((r.total() + 500_000_000_000_000) / 1_000_000_000_000_000) as u64
}

impl AppView {
    /// With the spinner one frame on.
    #[verifier::opaque]
    pub open spec fn frame_advanced(self) -> Self {
        AppView { spinner_frame: ((self.spinner_frame + 1) % SPINNER_FRAMES as int) as usize, ..self }
    }

    /// Without an error whose time is over.
    #[verifier::opaque]
    pub open spec fn error_expired(self, now: u64) -> Self {
        match self.error_until {
            Some(until) => if now > until {
                AppView { error: None, error_until: None, ..self }
            } else {
                self
            },
            None => self,
        }
    }

    /// With the probes of a monitor that is read.
    #[verifier::opaque]
    pub open spec fn probed(self, samples: Seq<ProbeSample>, m: Moment) -> Self {
        if self.monitor.rx {
            AppView { monitor: self.monitor.sampled_all(samples, m), ..self }
        } else {
            self
        }
    }

    /// Whether the snapshots of the modem are read: the modem tab is not paused
    /// and has a poller.
    pub open spec fn reads_snapshots(self) -> bool {
        !self.dsl.paused && self.dsl.rx
    }

    /// With the newest snapshot of the modem, where they are read.
    #[verifier::opaque]
    pub open spec fn modem_read(self, snapshots: Seq<SnapshotView>, m: Moment) -> Self {
        if self.reads_snapshots() && snapshots.len() > 0 {
            AppView { dsl: self.dsl.polled(snapshots.last(), m), ..self }
        } else {
            self
        }
    }

    /// After a sign of life of the engine.
    pub open spec fn alive(self, m: Moment) -> Self {
        AppView { last_test_event: Some(m.ticks), ..self }
    }

    /// After an event in the middle of a run. Rates count for the phase they
    /// are measured in.
    #[verifier::opaque]
    pub open spec fn heard(self, ev: TestEventView, m: Moment) -> Self {
        let s = self.alive(m);
        match ev {
            TestEventView::Phase(p) => AppView { phase: p, ..s },
            TestEventView::PingSample(ns) => AppView { pings: s.pings.push(ns), ..s },
            TestEventView::LatencyDone(st) => AppView { latency: Some(st), ..s },
            TestEventView::Throughput { instant, avg } => match self.phase {
                Phase::Download => AppView {
                    down_instant: instant,
                    down_avg: avg,
                    down_samples: pushed(
                        s.down_samples,
                        graph_sample(instant),
                        MAX_THROUGHPUT_SAMPLES as nat,
                    ),
                    ..s
                },
                Phase::Upload => AppView {
                    up_instant: instant,
                    up_avg: avg,
                    up_samples: pushed(
                        s.up_samples,
                        graph_sample(instant),
                        MAX_THROUGHPUT_SAMPLES as nat,
                    ),
                    ..s
                },
                _ => s,
            },
            TestEventView::PhaseDone => s,
            _ => self,
        }
    }

    /// After the events up to the outcome of the run, and that outcome.
    pub open spec fn drained(self, events: Seq<TestEventView>, m: Moment) -> (Self, RunOutcomeView)
        decreases events.len(),
    {
        if events.len() == 0 {
            (self, RunOutcomeView::Pending)
        } else {
            match events[0] {
                TestEventView::Finished(metrics) => (self.alive(m), RunOutcomeView::Finished(metrics)),
                TestEventView::Failed(msg) => (self, RunOutcomeView::Failed(msg)),
                ev => self.heard(ev, m).drained(events.drop_first(), m),
            }
        }
    }

    /// With the channel closed. An engine that is gone without an outcome never
    /// leaves the test running: the session ends where a stop was asked for,
    /// else with an error.
    #[verifier::opaque]
    pub open spec fn closed(self, env: EnvView) -> Self {
        let s = AppView { test_tx: false, ..self };
        if self.run_state != RunState::Running {
            s
        } else if self.stop_requested {
            s.finalized(env)
        } else {
            s.aborted("the speed test stopped unexpectedly — please try again"@, env)
        }
    }

    /// With the result of an awaited lookup, where it has arrived.
    #[verifier::opaque]
    pub open spec fn lookup_taken(
        self,
        lookup: Option<Result<ConnectionView, Seq<char>>>,
        m: Moment,
    ) -> Self {
        match lookup {
            Some(result) => if self.pending_meta {
                AppView { pending_meta: false, ..self }.looked_up(result, m)
            } else {
                self
            },
            None => self,
        }
    }

    /// After what a step does first, whatever the test does.
    pub open spec fn prepared(self, arrivals: ArrivalsView, m: Moment) -> Self {
        self.frame_advanced().error_expired(m.ticks).probed(arrivals.samples, m).modem_read(
            arrivals.snapshots,
            m,
        )
    }

    /// After what a step does last, whatever the test did.
    pub open spec fn settled(
        self,
        lookup: Option<Result<ConnectionView, Seq<char>>>,
        env: EnvView,
    ) -> Self {
        self.watched(env).lookup_taken(lookup, env.now)
    }

    /// After the events of a run, where there are read ones. A completed run is
    /// at the end of the history and is given back: the step is not complete.
    pub open spec fn run_heard(self, arrivals: ArrivalsView, env: EnvView) -> (
        Self,
        Option<Metrics>,
    ) {
        if !self.test_tx {
            (self.settled(arrivals.lookup, env), None)
        } else {
            let (s, end) = self.drained(arrivals.events, env.now);
            match end {
                RunOutcomeView::Pending => (
                    (if arrivals.ended {
                        s.closed(env)
                    } else {
                        s
                    }).settled(arrivals.lookup, env),
                    None,
                ),
                RunOutcomeView::Failed(msg) => (
                    s.run_failed(msg, env).closed(env).settled(arrivals.lookup, env),
                    None,
                ),
                RunOutcomeView::Finished(metrics) => (
                    AppView { metrics: Some(metrics), ..s }.run_recorded(metrics, env.now),
                    Some(metrics),
                ),
            }
        }
    }

    /// After a step, up to a completed run.
    pub open spec fn ticked(self, arrivals: ArrivalsView, env: EnvView) -> (
        Self,
        Option<Metrics>,
    ) {
        self.prepared(arrivals, env.now).run_heard(arrivals, env)
    }

    /// After the rest of a step in which a run was completed: the run counts,
    /// and either the next one starts or the session ends.
    pub open spec fn ticked_after_save(
        self,
        metrics: Metrics,
        failure: Option<Seq<char>>,
        lookup: Option<Result<ConnectionView, Seq<char>>>,
        env: EnvView,
    ) -> Self {
        let s = self.history_saved(failure, env.now).run_counted(metrics);
        (if s.chains() {
            s.test_started(false, env.now.ticks)
        } else {
            s.finalized(env).closed(env)
        }).settled(lookup, env)
    }
}

/// How the events of a run end.
#[derive(Debug)]
pub enum RunOutcome {
    /// The run goes on, as far as they tell.
    Pending,
    Finished(Metrics),
    Failed(String),
}

impl View for RunOutcome {
    type V = RunOutcomeView;

    open spec fn view(&self) -> RunOutcomeView {
        match *self {
            RunOutcome::Pending => RunOutcomeView::Pending,
            RunOutcome::Finished(m) => RunOutcomeView::Finished(m),
            RunOutcome::Failed(msg) => RunOutcomeView::Failed(msg@),
        }
    }
}

/// The sums of a session and its best download with one more run.
fn new_totals(before: (u128, u128, u128, Rate), metrics: &Metrics) -> (t: (u128, u128, u128, Rate))
    ensures
        t.0 == added(before.0, metrics.down.fine()),
        t.1 == added(before.1, metrics.up.fine()),
        t.2 == added(before.2, metrics.latency.avg.grains()),
        t.3 == (if metrics.down.above(before.3) {
            metrics.down
        } else {
            before.3
        }),
        t.0 <= SUM_LIMIT && t.1 <= SUM_LIMIT && t.2 <= SUM_LIMIT,
{
    (
        added_to(before.0, metrics.down.billionths()),
        added_to(before.1, metrics.up.billionths()),
        added_to(before.2, metrics.latency.avg.in_grains()),
        if metrics.down.exceeds(&before.3) {
            metrics.down
        } else {
            before.3
        },
    )
}

impl App {
    fn advance_frame(&mut self)
        requires
            old(self)@.valid(),
        ensures
            final(self)@ == old(self)@.frame_advanced(),
            final(self)@.valid(),
            final(self)@.monitor == old(self)@.monitor,
    {
        reveal(AppView::frame_advanced);
        self.spinner_frame = (self.spinner_frame + 1) % SPINNER_FRAMES;
    }

    fn expire_error(&mut self, now: u64)
        requires
            old(self)@.valid(),
        ensures
            final(self)@ == old(self)@.error_expired(now),
            final(self)@.valid(),
            final(self)@.monitor == old(self)@.monitor,
    {
        reveal(AppView::error_expired);
        if let Some(until) = self.error_until {
            if now > until {
                self.error = None;
                self.error_until = None;
            }
        }
    }

    fn take_samples(&mut self, samples: &Vec<ProbeSample>, m: Moment)
        requires
            old(self)@.valid(),
            old(self)@.monitor.sent + samples@.len() <= u64::MAX,
            m.valid(),
        ensures
            final(self)@ == old(self)@.probed(samples@, m),
            final(self)@.valid(),
    {
        reveal(AppView::probed);
        if self.monitor.rx {
            self.monitor.on_samples(samples, m);
        }
    }

    /// Whether the snapshots of the modem are read: the modem tab is not paused
    /// and has a poller. Those that are not stay queued.
    pub fn reads_snapshots(&self) -> (yes: bool)
        ensures
            yes == self@.reads_snapshots(),
    {
        !self.dsl.paused && self.dsl.rx
    }

    fn take_snapshots(&mut self, snapshots: Vec<DslSnapshot>, m: Moment)
        requires
            old(self)@.valid(),
        ensures
            final(self)@ == old(self)@.modem_read(snapshot_views(snapshots@), m),
            final(self)@.valid(),
    {
        reveal(AppView::modem_read);
        if self.reads_snapshots() {
            let mut snapshots = snapshots;
            let ghost all = snapshots@;
            // Only the newest counts; incidents derive from it.
            if let Some(latest) = snapshots.pop() {
                assert(snapshot_views(all).last() == latest@);
                self.dsl.on_snapshot(latest, m);
            }
        }
    }

    fn hear_rates(&mut self, instant: LiveRate, avg: Rate, m: Moment)
        requires
            old(self)@.valid(),
        ensures
            final(self)@ == old(self)@.heard(
                TestEventView::Throughput { instant, avg },
                m,
            ),
            final(self)@.valid(),
    {
        reveal(AppView::heard);
        self.last_test_event = Some(m.ticks);
        let sample: u64 = graph_sample_of(instant);
        match self.phase {
            Phase::Download => {
                self.down_instant = instant;
                self.down_avg = avg;
                push_capped(&mut self.down_samples, sample);
            },
            Phase::Upload => {
                self.up_instant = instant;
                self.up_avg = avg;
                push_capped(&mut self.up_samples, sample);
            },
            _ => {},
        }
    }

    fn hear_phase(&mut self, phase: Phase, m: Moment)
        requires
            old(self)@.valid(),
        ensures
            final(self)@ == old(self)@.heard(TestEventView::Phase(phase), m),
            final(self)@.valid(),
    {
        reveal(AppView::heard);
        self.last_test_event = Some(m.ticks);
        self.phase = phase;
    }

    fn hear_ping(&mut self, ns: u64, m: Moment)
        requires
            old(self)@.valid(),
        ensures
            final(self)@ == old(self)@.heard(TestEventView::PingSample(ns), m),
            final(self)@.valid(),
    {
        reveal(AppView::heard);
        self.last_test_event = Some(m.ticks);
        self.pings.push(ns);
    }

    fn hear_latency(&mut self, stats: LatencyStats, m: Moment)
        requires
            old(self)@.valid(),
        ensures
            final(self)@ == old(self)@.heard(TestEventView::LatencyDone(stats), m),
            final(self)@.valid(),
    {
        reveal(AppView::heard);
        self.last_test_event = Some(m.ticks);
        self.latency = Some(stats);
    }

    fn hear_phase_done(&mut self, m: Moment)
        requires
            old(self)@.valid(),
        ensures
            final(self)@ == old(self)@.heard(TestEventView::PhaseDone, m),
            final(self)@.valid(),
    {
        reveal(AppView::heard);
        self.last_test_event = Some(m.ticks);
    }

    /// Takes an event in the middle of a run in.
    fn hear(&mut self, ev: &TestEvent, m: Moment)
        requires
            old(self)@.valid(),
            !(ev is Finished),
            !(ev is Failed),
        ensures
            final(self)@ == old(self)@.heard(ev@, m),
            final(self)@.valid(),
    {
        match ev {
            TestEvent::Phase(p) => self.hear_phase(*p, m),
            TestEvent::PingSample(ns) => self.hear_ping(*ns, m),
            TestEvent::LatencyDone(stats) => self.hear_latency(*stats, m),
            TestEvent::Throughput { instant, avg } => self.hear_rates(
                *instant,
                *avg,
                m,
            ),
            _ => self.hear_phase_done(m),
        }
    }

    /// Takes events in, up to the outcome of the run.
    fn drain(&mut self, events: &Vec<TestEvent>, m: Moment) -> (end: RunOutcome)
        requires
            old(self)@.valid(),
        ensures
            (final(self)@, end@) == old(self)@.drained(event_views(events@), m),
            final(self)@.valid(),
    {
        let ghost all = event_views(events@);
        let mut i: usize = 0;
        assert(all.skip(0) =~= all);
        while i < events.len()
            invariant
                i <= events@.len(),
                all == event_views(events@),
                self@.valid(),
                old(self)@.drained(all, m) == self@.drained(all.skip(i as int), m),
            decreases events@.len() - i,
        {
            assert(all.skip(i as int)[0] == events@[i as int]@);
            assert(all.skip(i as int).drop_first() =~= all.skip(i + 1));
            match &events[i] {
                TestEvent::Finished(metrics) => {
                    self.last_test_event = Some(m.ticks);
                    return RunOutcome::Finished(*metrics);
                },
                TestEvent::Failed(msg) => {
                    return RunOutcome::Failed(msg.as_str().to_owned());
                },
                ev => {
                    self.hear(ev, m);
                },
            }
            i = i + 1;
        }
        RunOutcome::Pending
    }

    fn close_channel(&mut self, env: &Env)
        requires
            old(self)@.valid(),
            env.now.valid(),
        ensures
            final(self)@ == old(self)@.closed(env@),
            final(self)@.valid(),
    {
        reveal(AppView::closed);
        self.test_tx = false;
        if self.run_state == RunState::Running {
            if self.stop_requested {
                self.finalize_session(env);
            } else {
                self.abort_run(
                    "the speed test stopped unexpectedly — please try again".to_owned(),
                    env,
                );
            }
        }
    }

    fn take_lookup(&mut self, lookup: Option<Result<ConnectionInfo, String>>, m: Moment)
        requires
            old(self)@.valid(),
            m.valid(),
        ensures
            final(self)@ == old(self)@.lookup_taken(opt_lookup(lookup), m),
            final(self)@.valid(),
    {
        reveal(AppView::lookup_taken);
        if self.pending_meta {
            if let Some(result) = lookup {
                self.pending_meta = false;
                self.finish_connection_lookup(result, m);
            }
        }
    }

    fn settle(&mut self, lookup: Option<Result<ConnectionInfo, String>>, env: &Env)
        requires
            old(self)@.valid(),
            env.now.valid(),
        ensures
            final(self)@ == old(self)@.settled(opt_lookup(lookup), env@),
            final(self)@.valid(),
    {
        self.run_stall_watchdog(env);
        self.take_lookup(lookup, env.now);
    }

    /// One step of the main loop. Where a run was completed the history is to
    /// be written before the step goes on; else the step is complete.
    pub fn tick(&mut self, arrivals: Arrivals, env: &Env) -> (t: Tick)
        requires
            old(self)@.valid(),
            old(self)@.monitor.sent + arrivals.samples@.len() <= u64::MAX,
            env.now.valid(),
        ensures
            ({
                let (s, completed) = old(self)@.ticked(arrivals@, env@);
                &&& final(self)@ == s
                &&& match t {
                    Tick::Done => completed is None,
                    Tick::Save(metrics, lookup) => completed == Some(metrics) && lookup
                        == arrivals.lookup,
                }
            }),
            final(self)@.valid(),
    {
        let m: Moment = env.now;
        self.advance_frame();
        self.expire_error(m.ticks);
        self.take_samples(&arrivals.samples, m);
        self.take_snapshots(arrivals.snapshots, m);
        assert(self@ == old(self)@.prepared(arrivals@, m));
        self.hear_run(arrivals.events, arrivals.ended, arrivals.lookup, env)
    }

    /// The events of a run, where they are read. While the queue is merely empty
    /// the channel stays open; once the outcome is known, or every sender is
    /// gone, it is closed.
    fn hear_run(
        &mut self,
        events: Vec<TestEvent>,
        ended: bool,
        lookup: Option<Result<ConnectionInfo, String>>,
        env: &Env,
    ) -> (t: Tick)
        requires
            old(self)@.valid(),
            env.now.valid(),
        ensures
            forall|arrivals: ArrivalsView|
                arrivals.events == event_views(events@) && arrivals.ended == ended
                    && arrivals.lookup == opt_lookup(lookup) ==> ({
                    let (s, completed) = #[trigger] old(self)@.run_heard(arrivals, env@);
                    &&& final(self)@ == s
                    &&& match t {
                        Tick::Done => completed is None,
                        Tick::Save(metrics, rest) => completed == Some(metrics) && rest == lookup,
                    }
                }),
            final(self)@.valid(),
    {
        if !self.test_tx {
            self.settle(lookup, env);
            return Tick::Done;
        }
        match self.drain(&events, env.now) {
            RunOutcome::Pending => {
                if ended {
                    self.close_channel(env);
                }
                self.settle(lookup, env);
                Tick::Done
            },
            RunOutcome::Failed(msg) => {
                self.on_run_failed(msg, env);
                self.close_channel(env);
                self.settle(lookup, env);
                Tick::Done
            },
            RunOutcome::Finished(metrics) => {
                self.metrics = Some(metrics);
                self.finish_run(metrics, env.now);
                Tick::Save(metrics, lookup)
            },
        }
    }

    fn note_save(&mut self, failure: Option<String>, m: Moment)
        requires
            old(self)@.valid(),
            m.valid(),
        ensures
            final(self)@ == old(self)@.history_saved(crate::text::opt_text(failure), m),
            final(self)@.valid(),
            final(self)@.runs_completed == old(self)@.runs_completed,
    {
        reveal(AppView::history_saved);
        reveal(AppView::errored);
        if let Some(e) = failure {
            let mut msg: String = "could not save history: ".to_owned();
            msg.append(e.as_str());
            msg.append(" — check disk space / permissions");
            self.set_error(msg, m);
        }
    }

    fn count_run(&mut self, metrics: Metrics)
        requires
            old(self)@.valid(),
            old(self)@.runs_completed < u64::MAX,
        ensures
            final(self)@ == old(self)@.run_counted(metrics),
            final(self)@.valid(),
    {
        reveal(AppView::run_counted);
        let (down, up, ping, best) = new_totals(
            (self.agg_down_sum, self.agg_up_sum, self.agg_ping_sum, self.best_down),
            &metrics,
        );
        self.runs_completed = self.runs_completed + 1;
        self.agg_down_sum = down;
        self.agg_up_sum = up;
        self.agg_ping_sum = ping;
        self.best_down = best;
    }

    /// The rest of a step in which a run was completed and the history was
    /// written, or not. In continuous mode the next run starts at once, with
    /// the totals of the session kept.
    pub fn tick_after_save(
        &mut self,
        metrics: Metrics,
        failure: Option<String>,
        lookup: Option<Result<ConnectionInfo, String>>,
        env: &Env,
    )
        requires
            old(self)@.valid(),
            old(self)@.runs_completed < u64::MAX,
            env.now.valid(),
        ensures
            final(self)@ == old(self)@.ticked_after_save(
                metrics,
                crate::text::opt_text(failure),
                opt_lookup(lookup),
                env@,
            ),
            final(self)@.valid(),
    {
        self.note_save(failure, env.now);
        self.count_run(metrics);
        if self.continuous_mode && !self.stop_requested {
            self.start_test(false, env.now.ticks);
        } else {
            self.finalize_session(env);
            self.close_channel(env);
        }
        self.settle(lookup, env);
    }
}

} // verus!
