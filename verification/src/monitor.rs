//! Continuous latency monitor: rolling windows, incident detection, statistics.

use crate::measure::{
    elapsed, elapsed_since, extremes_bound, greatest, greatest_of, least, least_of, median,
    median_of, pushed, sum, sum_between_extremes, sum_of, tail, variation, variation_of, Moment,
    Quotient, Timestamp, MILLISECOND, SECOND,
};
use crate::style::Color;
use crate::text::{
    decimal, fixed, push_decimal, push_fixed, push_limited, with_char, without_last,
};
use std::collections::VecDeque;
use vstd::prelude::*;

verus! {

/// Probes kept in the rolling windows.
pub const RECENT_WINDOW: usize = 240;

/// Incidents kept in the log.
pub const MAX_INCIDENTS: usize = 60;

/// Probes over which the stability is computed.
pub const STABILITY_WINDOW: usize = 120;

/// One probe of the monitor.
#[derive(Debug, Clone, Copy, PartialEq, Eq, Structural)]
pub struct ProbeSample {
    /// Round-trip time in nanoseconds, or `None` if the probe was lost.
    pub rtt_ns: Option<u64>,
}

/// An event that the monitor loop emits.
#[derive(Debug, Clone, Copy, PartialEq, Eq, Structural)]
pub enum MonitorEvent {
    Sample(ProbeSample),
}

#[derive(Debug, Clone, Copy, PartialEq, Eq, Structural)]
pub enum TroubleKind {
    Spike,
    Loss,
    Outage,
    JitterBurst,
    Recovered,
    Unreachable,
}

impl TroubleKind {
    /// The name under which an incident of this kind is listed.
    pub open spec fn name(self) -> Seq<char> {
        match self {
            TroubleKind::Spike => "SPIKE"@,
            TroubleKind::Loss => "LOSS"@,
            TroubleKind::Outage => "OUTAGE"@,
            TroubleKind::JitterBurst => "JITTER"@,
            TroubleKind::Recovered => "RECOVERED"@,
            TroubleKind::Unreachable => "UNREACHABLE"@,
        }
    }

    /// The colour in which an incident of this kind is shown.
    pub open spec fn shade(self) -> Color {
        match self {
            TroubleKind::Spike => Color::LightYellow,
            TroubleKind::Loss => Color::LightRed,
            TroubleKind::Outage | TroubleKind::Unreachable => Color::Red,
            TroubleKind::JitterBurst => Color::Yellow,
            TroubleKind::Recovered => Color::Green,
        }
    }

    pub fn label(self) -> (s: &'static str)
        ensures
            s@ == self.name(),
    {
        match self {
            TroubleKind::Spike => "SPIKE",
            TroubleKind::Loss => "LOSS",
            TroubleKind::Outage => "OUTAGE",
            TroubleKind::JitterBurst => "JITTER",
            TroubleKind::Recovered => "RECOVERED",
            TroubleKind::Unreachable => "UNREACHABLE",
        }
    }

    pub fn color(self) -> (c: Color)
        ensures
            c == self.shade(),
    {
        match self {
            TroubleKind::Spike => Color::LightYellow,
            TroubleKind::Loss => Color::LightRed,
            TroubleKind::Outage | TroubleKind::Unreachable => Color::Red,
            TroubleKind::JitterBurst => Color::Yellow,
            TroubleKind::Recovered => Color::Green,
        }
    }
}

/// A detected network problem, or the recovery from one.
#[derive(Debug)]
pub struct Incident {
    pub at: Timestamp,
    pub kind: TroubleKind,
    pub detail: String,
}

/// What an [`Incident`] says.
pub struct IncidentView {
    pub at: Timestamp,
    pub kind: TroubleKind,
    pub detail: Seq<char>,
}

impl View for Incident {
    type V = IncidentView;

    open spec fn view(&self) -> IncidentView {
        IncidentView { at: self.at, kind: self.kind, detail: self.detail@ }
    }
}

/// What every incident of a log says.
#[verifier::opaque]
pub open spec fn incident_views(log: Seq<Incident>) -> Seq<IncidentView> {
    log.map_values(|i: Incident| i@)
}

/// Statistics over the rolling windows.
#[derive(Debug)]
pub struct MonitorStats {
    /// Latest round-trip time in nanoseconds.
    pub cur: Option<u64>,
    /// Shortest round-trip time in nanoseconds.
    pub min: u64,
    /// Average round-trip time in nanoseconds.
    pub avg: Quotient,
    /// Longest round-trip time in nanoseconds.
    pub max: u64,
    /// Average distance between consecutive round-trip times, in nanoseconds.
    pub jitter: Quotient,
    /// Share of lost probes, in percent.
    pub loss_pct: Quotient,
    pub sent: u64,
    pub received: u64,
    /// Share of recent probes that came back in time, in percent.
    pub stability: Quotient,
    pub verdict: (&'static str, Color),
    pub in_trouble: bool,
    pub stable_for_secs: u64,
}

/// The monitor's state. `running`, `cancel` and `rx` speak of the background
/// probe task: whether one is meant to run, whether it can be told to stop and
/// whether its samples are still read.
#[derive(Debug)]
pub struct MonitorState {
    pub running: bool,
    pub paused: bool,
    pub target: String,
    pub editing_target: bool,
    pub input_buf: String,
    pub gaming: bool,
    pub interval_ms: u64,
    pub rtt_window: VecDeque<u64>,
    pub recent: VecDeque<Option<u64>>,
    pub sent: u64,
    pub lost: u64,
    pub incidents: Vec<Incident>,
    pub trouble_until: Option<u64>,
    pub last_incident_at: Option<u64>,
    pub last_jitter_incident: Option<u64>,
    pub stable_since: u64,
    pub consecutive_loss: u64,
    pub cancel: bool,
    pub rx: bool,
}

/// The contents of a [`MonitorState`].
#[verifier::ext_equal]
pub struct MonitorView {
    pub running: bool,
    pub paused: bool,
    pub target: Seq<char>,
    pub editing_target: bool,
    pub input_buf: Seq<char>,
    pub gaming: bool,
    pub interval_ms: u64,
    pub rtt_window: Seq<u64>,
    pub recent: Seq<Option<u64>>,
    pub sent: u64,
    pub lost: u64,
    pub incidents: Seq<IncidentView>,
    pub trouble_until: Option<u64>,
    pub last_incident_at: Option<u64>,
    pub last_jitter_incident: Option<u64>,
    pub stable_since: u64,
    pub consecutive_loss: u64,
    pub cancel: bool,
    pub rx: bool,
}

impl View for MonitorState {
    type V = MonitorView;

    open spec fn view(&self) -> MonitorView {
        MonitorView {
            running: self.running,
            paused: self.paused,
            target: self.target@,
            editing_target: self.editing_target,
            input_buf: self.input_buf@,
            gaming: self.gaming,
            interval_ms: self.interval_ms,
            rtt_window: self.rtt_window@,
            recent: self.recent@,
            sent: self.sent,
            lost: self.lost,
            incidents: incident_views(self.incidents@),
            trouble_until: self.trouble_until,
            last_incident_at: self.last_incident_at,
            last_jitter_incident: self.last_jitter_incident,
            stable_since: self.stable_since,
            consecutive_loss: self.consecutive_loss,
            cancel: self.cancel,
            rx: self.rx,
        }
    }
}

/// The average distance between neighbours among the last `n` of `window`,
/// where those are at least three.
pub open spec fn jitter_spec(window: Seq<u64>, n: nat) -> Option<Quotient> {
    let t = tail(window, n);
    if t.len() < 3 {
        None
    } else {
        Some(Quotient { num: variation(t) as u128, den: (t.len() - 1) as u128 })
    }
}

/// The usual round-trip time: the median of the last twenty.
pub open spec fn baseline_spec(window: Seq<u64>) -> u64 {
    median(tail(window, 20))
}

/// A round-trip time is a spike where it exceeds 70 ms, 1.8 times the baseline
/// and the baseline by 30 ms, and there is a baseline.
pub open spec fn is_spike(rtt: u64, base: u64) -> bool {
    base > 0 && 10 * rtt > 18 * base && rtt > base + 30 * MILLISECOND && rtt > 70 * MILLISECOND
}

/// Whether a probe came back within `good` nanoseconds.
pub open spec fn in_time(probe: Option<u64>, good: u64) -> bool {
    match probe {
        Some(rtt) => rtt <= good,
        None => false,
    }
}

/// How many probes came back within `good` nanoseconds.
pub open spec fn in_time_count(probes: Seq<Option<u64>>, good: u64) -> nat
    decreases probes.len(),
{
    if probes.len() == 0 {
        0
    } else {
        in_time_count(probes.drop_last(), good) + (if in_time(probes.last(), good) {
            1nat
        } else {
            0nat
        })
    }
}

impl MonitorView {
    /// A monitor at rest, with no figures yet.
    pub open spec fn fresh(now: u64) -> Self {
        MonitorView {
            running: false,
            paused: false,
            target: "speed.cloudflare.com"@,
            editing_target: false,
            input_buf: Seq::empty(),
            gaming: false,
            interval_ms: 1000,
            rtt_window: Seq::empty(),
            recent: Seq::empty(),
            sent: 0,
            lost: 0,
            incidents: Seq::empty(),
            trouble_until: None,
            last_incident_at: None,
            last_jitter_incident: None,
            stable_since: now,
            consecutive_loss: 0,
            cancel: false,
            rx: false,
        }
    }

    /// The counters agree with each other and the windows keep their bounds.
    pub open spec fn valid(self) -> bool {
        &&& self.consecutive_loss <= self.lost <= self.sent
        &&& self.rtt_window.len() <= RECENT_WINDOW
        &&& self.recent.len() <= RECENT_WINDOW
        &&& self.incidents.len() <= MAX_INCIDENTS
    }

    /// The longest round-trip time that counts as good.
    pub open spec fn good_threshold(self) -> u64 {
        if self.gaming {
            (60 * MILLISECOND) as u64
        } else {
            (100 * MILLISECOND) as u64
        }
    }

    /// With one more incident in the log.
    pub open spec fn logged(self, kind: TroubleKind, detail: Seq<char>, m: Moment) -> Self {
        MonitorView {
            incidents: pushed(
                self.incidents,
                IncidentView { at: m.wall, kind, detail },
                MAX_INCIDENTS as nat,
            ),
            last_incident_at: Some(m.ticks),
            stable_since: if kind == TroubleKind::Recovered {
                self.stable_since
            } else {
                m.ticks
            },
            ..self
        }
    }

    /// With the trouble notice shown for at least `secs` more seconds.
    pub open spec fn troubled(self, secs: int, m: Moment) -> Self {
        let until = (m.ticks + secs * SECOND) as u64;
        MonitorView {
            trouble_until: Some(
                match self.trouble_until {
                    Some(t) => if t > until {
                        t
                    } else {
                        until
                    },
                    None => until,
                },
            ),
            ..self
        }
    }

    /// After a lost probe is counted, before it is judged.
    pub open spec fn counted_loss(self) -> Self {
        MonitorView {
            sent: (self.sent + 1) as u64,
            lost: (self.lost + 1) as u64,
            consecutive_loss: (self.consecutive_loss + 1) as u64,
            recent: pushed(self.recent, None, RECENT_WINDOW as nat),
            ..self
        }
    }

    /// The first loss of a row is logged, the third makes an outage.
    pub open spec fn judged_loss_row(self, m: Moment) -> Self {
        if self.consecutive_loss == 1 {
            self.logged(TroubleKind::Loss, "probe timed out"@, m)
        } else if self.consecutive_loss == 3 {
            self.logged(TroubleKind::Outage, "3 probes lost in a row"@, m).troubled(15, m)
        } else {
            self
        }
    }

    /// A target none of whose probes came back is reported after the fourth,
    /// and again after every tenth.
    pub open spec fn judged_unreachable(self, m: Moment) -> Self {
        if self.sent == 4 && self.lost == self.sent {
            self.logged(
                TroubleKind::Unreachable,
                "target '"@ + self.target
                    + "' is not responding — verify the host name or your connection"@,
                m,
            ).troubled(30, m)
        } else if self.sent >= 10 && self.lost == self.sent && self.sent % 10 == 0 {
            self.logged(
                TroubleKind::Unreachable,
                "still unreachable ("@ + decimal(self.sent as nat) + " probes lost)"@,
                m,
            ).troubled(30, m)
        } else {
            self
        }
    }

    /// After an answered probe is counted: a row of three or more losses ends
    /// with a recovery, and both windows take the time in.
    pub open spec fn counted_answer(self, rtt: u64, m: Moment) -> Self {
        let s = MonitorView { sent: (self.sent + 1) as u64, ..self };
        let s = if self.consecutive_loss >= 3 {
            s.logged(
                TroubleKind::Recovered,
                "connection back ("@ + fixed(rtt as nat, MILLISECOND as nat, 0) + " ms)"@,
                m,
            )
        } else {
            s
        };
        MonitorView {
            consecutive_loss: 0,
            rtt_window: pushed(self.rtt_window, rtt, RECENT_WINDOW as nat),
            recent: pushed(self.recent, Some(rtt), RECENT_WINDOW as nat),
            ..s
        }
    }

    /// A spike against the baseline is logged.
    pub open spec fn judged_spike(self, rtt: u64, m: Moment) -> Self {
        let base = baseline_spec(self.rtt_window);
        if is_spike(rtt, base) {
            self.logged(
                TroubleKind::Spike,
                fixed(rtt as nat, MILLISECOND as nat, 0) + " ms vs ~"@ + fixed(
                    base as nat,
                    MILLISECOND as nat,
                    0,
                ) + " ms baseline"@,
                m,
            ).troubled(6, m)
        } else {
            self
        }
    }

    /// Jitter above 15 ms over the last twelve probes is logged, at most once
    /// in 45 seconds.
    pub open spec fn judged_jitter(self, m: Moment) -> Self {
        let throttled = match self.last_jitter_incident {
            Some(t) => elapsed(m.ticks, t) / SECOND < 45,
            None => false,
        };
        match jitter_spec(self.rtt_window, 12) {
            Some(j) => if j.num > 15 * MILLISECOND * j.den && !throttled {
                let s = self.logged(
                    TroubleKind::JitterBurst,
                    "jitter "@ + fixed(j.num as nat, (j.den * MILLISECOND) as nat, 1)
                        + " ms over last 12 probes"@,
                    m,
                );
                MonitorView { last_jitter_incident: Some(m.ticks), ..s }.troubled(4, m)
            } else {
                self
            },
            None => self,
        }
    }

    /// After one probe.
    pub open spec fn sampled(self, sample: ProbeSample, m: Moment) -> Self {
        match sample.rtt_ns {
            None => self.counted_loss().judged_loss_row(m).judged_unreachable(m),
            Some(rtt) => self.counted_answer(rtt, m).judged_spike(rtt, m).judged_jitter(m),
        }
    }

    /// After a series of probes, all read at the same moment.
    pub open spec fn sampled_all(self, samples: Seq<ProbeSample>, m: Moment) -> Self
        decreases samples.len(),
    {
        if samples.len() == 0 {
            self
        } else {
            self.sampled_all(samples.drop_last(), m).sampled(samples.last(), m)
        }
    }

    /// With every figure of the session forgotten.
    pub open spec fn cleared(self, now: u64) -> Self {
        MonitorView {
            rtt_window: Seq::empty(),
            recent: Seq::empty(),
            sent: 0,
            lost: 0,
            incidents: Seq::empty(),
            trouble_until: None,
            last_jitter_incident: None,
            consecutive_loss: 0,
            stable_since: now,
            ..self
        }
    }

    /// With a new probe task.
    pub open spec fn task_started(self, now: u64) -> Self {
        MonitorView {
            cancel: true,
            rx: true,
            running: true,
            paused: false,
            stable_since: now,
            ..self
        }
    }

    /// Without a probe task.
    pub open spec fn task_stopped(self) -> Self {
        MonitorView { cancel: false, rx: false, running: false, ..self }
    }

    /// Paused for a speed test, or no longer.
    pub open spec fn held(self, paused: bool) -> Self {
        MonitorView { paused, ..self }
    }

    /// Counting as stable from `now` on.
    pub open spec fn stable_from(self, now: u64) -> Self {
        MonitorView { stable_since: now, ..self }
    }

    /// With the target editor open, unless it is.
    pub open spec fn editor_opened(self) -> Self {
        if self.editing_target {
            self
        } else {
            MonitorView { editing_target: true, input_buf: self.target, ..self }
        }
    }

    /// With the target editor closed.
    pub open spec fn editor_closed(self) -> Self {
        MonitorView { editing_target: false, ..self }
    }

    /// With another target.
    pub open spec fn aimed(self, target: Seq<char>) -> Self {
        MonitorView { target, ..self }
    }

    /// With the last character of the input taken off.
    pub open spec fn erased(self) -> Self {
        MonitorView { input_buf: without_last(self.input_buf), ..self }
    }

    /// With a character at the end of the input, where there is room.
    pub open spec fn typed(self, c: char) -> Self {
        MonitorView { input_buf: with_char(self.input_buf, c), ..self }
    }

    /// With gaming mode switched over: it probes twice a second.
    pub open spec fn gaming_toggled(self) -> Self {
        MonitorView {
            gaming: !self.gaming,
            interval_ms: if self.gaming {
                1000
            } else {
                500
            },
            ..self
        }
    }

    /// The average round-trip time.
    pub open spec fn average(self) -> Quotient {
        if self.rtt_window.len() == 0 {
            Quotient { num: 0, den: 1 }
        } else {
            Quotient { num: sum(self.rtt_window) as u128, den: self.rtt_window.len() as u128 }
        }
    }

    /// The jitter over the whole window, zero where it holds fewer than three.
    pub open spec fn jitter(self) -> Quotient {
        match jitter_spec(self.rtt_window, RECENT_WINDOW as nat) {
            Some(j) => j,
            None => Quotient { num: 0, den: 1 },
        }
    }

    /// The share of lost probes, in percent.
    pub open spec fn loss_pct(self) -> Quotient {
        if self.sent == 0 {
            Quotient { num: 0, den: 1 }
        } else {
            Quotient { num: (self.lost * 100) as u128, den: self.sent as u128 }
        }
    }

    /// The share of the last 120 probes that came back in time, in percent.
    pub open spec fn stability(self) -> Quotient {
        let window = tail(self.recent, STABILITY_WINDOW as nat);
        if window.len() == 0 {
            Quotient { num: 0, den: 1 }
        } else {
            Quotient {
                num: (in_time_count(window, self.good_threshold()) * 100) as u128,
                den: window.len() as u128,
            }
        }
    }

    /// Whether the trouble notice is still shown.
    pub open spec fn in_trouble(self, now: u64) -> bool {
        match self.trouble_until {
            Some(t) => now < t,
            None => false,
        }
    }

    /// The overall verdict.
    pub open spec fn verdict(self) -> (Seq<char>, Color) {
        let ms = 10 * MILLISECOND;
        let loss = self.loss_pct();
        let avg = self.average();
        let stability = self.stability();
        if self.sent == 0 {
            ("NO DATA"@, Color::DarkGray)
        } else if self.lost == self.sent && self.sent >= 4 {
            ("TARGET UNREACHABLE"@, Color::Red)
        } else if self.gaming {
            if self.lost == 0 && avg.le_tenths(40 * ms) && !stability.lt_tenths(970) {
                ("COMPETITIVE READY"@, Color::LightGreen)
            } else if avg.le_tenths(60 * ms) && !stability.lt_tenths(900) && loss.lt_tenths(10) {
                ("GREAT"@, Color::Green)
            } else if avg.le_tenths(100 * ms) && !stability.lt_tenths(700) && loss.lt_tenths(30) {
                ("PLAYABLE"@, Color::Yellow)
            } else {
                ("UNSTABLE"@, Color::Red)
            }
        } else if loss.lt_tenths(5) && avg.le_tenths(60 * ms) && !stability.lt_tenths(950) {
            ("EXCELLENT"@, Color::LightGreen)
        } else if loss.lt_tenths(20) && avg.le_tenths(120 * ms) && !stability.lt_tenths(850) {
            ("GOOD"@, Color::Green)
        } else if loss.lt_tenths(50) && !stability.lt_tenths(650) {
            ("DEGRADED"@, Color::Yellow)
        } else {
            ("POOR"@, Color::Red)
        }
    }

    /// The whole seconds since the last incident, zero during trouble.
    pub open spec fn stable_for_secs(self, now: u64) -> u64 {
        if self.in_trouble(now) {
            0
        } else {
            elapsed(now, self.stable_since) / SECOND
        }
    }
}

/// Replacing a log by one with another incident at its end, bounded.
proof fn incident_views_pushed(log: Seq<Incident>, x: Incident)
    ensures
        incident_views(log).len() == log.len(),
        incident_views(log.push(x)) == incident_views(log).push(x@),
        incident_views(log.push(x).remove(0)) == incident_views(log).push(x@).drop_first(),
{
    reveal(incident_views);
    assert(incident_views(log.push(x)) =~= incident_views(log).push(x@));
    assert(incident_views(log.push(x).remove(0)) =~= incident_views(log).push(x@).drop_first());
}

/// The last `n` round-trip times of a window.
fn tail_of(window: &VecDeque<u64>, n: usize) -> (out: Vec<u64>)
    ensures
        out@ == tail(window@, n as nat),
{
    let len: usize = window.len();
    let start: usize = if len > n {
        len - n
    } else {
        0
    };
    let mut out: Vec<u64> = Vec::new();
    let mut i: usize = start;
    while i < len
        invariant
            start <= i <= len,
            len == window@.len(),
            out@ == window@.subrange(start as int, i as int),
        decreases len - i,
    {
        out.push(window[i]);
        i = i + 1;
        assert(out@ =~= window@.subrange(start as int, i as int));
    }
    assert(out@ =~= tail(window@, n as nat));
    out
}

impl MonitorState {
    /// A monitor at rest, with no figures yet.
    pub fn new(now: u64) -> (s: Self)
        ensures
            s@ == MonitorView::fresh(now),
            s@.valid(),
    {
        let s = MonitorState {
            running: false,
            paused: false,
            target: "speed.cloudflare.com".to_owned(),
            editing_target: false,
            input_buf: String::new(),
            gaming: false,
            interval_ms: 1000,
            rtt_window: VecDeque::new(),
            recent: VecDeque::new(),
            sent: 0,
            lost: 0,
            incidents: Vec::new(),
            trouble_until: None,
            last_incident_at: None,
            last_jitter_incident: None,
            stable_since: now,
            consecutive_loss: 0,
            cancel: false,
            rx: false,
        };
        assert(incident_views(s.incidents@) =~= Seq::empty()) by {
            reveal(incident_views);
        }
        s
    }

    /// The longest round-trip time that counts as good, in nanoseconds.
    pub fn good_threshold(&self) -> (t: u64)
        ensures
            t == self@.good_threshold(),
    {
        if self.gaming {
            60 * MILLISECOND
        } else {
            100 * MILLISECOND
        }
    }

    /// Appends an incident to the log, which keeps the newest sixty.
    pub fn push_incident(&mut self, kind: TroubleKind, detail: String, m: Moment)
        requires
            old(self)@.incidents.len() <= MAX_INCIDENTS,
        ensures
            final(self)@ == old(self)@.logged(kind, detail@, m),
            final(self)@.incidents.len() <= MAX_INCIDENTS,
    {
        let x = Incident { at: m.wall, kind, detail };
        proof {
            incident_views_pushed(self.incidents@, x);
        }
        self.incidents.push(x);
        if self.incidents.len() > MAX_INCIDENTS {
            self.incidents.remove(0);
        }
        self.last_incident_at = Some(m.ticks);
        if kind != TroubleKind::Recovered {
            self.stable_since = m.ticks;
        }
    }

    /// Shows the trouble notice for at least `secs` more seconds.
    pub fn mark_trouble(&mut self, secs: u64, m: Moment)
        requires
            m.valid(),
            secs <= 30,
        ensures
            final(self)@ == old(self)@.troubled(secs as int, m),
    {
        let until: u64 = m.ticks + secs * SECOND;
        let kept: u64 = match self.trouble_until {
            Some(t) => if t > until {
                t
            } else {
                until
            },
            None => until,
        };
        self.trouble_until = Some(kept);
    }

    /// The usual round-trip time: the median of the last twenty.
    pub fn baseline(&self) -> (base: u64)
        ensures
            base == baseline_spec(self@.rtt_window),
    {
        median_of(tail_of(&self.rtt_window, 20))
    }

    /// The average distance between neighbours among the last `n` round-trip
    /// times, where those are at least three.
    pub fn jitter_of_last(&self, n: usize) -> (j: Option<Quotient>)
        requires
            self@.rtt_window.len() <= RECENT_WINDOW,
        ensures
            j == jitter_spec(self@.rtt_window, n as nat),
            j matches Some(q) ==> 2 <= q.den < RECENT_WINDOW && q.num <= RECENT_WINDOW * u64::MAX,
    {
        let t = tail_of(&self.rtt_window, n);
        if t.len() < 3 {
            return None;
        }
        let num: u128 = variation_of(&t);
        Some(Quotient { num, den: (t.len() - 1) as u128 })
    }

    /// Takes one probe in: counts it, keeps it in the windows and logs what it
    /// reveals.
    pub fn on_sample(&mut self, sample: ProbeSample, m: Moment)
        requires
            old(self)@.valid(),
            old(self)@.sent < u64::MAX,
            m.valid(),
        ensures
            final(self)@ == old(self)@.sampled(sample, m),
            final(self)@.valid(),
            final(self)@.sent == old(self)@.sent + 1,
    {
        match sample.rtt_ns {
            None => self.on_loss(m),
            Some(rtt) => self.on_answer(rtt, m),
        }
    }

    fn on_loss(&mut self, m: Moment)
        requires
            old(self)@.valid(),
            old(self)@.sent < u64::MAX,
            m.valid(),
        ensures
            final(self)@ == old(self)@.counted_loss().judged_loss_row(m).judged_unreachable(m),
            final(self)@.valid(),
            final(self)@.sent == old(self)@.sent + 1,
    {
        self.sent = self.sent + 1;
        self.lost = self.lost + 1;
        self.consecutive_loss = self.consecutive_loss + 1;
        self.recent.push_back(None);
        if self.recent.len() > RECENT_WINDOW {
            self.recent.pop_front();
        }
        assert(self@ == old(self)@.counted_loss());
        self.check_loss_row(m);
        self.check_unreachable(m);
    }

    fn check_loss_row(&mut self, m: Moment)
        requires
            old(self)@.valid(),
            m.valid(),
        ensures
            final(self)@ == old(self)@.judged_loss_row(m),
            final(self)@.valid(),
            final(self)@.sent == old(self)@.sent,
    {
        if self.consecutive_loss == 1 {
            self.push_incident(TroubleKind::Loss, "probe timed out".to_owned(), m);
        }
        if self.consecutive_loss == 3 {
            self.push_incident(TroubleKind::Outage, "3 probes lost in a row".to_owned(), m);
            self.mark_trouble(15, m);
        }
    }

    // Every probe failing right from the start almost always means a bad
    // target name or no internet: say so explicitly.
    fn check_unreachable(&mut self, m: Moment)
        requires
            old(self)@.valid(),
            m.valid(),
        ensures
            final(self)@ == old(self)@.judged_unreachable(m),
            final(self)@.valid(),
            final(self)@.sent == old(self)@.sent,
    {
        if self.sent == 4 && self.lost == self.sent {
            let mut detail: String = "target '".to_owned();
            detail.append(self.target.as_str());
            detail.append("' is not responding — verify the host name or your connection");
            self.push_incident(TroubleKind::Unreachable, detail, m);
            self.mark_trouble(30, m);
        } else if self.sent >= 10 && self.lost == self.sent && self.sent % 10 == 0 {
            let mut detail: String = "still unreachable (".to_owned();
            push_decimal(&mut detail, self.sent as u128);
            detail.append(" probes lost)");
            self.push_incident(TroubleKind::Unreachable, detail, m);
            self.mark_trouble(30, m);
        }
    }

    fn on_answer(&mut self, rtt: u64, m: Moment)
        requires
            old(self)@.valid(),
            old(self)@.sent < u64::MAX,
            m.valid(),
        ensures
            final(self)@ == old(self)@.counted_answer(rtt, m).judged_spike(rtt, m).judged_jitter(m),
            final(self)@.valid(),
            final(self)@.sent == old(self)@.sent + 1,
    {
        self.sent = self.sent + 1;
        if self.consecutive_loss >= 3 {
            let mut detail: String = "connection back (".to_owned();
            push_fixed(&mut detail, rtt as u128, MILLISECOND as u128, 0);
            detail.append(" ms)");
            self.push_incident(TroubleKind::Recovered, detail, m);
        }
        self.consecutive_loss = 0;
        self.rtt_window.push_back(rtt);
        if self.rtt_window.len() > RECENT_WINDOW {
            self.rtt_window.pop_front();
        }
        self.recent.push_back(Some(rtt));
        if self.recent.len() > RECENT_WINDOW {
            self.recent.pop_front();
        }
        assert(self@ == old(self)@.counted_answer(rtt, m));
        self.check_spike(rtt, m);
        self.check_jitter(m);
    }

    fn check_spike(&mut self, rtt: u64, m: Moment)
        requires
            old(self)@.valid(),
            m.valid(),
        ensures
            final(self)@ == old(self)@.judged_spike(rtt, m),
            final(self)@.valid(),
            final(self)@.sent == old(self)@.sent,
    {
        let base: u64 = self.baseline();
        let spike: bool = base > 0 && 10 * rtt as u128 > 18 * base as u128 && rtt as u128
            > base as u128 + 30 * MILLISECOND as u128 && rtt > 70 * MILLISECOND;
        if spike {
            let mut detail: String = String::new();
            push_fixed(&mut detail, rtt as u128, MILLISECOND as u128, 0);
            detail.append(" ms vs ~");
            push_fixed(&mut detail, base as u128, MILLISECOND as u128, 0);
            detail.append(" ms baseline");
            assert(detail@ =~= fixed(rtt as nat, MILLISECOND as nat, 0) + " ms vs ~"@ + fixed(
                base as nat,
                MILLISECOND as nat,
                0,
            ) + " ms baseline"@);
            self.push_incident(TroubleKind::Spike, detail, m);
            self.mark_trouble(6, m);
        }
    }

    fn check_jitter(&mut self, m: Moment)
        requires
            old(self)@.valid(),
            m.valid(),
        ensures
            final(self)@ == old(self)@.judged_jitter(m),
            final(self)@.valid(),
            final(self)@.sent == old(self)@.sent,
    {
        let throttled: bool = match self.last_jitter_incident {
            Some(t) => elapsed_since(m.ticks, t) / SECOND < 45,
            None => false,
        };
        match self.jitter_of_last(12) {
            Some(j) => {
                if j.num > 15 * MILLISECOND as u128 * j.den && !throttled {
                    let mut detail: String = "jitter ".to_owned();
                    push_fixed(&mut detail, j.num, j.den * MILLISECOND as u128, 1);
                    detail.append(" ms over last 12 probes");
                    self.push_incident(TroubleKind::JitterBurst, detail, m);
                    self.last_jitter_incident = Some(m.ticks);
                    self.mark_trouble(4, m);
                }
            },
            None => {},
        }
    }

    /// Takes a series of probes in, all read at the same moment.
    pub fn on_samples(&mut self, samples: &Vec<ProbeSample>, m: Moment)
        requires
            old(self)@.valid(),
            old(self)@.sent + samples@.len() <= u64::MAX,
            m.valid(),
        ensures
            final(self)@ == old(self)@.sampled_all(samples@, m),
            final(self)@.valid(),
    {
        let mut i: usize = 0;
        assert(samples@.take(0) =~= Seq::empty());
        while i < samples.len()
            invariant
                i <= samples@.len(),
                self@ == old(self)@.sampled_all(samples@.take(i as int), m),
                self@.valid(),
                self@.sent == old(self)@.sent + i,
                old(self)@.sent + samples@.len() <= u64::MAX,
                m.valid(),
            decreases samples@.len() - i,
        {
            assert(samples@.take(i + 1).drop_last() =~= samples@.take(i as int));
            self.on_sample(samples[i], m);
            i = i + 1;
        }
        assert(samples@.take(i as int) =~= samples@);
    }

    /// Forgets every figure of the session.
    pub fn clear(&mut self, now: u64)
        ensures
            final(self)@ == old(self)@.cleared(now),
            final(self)@.valid(),
    {
        self.rtt_window.clear();
        self.recent.clear();
        self.sent = 0;
        self.lost = 0;
        self.incidents.clear();
        self.trouble_until = None;
        self.last_jitter_incident = None;
        self.consecutive_loss = 0;
        self.stable_since = now;
        assert(incident_views(self.incidents@) =~= Seq::empty()) by {
            reveal(incident_views);
        }
    }

    /// Takes a new probe task in charge.
    pub fn start_task(&mut self, now: u64)
        ensures
            final(self)@ == old(self)@.task_started(now),
            old(self)@.valid() ==> final(self)@.valid(),
    {
        self.cancel = true;
        self.rx = true;
        self.running = true;
        self.paused = false;
        self.stable_since = now;
    }

    /// Gives the probe task up.
    pub fn stop_task(&mut self)
        ensures
            final(self)@ == old(self)@.task_stopped(),
            old(self)@.valid() ==> final(self)@.valid(),
    {
        self.cancel = false;
        self.rx = false;
        self.running = false;
    }

    /// Notes whether the monitor is paused for a speed test.
    pub fn hold(&mut self, paused: bool)
        ensures
            final(self)@ == old(self)@.held(paused),
            old(self)@.valid() ==> final(self)@.valid(),
    {
        self.paused = paused;
    }

    /// Counts as stable from `now` on.
    pub fn set_stable(&mut self, now: u64)
        ensures
            final(self)@ == old(self)@.stable_from(now),
            old(self)@.valid() ==> final(self)@.valid(),
    {
        self.stable_since = now;
    }

    /// Opens the target editor on the current target.
    pub fn open_editor(&mut self)
        ensures
            final(self)@ == old(self)@.editor_opened(),
            old(self)@.valid() ==> final(self)@.valid(),
    {
        if !self.editing_target {
            self.editing_target = true;
            self.input_buf = self.target.as_str().to_owned();
        }
    }

    /// Closes the target editor.
    pub fn close_editor(&mut self)
        ensures
            final(self)@ == old(self)@.editor_closed(),
            old(self)@.valid() ==> final(self)@.valid(),
    {
        self.editing_target = false;
    }

    /// Sets another target.
    pub fn aim(&mut self, target: String)
        ensures
            final(self)@ == old(self)@.aimed(target@),
            old(self)@.valid() ==> final(self)@.valid(),
    {
        self.target = target;
    }

    /// Takes the last character of the input off.
    pub fn erase(&mut self)
        ensures
            final(self)@ == old(self)@.erased(),
            old(self)@.valid() ==> final(self)@.valid(),
    {
        self.input_buf.pop();
    }

    /// Appends a character to the input, where there is room.
    pub fn type_char(&mut self, c: char)
        ensures
            final(self)@ == old(self)@.typed(c),
            old(self)@.valid() ==> final(self)@.valid(),
    {
        push_limited(&mut self.input_buf, c);
    }

    /// Switches gaming mode over, which probes twice a second.
    pub fn toggle_gaming(&mut self)
        ensures
            final(self)@ == old(self)@.gaming_toggled(),
            old(self)@.valid() ==> final(self)@.valid(),
    {
        self.gaming = !self.gaming;
        self.interval_ms = if self.gaming {
            500
        } else {
            1000
        };
    }

    /// How many of the last 120 probes came back in time, and how many those are.
    fn in_time(&self) -> (r: (usize, usize))
        requires
            self@.valid(),
        ensures
            r.1 == tail(self@.recent, STABILITY_WINDOW as nat).len(),
            r.0 == in_time_count(
                tail(self@.recent, STABILITY_WINDOW as nat),
                self@.good_threshold(),
            ),
            r.0 <= r.1 <= STABILITY_WINDOW,
    {
        let good: u64 = self.good_threshold();
        let len: usize = self.recent.len();
        let start: usize = if len > STABILITY_WINDOW {
            len - STABILITY_WINDOW
        } else {
            0
        };
        let mut count: usize = 0;
        let mut i: usize = start;
        let ghost window = tail(self@.recent, STABILITY_WINDOW as nat);
        assert(window =~= self@.recent.subrange(start as int, len as int));
        while i < len
            invariant
                start <= i <= len,
                len == self.recent@.len(),
                len - start <= STABILITY_WINDOW,
                good == self@.good_threshold(),
                count <= i - start,
                count == in_time_count(self.recent@.subrange(start as int, i as int), good),
            decreases len - i,
        {
            assert(self.recent@.subrange(start as int, i + 1).drop_last()
                =~= self.recent@.subrange(start as int, i as int));
            let ok: bool = match self.recent[i] {
                Some(rtt) => rtt <= good,
                None => false,
            };
            if ok {
                count = count + 1;
            }
            i = i + 1;
        }
        (count, len - start)
    }

    /// The verdict on the connection.
    fn verdict(&self, avg: &Quotient, loss: &Quotient, stability: &Quotient) -> (v: (
        &'static str,
        Color,
    ))
        requires
            *avg == self@.average(),
            *loss == self@.loss_pct(),
            *stability == self@.stability(),
            avg.small(),
            loss.small(),
            stability.small(),
        ensures
            (v.0@, v.1) == self@.verdict(),
    {
        let ms: u64 = 10 * MILLISECOND;
        if self.sent == 0 {
            ("NO DATA", Color::DarkGray)
        } else if self.lost == self.sent && self.sent >= 4 {
            ("TARGET UNREACHABLE", Color::Red)
        } else if self.gaming {
            if self.lost == 0 && avg.at_most_tenths(40 * ms) && !stability.below_tenths(970) {
                ("COMPETITIVE READY", Color::LightGreen)
            } else if avg.at_most_tenths(60 * ms) && !stability.below_tenths(900)
                && loss.below_tenths(10) {
                ("GREAT", Color::Green)
            } else if avg.at_most_tenths(100 * ms) && !stability.below_tenths(700)
                && loss.below_tenths(30) {
                ("PLAYABLE", Color::Yellow)
            } else {
                ("UNSTABLE", Color::Red)
            }
        } else if loss.below_tenths(5) && avg.at_most_tenths(60 * ms) && !stability.below_tenths(
            950,
        ) {
            ("EXCELLENT", Color::LightGreen)
        } else if loss.below_tenths(20) && avg.at_most_tenths(120 * ms) && !stability.below_tenths(
            850,
        ) {
            ("GOOD", Color::Green)
        } else if loss.below_tenths(50) && !stability.below_tenths(650) {
            ("DEGRADED", Color::Yellow)
        } else {
            ("POOR", Color::Red)
        }
    }

    /// Statistics over the rolling windows, as of `now`.
    pub fn stats(&self, now: u64) -> (st: MonitorStats)
        requires
            self@.valid(),
        ensures
            st.cur == (if self@.rtt_window.len() == 0 {
                None
            } else {
                Some(self@.rtt_window.last())
            }),
            st.min == least(self@.rtt_window),
            st.max == greatest(self@.rtt_window),
            st.avg == self@.average(),
            st.jitter == self@.jitter(),
            st.loss_pct == self@.loss_pct(),
            st.sent == self@.sent,
            st.received == self@.sent - self@.lost,
            st.stability == self@.stability(),
            (st.verdict.0@, st.verdict.1) == self@.verdict(),
            st.in_trouble == self@.in_trouble(now),
            st.stable_for_secs == self@.stable_for_secs(now),
            st.avg.small() && st.jitter.small() && st.loss_pct.small() && st.stability.small(),
    {
        let window = tail_of(&self.rtt_window, RECENT_WINDOW);
        assert(window@ == self@.rtt_window);
        let n: usize = window.len();
        let cur: Option<u64> = if n == 0 {
            None
        } else {
            Some(window[n - 1])
        };
        let avg = if n > 0 {
            Quotient { num: sum_of(&window), den: n as u128 }
        } else {
            Quotient { num: 0, den: 1 }
        };
        let jitter = match self.jitter_of_last(RECENT_WINDOW) {
            Some(j) => j,
            None => Quotient { num: 0, den: 1 },
        };
        let loss_pct = if self.sent > 0 {
            Quotient { num: self.lost as u128 * 100, den: self.sent as u128 }
        } else {
            Quotient { num: 0, den: 1 }
        };
        let (ok, probes) = self.in_time();
        let stability = if probes == 0 {
            Quotient { num: 0, den: 1 }
        } else {
            Quotient { num: ok as u128 * 100, den: probes as u128 }
        };
        let verdict = self.verdict(&avg, &loss_pct, &stability);
        let in_trouble: bool = match self.trouble_until {
            Some(t) => now < t,
            None => false,
        };
        let stable_for_secs: u64 = if in_trouble {
            0
        } else {
            elapsed_since(now, self.stable_since) / SECOND
        };
        MonitorStats {
            cur,
            min: least_of(&window),
            avg,
            max: greatest_of(&window),
            jitter,
            loss_pct,
            sent: self.sent,
            received: self.sent - self.lost,
            stability,
            verdict,
            in_trouble,
            stable_for_secs,
        }
    }
}

// ---- laws -----------------------------------------------------------------

/// The windows and the log keep their bounds and the counters agree, whatever
/// the probes are: monitoring never grows without bound.
pub proof fn probes_keep_the_monitor_valid(v: MonitorView, samples: Seq<ProbeSample>, m: Moment)
    requires
        v.valid(),
        v.sent + samples.len() <= u64::MAX,
    ensures
        v.sampled_all(samples, m).valid(),
        v.sampled_all(samples, m).sent == v.sent + samples.len(),
    decreases samples.len(),
{
    if samples.len() > 0 {
        probes_keep_the_monitor_valid(v, samples.drop_last(), m);
        one_probe_keeps(v.sampled_all(samples.drop_last(), m), samples.last(), m);
    }
}

proof fn one_probe_keeps(v: MonitorView, sample: ProbeSample, m: Moment)
    requires
        v.valid(),
        v.sent < u64::MAX,
    ensures
        v.sampled(sample, m).valid(),
        v.sampled(sample, m).sent == v.sent + 1,
        v.sampled(sample, m).lost == v.lost + (if sample.rtt_ns is None {
            1int
        } else {
            0
        }),
{
}

/// Every probe counts as sent, a lost one also as lost, and an answer ends a
/// row of losses.
pub proof fn every_probe_counts(v: MonitorView, sample: ProbeSample, m: Moment)
    requires
        v.valid(),
        v.sent < u64::MAX,
    ensures
        v.sampled(sample, m).sent == v.sent + 1,
        sample.rtt_ns is None ==> v.sampled(sample, m).lost == v.lost + 1 && v.sampled(
            sample,
            m,
        ).consecutive_loss == v.consecutive_loss + 1,
        sample.rtt_ns is Some ==> v.sampled(sample, m).lost == v.lost && v.sampled(
            sample,
            m,
        ).consecutive_loss == 0,
{
}

/// The average round-trip time lies between the shortest and the longest, and
/// the shares are at most a hundred percent.
pub proof fn figures_are_plausible(v: MonitorView)
    requires
        v.valid(),
    ensures
        v.rtt_window.len() > 0 ==> least(v.rtt_window) * v.average().den <= v.average().num
            <= greatest(v.rtt_window) * v.average().den,
        v.loss_pct().le_tenths(1000),
        v.stability().le_tenths(1000),
{
    let w = v.rtt_window;
    if w.len() > 0 {
        extremes_bound(w);
        sum_between_extremes(w, least(w), greatest(w));
        assert(greatest(w) * w.len() <= u64::MAX * RECENT_WINDOW) by (nonlinear_arith)
            requires
                greatest(w) <= u64::MAX,
                w.len() <= RECENT_WINDOW,
        ;
    }
    in_time_at_most_all(tail(v.recent, STABILITY_WINDOW as nat), v.good_threshold());
}

proof fn in_time_at_most_all(probes: Seq<Option<u64>>, good: u64)
    ensures
        in_time_count(probes, good) <= probes.len(),
    decreases probes.len(),
{
    if probes.len() > 0 {
        in_time_at_most_all(probes.drop_last(), good);
    }
}

/// The third loss in a row is logged as an outage and shown as trouble for at
/// least fifteen seconds.
pub proof fn three_losses_make_an_outage(v: MonitorView, m: Moment)
    requires
        v.valid(),
        v.sent < u64::MAX,
        v.consecutive_loss == 2,
        m.valid(),
    ensures
        ({
            let t = v.sampled(ProbeSample { rtt_ns: None }, m);
            &&& t.incidents.contains(
                IncidentView {
                    at: m.wall,
                    kind: TroubleKind::Outage,
                    detail: "3 probes lost in a row"@,
                },
            )
            &&& t.in_trouble((m.ticks + 15 * SECOND - 1) as u64)
        }),
{
    let s = v.counted_loss().judged_loss_row(m);
    let x = IncidentView {
        at: m.wall,
        kind: TroubleKind::Outage,
        detail: "3 probes lost in a row"@,
    };
    let t = v.sampled(ProbeSample { rtt_ns: None }, m);
    let n = s.incidents.len();
    assert(s.incidents[n - 1] == x);
    if n < MAX_INCIDENTS {
        assert(t.incidents[n - 1] == x);
    } else if t.incidents == s.incidents {
        assert(t.incidents[n - 1] == x);
    } else {
        assert(t.incidents[n - 2] == x);
    }
}

/// The first answer after an outage is logged as a recovery and ends the row of
/// losses.
pub proof fn an_outage_ends_with_a_recovery(v: MonitorView, rtt: u64, m: Moment)
    requires
        v.valid(),
        v.sent < u64::MAX,
        v.consecutive_loss >= 3,
    ensures
        ({
            let t = v.sampled(ProbeSample { rtt_ns: Some(rtt) }, m);
            &&& t.incidents.contains(
                IncidentView {
                    at: m.wall,
                    kind: TroubleKind::Recovered,
                    detail: "connection back ("@ + fixed(rtt as nat, MILLISECOND as nat, 0)
                        + " ms)"@,
                },
            )
            &&& t.consecutive_loss == 0
        }),
{
    let x = IncidentView {
        at: m.wall,
        kind: TroubleKind::Recovered,
        detail: "connection back ("@ + fixed(rtt as nat, MILLISECOND as nat, 0) + " ms)"@,
    };
    let a = v.counted_answer(rtt, m);
    let b = a.judged_spike(rtt, m);
    let c = b.judged_jitter(m);
    let n = a.incidents.len();
    assert(a.incidents[n - 1] == x);
    let i = if b.incidents == a.incidents || n < MAX_INCIDENTS {
        n - 1
    } else {
        n - 2
    };
    assert(b.incidents[i] == x);
    let j = if c.incidents == b.incidents || b.incidents.len() < MAX_INCIDENTS {
        i
    } else {
        i - 1
    };
    assert(c.incidents[j] == x);
}

/// Jitter is reported at most once in 45 seconds: until then a probe leaves the
/// time of the last report, and judging the jitter changes nothing.
pub proof fn jitter_reports_are_throttled(v: MonitorView, sample: ProbeSample, m: Moment)
    requires
        v.last_jitter_incident is Some,
        elapsed(m.ticks, v.last_jitter_incident->0) < 45 * SECOND,
    ensures
        v.judged_jitter(m) == v,
        v.sampled(sample, m).last_jitter_incident == v.last_jitter_incident,
        sample.rtt_ns is Some ==> v.sampled(sample, m) == v.counted_answer(
            sample.rtt_ns->0,
            m,
        ).judged_spike(sample.rtt_ns->0, m),
{
}

/// A new incident stands at the end of the log; where the log is full, the
/// oldest one makes room.
pub proof fn the_log_keeps_the_newest(
    v: MonitorView,
    kind: TroubleKind,
    detail: Seq<char>,
    m: Moment,
)
    requires
        v.valid(),
    ensures
        v.logged(kind, detail, m).incidents.last() == (IncidentView { at: m.wall, kind, detail }),
        v.incidents.len() < MAX_INCIDENTS ==> v.logged(kind, detail, m).incidents.drop_last()
            == v.incidents,
        v.incidents.len() == MAX_INCIDENTS ==> v.logged(kind, detail, m).incidents.drop_last()
            == v.incidents.drop_first(),
{
    let t = v.logged(kind, detail, m).incidents;
    if v.incidents.len() < MAX_INCIDENTS {
        assert(t.drop_last() =~= v.incidents);
    } else {
        assert(t.drop_last() =~= v.incidents.drop_first());
    }
}

/// The trouble notice is only ever prolonged.
pub proof fn trouble_is_never_cut_short(v: MonitorView, secs: int, m: Moment)
    requires
        0 <= secs <= 30,
        m.valid(),
    ensures
        ({
            let t = v.troubled(secs, m).trouble_until;
            &&& t is Some
            &&& t->0 >= m.ticks + secs * SECOND
            &&& v.trouble_until is Some ==> t->0 >= v.trouble_until->0
        }),
{
}

/// Whether a log holds an incident of a kind that came up at a moment.
pub open spec fn tells_of(log: Seq<IncidentView>, kind: TroubleKind, at: Timestamp) -> bool {
    exists|i: int| 0 <= i < log.len() && (#[trigger] log[i]).kind == kind && log[i].at == at
}

/// One more incident keeps what the log tells of the one before.
proof fn telling_goes_on(
    v: MonitorView,
    kind: TroubleKind,
    detail: Seq<char>,
    m: Moment,
    told: TroubleKind,
    at: Timestamp,
)
    requires
        0 < v.incidents.len() <= MAX_INCIDENTS,
        v.incidents.last().kind == told && v.incidents.last().at == at,
    ensures
        tells_of(v.incidents, told, at),
        tells_of(v.logged(kind, detail, m).incidents, told, at),
        tells_of(v.logged(kind, detail, m).incidents, kind, m.wall),
{
    let n = v.incidents.len() as int;
    assert(v.incidents[n - 1].kind == told);
    let t = v.logged(kind, detail, m).incidents;
    assert(t[t.len() - 1].kind == kind && t[t.len() - 1].at == m.wall);
    if n < MAX_INCIDENTS {
        assert(t[n - 1].kind == told);
    } else {
        assert(t[n - 2].kind == told);
    }
}

/// A probe that takes longer than 70 ms and, of most of the last twenty probes,
/// more than 1.8 times as long and over 30 ms longer is reported as a spike and
/// shown as trouble for six seconds.
pub proof fn a_sudden_delay_is_a_spike(v: MonitorView, rtt: u64, m: Moment)
    requires
        v.valid(),
        m.valid(),
        v.sent < u64::MAX,
        rtt > 70_000_000,
        forall|i: int| 0 <= i < v.rtt_window.len() ==> #[trigger] v.rtt_window[i] > 0,
        ({
            let last = tail(pushed(v.rtt_window, rtt, 240), 20);
            last.filter(|x: u64| 10 * rtt > 18 * x && rtt > x + 30_000_000).len() > last.len() / 2
        }),
    ensures
        ({
            let t = v.sampled(ProbeSample { rtt_ns: Some(rtt) }, m);
            &&& tells_of(t.incidents, TroubleKind::Spike, m.wall)
            &&& t.in_trouble((m.ticks + 5_999_999_999) as u64)
        }),
{
    let a = v.counted_answer(rtt, m);
    let last = tail(a.rtt_window, 20);
    let p = |x: u64| 10 * rtt > 18 * x && rtt > x + 30_000_000;
    crate::measure::the_median_goes_with_the_majority(last, p);
    crate::measure::the_median_is_in_the_middle(last);
    let k = choose|k: int| 0 <= k < last.len() && last[k] == median(last);
    assert(last[k] > 0) by {
        let w = a.rtt_window;
        assert(last[k] == w[w.len() - last.len() + k]);
    }
    let base = baseline_spec(a.rtt_window);
    assert(p(base));
    let b = a.judged_spike(rtt, m);
    assert(b.incidents.last().kind == TroubleKind::Spike);
    let j = jitter_spec(b.rtt_window, 12);
    if b.judged_jitter(m) != b {
        telling_goes_on(
            b,
            TroubleKind::JitterBurst,
            "jitter "@ + fixed(j->0.num as nat, (j->0.den * MILLISECOND) as nat, 1)
                + " ms over last 12 probes"@,
            m,
            TroubleKind::Spike,
            m.wall,
        );
    } else {
        assert(b.incidents[b.incidents.len() - 1].kind == TroubleKind::Spike);
    }
}

/// A probe that takes no longer than 70 ms, or no more than 1.8 times as long or
/// 30 ms longer than half of the last twenty probes, is no spike: every spike of
/// the log was in it before.
pub proof fn an_ordinary_probe_is_no_spike(v: MonitorView, rtt: u64, m: Moment, i: int)
    requires
        v.valid(),
        v.sent < u64::MAX,
        ({
            let last = tail(pushed(v.rtt_window, rtt, 240), 20);
            ||| rtt <= 70_000_000
            ||| last.filter(|x: u64| 10 * rtt <= 18 * x || rtt <= x + 30_000_000).len()
                >= last.len() - last.len() / 2
        }),
        ({
            let t = v.sampled(ProbeSample { rtt_ns: Some(rtt) }, m);
            0 <= i < t.incidents.len() && t.incidents[i].kind == TroubleKind::Spike
        }),
    ensures
        v.incidents.contains(v.sampled(ProbeSample { rtt_ns: Some(rtt) }, m).incidents[i]),
{
    let a = v.counted_answer(rtt, m);
    let last = tail(a.rtt_window, 20);
    let p = |x: u64| 10 * rtt <= 18 * x || rtt <= x + 30_000_000;
    crate::measure::the_median_goes_with_the_majority(last, p);
    let base = baseline_spec(a.rtt_window);
    if rtt > 70_000_000 {
        assert(p(base));
    }
    let b = a.judged_spike(rtt, m);
    assert(b == a);
    let c = b.judged_jitter(m);
    let x = c.incidents[i];
    assert(b.incidents.contains(x)) by {
        if c.incidents != b.incidents {
            let d = c.incidents.len() - b.incidents.len();
            if d == 1 {
                assert(b.incidents[i] == x);
            } else {
                assert(b.incidents[i + 1] == x);
            }
        } else {
            assert(b.incidents[i] == x);
        }
    }
    let k = choose|k: int| 0 <= k < a.incidents.len() && a.incidents[k] == x;
    if a.incidents != v.incidents {
        if a.incidents.len() == v.incidents.len() {
            assert(v.incidents[k + 1] == x);
        } else {
            assert(v.incidents[k] == x);
        }
    } else {
        assert(v.incidents[k] == x);
    }
}

/// An average distance of more than 15 ms between the last twelve probes, where
/// there are three, is reported and shown as trouble for four seconds, unless a
/// report was made in the last 45 seconds; a smaller one is not.
pub proof fn unsteady_times_are_a_jitter_burst(v: MonitorView, rtt: u64, m: Moment)
    requires
        v.valid(),
        m.valid(),
        v.sent < u64::MAX,
    ensures
        ({
            let t = v.sampled(ProbeSample { rtt_ns: Some(rtt) }, m);
            let last = tail(pushed(v.rtt_window, rtt, 240), 12);
            let unsteady = last.len() >= 3 && variation(last) > 15_000_000 * (last.len() - 1);
            let lately = v.last_jitter_incident is Some && m.ticks < v.last_jitter_incident->0
                + 45_000_000_000;
            &&& unsteady && !lately ==> tells_of(t.incidents, TroubleKind::JitterBurst, m.wall)
                && t.last_jitter_incident == Some(m.ticks) && t.in_trouble(
                (m.ticks + 3_999_999_999) as u64,
            )
            &&& !unsteady || lately ==> t.last_jitter_incident == v.last_jitter_incident
        }),
{
    let a = v.counted_answer(rtt, m).judged_spike(rtt, m);
    let w = a.rtt_window;
    let last = tail(w, 12);
    assert(w == pushed(v.rtt_window, rtt, 240));
    crate::measure::elapsed_time_adds_up(
        m.ticks,
        match v.last_jitter_incident {
            Some(t) => t,
            None => 0,
        },
    );
    if last.len() >= 3 {
        variation_is_bounded(last);
        let den = (last.len() - 1) as u128;
        assert(15 * MILLISECOND * den == 15_000_000 * (last.len() - 1));
        assert((last.len()) * u64::MAX <= 12 * u64::MAX);
    }
    let t = a.judged_jitter(m);
    if t.incidents.len() > 0 && t.last_jitter_incident == Some(m.ticks) {
        let n = t.incidents.len() as int;
        assert(t.incidents[n - 1] == t.incidents.last());
    }
}

proof fn variation_is_bounded(s: Seq<u64>)
    ensures
        variation(s) <= s.len() * u64::MAX,
    decreases s.len(),
{
    if s.len() >= 2 {
        variation_is_bounded(s.drop_last());
    }
}

/// The first loss of a row is reported as a loss, the second and those after
/// the third are not reported on their own; the log grows by nothing else while
/// some probe has been answered.
pub proof fn the_first_loss_of_a_row_is_reported(v: MonitorView, m: Moment)
    requires
        v.valid(),
        v.sent < u64::MAX,
    ensures
        ({
            let t = v.sampled(ProbeSample { rtt_ns: None }, m);
            &&& v.consecutive_loss == 0 && v.lost < v.sent ==> t.incidents.len() > 0
                && t.incidents.last().kind == TroubleKind::Loss && t.incidents.last().at == m.wall
                && t.incidents.last().detail == "probe timed out"@
            &&& v.consecutive_loss != 0 && v.consecutive_loss != 2 && v.lost < v.sent
                ==> t.incidents == v.incidents
            &&& t.rtt_window == v.rtt_window
        }),
{
}

/// A target none of whose probes is answered is reported after the fourth one
/// and after every tenth, and shown as trouble for thirty seconds; one that has
/// answered is never reported so.
pub proof fn a_silent_target_is_reported(v: MonitorView, m: Moment)
    requires
        v.valid(),
        m.valid(),
        v.sent < u64::MAX,
    ensures
        ({
            let t = v.sampled(ProbeSample { rtt_ns: None }, m);
            let n = v.sent + 1;
            &&& v.lost == v.sent && (n == 4 || n % 10 == 0) ==> t.incidents.len() > 0
                && t.incidents.last().kind == TroubleKind::Unreachable && t.incidents.last().at
                == m.wall && t.in_trouble((m.ticks + 29_999_999_999) as u64)
            &&& v.lost == v.sent && n == 4 ==> t.incidents.last().detail == "target '"@ + v.target
                + "' is not responding — verify the host name or your connection"@
            &&& v.lost == v.sent && n % 10 == 0 ==> t.incidents.last().detail
                == "still unreachable ("@ + decimal(n as nat) + " probes lost)"@
            &&& v.lost < v.sent && t.incidents.len() > 0 && t.incidents != v.incidents
                ==> t.incidents.last().kind != TroubleKind::Unreachable
        }),
{
}

/// An answer is remembered with its time at the end of both windows, a loss at
/// the end of one.
pub proof fn every_probe_enters_the_windows(v: MonitorView, rtt: u64, m: Moment)
    requires
        v.valid(),
        v.sent < u64::MAX,
    ensures
        ({
            let t = v.sampled(ProbeSample { rtt_ns: Some(rtt) }, m);
            let u = v.sampled(ProbeSample { rtt_ns: None }, m);
            &&& t.rtt_window.last() == rtt
            &&& t.recent.last() == Some(rtt)
            &&& u.recent.last() == Option::<u64>::None
            &&& u.rtt_window == v.rtt_window
            &&& t.target == v.target && t.gaming == v.gaming && t.interval_ms == v.interval_ms
            &&& u.target == v.target && u.gaming == v.gaming && u.interval_ms == v.interval_ms
        }),
{
}

/// An incident other than a recovery restarts the time of stability; without
/// one it goes on.
pub proof fn incidents_end_stability(v: MonitorView, sample: ProbeSample, m: Moment, now: u64)
    requires
        v.valid(),
        v.sent < u64::MAX,
    ensures
        ({
            let t = v.sampled(sample, m);
            &&& t.incidents == v.incidents && v.incidents.len() < 60 ==> t.stable_since
                == v.stable_since && t.trouble_until == v.trouble_until
            &&& t.stable_since == v.stable_since || t.stable_since == m.ticks
            &&& t.incidents.len() > 0 && t.incidents != v.incidents && t.incidents.last().kind
                != TroubleKind::Recovered ==> t.stable_since == m.ticks
        }),
        v.trouble_until is None && v.stable_since <= now ==> v.stable_for_secs(now)
            * 1_000_000_000 <= now - v.stable_since < (v.stable_for_secs(now) + 1) * 1_000_000_000,
        v.trouble_until is Some && now < v.trouble_until->0 ==> v.in_trouble(now)
            && v.stable_for_secs(now) == 0,
        v.trouble_until is Some && now >= v.trouble_until->0 ==> !v.in_trouble(now),
        v.trouble_until is None ==> !v.in_trouble(now),
{
    let t = v.sampled(sample, m);
    if v.incidents.len() < 60 && t.incidents == v.incidents {
        match sample.rtt_ns {
            None => {
                let a = v.counted_loss();
                let b = a.judged_loss_row(m);
                assert(a.incidents.len() <= b.incidents.len() <= t.incidents.len());
            },
            Some(rtt) => {
                let a = v.counted_answer(rtt, m);
                let b = a.judged_spike(rtt, m);
                assert(v.incidents.len() <= a.incidents.len());
                assert(a.incidents.len() < 60 ==> a.incidents.len() <= b.incidents.len());
            },
        }
    }
}

/// The statistics are made of the windows: the average of all times, the share
/// of lost probes, and the share of the last 120 probes that came back within
/// 100 ms, or 60 ms in gaming mode.
pub proof fn figures_come_from_the_windows(v: MonitorView)
    requires
        v.valid(),
    ensures
        ({
            let n = v.rtt_window.len();
            let last = tail(v.recent, 120);
            let good: int = if v.gaming {
                60_000_000
            } else {
                100_000_000
            };
            let kept = last.filter(|p: Option<u64>| p is Some && p->0 <= good).len();
            &&& n > 0 ==> v.average().num * n == sum(v.rtt_window) * v.average().den
            &&& n >= 3 ==> v.jitter().num * (n - 1) == variation(v.rtt_window) * v.jitter().den
            &&& n < 3 ==> v.jitter().num == 0
            &&& v.sent > 0 ==> v.loss_pct().num * v.sent == 100 * v.lost * v.loss_pct().den
            &&& v.sent == 0 ==> v.loss_pct().num == 0
            &&& last.len() > 0 ==> v.stability().num * last.len() == 100 * kept
                * v.stability().den
            &&& last.len() == 0 ==> v.stability().num == 0
            &&& v.average().den > 0 && v.jitter().den > 0 && v.loss_pct().den > 0
                && v.stability().den > 0
        }),
{
    let w = v.rtt_window;
    let n = w.len();
    variation_is_bounded(w);
    if n > 0 {
        extremes_bound(w);
        sum_between_extremes(w, least(w), greatest(w));
        assert(greatest(w) * n <= u64::MAX * 240) by (nonlinear_arith)
            requires
                greatest(w) <= u64::MAX,
                n <= 240,
        ;
    }
    assert(n * u64::MAX <= 240 * u64::MAX) by (nonlinear_arith)
        requires
            n <= 240,
    ;
    assert(tail(w, RECENT_WINDOW as nat) =~= w);
    let last = tail(v.recent, 120);
    let good = v.good_threshold();
    let p = |p: Option<u64>| p is Some && p->0 <= (if v.gaming {
        60_000_000int
    } else {
        100_000_000
    });
    in_time_is_a_count(last, good, p);
    in_time_at_most_all(last, good);
    let kept = last.filter(|p: Option<u64>| p is Some && p->0 <= (if v.gaming {
        60_000_000int
    } else {
        100_000_000
    })).len();
    assert(v.stability().num == 100 * kept);
    assert(v.loss_pct().num == (if v.sent == 0 {
        0
    } else {
        v.lost * 100
    }));
    assert((100 * kept) * last.len() == 100 * kept * last.len());
}

proof fn in_time_is_a_count(
    probes: Seq<Option<u64>>,
    good: u64,
    p: spec_fn(Option<u64>) -> bool,
)
    requires
        forall|x: Option<u64>| #[trigger] p(x) == (x is Some && x->0 <= good),
    ensures
        in_time_count(probes, good) == probes.filter(p).len(),
    decreases probes.len(),
{
    reveal(Seq::filter);
    if probes.len() > 0 {
        in_time_is_a_count(probes.drop_last(), good, p);
        assert(p(probes.last()) == in_time(probes.last(), good));
    }
}

/// Gaming mode probes twice as often and counts less as good; switching it over
/// twice changes nothing, and no figure is lost.
pub proof fn gaming_mode_is_a_switch(v: MonitorView)
    requires
        v.interval_ms == (if v.gaming {
            500int
        } else {
            1000
        }),
    ensures
        v.gaming_toggled().gaming == !v.gaming,
        v.gaming_toggled().gaming_toggled() == v,
        v.gaming_toggled().gaming ==> 2 * v.gaming_toggled().interval_ms == v.interval_ms,
        v.gaming_toggled().rtt_window == v.rtt_window && v.gaming_toggled().recent == v.recent,
        v.gaming_toggled().sent == v.sent && v.gaming_toggled().lost == v.lost,
        v.gaming_toggled().incidents == v.incidents,
        v.gaming ==> v.good_threshold() < v.gaming_toggled().good_threshold(),
{
}

/// A cleared monitor has no figures and no incidents, whatever it had before,
/// and keeps its target, its mode and its task.
pub proof fn a_cleared_monitor_starts_over(v: MonitorView, now: u64)
    ensures
        ({
            let c = v.cleared(now);
            &&& c.sent == 0 && c.lost == 0 && c.consecutive_loss == 0
            &&& c.rtt_window.len() == 0 && c.recent.len() == 0 && c.incidents.len() == 0
            &&& c.trouble_until is None && c.last_jitter_incident is None
            &&& c.stable_since == now
            &&& c.verdict().0 == "NO DATA"@
            &&& c.target == v.target && c.gaming == v.gaming && c.interval_ms == v.interval_ms
            &&& c.running == v.running && c.paused == v.paused && c.cancel == v.cancel && c.rx
                == v.rx
        }),
{
}

/// How good a verdict is: four steps in each mode.
pub open spec fn verdict_rank(name: Seq<char>) -> int {
    if name == "EXCELLENT"@ || name == "COMPETITIVE READY"@ {
        3
    } else if name == "GOOD"@ || name == "GREAT"@ {
        2
    } else if name == "DEGRADED"@ || name == "PLAYABLE"@ {
        1
    } else {
        0
    }
}

/// The names of the verdicts are told apart.
proof fn verdicts_differ()
    ensures
        verdict_rank("EXCELLENT"@) == 3 && verdict_rank("COMPETITIVE READY"@) == 3,
        verdict_rank("GOOD"@) == 2 && verdict_rank("GREAT"@) == 2,
        verdict_rank("DEGRADED"@) == 1 && verdict_rank("PLAYABLE"@) == 1,
        verdict_rank("POOR"@) == 0 && verdict_rank("UNSTABLE"@) == 0,
        verdict_rank("NO DATA"@) == 0 && verdict_rank("TARGET UNREACHABLE"@) == 0,
{
    reveal_strlit("EXCELLENT");
    reveal_strlit("COMPETITIVE READY");
    reveal_strlit("GOOD");
    reveal_strlit("GREAT");
    reveal_strlit("DEGRADED");
    reveal_strlit("PLAYABLE");
    reveal_strlit("POOR");
    reveal_strlit("UNSTABLE");
    reveal_strlit("NO DATA");
    reveal_strlit("TARGET UNREACHABLE");
    assert("GOOD"@[0] != "EXCELLENT"@[0] && "GOOD"@.len() != "COMPETITIVE READY"@.len());
    assert("GREAT"@.len() != "EXCELLENT"@.len() && "GREAT"@.len() != "COMPETITIVE READY"@.len());
    assert("DEGRADED"@.len() != "EXCELLENT"@.len() && "DEGRADED"@.len()
        != "COMPETITIVE READY"@.len() && "DEGRADED"@.len() != "GOOD"@.len() && "DEGRADED"@.len()
        != "GREAT"@.len());
    assert("PLAYABLE"@.len() != "EXCELLENT"@.len() && "PLAYABLE"@.len()
        != "COMPETITIVE READY"@.len() && "PLAYABLE"@.len() != "GOOD"@.len() && "PLAYABLE"@.len()
        != "GREAT"@.len());
    assert("POOR"@.len() == 4 && "POOR"@[0] != "GOOD"@[0]);
    assert("UNSTABLE"@.len() == 8 && "UNSTABLE"@[0] != "DEGRADED"@[0] && "UNSTABLE"@[0]
        != "PLAYABLE"@[0]);
    assert("NO DATA"@.len() == 7);
    assert("TARGET UNREACHABLE"@.len() == 18 && "COMPETITIVE READY"@.len() == 17);
}

/// A verdict promises what the figures keep. Outside gaming mode the best one
/// is given exactly to a loss below 0.5 %, an average of at most 60 ms and a
/// stability of 95 %, the second best from 2 %, 120 ms and 85 % on, the third
/// from 5 % and 65 %; in gaming mode to no loss, 40 ms and 97 %, then 1 %, 60 ms
/// and 90 %, then 3 %, 100 ms and 70 %.
pub proof fn the_verdict_follows_the_figures(v: MonitorView)
    requires
        v.valid(),
        v.sent > 0,
        v.lost < v.sent || v.sent < 4,
    ensures
        ({
            let rank = verdict_rank(v.verdict().0);
            let (avg, kept) = (v.average(), v.stability());
            &&& !v.gaming ==> {
                &&& rank >= 3 <==> 1000 * v.lost < 5 * v.sent && avg.num <= 60_000_000 * avg.den
                    && kept.num >= 95 * kept.den
                &&& rank >= 2 <==> 100 * v.lost < 2 * v.sent && avg.num <= 120_000_000 * avg.den
                    && kept.num >= 85 * kept.den
                &&& rank >= 1 <==> 100 * v.lost < 5 * v.sent && kept.num >= 65 * kept.den
            }
            &&& v.gaming ==> {
                &&& rank >= 3 <==> v.lost == 0 && avg.num <= 40_000_000 * avg.den && kept.num
                    >= 97 * kept.den
                &&& rank >= 2 <==> 100 * v.lost < v.sent && avg.num <= 60_000_000 * avg.den
                    && kept.num >= 90 * kept.den
                &&& rank >= 1 <==> 100 * v.lost < 3 * v.sent && avg.num <= 100_000_000 * avg.den
                    && kept.num >= 70 * kept.den
            }
        }),
{
    verdicts_differ();
}

/// Without a probe there is no verdict, and a target that answered none of four
/// or more is unreachable.
pub proof fn a_silent_target_gets_no_better_verdict(v: MonitorView)
    ensures
        v.sent == 0 ==> v.verdict() == ("NO DATA"@, Color::DarkGray),
        v.sent >= 4 && v.lost == v.sent ==> v.verdict() == ("TARGET UNREACHABLE"@, Color::Red),
        v.sent > 0 && !(v.sent >= 4 && v.lost == v.sent) && v.verdict().1 == Color::Red
            ==> v.verdict().0 == "POOR"@ || v.verdict().0 == "UNSTABLE"@,
{
}

/// A spike is told with the time that the probe took and the median of the last
/// twenty, both in whole milliseconds.
pub proof fn a_spike_is_told_with_its_baseline(v: MonitorView, rtt: u64, m: Moment)
    requires
        v.valid(),
        v.sent < u64::MAX,
        ({
            let base = median(tail(pushed(v.rtt_window, rtt, 240), 20));
            base > 0 && rtt > 70_000_000 && 10 * rtt > 18 * base && rtt > base + 30_000_000
        }),
    ensures
        ({
            let base = median(tail(pushed(v.rtt_window, rtt, 240), 20));
            v.sampled(ProbeSample { rtt_ns: Some(rtt) }, m).incidents.contains(
                IncidentView {
                    at: m.wall,
                    kind: TroubleKind::Spike,
                    detail: fixed(rtt as nat, 1_000_000, 0) + " ms vs ~"@ + fixed(
                        base as nat,
                        1_000_000,
                        0,
                    ) + " ms baseline"@,
                },
            )
        }),
{
    let a = v.counted_answer(rtt, m);
    let b = a.judged_spike(rtt, m);
    let c = b.judged_jitter(m);
    let n = b.incidents.len() as int;
    let x = b.incidents.last();
    assert(b.incidents[n - 1] == x);
    if c.incidents == b.incidents || n < 60 {
        assert(c.incidents[n - 1] == x);
    } else {
        assert(c.incidents[n - 2] == x);
    }
}

/// A jitter burst is told with the average distance between the last twelve
/// probes, in milliseconds, and is the last thing told of its probe.
pub proof fn a_jitter_burst_is_told_with_its_figure(v: MonitorView, rtt: u64, m: Moment)
    requires
        v.valid(),
        v.sent < u64::MAX,
        v.last_jitter_incident is None,
        ({
            let last = tail(pushed(v.rtt_window, rtt, 240), 12);
            last.len() >= 3 && variation(last) > 15_000_000 * (last.len() - 1)
        }),
    ensures
        ({
            let last = tail(pushed(v.rtt_window, rtt, 240), 12);
            v.sampled(ProbeSample { rtt_ns: Some(rtt) }, m).incidents.last() == (IncidentView {
                at: m.wall,
                kind: TroubleKind::JitterBurst,
                detail: "jitter "@ + fixed(
                    variation(last),
                    ((last.len() - 1) * 1_000_000) as nat,
                    1,
                ) + " ms over last 12 probes"@,
            })
        }),
{
    let a = v.counted_answer(rtt, m).judged_spike(rtt, m);
    let last = tail(a.rtt_window, 12);
    variation_is_bounded(last);
    let den = (last.len() - 1) as u128;
    assert(15 * MILLISECOND * den == 15_000_000 * (last.len() - 1));
    assert(last.len() * u64::MAX <= 12 * u64::MAX);
}

/// Trouble is shown no longer than it is worth: after an answered probe six
/// seconds at most, after a lost one fifteen, and thirty where no probe was ever
/// answered.
pub proof fn trouble_passes(v: MonitorView, rtt: u64, m: Moment)
    requires
        v.valid(),
        m.valid(),
        v.sent < u64::MAX,
        v.trouble_until is None,
    ensures
        !v.sampled(ProbeSample { rtt_ns: Some(rtt) }, m).in_trouble(
            (m.ticks + 6_000_000_000) as u64,
        ),
        v.lost < v.sent ==> !v.sampled(ProbeSample { rtt_ns: None }, m).in_trouble(
            (m.ticks + 15_000_000_000) as u64,
        ),
        !v.sampled(ProbeSample { rtt_ns: None }, m).in_trouble((m.ticks + 30_000_000_000) as u64),
        v.lost < v.sent && v.consecutive_loss != 2 ==> v.sampled(
            ProbeSample { rtt_ns: None },
            m,
        ).trouble_until is None,
{
}

/// Probes that arrive together are taken in one after the other.
pub proof fn probes_are_taken_in_order(
    v: MonitorView,
    a: Seq<ProbeSample>,
    b: Seq<ProbeSample>,
    m: Moment,
)
    ensures
        v.sampled_all(a + b, m) == v.sampled_all(a, m).sampled_all(b, m),
        v.sampled_all(Seq::empty(), m) == v,
    decreases b.len(),
{
    if b.len() == 0 {
        assert(a + b =~= a);
    } else {
        assert((a + b).drop_last() =~= a + b.drop_last());
        assert((a + b).last() == b.last());
        probes_are_taken_in_order(v, a, b.drop_last(), m);
    }
}

/// The kinds of trouble have their own names; a recovery alone is green, and red
/// are an outage and a target that does not answer.
pub proof fn troubles_are_told_apart(a: TroubleKind, b: TroubleKind)
    ensures
        a != b ==> a.name() != b.name(),
        a.shade() == Color::Green <==> a == TroubleKind::Recovered,
        a.shade() == Color::Red <==> a == TroubleKind::Outage || a == TroubleKind::Unreachable,
        a.shade() == Color::Yellow <==> a == TroubleKind::JitterBurst,
        a.shade() == Color::LightYellow <==> a == TroubleKind::Spike,
        a.shade() == Color::LightRed <==> a == TroubleKind::Loss,
{
    reveal_strlit("SPIKE");
    reveal_strlit("LOSS");
    reveal_strlit("OUTAGE");
    reveal_strlit("JITTER");
    reveal_strlit("RECOVERED");
    reveal_strlit("UNREACHABLE");
    assert("OUTAGE"@[0] == 'O' && "JITTER"@[0] == 'J');
    assert("SPIKE"@.len() == 5 && "LOSS"@.len() == 4 && "OUTAGE"@.len() == 6 && "JITTER"@.len()
        == 6 && "RECOVERED"@.len() == 9 && "UNREACHABLE"@.len() == 11);
}

/// The colour of a verdict goes with it: bright green, green, yellow and red from
/// the best to the worst, and grey where there is nothing to judge.
pub proof fn verdicts_have_their_colours(v: MonitorView)
    ensures
        v.sent == 0 ==> v.verdict() == ("NO DATA"@, Color::DarkGray),
        v.sent > 0 && verdict_rank(v.verdict().0) == 3 ==> v.verdict().1 == Color::LightGreen,
        v.sent > 0 && verdict_rank(v.verdict().0) == 2 ==> v.verdict().1 == Color::Green,
        v.sent > 0 && verdict_rank(v.verdict().0) == 1 ==> v.verdict().1 == Color::Yellow,
        v.sent > 0 && verdict_rank(v.verdict().0) == 0 ==> v.verdict().1 == Color::Red,
{
    verdicts_differ();
}

/// A new incident is remembered by its moment, and changes nothing of the probes.
pub proof fn incidents_are_remembered_by_their_moment(
    v: MonitorView,
    kind: TroubleKind,
    detail: Seq<char>,
    m: Moment,
)
    ensures
        ({
            let t = v.logged(kind, detail, m);
            &&& t.last_incident_at == Some(m.ticks)
            &&& t.incidents.len() <= 60 || v.incidents.len() > 60
            &&& t.sent == v.sent && t.lost == v.lost && t.rtt_window == v.rtt_window && t.recent
                == v.recent
            &&& t.trouble_until == v.trouble_until
        }),
{
}

/// A new monitor is at rest, aims at the default host once a second, and has seen
/// nothing.
pub proof fn a_monitor_begins_at_rest(now: u64)
    ensures
        ({
            let v = MonitorView::fresh(now);
            &&& !v.running && !v.paused && !v.rx && !v.cancel && !v.gaming && !v.editing_target
            &&& v.target == "speed.cloudflare.com"@
            &&& v.interval_ms == 1000
            &&& v.cleared(now) == v
            &&& v.last_incident_at is None
            &&& v.good_threshold() == 100_000_000
            &&& v.gaming_toggled().good_threshold() == 60_000_000
        }),
{
}

} // verus!
