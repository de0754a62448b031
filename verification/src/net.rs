//! Network measurement: profiles, phases, endpoints and their fallbacks,
//! latency and throughput figures.

use crate::measure::{
    greatest, greatest_of, least, least_of, sum, sum_of, variation, variation_of, LiveRate, Mean,
    Quotient, Rate, MILLISECOND,
};
use crate::text::{
    chars_of, concat, drop_trailing, matches_at, opt_text, repeated_ends_are_taken_off, same_text,
    skip_matches, space_around_a_text_is_trimmed, string_of, trim, trim_bounds, trim_end_char,
    trim_start_matches, white_space,
};
use vstd::prelude::*;

verus! {

/// Probes of a latency measurement.
pub const PING_PROBES: usize = 12;

/// Concurrent streams of a download.
pub const DOWNLOAD_STREAMS: usize = 4;

/// Concurrent streams of an upload.
pub const UPLOAD_STREAMS: usize = 3;

/// How long a monitor probe may take, in milliseconds.
pub const MONITOR_PROBE_TIMEOUT_MS: u64 = 2000;

/// How often throughput is sampled, in milliseconds.
pub const SAMPLE_INTERVAL_MS: u64 = 100;

/// Bytes in one chunk of an upload. Small chunks keep the byte counter
/// granular, so the live graph does not jump in bursts.
pub const UPLOAD_CHUNK: usize = 65_536;

/// Bytes after which one upload request ends and the next begins.
pub const UPLOAD_REQUEST_CAP: usize = 536_870_912;

/// A step of a speed test.
#[derive(Debug, Clone, Copy, PartialEq, Eq, Structural)]
pub enum Phase {
    Connect,
    Latency,
    Download,
    Upload,
}

impl Phase {
    /// The heading under which the phase is shown.
    pub open spec fn name(self) -> Seq<char> {
        match self {
            Phase::Connect => "Connecting"@,
            Phase::Latency => "Measuring latency"@,
            Phase::Download => "Download test"@,
            Phase::Upload => "Upload test"@,
        }
    }

    pub fn label(self) -> (s: &'static str)
        ensures
            s@ == self.name(),
    {
        match self {
            Phase::Connect => "Connecting",
            Phase::Latency => "Measuring latency",
            Phase::Download => "Download test",
            Phase::Upload => "Upload test",
        }
    }
}

/// How long the throughput phases of a test take.
#[derive(Debug, Clone, Copy, PartialEq, Eq, Structural)]
pub enum Profile {
    Quick,
    Standard,
    Max,
}

impl Profile {
    pub const ALL: [Profile; 3] = [Profile::Quick, Profile::Standard, Profile::Max];

    /// The position of the profile in the list of profiles.
    pub open spec fn place(self) -> int {
        match self {
            Profile::Quick => 0,
            Profile::Standard => 1,
            Profile::Max => 2,
        }
    }

    /// The profile's name.
    pub open spec fn title(self) -> Seq<char> {
        match self {
            Profile::Quick => "Quick"@,
            Profile::Standard => "Standard"@,
            Profile::Max => "Maximum"@,
        }
    }

    /// The seconds of the download and of the upload phase.
    pub open spec fn seconds(self) -> (u64, u64) {
        match self {
            Profile::Quick => (5, 5),
            Profile::Standard => (10, 10),
            Profile::Max => (20, 20),
        }
    }

    /// The profile behind this one, cyclically.
    pub open spec fn successor(self) -> Self {
        match self {
            Profile::Quick => Profile::Standard,
            Profile::Standard => Profile::Max,
            Profile::Max => Profile::Quick,
        }
    }

    /// The profile before this one, cyclically.
    pub open spec fn predecessor(self) -> Self {
        match self {
            Profile::Quick => Profile::Max,
            Profile::Standard => Profile::Quick,
            Profile::Max => Profile::Standard,
        }
    }

    pub fn name(self) -> (s: &'static str)
        ensures
            s@ == self.title(),
    {
        match self {
            Profile::Quick => "Quick",
            Profile::Standard => "Standard",
            Profile::Max => "Maximum",
        }
    }

    pub fn phase_seconds(self) -> (s: (u64, u64))
        ensures
            s == self.seconds(),
    {
        match self {
            Profile::Quick => (5, 5),
            Profile::Standard => (10, 10),
            Profile::Max => (20, 20),
        }
    }

    pub fn index(self) -> (i: usize)
        ensures
            i == self.place(),
            i < 3,
    {
        match self {
            Profile::Quick => 0,
            Profile::Standard => 1,
            Profile::Max => 2,
        }
    }

    pub fn next(self) -> (p: Self)
        ensures
            p == self.successor(),
    {
        Self::ALL[(self.index() + 1) % 3]
    }

    pub fn prev(self) -> (p: Self)
        ensures
            p == self.predecessor(),
    {
        Self::ALL[(self.index() + 2) % 3]
    }
}

/// Going to the next profile and back ends where it began, and three steps go
/// round.
pub proof fn profiles_cycle(p: Profile)
    ensures
        p.successor().predecessor() == p,
        p.predecessor().successor() == p,
        p.successor().successor().successor() == p,
        p.successor().place() == (p.place() + 1) % 3,
{
}

/// What is known of the connection.
#[derive(Debug)]
pub struct ConnectionInfo {
    pub client_ip: String,
    pub as_organization: String,
    pub asn: Option<i64>,
    pub city: Option<String>,
    pub country: Option<String>,
    pub colo: Option<String>,
}

/// The contents of a [`ConnectionInfo`].
#[verifier::ext_equal]
pub struct ConnectionView {
    pub client_ip: Seq<char>,
    pub as_organization: Seq<char>,
    pub asn: Option<i64>,
    pub city: Option<Seq<char>>,
    pub country: Option<Seq<char>>,
    pub colo: Option<Seq<char>>,
}

impl View for ConnectionInfo {
    type V = ConnectionView;

    open spec fn view(&self) -> ConnectionView {
        ConnectionView {
            client_ip: self.client_ip@,
            as_organization: self.as_organization@,
            asn: self.asn,
            city: opt_text(self.city),
            country: opt_text(self.country),
            colo: opt_text(self.colo),
        }
    }
}

/// Figures of a latency measurement, in nanoseconds.
#[derive(Debug, Clone, Copy, PartialEq, Eq, Structural)]
pub struct LatencyStats {
    pub min_ns: u64,
    pub avg: Mean,
    pub max_ns: u64,
    pub jitter: Mean,
}

/// The result of a full test.
#[derive(Debug, Clone, Copy, PartialEq, Eq, Structural)]
pub struct Metrics {
    pub down: Rate,
    pub up: Rate,
    pub latency: LatencyStats,
}

/// An event that the speed-test engine emits.
#[derive(Debug)]
pub enum TestEvent {
    Phase(Phase),
    /// A round-trip time, in nanoseconds.
    PingSample(u64),
    LatencyDone(LatencyStats),
    /// The smoothed data rate of the moment and the average one.
    Throughput { instant: LiveRate, avg: Rate },
    PhaseDone,
    Finished(Metrics),
    Failed(String),
}

/// What a [`TestEvent`] says.
pub enum TestEventView {
    Phase(Phase),
    PingSample(u64),
    LatencyDone(LatencyStats),
    Throughput { instant: LiveRate, avg: Rate },
    PhaseDone,
    Finished(Metrics),
    Failed(Seq<char>),
}

impl View for TestEvent {
    type V = TestEventView;

    open spec fn view(&self) -> TestEventView {
        match *self {
            TestEvent::Phase(p) => TestEventView::Phase(p),
            TestEvent::PingSample(ns) => TestEventView::PingSample(ns),
            TestEvent::LatencyDone(st) => TestEventView::LatencyDone(st),
            TestEvent::Throughput { instant, avg } => TestEventView::Throughput { instant, avg },
            TestEvent::PhaseDone => TestEventView::PhaseDone,
            TestEvent::Finished(m) => TestEventView::Finished(m),
            TestEvent::Failed(msg) => TestEventView::Failed(msg@),
        }
    }
}

/// What every event of a list says.
pub open spec fn event_views(events: Seq<TestEvent>) -> Seq<TestEventView> {
    events.map_values(|e: TestEvent| e@)
}

// ---- latency --------------------------------------------------------------

/// The figures of a series of round-trip times, where there are any.
pub open spec fn latency_figures(rtts: Seq<u64>) -> Option<LatencyStats> {
    if rtts.len() == 0 {
        None
    } else {
        Some(
            LatencyStats {
                min_ns: least(rtts),
                avg: Mean::among(sum(rtts), rtts.len()),
                max_ns: greatest(rtts),
                jitter: if rtts.len() > 1 {
                    Mean::among(variation(rtts), (rtts.len() - 1) as nat)
                } else {
                    Mean::zero()
                },
            },
        )
    }
}

/// The distances between neighbours add up to at most the largest possible
/// distance, once per neighbouring pair.
proof fn variation_fits(s: Seq<u64>)
    requires
        s.len() > 0,
    ensures
        variation(s) <= (s.len() - 1) * u64::MAX,
    decreases s.len(),
{
    if s.len() >= 2 {
        variation_fits(s.drop_last());
    }
}

/// The figures of a series of round-trip times, where there are any.
pub fn latency_stats(rtts: &Vec<u64>) -> (st: Option<LatencyStats>)
    requires
        rtts@.len() <= u32::MAX,
    ensures
        st == latency_figures(rtts@),
{
    let n: usize = rtts.len();
    if n == 0 {
        return None;
    }
    let total: u128 = sum_of(rtts);
    let avg = Mean::of_total(total, n as u32);
    let jitter = if n > 1 {
        let v: u128 = variation_of(rtts);
        proof {
            variation_fits(rtts@);
        }
        Mean::of_total(v, (n - 1) as u32)
    } else {
        Mean::zero()
    };
    Some(LatencyStats { min_ns: least_of(rtts), avg, max_ns: greatest_of(rtts), jitter })
}

/// The average of a latency measurement is exact and lies between its extremes;
/// so is its jitter, the average distance of neighbours.
pub proof fn latency_average_between_extremes(rtts: Seq<u64>)
    requires
        0 < rtts.len() <= u32::MAX,
    ensures
        ({
            let st = latency_figures(rtts)->0;
            let n = rtts.len();
            &&& st.avg.nanos() == (Quotient { num: sum(rtts) as u128, den: n as u128 })
            &&& st.min_ns * n <= st.avg.nanos().num <= st.max_ns * n
            &&& n > 1 ==> st.jitter.nanos() == (Quotient {
                num: variation(rtts) as u128,
                den: (n - 1) as u128,
            })
            &&& n == 1 ==> st.jitter.nanos() == (Quotient { num: 0, den: 1 })
        }),
{
    crate::measure::extremes_bound(rtts);
    let lo = least(rtts);
    let hi = greatest(rtts);
    crate::measure::sum_between_extremes(rtts, lo, hi);
    let n = rtts.len();
    assert(hi * n <= u64::MAX * n) by (nonlinear_arith)
        requires
            hi <= u64::MAX,
    ;
    parts_add_up(sum(rtts), n);
    assert(u64::MAX * n <= u64::MAX * u32::MAX) by (nonlinear_arith)
        requires
            n <= u32::MAX,
    ;
    if n > 1 {
        variation_fits(rtts);
        parts_add_up(variation(rtts), (n - 1) as nat);
    }
    assert(Mean::among(0, 1) == Mean::zero());
    parts_add_up(0, 1);
}

proof fn parts_add_up(total: nat, n: nat)
    requires
        0 < n <= u32::MAX,
        total <= n * u64::MAX,
    ensures
        Mean::among(total, n).nanos() == (Quotient { num: total as u128, den: n as u128 }),
{
    let m = Mean::among(total, n);
    assert(total / n <= u64::MAX) by (nonlinear_arith)
        requires
            n > 0,
            total <= n * u64::MAX,
    ;
    vstd::arithmetic::div_mod::lemma_fundamental_div_mod(total as int, n as int);
    assert(n * (total / n) == (total / n) * n) by (nonlinear_arith);
    assert(m.ns * m.of + m.part == total);
}

/// The path of a latency probe endpoint.
pub open spec fn probe_path_spec(idx: int) -> Seq<char> {
    if idx == 0 {
        "/__down?bytes=0"@
    } else {
        "/cdn-cgi/trace"@
    }
}

/// Latency probe endpoints.
pub const PROBE_PATHS: usize = 2;

fn probe_path(idx: usize) -> (p: &'static str)
    ensures
        p@ == probe_path_spec(idx as int),
{
    if idx == 0 {
        "/__down?bytes=0"
    } else {
        "/cdn-cgi/trace"
    }
}

/// A latency measurement under way. Probes go to one endpoint until it fails,
/// then to the other; the last one that answered is preferred from then on.
#[derive(Debug)]
pub struct LatencyRun {
    pub probes_done: usize,
    pub probe_idx: usize,
    pub preferred: usize,
    pub rtts: Vec<u64>,
}

/// The contents of a [`LatencyRun`].
#[verifier::ext_equal]
pub struct LatencyRunView {
    pub probes_done: usize,
    pub probe_idx: usize,
    pub preferred: usize,
    pub rtts: Seq<u64>,
}

impl View for LatencyRun {
    type V = LatencyRunView;

    open spec fn view(&self) -> LatencyRunView {
        LatencyRunView {
            probes_done: self.probes_done,
            probe_idx: self.probe_idx,
            preferred: self.preferred,
            rtts: self.rtts@,
        }
    }
}

impl LatencyRunView {
    pub open spec fn valid(self) -> bool {
        &&& self.probes_done <= PING_PROBES
        &&& self.probe_idx < PROBE_PATHS
        &&& self.preferred < PROBE_PATHS
        &&& self.rtts.len() <= self.probes_done
    }

    /// Whether another probe is due.
    pub open spec fn wants(self, cancelled: bool) -> bool {
        !cancelled && self.probes_done < PING_PROBES
    }

    /// After one probe.
    pub open spec fn probed(self, answered: bool, rtt: u64) -> Self {
        if answered {
            LatencyRunView {
                probes_done: (self.probes_done + 1) as usize,
                preferred: self.probe_idx,
                rtts: self.rtts.push(rtt),
                ..self
            }
        } else {
            LatencyRunView {
                probes_done: (self.probes_done + 1) as usize,
                probe_idx: ((self.probe_idx + 1) % PROBE_PATHS as int) as usize,
                ..self
            }
        }
    }
}

impl LatencyRun {
    /// A measurement that starts with the preferred endpoint.
    pub fn new(preferred: usize) -> (r: Self)
        requires
            preferred < PROBE_PATHS,
        ensures
            r@ == (LatencyRunView {
                probes_done: 0,
                probe_idx: preferred,
                preferred,
                rtts: Seq::empty(),
            }),
            r@.valid(),
    {
        LatencyRun { probes_done: 0, probe_idx: preferred, preferred, rtts: Vec::new() }
    }

    /// Whether another probe is due.
    pub fn wants_probe(&self, cancelled: bool) -> (yes: bool)
        ensures
            yes == (!cancelled && self@.probes_done < PING_PROBES),
            yes == self@.wants(cancelled),
    {
        !cancelled && self.probes_done < PING_PROBES
    }

    /// The address of the next probe.
    pub fn probe_url(&self) -> (url: String)
        ensures
            url@ == "https://speed.cloudflare.com"@ + probe_path_spec(self@.probe_idx as int),
    {
        concat("https://speed.cloudflare.com", probe_path(self.probe_idx))
    }

    /// Takes the outcome of one probe in: whether it was answered with success,
    /// and after how long. Gives the event to send: an answered probe is a
    /// sample.
    pub fn on_probe(&mut self, answered: bool, rtt: u64) -> (ev: Option<TestEvent>)
        requires
            old(self)@.valid(),
            old(self)@.probes_done < PING_PROBES,
        ensures
            final(self)@ == old(self)@.probed(answered, rtt),
            final(self)@.valid(),
            ev == (if answered {
                Some(TestEvent::PingSample(rtt))
            } else {
                None
            }),
    {
        self.probes_done = self.probes_done + 1;
        if answered {
            self.rtts.push(rtt);
            self.preferred = self.probe_idx;
            Some(TestEvent::PingSample(rtt))
        } else {
            // This endpoint is blocked on the current network: switch to the
            // alternative for the remaining probes.
            self.probe_idx = (self.probe_idx + 1) % PROBE_PATHS;
            None
        }
    }

    /// The figures of the measurement and the event that reports them; an error
    /// where no probe was answered.
    pub fn finish(&self) -> (r: Result<(LatencyStats, TestEvent), &'static str>)
        requires
            self@.valid(),
        ensures
            match r {
                Ok((st, ev)) => latency_figures(self@.rtts) == Some(st) && ev
                    == TestEvent::LatencyDone(st),
                Err(msg) => self@.rtts.len() == 0 && msg@
                    == "no latency probe endpoint responded — the network may be blocking the test"@,
            },
    {
        match latency_stats(&self.rtts) {
            Some(st) => Ok((st, TestEvent::LatencyDone(st))),
            None => Err(
                "no latency probe endpoint responded — the network may be blocking the test",
            ),
        }
    }
}

/// The events that probes send, one after another.
pub open spec fn probe_events(probes: Seq<Option<u64>>) -> Seq<TestEventView>
    decreases probes.len(),
{
    if probes.len() == 0 {
        Seq::empty()
    } else {
        match probes.last() {
            Some(rtt) => probe_events(probes.drop_last()).push(TestEventView::PingSample(rtt)),
            None => probe_events(probes.drop_last()),
        }
    }
}

/// A measurement after probes, each answered after a time or not at all.
pub open spec fn after_probes(r: LatencyRunView, probes: Seq<Option<u64>>) -> LatencyRunView
    decreases probes.len(),
{
    if probes.len() == 0 {
        r
    } else {
        match probes.last() {
            Some(rtt) => after_probes(r, probes.drop_last()).probed(true, rtt),
            None => after_probes(r, probes.drop_last()).probed(false, 0),
        }
    }
}

/// The times of the samples that are sent, in order, are exactly those that the
/// figures are made of.
pub proof fn samples_are_what_is_measured(r: LatencyRunView, probes: Seq<Option<u64>>)
    requires
        r.rtts.len() == 0,
    ensures
        probe_events(probes) == after_probes(r, probes).rtts.map_values(
            |rtt: u64| TestEventView::PingSample(rtt),
        ),
    decreases probes.len(),
{
    let f = |rtt: u64| TestEventView::PingSample(rtt);
    if probes.len() == 0 {
        assert(probe_events(probes) =~= r.rtts.map_values(f));
    } else {
        samples_are_what_is_measured(r, probes.drop_last());
        let before = after_probes(r, probes.drop_last()).rtts;
        if let Some(rtt) = probes.last() {
            assert(before.push(rtt).map_values(f) =~= before.map_values(f).push(f(rtt)));
        }
    }
}

// ---- throughput -----------------------------------------------------------

/// The new smoothed rate: six tenths of the previous one and four tenths of the
/// raw one, to a billionth of a bit per second.
pub open spec fn smooth(prev: Option<LiveRate>, raw: LiveRate) -> LiveRate {
    match prev {
        Some(prev) => LiveRate::of((6 * prev.fine() + 4 * raw.fine()) / 10),
        None => raw,
    }
}

/// A smoothed rate lies between the previous smoothed rate and the raw one.
pub proof fn smoothing_stays_between(prev: LiveRate, raw: LiveRate)
    requires
        prev.billionths < 1_000_000_000,
        raw.billionths < 1_000_000_000,
    ensures
        prev.fine() <= raw.fine() ==> prev.fine() <= smooth(Some(prev), raw).fine() <= raw.fine(),
        raw.fine() <= prev.fine() ==> raw.fine() <= smooth(Some(prev), raw).fine() <= prev.fine(),
{
}

/// A smoothed rate is six tenths of the previous one and four tenths of the raw
/// one, to within a billionth of a bit per second: so it moves towards the raw
/// rate, by four tenths of the distance, and the first one is the raw rate.
pub proof fn smoothing_moves_by_four_tenths(prev: LiveRate, raw: LiveRate)
    requires
        prev.billionths < 1_000_000_000,
        raw.billionths < 1_000_000_000,
    ensures
        ({
            let (was, new) = (prev.fine() as int, raw.fine() as int);
            let now = smooth(Some(prev), raw).fine() as int;
            &&& 6 * was + 4 * new - 10 < 10 * now <= 6 * was + 4 * new
            &&& 4 * (new - was) - 10 < 10 * (now - was) <= 4 * (new - was)
            &&& new > was + 2 ==> now > was
            &&& new < was ==> now < was
            &&& new == was ==> now == was
            &&& new > was ==> now < new
        }),
        smooth(None, raw) == raw,
        smooth(Some(prev), raw).billionths < 1_000_000_000,
{
}

/// The throughput sampler: turns readings of a byte counter into a smoothed
/// live rate and the average since the start.
#[derive(Debug, Clone, Copy, PartialEq, Eq, Structural)]
pub struct Sampler {
    pub last_bytes: u64,
    pub ema: Option<LiveRate>,
}

impl Sampler {
    pub fn new() -> (s: Self)
        ensures
            s == (Sampler { last_bytes: 0, ema: None }),
    {
        Sampler { last_bytes: 0, ema: None }
    }

    /// The smoothed rate after the counter moved to `bytes` in `dt` nanoseconds.
    pub open spec fn smoothed(self, bytes: u64, dt: u64) -> LiveRate {
        smooth(
            self.ema,
            LiveRate::of((Rate { bytes: (bytes - self.last_bytes) as u64, ns: dt }).fine()),
        )
    }

    /// After one reading, and the event to show.
    pub open spec fn read(self, bytes: u64, dt: u64, since_start: u64) -> (
        Self,
        Option<TestEventView>,
    ) {
        if dt == 0 {
            (Sampler { last_bytes: bytes, ..self }, None)
        } else {
            let instant = self.smoothed(bytes, dt);
            (
                Sampler { last_bytes: bytes, ema: Some(instant) },
                Some(
                    TestEventView::Throughput { instant, avg: Rate { bytes, ns: since_start } },
                ),
            )
        }
    }

    /// Takes one reading in: `bytes` on the counter, `dt` nanoseconds after the
    /// previous reading and `since_start` after the start. Gives the event to
    /// show, where time has passed at all.
    pub fn sample(&mut self, bytes: u64, dt: u64, since_start: u64) -> (ev: Option<TestEvent>)
        requires
            old(self).last_bytes <= bytes,
            dt <= since_start,
        ensures
            final(self).last_bytes == bytes,
            dt == 0 ==> ev is None && final(self).ema == old(self).ema,
            dt > 0 ==> final(self).ema == Some(old(self).smoothed(bytes, dt)) && ev == Some(
                TestEvent::Throughput {
                    instant: old(self).smoothed(bytes, dt),
                    avg: (Rate { bytes, ns: since_start }),
                },
            ),
            *final(self) == old(self).read(bytes, dt, since_start).0,
            match ev {
                Some(e) => old(self).read(bytes, dt, since_start).1 == Some(e@),
                None => old(self).read(bytes, dt, since_start).1 is None,
            },
    {
        let fresh = Rate { bytes: bytes - self.last_bytes, ns: dt };
        self.last_bytes = bytes;
        if dt == 0 {
            return None;
        }
        let raw = LiveRate::from_billionths(fresh.billionths());
        let smoothed = match self.ema {
            Some(prev) => LiveRate::from_billionths((6 * prev.total() + 4 * raw.total()) / 10),
            None => raw,
        };
        self.ema = Some(smoothed);
        Some(TestEvent::Throughput { instant: smoothed, avg: Rate { bytes, ns: since_start } })
    }
}

/// Why a throughput phase gave no result.
#[derive(Debug, Clone, Copy, PartialEq, Eq, Structural)]
pub enum PhaseError {
    /// Cancelled before a source was tried.
    Cancelled,
    /// Interrupted before it could run.
    Interrupted,
    /// It completed without transferring any bytes. Retryable: transient blocks
    /// and handshake failures often clear up at once.
    ZeroData,
}

impl PhaseError {
    /// The message that is shown.
    pub open spec fn text(self) -> Seq<char> {
        match self {
            PhaseError::Cancelled => "cancelled"@,
            PhaseError::Interrupted => "phase was interrupted before it could run"@,
            PhaseError::ZeroData =>
                "every download source was blocked or returned no data — the network or firewall may be blocking the test"@,
        }
    }

    pub fn message(self) -> (s: &'static str)
        ensures
            s@ == self.text(),
    {
        match self {
            PhaseError::Cancelled => "cancelled",
            PhaseError::Interrupted => "phase was interrupted before it could run",
            PhaseError::ZeroData =>
                "every download source was blocked or returned no data — the network or firewall may be blocking the test",
        }
    }
}

/// Whether a phase failed for want of data.
pub fn is_zero_data(err: PhaseError) -> (yes: bool)
    ensures
        yes == (err == PhaseError::ZeroData),
{
    err == PhaseError::ZeroData
}

/// The outcome of a throughput phase: interrupted where it was aborted or took
/// no more than 200 ms, without data where nothing was transferred, else the
/// rate over its whole time.
pub open spec fn phase_outcome(total_bytes: u64, elapsed_ns: u64, aborted: bool) -> Result<
    Rate,
    PhaseError,
> {
    if aborted || elapsed_ns <= 200 * MILLISECOND {
        Err(PhaseError::Interrupted)
    } else if total_bytes == 0 {
        Err(PhaseError::ZeroData)
    } else {
        Ok(Rate { bytes: total_bytes, ns: elapsed_ns })
    }
}

/// The outcome of a download phase; one that was cancelled counts as aborted.
pub fn download_outcome(total_bytes: u64, elapsed_ns: u64, cancelled: bool) -> (r: Result<
    Rate,
    PhaseError,
>)
    ensures
        r == phase_outcome(total_bytes, elapsed_ns, cancelled),
{
    if cancelled {
        return Err(PhaseError::Interrupted);
    }
    upload_outcome(total_bytes, elapsed_ns)
}

/// The outcome of an upload phase.
pub fn upload_outcome(total_bytes: u64, elapsed_ns: u64) -> (r: Result<Rate, PhaseError>)
    ensures
        r == phase_outcome(total_bytes, elapsed_ns, false),
{
    if elapsed_ns <= 200 * MILLISECOND {
        return Err(PhaseError::Interrupted);
    }
    if total_bytes == 0 {
        return Err(PhaseError::ZeroData);
    }
    Ok(Rate { bytes: total_bytes, ns: elapsed_ns })
}

/// How many bytes of an upload request are sent after one more chunk; nothing
/// where the request is to end.
pub open spec fn upload_after(sent: usize, expired: bool, cancelled: bool) -> Option<usize> {
    if expired || cancelled || sent >= UPLOAD_REQUEST_CAP {
        None
    } else {
        Some((sent + UPLOAD_CHUNK) as usize)
    }
}

/// How many bytes of an upload request are sent after one more chunk; nothing
/// where the request is to end.
pub fn next_upload_chunk(sent: usize, expired: bool, cancelled: bool) -> (after: Option<usize>)
    ensures
        after == (if expired || cancelled || sent >= UPLOAD_REQUEST_CAP {
            None
        } else {
            Some((sent + UPLOAD_CHUNK) as usize)
        }),
        after == upload_after(sent, expired, cancelled),
{
    if expired || cancelled || sent >= UPLOAD_REQUEST_CAP {
        None
    } else {
        Some(sent + UPLOAD_CHUNK)
    }
}

/// Retries of a phase that gave no data.
pub const PHASE_RETRIES: usize = 2;

/// The pause before the retry that follows the `failures`-th failure, in
/// milliseconds; nothing where the phase is given up.
pub open spec fn retry_pause(failures: int, zero_data: bool) -> Option<u64> {
    if !zero_data || failures > PHASE_RETRIES {
        None
    } else if failures == 1 {
        Some(400)
    } else {
        Some(1500)
    }
}

/// Counts the failures of one phase and decides on retries.
#[derive(Debug, Clone, Copy, PartialEq, Eq, Structural)]
pub struct Retry {
    pub failures: usize,
}

impl Retry {
    pub fn new() -> (r: Self)
        ensures
            r == (Retry { failures: 0 }),
    {
        Retry { failures: 0 }
    }

    /// Takes a failure in. Gives the pause before the next attempt, in
    /// milliseconds, or nothing where the failure is final.
    pub fn on_failure(&mut self, err: PhaseError) -> (pause: Option<u64>)
        requires
            old(self).failures <= PHASE_RETRIES,
        ensures
            final(self).failures == old(self).failures + 1,
            pause == retry_pause(old(self).failures + 1, err == PhaseError::ZeroData),
    {
        self.failures = self.failures + 1;
        if self.failures > PHASE_RETRIES || !is_zero_data(err) {
            None
        } else if self.failures == 1 {
            Some(400)
        } else {
            Some(1500)
        }
    }
}

/// A phase is retried at most twice, after 400 and after 1500 milliseconds, and
/// only where it gave no data.
pub proof fn at_most_two_retries(failures: int, zero_data: bool)
    requires
        failures >= 1,
    ensures
        retry_pause(failures, zero_data) is Some <==> zero_data && failures <= 2,
        zero_data ==> retry_pause(1, zero_data) == Some(400u64),
        zero_data ==> retry_pause(2, zero_data) == Some(1500u64),
{
}

/// Bulk-download endpoints.
pub const DOWNLOAD_SOURCES: usize = 4;

/// The address of a bulk-download endpoint.
pub open spec fn source_url(idx: int) -> Seq<char> {
    if idx == 0 {
        "https://speed.cloudflare.com/__down?bytes=25000000"@
    } else if idx == 1 {
        "https://cachefly.cachefly.net/100mb.test"@
    } else if idx == 2 {
        "https://proof.ovh.net/files/100Mb.dat"@
    } else {
        "https://speed.hetzner.de/100MB.bin"@
    }
}

/// The address of a bulk-download endpoint.
pub fn download_source(idx: usize) -> (url: &'static str)
    ensures
        url@ == source_url(idx as int),
{
    if idx == 0 {
        "https://speed.cloudflare.com/__down?bytes=25000000"
    } else if idx == 1 {
        "https://cachefly.cachefly.net/100mb.test"
    } else if idx == 2 {
        "https://proof.ovh.net/files/100Mb.dat"
    } else {
        "https://speed.hetzner.de/100MB.bin"
    }
}

/// What a search for a working download source does next.
#[derive(Debug, Clone, Copy, PartialEq, Eq, Structural)]
pub enum SourceStep {
    /// Try this source.
    Try(usize),
    /// Give up with this error.
    GiveUp(PhaseError),
}

/// A search for a working download source: every source once, starting with
/// the one that worked last.
#[derive(Debug, Clone, Copy, PartialEq, Eq, Structural)]
pub struct SourceSearch {
    pub start: usize,
    pub offset: usize,
    pub first_error: Option<PhaseError>,
}

/// The source that a search which began at `start` tries as its `offset`-th.
pub open spec fn source_at(start: int, offset: int) -> int {
    (start + offset) % (DOWNLOAD_SOURCES as int)
}

impl SourceSearch {
    pub open spec fn valid(self) -> bool {
        self.start < DOWNLOAD_SOURCES && self.offset <= DOWNLOAD_SOURCES
    }

    /// What is done next.
    pub open spec fn step(self, cancelled: bool) -> SourceStep {
        if self.offset >= DOWNLOAD_SOURCES {
            SourceStep::GiveUp(
                match self.first_error {
                    Some(e) => e,
                    None => PhaseError::ZeroData,
                },
            )
        } else if cancelled {
            SourceStep::GiveUp(PhaseError::Cancelled)
        } else {
            SourceStep::Try(source_at(self.start as int, self.offset as int) as usize)
        }
    }

    /// After the failure of a source.
    pub open spec fn failed(self, err: PhaseError) -> Self {
        SourceSearch {
            start: self.start,
            offset: (self.offset + 1) as usize,
            first_error: match self.first_error {
                Some(e) => Some(e),
                None => Some(err),
            },
        }
    }

    /// A search that begins with the source that worked last.
    pub fn new(preferred: usize) -> (s: Self)
        requires
            preferred < DOWNLOAD_SOURCES,
        ensures
            s == (SourceSearch { start: preferred, offset: 0, first_error: None }),
            s.valid(),
    {
        SourceSearch { start: preferred, offset: 0, first_error: None }
    }

    /// What to do next: the next source, unless the search was cancelled or
    /// every source has failed, which is reported by the first failure.
    pub fn next_step(&self, cancelled: bool) -> (step: SourceStep)
        requires
            self.valid(),
        ensures
            step == (if self.offset >= DOWNLOAD_SOURCES {
                SourceStep::GiveUp(
                    match self.first_error {
                        Some(e) => e,
                        None => PhaseError::ZeroData,
                    },
                )
            } else if cancelled {
                SourceStep::GiveUp(PhaseError::Cancelled)
            } else {
                SourceStep::Try(source_at(self.start as int, self.offset as int) as usize)
            }),
            step matches SourceStep::Try(idx) ==> idx < DOWNLOAD_SOURCES,
            step == self.step(cancelled),
    {
        if self.offset >= DOWNLOAD_SOURCES {
            return SourceStep::GiveUp(
                match self.first_error {
                    Some(e) => e,
                    None => PhaseError::ZeroData,
                },
            );
        }
        if cancelled {
            return SourceStep::GiveUp(PhaseError::Cancelled);
        }
        SourceStep::Try((self.start + self.offset) % DOWNLOAD_SOURCES)
    }

    /// Takes the failure of a source in. Gives the error to stop with where the
    /// test was cancelled meanwhile.
    pub fn on_failure(&mut self, err: PhaseError, cancelled: bool) -> (stop: Option<PhaseError>)
        requires
            old(self).valid(),
            old(self).offset < DOWNLOAD_SOURCES,
        ensures
            cancelled ==> stop == Some(err) && *final(self) == *old(self),
            !cancelled ==> stop is None && *final(self) == (SourceSearch {
                start: old(self).start,
                offset: (old(self).offset + 1) as usize,
                first_error: match old(self).first_error {
                    Some(e) => Some(e),
                    None => Some(err),
                },
            }),
            !cancelled ==> *final(self) == old(self).failed(err),
            final(self).valid(),
    {
        if cancelled {
            return Some(err);
        }
        // Keep the first real failure for reporting.
        if self.first_error.is_none() {
            self.first_error = Some(err);
        }
        self.offset = self.offset + 1;
        None
    }

    /// Takes the success of the source last given in: the source that the next
    /// search begins with.
    pub fn on_success(&self) -> (preferred: usize)
        requires
            self.valid(),
        ensures
            preferred == source_at(self.start as int, self.offset as int),
            preferred < DOWNLOAD_SOURCES,
    {
        (self.start + self.offset) % DOWNLOAD_SOURCES
    }
}

/// A search tries every source exactly once, the preferred one first.
pub proof fn every_source_is_tried_once(start: int, idx: int)
    requires
        0 <= start < DOWNLOAD_SOURCES,
        0 <= idx < DOWNLOAD_SOURCES,
    ensures
        source_at(start, 0) == start,
        exists|k: int| 0 <= k < DOWNLOAD_SOURCES && #[trigger] source_at(start, k) == idx,
        forall|j: int, k: int|
            0 <= j < k < DOWNLOAD_SOURCES ==> #[trigger] source_at(start, j)
                != #[trigger] source_at(start, k),
{
    let k = if idx >= start {
        idx - start
    } else {
        idx + 4 - start
    };
    assert(source_at(start, k) == idx);
}

// ---- monitor probes -------------------------------------------------------

/// A target without surrounding space, scheme and trailing slashes.
pub open spec fn bare_target(s: Seq<char>) -> Seq<char> {
    trim_end_char(
        trim_start_matches(trim_start_matches(trim(s), "https://"@), "http://"@),
        '/',
    )
}

/// The bounds of the bare target within the characters of a target.
pub(crate) fn bare_bounds(chars: &Vec<char>) -> (r: (usize, usize))
    ensures
        r.0 <= r.1 <= chars@.len(),
        chars@.subrange(r.0 as int, r.1 as int) == bare_target(chars@),
{
    let https = chars_of("https://");
    let http = chars_of("http://");
    proof {
        reveal_strlit("https://");
        reveal_strlit("http://");
    }
    let (a, b) = trim_bounds(chars, 0, chars.len());
    assert(chars@.subrange(0, chars@.len() as int) =~= chars@);
    let a = skip_matches(chars, &https, a, b);
    let a = skip_matches(chars, &http, a, b);
    let b = drop_trailing(chars, a, b, '/');
    (a, b)
}

/// The host that a monitor target stands for.
pub open spec fn target_host(s: Seq<char>) -> Seq<char> {
    if bare_target(s).len() == 0 {
        "speed.cloudflare.com"@
    } else {
        bare_target(s)
    }
}

/// The host that a monitor target stands for.
pub fn normalize_target(target: &str) -> (host: String)
    ensures
        host@ == target_host(target@),
{
    let chars = chars_of(target);
    let (a, b) = bare_bounds(&chars);
    if a == b {
        "speed.cloudflare.com".to_owned()
    } else {
        string_of(&chars, a, b)
    }
}

/// The request of one monitor probe.
#[derive(Debug)]
pub struct ProbeRequest {
    pub url: String,
    /// A bare HEAD request; else a GET request.
    pub head: bool,
}

/// Whether the request that probes `target` is a bare HEAD request, and its
/// address: a 0-byte download from the default host, a HEAD request elsewhere.
pub open spec fn probe_plan(target: Seq<char>) -> (bool, Seq<char>) {
    if target_host(target) == "speed.cloudflare.com"@ {
        (false, "https://speed.cloudflare.com/__down?bytes=0"@)
    } else {
        (true, "https://"@ + target_host(target) + "/"@)
    }
}

/// The request that probes `target`: a 0-byte download from the default host, a
/// bare HEAD request elsewhere.
pub fn probe_request(target: &str) -> (r: ProbeRequest)
    ensures
        r.head == (target_host(target@) != "speed.cloudflare.com"@),
        r.url@ == (if r.head {
            "https://"@ + target_host(target@) + "/"@
        } else {
            "https://speed.cloudflare.com/__down?bytes=0"@
        }),
        (r.head, r.url@) == probe_plan(target@),
{
    let host = normalize_target(target);
    if same_text(host.as_str(), "speed.cloudflare.com") {
        ProbeRequest {
            url: "https://speed.cloudflare.com/__down?bytes=0".to_owned(),
            head: false,
        }
    } else {
        let mut url: String = "https://".to_owned();
        url.append(host.as_str());
        url.append("/");
        ProbeRequest { url, head: true }
    }
}

/// How long to wait before the next monitor probe, in nanoseconds: the rest of
/// the interval, which is at least 100 ms.
pub open spec fn probe_wait(interval_ms: u64, elapsed_ns: u64) -> int {
    let interval = if interval_ms > 100 {
        interval_ms * MILLISECOND
    } else {
        100 * MILLISECOND
    };
    if elapsed_ns < interval {
        interval - elapsed_ns
    } else {
        0
    }
}

/// How long to wait before the next monitor probe, in nanoseconds: the rest of
/// the interval, which is at least 100 ms.
pub fn next_probe_wait(interval_ms: u64, elapsed_ns: u64) -> (wait: u64)
    requires
        interval_ms * MILLISECOND <= u64::MAX,
    ensures
        wait == ({
            let interval = if interval_ms > 100 {
                interval_ms * MILLISECOND
            } else {
                100 * MILLISECOND
            };
            if elapsed_ns < interval {
                interval - elapsed_ns
            } else {
                0
            }
        }),
        wait == probe_wait(interval_ms, elapsed_ns),
{
    let interval: u64 = if interval_ms > 100 {
        interval_ms * MILLISECOND
    } else {
        100 * MILLISECOND
    };
    if elapsed_ns < interval {
        interval - elapsed_ns
    } else {
        0
    }
}

// ---- error messages -------------------------------------------------------

/// What is known of a failed request: its nature and its own description.
#[derive(Debug)]
pub struct RequestFailure {
    pub connect: bool,
    pub timeout: bool,
    pub decode: bool,
    pub text: String,
}

/// A short message for a failure: `request` where a failed request is its
/// cause, `other` its own description else.
pub open spec fn failure_text(request: Option<RequestFailure>, other: Seq<char>) -> Seq<char> {
    match request {
        Some(r) => if r.connect {
            "could not connect — check your internet connection or DNS"@
        } else if r.timeout {
            "the server did not respond in time"@
        } else if r.decode {
            "received a malformed response from the server"@
        } else {
            "network error: "@ + r.text@
        },
        None => other,
    }
}

/// Translates a low-level network error into a short, human-friendly message.
pub fn describe_network_error(request: &Option<RequestFailure>, other: &str) -> (msg: String)
    ensures
        msg@ == failure_text(*request, other@),
{
    match request {
        Some(r) => {
            if r.connect {
                "could not connect — check your internet connection or DNS".to_owned()
            } else if r.timeout {
                "the server did not respond in time".to_owned()
            } else if r.decode {
                "received a malformed response from the server".to_owned()
            } else {
                concat("network error: ", r.text.as_str())
            }
        },
        None => other.to_owned(),
    }
}

// ---- laws -----------------------------------------------------------------

/// Each profile takes twice as long as the one before it, as long down as up, and
/// stands at its place in the list.
pub proof fn profiles_double(p: Profile)
    ensures
        p.seconds().0 == p.seconds().1,
        p.place() < 2 ==> p.successor().seconds().0 == 2 * p.seconds().0,
        p.place() == 0 ==> p.seconds().0 == 5,
        Profile::ALL@[p.place()] == p,
{
}

/// The extremes of a latency measurement are times that were measured, and no
/// time lies outside them.
pub proof fn latency_extremes_were_measured(rtts: Seq<u64>)
    requires
        rtts.len() > 0,
    ensures
        ({
            let st = latency_figures(rtts)->0;
            &&& rtts.contains(st.min_ns)
            &&& rtts.contains(st.max_ns)
            &&& forall|i: int| 0 <= i < rtts.len() ==> st.min_ns <= #[trigger] rtts[i] <= st.max_ns
        }),
        latency_figures(rtts) is Some,
        latency_figures(Seq::empty()) is None,
{
    crate::measure::extremes_bound(rtts);
}

/// A measurement makes twelve probes: every one counts, answered or not, an
/// answered one is kept as the newest time and its endpoint preferred from then
/// on, and only one that is not answered goes over to the other endpoint.
pub proof fn a_measurement_makes_twelve_probes(r: LatencyRunView, rtt: u64)
    requires
        r.valid(),
    ensures
        r.wants(false) <==> r.probes_done < 12,
        !r.wants(true),
        r.wants(false) ==> ({
            let hit = r.probed(true, rtt);
            let miss = r.probed(false, rtt);
            &&& hit.probes_done == r.probes_done + 1
            &&& miss.probes_done == r.probes_done + 1
            &&& hit.rtts == r.rtts.push(rtt)
            &&& miss.rtts == r.rtts
            &&& hit.probe_idx == r.probe_idx && hit.preferred == r.probe_idx
            &&& miss.probe_idx == 1 - r.probe_idx && miss.preferred == r.preferred
            &&& hit.valid() && miss.valid()
        }),
        probe_path_spec(r.probe_idx as int) != probe_path_spec(1 - r.probe_idx),
{
    reveal_strlit("/__down?bytes=0");
    reveal_strlit("/cdn-cgi/trace");
    assert("/__down?bytes=0"@[1] != "/cdn-cgi/trace"@[1]);
}

/// Only what the counter has moved by counts: the smoothed rate is that of the
/// new bytes in the time since the last reading. With no reading before it is
/// their rate itself, to within a billionth of a bit per second.
pub proof fn only_new_bytes_are_sampled(s: Sampler, n: u64, dt: u64)
    requires
        s.last_bytes + n <= u64::MAX,
        dt > 0,
    ensures
        s.smoothed((s.last_bytes + n) as u64, dt) == (Sampler { last_bytes: 0, ema: s.ema }).smoothed(
            n,
            dt,
        ),
        ({
            let first = (Sampler { last_bytes: 0, ema: None }).smoothed(n, dt);
            n * 8_000_000_000 < 18_446_744_073_709_551_615 * dt ==> first.fine() * dt <= n
                * 8_000_000_000_000_000_000 < (first.fine() + 1) * dt
        }),
{
    if n * 8_000_000_000 < 18_446_744_073_709_551_615 * dt {
        let r = Rate { bytes: n, ns: dt };
        let x = n * 8_000_000_000_000_000_000;
        vstd::arithmetic::div_mod::lemma_fundamental_div_mod(x, dt as int);
        let f = x / dt as int;
        assert(f * dt <= x < (f + 1) * dt) by (nonlinear_arith)
            requires
                x == dt as int * f + x % dt as int,
                dt > 0,
        ;
        let most = 18_446_744_073_709_551_615_000_000_000int;
        assert(x < most * dt) by (nonlinear_arith)
            requires
                n * 8_000_000_000 < 18_446_744_073_709_551_615 * dt,
                x == n * 8_000_000_000_000_000_000,
                most == 18_446_744_073_709_551_615_000_000_000int,
        ;
        assert(0 <= f < most) by (nonlinear_arith)
            requires
                f * dt <= x,
                x < most * dt,
                f == x / dt as int,
                x >= 0,
                dt > 0,
        ;
        assert(r.fine() == f);
        assert(LiveRate::of(r.fine()).fine() == f);
    }
}

/// A phase gives a rate exactly where it was not aborted, took more than a fifth
/// of a second and transferred something; that rate is of all its bytes in all
/// its time. One that transferred nothing is told from one that was interrupted.
pub proof fn a_phase_counts_all_its_bytes(total_bytes: u64, elapsed_ns: u64, aborted: bool)
    ensures
        ({
            let r = phase_outcome(total_bytes, elapsed_ns, aborted);
            &&& r is Ok <==> !aborted && elapsed_ns > 200_000_000 && total_bytes > 0
            &&& r matches Ok(rate) ==> rate.bytes == total_bytes && rate.ns == elapsed_ns
            &&& r == Err::<Rate, PhaseError>(PhaseError::Interrupted) <==> aborted || elapsed_ns
                <= 200_000_000
            &&& r != Err::<Rate, PhaseError>(PhaseError::Cancelled)
        }),
{
}

/// An upload request ends at half a gibibyte, or when the phase does; until then
/// it grows by 64 kibibytes at a time.
pub proof fn uploads_grow_by_chunks(sent: usize, expired: bool, cancelled: bool)
    ensures
        upload_after(sent, expired, cancelled) is Some <==> !expired && !cancelled && sent
            < 512 * 1024 * 1024,
        upload_after(sent, expired, cancelled) matches Some(after) ==> after - sent == 64 * 1024,
{
}

/// Whatever goes wrong, a search that is not cancelled tries each of the four
/// sources, no two of them alike, and then reports its first failure.
pub proof fn a_search_reports_its_first_failure(
    preferred: usize,
    a: PhaseError,
    b: PhaseError,
    c: PhaseError,
    d: PhaseError,
)
    requires
        preferred < 4,
    ensures
        ({
            let s0 = SourceSearch { start: preferred, offset: 0, first_error: None };
            let s1 = s0.failed(a);
            let s2 = s1.failed(b);
            let s3 = s2.failed(c);
            let s4 = s3.failed(d);
            &&& s0.step(false) == SourceStep::Try(preferred)
            &&& s1.step(false) is Try && s2.step(false) is Try && s3.step(false) is Try
            &&& s1.step(false) != s0.step(false)
            &&& s2.step(false) != s0.step(false) && s2.step(false) != s1.step(false)
            &&& s3.step(false) != s0.step(false) && s3.step(false) != s1.step(false)
                && s3.step(false) != s2.step(false)
            &&& s4.step(false) == SourceStep::GiveUp(a)
            &&& s0.step(true) == SourceStep::GiveUp(PhaseError::Cancelled)
            &&& s3.step(true) == SourceStep::GiveUp(PhaseError::Cancelled)
        }),
{
}

/// The four download sources have four addresses.
pub proof fn sources_have_their_own_addresses(i: int, j: int)
    requires
        0 <= i < 4,
        0 <= j < 4,
        i != j,
    ensures
        source_url(i) != source_url(j),
{
    reveal_strlit("https://speed.cloudflare.com/__down?bytes=25000000");
    reveal_strlit("https://cachefly.cachefly.net/100mb.test");
    reveal_strlit("https://proof.ovh.net/files/100Mb.dat");
    reveal_strlit("https://speed.hetzner.de/100MB.bin");
    assert("https://speed.cloudflare.com/__down?bytes=25000000"@.len() == 50);
    assert("https://cachefly.cachefly.net/100mb.test"@.len() == 40);
    assert("https://proof.ovh.net/files/100Mb.dat"@.len() == 37);
    assert("https://speed.hetzner.de/100MB.bin"@.len() == 34);
}

/// Whether a text is a host as such: it has no space at its ends, no scheme
/// before it and no slash behind it.
pub open spec fn plain_host(h: Seq<char>) -> bool {
    &&& h.len() > 0
    &&& !white_space(h[0])
    &&& !white_space(h.last())
    &&& h.last() != '/'
    &&& !matches_at(h, "http://"@, 0)
    &&& !matches_at(h, "https://"@, 0)
}

proof fn schemes()
    ensures
        "http://"@.len() == 7,
        "https://"@.len() == 8,
        "http://"@[0] == 'h' && "http://"@[4] == ':' && "http://"@.last() == '/',
        "https://"@[0] == 'h' && "https://"@[4] == 's' && "https://"@.last() == '/',
        !white_space('h') && !white_space('/'),
{
    reveal_strlit("http://");
    reveal_strlit("https://");
}

/// The scheme before a target and the slash behind it are dropped, and so is the
/// space around it; a plain host is kept as it is.
pub proof fn a_target_is_its_host(h: Seq<char>, a: Seq<char>, b: Seq<char>)
    requires
        plain_host(h),
        forall|k: int| 0 <= k < a.len() ==> white_space(#[trigger] a[k]),
        forall|k: int| 0 <= k < b.len() ==> white_space(#[trigger] b[k]),
    ensures
        target_host(h) == h,
        target_host(a + h + b) == h,
        target_host(a + ("https://"@ + h) + b) == h,
        target_host(a + ("http://"@ + h) + b) == h,
        target_host(a + ("https://"@ + h).push('/') + b) == h,
        target_host(a + h.push('/') + b) == h,
        bare_target(a + h + b) == h,
        bare_target(a + ("https://"@ + h) + b) == h,
        bare_target(a + ("http://"@ + h) + b) == h,
        bare_target(a + h.push('/') + b) == h,
        target_host(a + b) == "speed.cloudflare.com"@,
{
    schemes();
    let (p, q) = ("http://"@, "https://"@);
    repeated_ends_are_taken_off(h, p, '/');
    repeated_ends_are_taken_off(h, q, '/');
    // The host alone.
    space_around_a_text_is_trimmed(a, h, b);
    // With a scheme.
    let x = q + h;
    assert(x[0] == 'h' && x.last() == h.last());
    space_around_a_text_is_trimmed(a, x, b);
    let y = p + h;
    assert(y[0] == 'h' && y.last() == h.last());
    space_around_a_text_is_trimmed(a, y, b);
    assert(!matches_at(y, q, 0)) by {
        if matches_at(y, q, 0) {
            assert(y.subrange(0, 8)[4] == y[4]);
        }
    }
    repeated_ends_are_taken_off(y, q, '/');
    // With a slash.
    let z = x.push('/');
    let hs = h.push('/');
    assert(z =~= q + hs);
    assert(z[0] == 'h');
    space_around_a_text_is_trimmed(a, z, b);
    repeated_ends_are_taken_off(hs, q, '/');
    repeated_ends_are_taken_off(hs, p, '/');
    assert(hs[0] == h[0]);
    space_around_a_text_is_trimmed(a, hs, b);
    no_scheme_with_a_slash(h, p);
    no_scheme_with_a_slash(h, q);
    // Nothing.
    crate::text::trimming_takes_white_space_only(a + b);
    let t = trim(a + b);
    let (i, j) = choose|i: int, j: int|
        0 <= i <= j <= (a + b).len() && trim(a + b) == #[trigger] (a + b).subrange(i, j) && (forall|
            k: int,
        |
            0 <= k < i || j <= k < (a + b).len() ==> white_space(#[trigger] (a + b)[k]));
    if t.len() > 0 {
        assert(t[0] == (a + b)[i]);
        if i < a.len() {
            assert((a + b)[i] == a[i]);
        } else {
            assert((a + b)[i] == b[i - a.len()]);
        }
    }
    assert(t =~= Seq::empty());
}

/// A plain host with a slash behind it does not become a scheme.
proof fn no_scheme_with_a_slash(h: Seq<char>, p: Seq<char>)
    requires
        h.len() > 0,
        h.last() != '/',
        p == "http://"@ || p == "https://"@,
        !matches_at(h, p, 0),
    ensures
        !matches_at(h.push('/'), p, 0),
{
    reveal_strlit("http://");
    reveal_strlit("https://");
    let hs = h.push('/');
    if matches_at(hs, p, 0) {
        let n = p.len() as int;
        assert(p[n - 2] == '/');
        assert(hs.subrange(0, n)[n - 2] == hs[n - 2]);
        if n <= h.len() {
            assert(h.subrange(0, n) =~= hs.subrange(0, n));
        } else {
            assert(hs[n - 2] == h.last());
        }
    }
}

/// A target is probed at its own host; only the default host by a download of
/// nothing.
pub proof fn targets_are_probed_at_their_host(h: Seq<char>)
    requires
        plain_host(h),
    ensures
        h != "speed.cloudflare.com"@ ==> probe_plan(h) == (true, "https://"@ + h + "/"@),
        h == "speed.cloudflare.com"@ ==> !probe_plan(h).0,
        !probe_plan(Seq::empty()).0,
{
    a_target_is_its_host(h, Seq::empty(), Seq::empty());
    a_target_is_its_host_when_blank();
}

proof fn a_target_is_its_host_when_blank()
    ensures
        target_host(Seq::empty()) == "speed.cloudflare.com"@,
{
    schemes();
    let e = Seq::<char>::empty();
    assert(trim(e) =~= e);
}

/// The time that a probe took and the wait behind it make up the interval, which
/// is at least a tenth of a second; a probe that took longer is followed by the
/// next at once.
pub proof fn probes_keep_their_interval(interval_ms: u64, elapsed_ns: u64)
    ensures
        ({
            let wait = probe_wait(interval_ms, elapsed_ns);
            let interval = if interval_ms < 100 {
                100_000_000
            } else {
                interval_ms * 1_000_000
            };
            &&& elapsed_ns <= interval ==> elapsed_ns + wait == interval
            &&& elapsed_ns >= interval ==> wait == 0
        }),
{
}

/// What is told of a failed request: that there is no connection goes before a
/// timeout, that before a broken reply; anything else is told in its own words.
pub proof fn failures_are_told_by_their_nature(r: RequestFailure, other: Seq<char>)
    ensures
        r.connect ==> failure_text(Some(r), other)
            == "could not connect — check your internet connection or DNS"@,
        !r.connect && r.timeout ==> failure_text(Some(r), other)
            == "the server did not respond in time"@,
        !r.connect && !r.timeout && r.decode ==> failure_text(Some(r), other)
            == "received a malformed response from the server"@,
        !r.connect && !r.timeout && !r.decode ==> failure_text(Some(r), other)
            == "network error: "@ + r.text@,
        failure_text(None, other) == other,
{
}

/// A reading shows the smoothed rate of the new bytes and the average of all since
/// the start, and what is shown is what the next one is smoothed with; without
/// time passed nothing is shown, and the bytes are not counted again.
pub proof fn a_reading_shows_the_moment_and_the_average(
    s: Sampler,
    bytes: u64,
    dt: u64,
    since_start: u64,
)
    ensures
        ({
            let (t, ev) = s.read(bytes, dt, since_start);
            &&& t.last_bytes == bytes
            &&& ev is Some <==> dt > 0
            &&& dt == 0 ==> t.ema == s.ema
            &&& ev matches Some(TestEventView::Throughput { instant, avg }) ==> t.ema == Some(
                instant,
            ) && instant == s.smoothed(bytes, dt) && avg.bytes == bytes && avg.ns == since_start
            &&& ev matches Some(e) ==> e is Throughput
        }),
{
}

/// Sources are tried in the order of their list, the first after the last; a search
/// that succeeds remembers the one that it tried.
pub proof fn sources_follow_their_list(start: int, k: int)
    requires
        0 <= start < 4,
        0 <= k,
    ensures
        source_at(start, k + 1) == (source_at(start, k) + 1) % 4,
        0 <= source_at(start, k) < 4,
        source_at(start, k + 4) == source_at(start, k),
{
}

/// The first endpoint is a download of nothing, the other one the trace.
pub proof fn endpoints_have_their_paths(idx: int)
    ensures
        idx == 0 ==> probe_path_spec(idx) == "/__down?bytes=0"@,
        idx != 0 ==> probe_path_spec(idx) == "/cdn-cgi/trace"@,
{
}

/// The phases of a test have their own names.
pub proof fn phases_are_told_apart(a: Phase, b: Phase)
    ensures
        a != b ==> a.name() != b.name(),
{
    reveal_strlit("Connecting");
    reveal_strlit("Measuring latency");
    reveal_strlit("Download test");
    reveal_strlit("Upload test");
    assert("Connecting"@.len() == 10 && "Measuring latency"@.len() == 17 && "Download test"@.len()
        == 13 && "Upload test"@.len() == 11);
}

} // verus!
