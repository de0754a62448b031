//! Modem polling: which host is asked, what is asked of it, and how the replies
//! make a snapshot.

use crate::dsl::{DslSnapshot, SnapshotView};
use crate::measure::{Timestamp, MILLISECOND, SECOND};
use crate::net::{plain_host, RequestFailure};
use crate::soap::{
    an_element_is_what_stands_in_it, begins_with_end_tag, complete, crc_total_checked,
    crc_totals_add_up, crc_values, describe_transport_error,
    element, element_value, elements_stand_apart, is_name, total, transport_reason, with_element,
    xml_val, Query,
};
use crate::text::{
    chars_of, decimal, drop_trailing, holds, join, joined, list_has, opt_text, parse_number, parse_u64,
    decimal_numbers_are_read_back, matches_at, push_decimal, repeated_ends_are_taken_off,
    skip_matches, space_around_a_text_is_trimmed, string_of, texts, trim, trim_bounds,
    trim_end_char, trim_start_matches, white_space,
};
use vstd::prelude::*;

verus! {

/// The port of the management interface where the address names none.
pub const SOAP_PORT: u16 = 4900;

/// Pause between two polls, in nanoseconds.
pub const POLL_INTERVAL: u64 = 2 * SECOND;

/// Pause after a poll that failed, in nanoseconds.
pub const RETRY_AFTER_FAILURE: u64 = 15 * SECOND;

// ---- addresses ------------------------------------------------------------

/// An address without surrounding space, scheme and trailing slashes.
pub open spec fn bare_host(s: Seq<char>) -> Seq<char> {
    trim_end_char(
        trim_start_matches(trim_start_matches(trim(s), "http://"@), "https://"@),
        '/',
    )
}

/// An address without surrounding space, scheme and trailing slashes.
pub fn normalize_host(host: &str) -> (out: String)
    ensures
        out@ == bare_host(host@),
{
    let chars = chars_of(host);
    let http = chars_of("http://");
    let https = chars_of("https://");
    proof {
        reveal_strlit("http://");
        reveal_strlit("https://");
    }
    let (a, b) = trim_bounds(&chars, 0, chars.len());
    assert(chars@.subrange(0, chars@.len() as int) =~= host@);
    let a = skip_matches(&chars, &http, a, b);
    let a = skip_matches(&chars, &https, a, b);
    let b = drop_trailing(&chars, a, b, '/');
    string_of(&chars, a, b)
}

/// The position of the last colon of a text.
pub open spec fn last_colon(s: Seq<char>) -> Option<int>
    decreases s.len(),
{
    if s.len() == 0 {
        None
    } else if s.last() == ':' {
        Some(s.len() - 1)
    } else {
        last_colon(s.drop_last())
    }
}

fn find_last_colon(chars: &Vec<char>) -> (at: Option<usize>)
    ensures
        match at {
            Some(i) => last_colon(chars@) == Some(i as int) && i < chars@.len(),
            None => last_colon(chars@) is None,
        },
{
    let mut i: usize = chars.len();
    assert(chars@.take(i as int) =~= chars@);
    while i > 0
        invariant
            i <= chars@.len(),
            last_colon(chars@) == last_colon(chars@.take(i as int)),
        decreases i,
    {
        assert(chars@.take(i as int).drop_last() =~= chars@.take(i - 1));
        if chars[i - 1] == ':' {
            return Some(i - 1);
        }
        i = i - 1;
    }
    None
}

/// The host of an address and the port it names, or the standard port.
pub open spec fn host_and_port(s: Seq<char>) -> (Seq<char>, u16) {
    match last_colon(s) {
        Some(i) => match parse_number(s.skip(i + 1), 10) {
            Some(p) => if p <= u16::MAX {
                (s.take(i), p as u16)
            } else {
                (s, SOAP_PORT)
            },
            None => (s, SOAP_PORT),
        },
        None => (s, SOAP_PORT),
    }
}

/// Splits an address into its host and the port it names ("192.168.1.1:4900"),
/// or the standard port where it names none.
pub fn split_host(hostport: &str) -> (r: (String, u16))
    ensures
        (r.0@, r.1) == host_and_port(hostport@),
{
    let chars = chars_of(hostport);
    match find_last_colon(&chars) {
        Some(i) => {
            assert(chars.len() <= usize::MAX);
            assert(chars@.subrange(i + 1, chars@.len() as int) =~= chars@.skip(i + 1));
            assert(chars@.subrange(0, i as int) =~= chars@.take(i as int));
            match parse_u64(&chars, i + 1, chars.len(), 10) {
                Some(p) => {
                    if p <= 65535 {
                        (string_of(&chars, 0, i), p as u16)
                    } else {
                        (hostport.to_owned(), SOAP_PORT)
                    }
                },
                None => (hostport.to_owned(), SOAP_PORT),
            }
        },
        None => (hostport.to_owned(), SOAP_PORT),
    }
}

/// The base address of the management interface at an address.
pub open spec fn base_url(hostport: Seq<char>) -> Seq<char> {
    let (name, port) = host_and_port(hostport);
    "http://"@ + name + ":"@ + decimal(port as nat)
}

// ---- candidates -----------------------------------------------------------

/// `list` with `host` at its end, unless it already holds it.
pub open spec fn with_host(list: Seq<Seq<char>>, host: Seq<char>) -> Seq<Seq<char>> {
    if list.contains(host) {
        list
    } else {
        list.push(host)
    }
}

/// The hosts to try, in order: the configured one, the default gateway, the
/// usual defaults; none of them twice.
pub open spec fn candidate_hosts(host: Seq<char>, gateway: Option<Seq<char>>) -> Seq<Seq<char>> {
    let list = seq![bare_host(host)];
    let list = match gateway {
        Some(gw) => with_host(list, gw),
        None => list,
    };
    with_host(with_host(with_host(list, "192.168.1.1"@), "192.168.0.1"@), "fritz.box"@)
}

fn add_host(list: &mut Vec<String>, host: &str)
    ensures
        texts(final(list)@) == with_host(texts(old(list)@), host@),
{
    if !list_has(list, host) {
        let ghost before = list@;
        list.push(host.to_owned());
        assert(texts(list@) =~= texts(before).push(host@));
    }
}

// ---- the poller -----------------------------------------------------------

/// Decides which host a poll asks. The first host that answers is remembered
/// for all later polls.
#[derive(Debug)]
pub struct Poller {
    pub candidates: Vec<String>,
    pub working_host: Option<String>,
    /// How many candidates this round has asked without success.
    pub tried: usize,
    /// Why they failed; every reason once.
    pub reasons: Vec<String>,
}

/// The contents of a [`Poller`].
#[verifier::ext_equal]
pub struct PollerView {
    pub candidates: Seq<Seq<char>>,
    pub working_host: Option<Seq<char>>,
    pub tried: int,
    pub reasons: Seq<Seq<char>>,
}

impl View for Poller {
    type V = PollerView;

    open spec fn view(&self) -> PollerView {
        PollerView {
            candidates: texts(self.candidates@),
            working_host: opt_text(self.working_host),
            tried: self.tried as int,
            reasons: texts(self.reasons@),
        }
    }
}

impl PollerView {
    pub open spec fn valid(self) -> bool {
        self.tried <= self.candidates.len()
    }

    /// At the beginning of a round.
    pub open spec fn begun(self) -> Self {
        PollerView { tried: 0, reasons: Seq::empty(), ..self }
    }

    /// The host to ask next, where the round is not over.
    pub open spec fn next_host(self, cancelled: bool) -> Option<Seq<char>> {
        match self.working_host {
            Some(h) => Some(h),
            None => if self.tried < self.candidates.len() && !cancelled {
                Some(self.candidates[self.tried])
            } else {
                None
            },
        }
    }

    /// Whether a snapshot is the result of the round: one from the remembered
    /// host is in any case.
    pub open spec fn settles(self, snap: SnapshotView) -> bool {
        self.working_host is Some || snap.available
    }

    /// After a snapshot from the host that was asked.
    pub open spec fn answered(self, snap: SnapshotView) -> Self {
        if self.working_host is Some {
            self
        } else if snap.available {
            PollerView { working_host: Some(self.candidates[self.tried]), ..self }
        } else {
            PollerView {
                tried: self.tried + 1,
                reasons: match snap.unavailable_reason {
                    Some(r) => with_host(self.reasons, r),
                    None => self.reasons,
                },
                ..self
            }
        }
    }

    /// The result of a round in which no candidate answered.
    pub open spec fn given_up(self, at: Timestamp) -> SnapshotView {
        SnapshotView {
            fetched_at: Some(at),
            unavailable_reason: Some(
                "tried "@ + join(self.candidates.take(self.tried), ", "@) + " - "@ + (if self.reasons.len()
                    > 0 {
                    self.reasons.last()
                } else {
                    "no answer"@
                }),
            ),
            ..SnapshotView::blank()
        }
    }
}

impl Poller {
    /// A poller for the configured host, given the default gateway.
    pub fn new(host: &str, gateway: Option<String>) -> (p: Self)
        ensures
            p@ == (PollerView {
                candidates: candidate_hosts(host@, opt_text(gateway)),
                working_host: None,
                tried: 0,
                reasons: Seq::empty(),
            }),
            p@.valid(),
    {
        let mut candidates: Vec<String> = Vec::new();
        candidates.push(normalize_host(host));
        assert(texts(candidates@) =~= seq![bare_host(host@)]);
        match &gateway {
            Some(gw) => add_host(&mut candidates, gw.as_str()),
            None => {},
        }
        add_host(&mut candidates, "192.168.1.1");
        add_host(&mut candidates, "192.168.0.1");
        add_host(&mut candidates, "fritz.box");
        let p = Poller { candidates, working_host: None, tried: 0, reasons: Vec::new() };
        assert(texts(p.reasons@) =~= Seq::empty());
        p
    }

    /// Begins a round.
    pub fn begin_round(&mut self)
        ensures
            final(self)@ == old(self)@.begun(),
            final(self)@.valid(),
    {
        self.tried = 0;
        self.reasons = Vec::new();
        assert(texts(self.reasons@) =~= Seq::empty());
    }

    /// The host to ask next, where the round is not over.
    pub fn next_host(&self, cancelled: bool) -> (host: Option<String>)
        requires
            self@.valid(),
        ensures
            opt_text(host) == self@.next_host(cancelled),
    {
        match &self.working_host {
            Some(h) => Some(h.as_str().to_owned()),
            None => {
                if self.tried < self.candidates.len() && !cancelled {
                    assert(texts(self.candidates@)[self.tried as int]
                        == self.candidates@[self.tried as int]@);
                    Some(self.candidates[self.tried].as_str().to_owned())
                } else {
                    None
                }
            },
        }
    }

    /// Takes the snapshot of the host that was asked; gives it back where it is
    /// the result of the round.
    pub fn on_answer(&mut self, snap: DslSnapshot) -> (result: Option<DslSnapshot>)
        requires
            old(self)@.valid(),
            old(self)@.next_host(false) is Some,
        ensures
            final(self)@ == old(self)@.answered(snap@),
            final(self)@.valid(),
            match result {
                Some(s) => old(self)@.settles(snap@) && s == snap,
                None => !old(self)@.settles(snap@),
            },
    {
        if self.working_host.is_some() {
            return Some(snap);
        }
        if snap.available {
            assert(texts(self.candidates@)[self.tried as int]
                == self.candidates@[self.tried as int]@);
            self.working_host = Some(self.candidates[self.tried].as_str().to_owned());
            return Some(snap);
        }
        assert(self.candidates.len() <= usize::MAX);
        self.tried = self.tried + 1;
        match &snap.unavailable_reason {
            Some(r) => add_host(&mut self.reasons, r.as_str()),
            None => {},
        }
        None
    }

    /// The result of a round in which no candidate answered.
    pub fn give_up(&self, at: Timestamp) -> (snap: DslSnapshot)
        requires
            self@.valid(),
        ensures
            snap@ == self@.given_up(at),
    {
        let mut reason: String = "tried ".to_owned();
        let names = joined(&self.candidates, self.tried, ", ");
        reason.append(names.as_str());
        reason.append(" - ");
        let n: usize = self.reasons.len();
        if n > 0 {
            assert(texts(self.reasons@).last() == self.reasons@[n - 1]@);
            reason.append(self.reasons[n - 1].as_str());
        } else {
            reason.append("no answer");
        }
        let mut snap = DslSnapshot::default();
        snap.fetched_at = Some(at);
        snap.unavailable_reason = Some(reason);
        snap
    }
}

/// How long to rest after a poll, in nanoseconds: until the interval since its
/// start is over. Failures retry less often.
pub open spec fn poll_pause(ok: bool, elapsed_ns: u64) -> int {
    let interval = if ok {
        POLL_INTERVAL
    } else {
        RETRY_AFTER_FAILURE
    };
    if elapsed_ns < interval {
        interval - elapsed_ns
    } else {
        0
    }
}

/// How long to rest after a poll, in nanoseconds: until the interval since its
/// start is over. Failures retry less often.
pub fn pause_after_poll(ok: bool, elapsed_ns: u64) -> (pause: u64)
    ensures
        pause == ({
            let interval = if ok {
                POLL_INTERVAL
            } else {
                RETRY_AFTER_FAILURE
            };
            if elapsed_ns < interval {
                interval - elapsed_ns
            } else {
                0
            }
        }),
        pause == poll_pause(ok, elapsed_ns),
{
    let interval: u64 = if ok {
        POLL_INTERVAL
    } else {
        RETRY_AFTER_FAILURE
    };
    if elapsed_ns < interval {
        interval - elapsed_ns
    } else {
        0
    }
}

/// The next slice of a rest of `remaining` nanoseconds, which a cancellation
/// cuts short: at most 100 ms.
pub open spec fn slice_of(remaining: u64, cancelled: bool) -> Option<u64> {
    if remaining == 0 || cancelled {
        None
    } else if remaining < 100 * MILLISECOND {
        Some(remaining)
    } else {
        Some((100 * MILLISECOND) as u64)
    }
}

/// The next slice of a rest of `remaining` nanoseconds, which a cancellation
/// cuts short: at most 100 ms.
pub fn next_slice(remaining: u64, cancelled: bool) -> (slice: Option<u64>)
    ensures
        match slice {
            Some(s) => remaining > 0 && !cancelled && s == (if remaining < 100 * MILLISECOND {
                remaining as int
            } else {
                100 * MILLISECOND
            }),
            None => remaining == 0 || cancelled,
        },
        slice == slice_of(remaining, cancelled),
{
    if remaining == 0 || cancelled {
        None
    } else if remaining < 100 * MILLISECOND {
        Some(remaining)
    } else {
        Some(100 * MILLISECOND)
    }
}

// ---- one snapshot ---------------------------------------------------------

/// `t` brought into the range from `lo` to `hi`.
pub open spec fn clamped(t: int, lo: int, hi: int) -> int {
    if t < lo {
        lo
    } else if t > hi {
        hi
    } else {
        t
    }
}

/// A quotient without its fraction.
pub open spec fn whole(t: int, d: int) -> int {
    if t >= 0 {
        t / d
    } else {
        -((-t) / d)
    }
}

/// A figure of a reported number, in thousandths of what it counts: of a number
/// of kbit/s a rate in bits per second, of a number of tenths of a dB a level in
/// ten-thousandths of a dB.
pub open spec fn line_figure(t: Option<i128>) -> Option<i64> {
    match t {
        Some(t) => Some(clamped(t as int, i64::MIN as int, i64::MAX as int) as i64),
        None => None,
    }
}

/// A count of at most `max` from thousandths of a reported number.
pub open spec fn count_figure(t: i128, max: int) -> int {
    clamped(whole(t as int, 1000), 0, max)
}

fn figure_of_number(t: Option<i128>) -> (r: Option<i64>)
    ensures
        r == line_figure(t),
{
    match t {
        Some(t) => {
            if t < i64::MIN as i128 {
                Some(i64::MIN)
            } else if t > i64::MAX as i128 {
                Some(i64::MAX)
            } else {
                Some(t as i64)
            }
        },
        None => None,
    }
}

fn count_of_number(t: i128, max: u64) -> (r: u64)
    ensures
        r == count_figure(t, max as int),
{
    if t <= 0 {
        return 0;
    }
    let q: i128 = t / 1000;
    if q > max as i128 {
        max
    } else {
        q as u64
    }
}

/// How many numbers are read from the reply to a query.
pub open spec fn number_count(query: Query) -> nat {
    match query {
        Query::LineInfo => 10,
        Query::Session => 1,
        Query::Wireless => 1,
        Query::OnlineMonitor => 0,
    }
}

/// The element that holds the `i`-th number of the reply to a query.
pub open spec fn number_tag(query: Query, i: int) -> Seq<char> {
    match query {
        Query::LineInfo => if i == 0 {
            "NewDownstreamMaxRate"@
        } else if i == 1 {
            "NewUpstreamMaxRate"@
        } else if i == 2 {
            "NewDownstreamCurrentRate"@
        } else if i == 3 {
            "NewUpstreamCurrentRate"@
        } else if i == 4 {
            "NewDownstreamNoiseMargin"@
        } else if i == 5 {
            "NewUpstreamNoiseMargin"@
        } else if i == 6 {
            "NewDownstreamAttenuation"@
        } else if i == 7 {
            "NewUpstreamAttenuation"@
        } else if i == 8 {
            "NewDownstreamPower"@
        } else {
            "NewUpstreamPower"@
        },
        Query::Session => "NewUptime"@,
        Query::Wireless => "NewNumberOfAssociatedDevices"@,
        Query::OnlineMonitor => ""@,
    }
}

/// The texts of the numbers that a reply holds, for each number of the query
/// the contents of its element.
pub fn number_texts(query: Query, xml: &str) -> (out: Vec<Option<String>>)
    ensures
        out@.len() == number_count(query),
        forall|i: int|
            0 <= i < out@.len() ==> opt_text(#[trigger] out@[i]) == element_value(
                xml@,
                number_tag(query, i),
            ),
{
    let mut out: Vec<Option<String>> = Vec::new();
    match query {
        Query::LineInfo => {
            out.push(xml_val(xml, "NewDownstreamMaxRate"));
            out.push(xml_val(xml, "NewUpstreamMaxRate"));
            out.push(xml_val(xml, "NewDownstreamCurrentRate"));
            out.push(xml_val(xml, "NewUpstreamCurrentRate"));
            out.push(xml_val(xml, "NewDownstreamNoiseMargin"));
            out.push(xml_val(xml, "NewUpstreamNoiseMargin"));
            out.push(xml_val(xml, "NewDownstreamAttenuation"));
            out.push(xml_val(xml, "NewUpstreamAttenuation"));
            out.push(xml_val(xml, "NewDownstreamPower"));
            out.push(xml_val(xml, "NewUpstreamPower"));
        },
        Query::Session => {
            out.push(xml_val(xml, "NewUptime"));
        },
        Query::Wireless => {
            out.push(xml_val(xml, "NewNumberOfAssociatedDevices"));
        },
        Query::OnlineMonitor => {},
    }
    out
}

/// What a query came back with: a reply and, in thousandths, the numbers that
/// its [`number_texts`] spell; or the failed request that is the cause of its
/// failure, where there is one.
#[derive(Debug)]
pub enum Reply {
    Answer { xml: String, numbers: Vec<Option<i128>> },
    Failure(Option<RequestFailure>),
}

/// What a [`Reply`] says.
pub enum ReplyView {
    Answer { xml: Seq<char>, numbers: Seq<Option<i128>> },
    Failure(Option<RequestFailure>),
}

impl View for Reply {
    type V = ReplyView;

    open spec fn view(&self) -> ReplyView {
        match *self {
            Reply::Answer { xml, numbers } => ReplyView::Answer { xml: xml@, numbers: numbers@ },
            Reply::Failure(f) => ReplyView::Failure(f),
        }
    }
}

/// A snapshot in the making.
#[derive(Debug)]
pub struct SnapshotFetch {
    pub snap: DslSnapshot,
    pub hostport: String,
    /// What is asked next; nothing once the snapshot is complete.
    pub query: Option<Query>,
}

/// The contents of a [`SnapshotFetch`].
#[verifier::ext_equal]
pub struct FetchView {
    pub snap: SnapshotView,
    pub hostport: Seq<char>,
    pub query: Option<Query>,
}

impl View for SnapshotFetch {
    type V = FetchView;

    open spec fn view(&self) -> FetchView {
        FetchView { snap: self.snap@, hostport: self.hostport@, query: self.query }
    }
}

impl SnapshotView {
    /// With what the line information says.
    pub open spec fn with_line(self, xml: Seq<char>, numbers: Seq<Option<i128>>) -> Self {
        SnapshotView {
            available: true,
            state: element_value(xml, "NewStatus"@),
            mode: match element_value(xml, "NewDSLMode"@) {
                Some(m) => Some(m),
                None => element_value(xml, "NewModulationType"@),
            },
            max_rate_down_bps: line_figure(numbers[0]),
            max_rate_up_bps: line_figure(numbers[1]),
            rate_down_bps: line_figure(numbers[2]),
            rate_up_bps: line_figure(numbers[3]),
            snr_down_db: line_figure(numbers[4]),
            snr_up_db: line_figure(numbers[5]),
            atten_down_db: line_figure(numbers[6]),
            atten_up_db: line_figure(numbers[7]),
            power_down_dbm: line_figure(numbers[8]),
            power_up_dbm: line_figure(numbers[9]),
            ..self
        }
    }

    /// Without values, because the line information could not be had.
    pub open spec fn without_line(
        self,
        hostport: Seq<char>,
        failure: Option<RequestFailure>,
    ) -> Self {
        SnapshotView {
            available: false,
            unavailable_reason: Some(
                "no TR-064 answer from "@ + hostport + " ("@ + transport_reason(failure) + ")"@,
            ),
            ..self
        }
    }

    /// With what the PPP session says.
    pub open spec fn with_session(self, xml: Seq<char>, uptime: Option<i128>) -> Self {
        SnapshotView {
            uptime_secs: match uptime {
                Some(t) => Some(count_figure(t, u64::MAX as int) as u64),
                None => None,
            },
            state: match self.state {
                Some(s) => Some(s),
                None => element_value(xml, "NewConnectionStatus"@),
            },
            ..self
        }
    }

    /// With the number of wireless clients.
    pub open spec fn with_wireless(self, clients: Option<i128>) -> Self {
        SnapshotView {
            wireless_clients: match clients {
                Some(t) => Some(count_figure(t, u32::MAX as int) as u32),
                None => None,
            },
            ..self
        }
    }

    /// With the sum of the CRC counters.
    pub open spec fn with_counters(self, xml: Seq<char>) -> Self {
        SnapshotView {
            crc_errors: if crc_values(xml).len() > 0 {
                Some(total(crc_values(xml)) as u64)
            } else {
                None
            },
            ..self
        }
    }
}

impl FetchView {
    /// A reply has one number for each that the query asks for.
    pub open spec fn fits(self, reply: ReplyView) -> bool {
        match (self.query, reply) {
            (Some(q), ReplyView::Answer { xml, numbers }) => numbers.len() == number_count(q),
            _ => true,
        }
    }

    /// The CRC counters of a reply, where they are read, add up to more than 64
    /// bits hold.
    pub open spec fn overflows(self, reply: ReplyView) -> bool {
        match (self.query, reply) {
            (
                Some(Query::OnlineMonitor),
                ReplyView::Answer { xml, numbers },
            ) => total(crc_values(xml)) > u64::MAX,
            _ => false,
        }
    }

    /// After a reply. Only a failure of the line information ends the poll
    /// early; what else is missing stays absent.
    pub open spec fn replied(self, reply: ReplyView) -> Self {
        match self.query {
            None => self,
            Some(Query::LineInfo) => match reply {
                ReplyView::Answer { xml, numbers } => FetchView {
                    snap: self.snap.with_line(xml, numbers),
                    query: Some(Query::Session),
                    ..self
                },
                ReplyView::Failure(f) => FetchView {
                    snap: self.snap.without_line(self.hostport, f),
                    query: None,
                    ..self
                },
            },
            Some(Query::Session) => FetchView {
                snap: match reply {
                    ReplyView::Answer { xml, numbers } => self.snap.with_session(xml, numbers[0]),
                    ReplyView::Failure(f) => self.snap,
                },
                query: Some(Query::Wireless),
                ..self
            },
            Some(Query::Wireless) => FetchView {
                snap: match reply {
                    ReplyView::Answer { xml, numbers } => self.snap.with_wireless(numbers[0]),
                    ReplyView::Failure(f) => self.snap,
                },
                query: Some(Query::OnlineMonitor),
                ..self
            },
            Some(Query::OnlineMonitor) => FetchView {
                snap: match reply {
                    ReplyView::Answer { xml, numbers } => self.snap.with_counters(xml),
                    ReplyView::Failure(f) => self.snap,
                },
                query: None,
                ..self
            },
        }
    }
}

impl SnapshotFetch {
    /// Begins a snapshot of the modem at `host`.
    pub fn new(host: &str, at: Timestamp) -> (f: Self)
        ensures
            f@ == (FetchView {
                snap: SnapshotView { fetched_at: Some(at), ..SnapshotView::blank() },
                hostport: bare_host(host@),
                query: Some(Query::LineInfo),
            }),
    {
        let mut snap = DslSnapshot::default();
        snap.fetched_at = Some(at);
        SnapshotFetch { snap, hostport: normalize_host(host), query: Some(Query::LineInfo) }
    }

    /// The base address of the management interface.
    pub fn base(&self) -> (url: String)
        ensures
            url@ == base_url(self@.hostport),
    {
        let (host, port) = split_host(self.hostport.as_str());
        let mut url: String = "http://".to_owned();
        url.append(host.as_str());
        url.append(":");
        push_decimal(&mut url, port as u128);
        url
    }

    /// Takes a reply in. Returns `false`, with nothing changed, where its CRC
    /// counters add up to more than 64 bits hold.
    pub fn on_reply(&mut self, reply: Reply) -> (taken: bool)
        requires
            old(self)@.fits(reply@),
        ensures
            taken == !old(self)@.overflows(reply@),
            final(self)@ == (if taken {
                old(self)@.replied(reply@)
            } else {
                old(self)@
            }),
    {
        match self.query {
            None => true,
            Some(Query::LineInfo) => {
                match reply {
                    Reply::Answer { xml, numbers } => {
                        self.take_line(xml.as_str(), &numbers);
                        self.query = Some(Query::Session);
                    },
                    Reply::Failure(f) => {
                        self.snap.available = false;
                        let mut reason: String = "no TR-064 answer from ".to_owned();
                        reason.append(self.hostport.as_str());
                        reason.append(" (");
                        reason.append(describe_transport_error(&f));
                        reason.append(")");
                        self.snap.unavailable_reason = Some(reason);
                        self.query = None;
                    },
                }
                true
            },
            Some(Query::Session) => {
                if let Reply::Answer { xml, numbers } = reply {
                    self.snap.uptime_secs = match numbers[0] {
                        Some(t) => Some(count_of_number(t, u64::MAX)),
                        None => None,
                    };
                    if self.snap.state.is_none() {
                        self.snap.state = xml_val(xml.as_str(), "NewConnectionStatus");
                    }
                }
                self.query = Some(Query::Wireless);
                true
            },
            Some(Query::Wireless) => {
                if let Reply::Answer { xml, numbers } = reply {
                    self.snap.wireless_clients = match numbers[0] {
                        Some(t) => Some(count_of_number(t, u32::MAX as u64) as u32),
                        None => None,
                    };
                }
                self.query = Some(Query::OnlineMonitor);
                true
            },
            Some(Query::OnlineMonitor) => {
                if let Reply::Answer { xml, numbers } = reply {
                    match crc_total_checked(xml.as_str()) {
                        Some(sum) => {
                            self.snap.crc_errors = sum;
                        },
                        None => {
                            return false;
                        },
                    }
                }
                self.query = None;
                true
            },
        }
    }

    fn take_line(&mut self, xml: &str, numbers: &Vec<Option<i128>>)
        requires
            numbers@.len() == 10,
        ensures
            final(self)@ == (FetchView {
                snap: old(self)@.snap.with_line(xml@, numbers@),
                ..old(self)@
            }),
    {
        self.snap.available = true;
        self.snap.state = xml_val(xml, "NewStatus");
        self.snap.mode = match xml_val(xml, "NewDSLMode") {
            Some(m) => Some(m),
            None => xml_val(xml, "NewModulationType"),
        };
        self.snap.max_rate_down_bps = figure_of_number(numbers[0]);
        self.snap.max_rate_up_bps = figure_of_number(numbers[1]);
        self.snap.rate_down_bps = figure_of_number(numbers[2]);
        self.snap.rate_up_bps = figure_of_number(numbers[3]);
        self.snap.snr_down_db = figure_of_number(numbers[4]);
        self.snap.snr_up_db = figure_of_number(numbers[5]);
        self.snap.atten_down_db = figure_of_number(numbers[6]);
        self.snap.atten_up_db = figure_of_number(numbers[7]);
        self.snap.power_down_dbm = figure_of_number(numbers[8]);
        self.snap.power_up_dbm = figure_of_number(numbers[9]);
    }
}

// ---- laws -----------------------------------------------------------------

/// No two items of a list are equal.
pub open spec fn distinct(list: Seq<Seq<char>>) -> bool {
    forall|i: int, j: int| 0 <= i < j < list.len() ==> #[trigger] list[i] != #[trigger] list[j]
}

proof fn with_host_distinct(list: Seq<Seq<char>>, host: Seq<char>)
    requires
        distinct(list),
        list.len() > 0,
    ensures
        distinct(with_host(list, host)),
        with_host(list, host).len() > 0,
        with_host(list, host)[0] == list[0],
        with_host(list, host).contains(host),
        forall|h: Seq<char>| list.contains(h) ==> #[trigger] with_host(list, host).contains(h),
{
    let out = with_host(list, host);
    if !list.contains(host) {
        assert(out[list.len() as int] == host);
        assert forall|i: int, j: int| 0 <= i < j < out.len() implies #[trigger] out[i]
            != #[trigger] out[j] by {
            assert(list.contains(list[i]));
        }
        assert forall|h: Seq<char>| list.contains(h) implies #[trigger] out.contains(h) by {
            let k = choose|k: int| 0 <= k < list.len() && list[k] == h;
            assert(out[k] == h);
        }
    }
}

/// Whatever is configured and detected, the configured host is tried first, no
/// host is tried twice, and the detected gateway and the usual defaults are
/// among the candidates.
pub proof fn candidates_start_with_the_configured_host(
    host: Seq<char>,
    gateway: Option<Seq<char>>,
)
    ensures
        candidate_hosts(host, gateway).len() > 0,
        candidate_hosts(host, gateway)[0] == bare_host(host),
        distinct(candidate_hosts(host, gateway)),
        gateway is Some ==> candidate_hosts(host, gateway).contains(gateway->0),
        candidate_hosts(host, gateway).contains("192.168.1.1"@),
        candidate_hosts(host, gateway).contains("192.168.0.1"@),
        candidate_hosts(host, gateway).contains("fritz.box"@),
{
    let a = seq![bare_host(host)];
    let b = match gateway {
        Some(gw) => {
            with_host_distinct(a, gw);
            with_host(a, gw)
        },
        None => a,
    };
    with_host_distinct(b, "192.168.1.1"@);
    let c = with_host(b, "192.168.1.1"@);
    with_host_distinct(c, "192.168.0.1"@);
    let d = with_host(c, "192.168.0.1"@);
    with_host_distinct(d, "fritz.box"@);
}

/// Once a host has answered, it is the one that every later poll asks, whatever
/// it replies, and a new round does not forget it.
pub proof fn the_working_host_is_remembered(p: PollerView, snap: SnapshotView, cancelled: bool)
    requires
        p.working_host is Some,
    ensures
        p.next_host(cancelled) == p.working_host,
        p.answered(snap).working_host == p.working_host,
        p.begun().working_host == p.working_host,
{
}

/// A host becomes the remembered one only by answering with values.
pub proof fn only_an_answer_makes_a_working_host(p: PollerView, snap: SnapshotView)
    requires
        p.working_host is None,
    ensures
        p.answered(snap).working_host is Some <==> snap.available,
        snap.available && p.next_host(false) is Some ==> p.answered(snap).working_host
            == p.next_host(false),
{
}

/// A modem whose line information cannot be had is reported without a single
/// value: nothing is made up for what it does not report.
pub proof fn an_unreachable_modem_has_no_values(
    host: Seq<char>,
    at: Timestamp,
    failure: Option<RequestFailure>,
)
    ensures
        ({
            let start = FetchView {
                snap: SnapshotView { fetched_at: Some(at), ..SnapshotView::blank() },
                hostport: bare_host(host),
                query: Some(Query::LineInfo),
            };
            let end = start.replied(ReplyView::Failure(failure));
            &&& end.query is None
            &&& end.snap == (SnapshotView {
                fetched_at: Some(at),
                unavailable_reason: end.snap.unavailable_reason,
                ..SnapshotView::blank()
            })
            &&& end.snap.unavailable_reason is Some
        }),
{
}

/// A number that a reply does not hold stays absent from the snapshot.
pub proof fn absent_numbers_stay_absent(snap: SnapshotView, xml: Seq<char>, numbers: Seq<Option<i128>>)
    requires
        numbers.len() == 10,
    ensures
        numbers[0] is None <==> snap.with_line(xml, numbers).max_rate_down_bps is None,
        numbers[1] is None <==> snap.with_line(xml, numbers).max_rate_up_bps is None,
        numbers[2] is None <==> snap.with_line(xml, numbers).rate_down_bps is None,
        numbers[3] is None <==> snap.with_line(xml, numbers).rate_up_bps is None,
        numbers[4] is None <==> snap.with_line(xml, numbers).snr_down_db is None,
        numbers[5] is None <==> snap.with_line(xml, numbers).snr_up_db is None,
        numbers[6] is None <==> snap.with_line(xml, numbers).atten_down_db is None,
        numbers[7] is None <==> snap.with_line(xml, numbers).atten_up_db is None,
        numbers[8] is None <==> snap.with_line(xml, numbers).power_down_dbm is None,
        numbers[9] is None <==> snap.with_line(xml, numbers).power_up_dbm is None,
{
}

/// What is read of the contents of an element: nothing where they are blank.
pub open spec fn contents(v: Seq<char>) -> Option<Seq<char>> {
    if trim(v).len() == 0 {
        None
    } else {
        Some(trim(v))
    }
}

/// Whether the first element `tag` of the reply `with_element(a, tag, v, b)` is
/// the one with the contents `v`.
pub open spec fn first_element(a: Seq<char>, tag: Seq<char>, v: Seq<char>) -> bool {
    !holds(a, "<"@ + tag + ">"@) && !v.contains('<')
}

proof fn figure_names()
    ensures
        forall|i: int| 0 <= i < 10 ==> is_name(#[trigger] number_tag(Query::LineInfo, i)),
        forall|i: int, j: int|
            0 <= i < j < 10 ==> #[trigger] number_tag(Query::LineInfo, i) != #[trigger] number_tag(
                Query::LineInfo,
                j,
            ),
        is_name("NewUptime"@),
        is_name("NewNumberOfAssociatedDevices"@),
        is_name("NewStatus"@),
        is_name("NewDSLMode"@),
        is_name("NewModulationType"@),
        is_name("NewConnectionStatus"@),
{
    reveal_strlit("NewDownstreamMaxRate");
    reveal_strlit("NewUpstreamMaxRate");
    reveal_strlit("NewDownstreamCurrentRate");
    reveal_strlit("NewUpstreamCurrentRate");
    reveal_strlit("NewDownstreamNoiseMargin");
    reveal_strlit("NewUpstreamNoiseMargin");
    reveal_strlit("NewDownstreamAttenuation");
    reveal_strlit("NewUpstreamAttenuation");
    reveal_strlit("NewDownstreamPower");
    reveal_strlit("NewUpstreamPower");
    reveal_strlit("NewUptime");
    reveal_strlit("NewNumberOfAssociatedDevices");
    reveal_strlit("NewStatus");
    reveal_strlit("NewDSLMode");
    reveal_strlit("NewModulationType");
    reveal_strlit("NewConnectionStatus");
    let (a, b, c) = (
        "NewDownstreamCurrentRate"@,
        "NewDownstreamNoiseMargin"@,
        "NewDownstreamAttenuation"@,
    );
    assert(a[13] == 'C' && b[13] == 'N' && c[13] == 'A');
    let (a, b, c) = (
        "NewUpstreamCurrentRate"@,
        "NewUpstreamNoiseMargin"@,
        "NewUpstreamAttenuation"@,
    );
    assert(a[11] == 'C' && b[11] == 'N' && c[11] == 'A');
    let (a, b) = ("NewUpstreamMaxRate"@, "NewDownstreamPower"@);
    assert(a[3] == 'U' && b[3] == 'D');
    assert forall|i: int, j: int| 0 <= i < j < 10 implies #[trigger] number_tag(
        Query::LineInfo,
        i,
    ) != #[trigger] number_tag(Query::LineInfo, j) by {
        let (x, y) = (number_tag(Query::LineInfo, i), number_tag(Query::LineInfo, j));
        if x == y {
            assert(x.len() == y.len());
            assert(x[3] == y[3] && x[11] == y[11] && x[13] == y[13]);
        }
    }
}

/// Each figure of the line is read from the element of its own name.
pub proof fn each_figure_has_its_element(a: Seq<char>, v: Seq<char>, b: Seq<char>)
    ensures
        first_element(a, "NewDownstreamMaxRate"@, v) ==> element_value(
            with_element(a, "NewDownstreamMaxRate"@, v, b),
            number_tag(Query::LineInfo, 0),
        ) == contents(v),
        first_element(a, "NewUpstreamMaxRate"@, v) ==> element_value(
            with_element(a, "NewUpstreamMaxRate"@, v, b),
            number_tag(Query::LineInfo, 1),
        ) == contents(v),
        first_element(a, "NewDownstreamCurrentRate"@, v) ==> element_value(
            with_element(a, "NewDownstreamCurrentRate"@, v, b),
            number_tag(Query::LineInfo, 2),
        ) == contents(v),
        first_element(a, "NewUpstreamCurrentRate"@, v) ==> element_value(
            with_element(a, "NewUpstreamCurrentRate"@, v, b),
            number_tag(Query::LineInfo, 3),
        ) == contents(v),
        first_element(a, "NewDownstreamNoiseMargin"@, v) ==> element_value(
            with_element(a, "NewDownstreamNoiseMargin"@, v, b),
            number_tag(Query::LineInfo, 4),
        ) == contents(v),
        first_element(a, "NewUpstreamNoiseMargin"@, v) ==> element_value(
            with_element(a, "NewUpstreamNoiseMargin"@, v, b),
            number_tag(Query::LineInfo, 5),
        ) == contents(v),
        first_element(a, "NewDownstreamAttenuation"@, v) ==> element_value(
            with_element(a, "NewDownstreamAttenuation"@, v, b),
            number_tag(Query::LineInfo, 6),
        ) == contents(v),
        first_element(a, "NewUpstreamAttenuation"@, v) ==> element_value(
            with_element(a, "NewUpstreamAttenuation"@, v, b),
            number_tag(Query::LineInfo, 7),
        ) == contents(v),
        first_element(a, "NewDownstreamPower"@, v) ==> element_value(
            with_element(a, "NewDownstreamPower"@, v, b),
            number_tag(Query::LineInfo, 8),
        ) == contents(v),
        first_element(a, "NewUpstreamPower"@, v) ==> element_value(
            with_element(a, "NewUpstreamPower"@, v, b),
            number_tag(Query::LineInfo, 9),
        ) == contents(v),
        first_element(a, "NewUptime"@, v) ==> element_value(
            with_element(a, "NewUptime"@, v, b),
            number_tag(Query::Session, 0),
        ) == contents(v),
        first_element(a, "NewNumberOfAssociatedDevices"@, v) ==> element_value(
            with_element(a, "NewNumberOfAssociatedDevices"@, v, b),
            number_tag(Query::Wireless, 0),
        ) == contents(v),
        number_count(Query::LineInfo) == 10,
        number_count(Query::Session) == 1,
        number_count(Query::Wireless) == 1,
        number_count(Query::OnlineMonitor) == 0,
{
    figure_names();
    assert forall|i: int|
        0 <= i < 10 && first_element(a, number_tag(Query::LineInfo, i), v) implies element_value(
        with_element(a, number_tag(Query::LineInfo, i), v, b),
        #[trigger] number_tag(Query::LineInfo, i),
    ) == contents(v) by {
        an_element_is_what_stands_in_it(a, number_tag(Query::LineInfo, i), v, b);
    }
    let t0 = number_tag(Query::LineInfo, 0);
    let t1 = number_tag(Query::LineInfo, 1);
    let t2 = number_tag(Query::LineInfo, 2);
    let t3 = number_tag(Query::LineInfo, 3);
    let t4 = number_tag(Query::LineInfo, 4);
    let t5 = number_tag(Query::LineInfo, 5);
    let t6 = number_tag(Query::LineInfo, 6);
    let t7 = number_tag(Query::LineInfo, 7);
    let t8 = number_tag(Query::LineInfo, 8);
    let t9 = number_tag(Query::LineInfo, 9);
    if first_element(a, "NewUptime"@, v) {
        an_element_is_what_stands_in_it(a, "NewUptime"@, v, b);
    }
    if first_element(a, "NewNumberOfAssociatedDevices"@, v) {
        an_element_is_what_stands_in_it(a, "NewNumberOfAssociatedDevices"@, v, b);
    }
}

/// What stands in the element of one figure of the line changes no other figure:
/// of two replies that differ only there, every other figure is read alike, where
/// its element is not round that one.
pub proof fn an_element_changes_one_figure(
    k: int,
    i: int,
    a: Seq<char>,
    v: Seq<char>,
    w: Seq<char>,
    b: Seq<char>,
)
    requires
        0 <= k < 10,
        0 <= i < 10,
        i != k,
        !v.contains('<'),
        !w.contains('<'),
        element(a, number_tag(Query::LineInfo, i)) is Some || !holds(
            a,
            "<"@ + number_tag(Query::LineInfo, i) + ">"@,
        ),
    ensures
        element_value(
            with_element(a, number_tag(Query::LineInfo, k), v, b),
            number_tag(Query::LineInfo, i),
        ) == element_value(
            with_element(a, number_tag(Query::LineInfo, k), w, b),
            number_tag(Query::LineInfo, i),
        ),
        number_tag(Query::LineInfo, i) != number_tag(Query::LineInfo, k),
{
    figure_names();
    let (t, o) = (number_tag(Query::LineInfo, k), number_tag(Query::LineInfo, i));
    assert(t != o);
    elements_stand_apart(a, t, v, b, o);
    elements_stand_apart(a, t, w, b, o);
}

/// Each number of a reply is one figure of the snapshot and changes no other: a
/// number of kbit/s a rate, one of tenths of a dB a level.
pub proof fn each_number_is_its_own_figure(
    snap: SnapshotView,
    xml: Seq<char>,
    numbers: Seq<Option<i128>>,
    t: i128,
)
    requires
        numbers.len() == 10,
        i64::MIN <= t <= i64::MAX,
    ensures
        snap.with_line(xml, numbers.update(0, Some(t))) == (SnapshotView {
            max_rate_down_bps: Some(t as i64),
            ..snap.with_line(xml, numbers)
        }),
        snap.with_line(xml, numbers.update(1, Some(t))) == (SnapshotView {
            max_rate_up_bps: Some(t as i64),
            ..snap.with_line(xml, numbers)
        }),
        snap.with_line(xml, numbers.update(2, Some(t))) == (SnapshotView {
            rate_down_bps: Some(t as i64),
            ..snap.with_line(xml, numbers)
        }),
        snap.with_line(xml, numbers.update(3, Some(t))) == (SnapshotView {
            rate_up_bps: Some(t as i64),
            ..snap.with_line(xml, numbers)
        }),
        snap.with_line(xml, numbers.update(4, Some(t))) == (SnapshotView {
            snr_down_db: Some(t as i64),
            ..snap.with_line(xml, numbers)
        }),
        snap.with_line(xml, numbers.update(5, Some(t))) == (SnapshotView {
            snr_up_db: Some(t as i64),
            ..snap.with_line(xml, numbers)
        }),
        snap.with_line(xml, numbers.update(6, Some(t))) == (SnapshotView {
            atten_down_db: Some(t as i64),
            ..snap.with_line(xml, numbers)
        }),
        snap.with_line(xml, numbers.update(7, Some(t))) == (SnapshotView {
            atten_up_db: Some(t as i64),
            ..snap.with_line(xml, numbers)
        }),
        snap.with_line(xml, numbers.update(8, Some(t))) == (SnapshotView {
            power_down_dbm: Some(t as i64),
            ..snap.with_line(xml, numbers)
        }),
        snap.with_line(xml, numbers.update(9, Some(t))) == (SnapshotView {
            power_up_dbm: Some(t as i64),
            ..snap.with_line(xml, numbers)
        }),
{
}

/// A reply on the line fills the figures of the line and its state and mode, and
/// nothing else.
pub proof fn the_line_is_all_that_a_line_reply_fills(
    snap: SnapshotView,
    xml: Seq<char>,
    numbers: Seq<Option<i128>>,
)
    requires
        numbers.len() == 10,
    ensures
        ({
            let t = snap.with_line(xml, numbers);
            &&& t.available
            &&& t.fetched_at == snap.fetched_at
            &&& t.unavailable_reason == snap.unavailable_reason
            &&& t.uptime_secs == snap.uptime_secs
            &&& t.firmware == snap.firmware
            &&& t.crc_errors == snap.crc_errors
            &&& t.wireless_clients == snap.wireless_clients
        }),
{
}

/// The state and the mode of the line are read from their own elements; the mode
/// from the modulation type where there is none of its own, and the state from
/// the session where the line has told of none.
pub proof fn state_and_mode_have_their_elements(
    snap: SnapshotView,
    numbers: Seq<Option<i128>>,
    uptime: Option<i128>,
    a: Seq<char>,
    v: Seq<char>,
    b: Seq<char>,
)
    requires
        !v.contains('<'),
    ensures
        !holds(a, "<NewStatus>"@) ==> snap.with_line(
            with_element(a, "NewStatus"@, v, b),
            numbers,
        ).state == contents(v),
        !holds(a, "<NewDSLMode>"@) && contents(v) is Some ==> snap.with_line(
            with_element(a, "NewDSLMode"@, v, b),
            numbers,
        ).mode == contents(v),
        !holds(a, "<NewModulationType>"@) && element_value(
            with_element(a, "NewModulationType"@, v, b),
            "NewDSLMode"@,
        ) is None ==> snap.with_line(with_element(a, "NewModulationType"@, v, b), numbers).mode
            == contents(v),
        !holds(a, "<NewConnectionStatus>"@) ==> ({
            let t = snap.with_session(with_element(a, "NewConnectionStatus"@, v, b), uptime);
            t.state == (if snap.state is Some {
                snap.state
            } else {
                contents(v)
            })
        }),
{
    figure_names();
    reveal_strlit("<");
    reveal_strlit(">");
    reveal_strlit("<NewStatus>");
    reveal_strlit("<NewDSLMode>");
    reveal_strlit("<NewModulationType>");
    reveal_strlit("<NewConnectionStatus>");
    reveal_strlit("NewStatus");
    reveal_strlit("NewDSLMode");
    reveal_strlit("NewModulationType");
    reveal_strlit("NewConnectionStatus");
    assert("<"@ + "NewStatus"@ + ">"@ =~= "<NewStatus>"@);
    assert("<"@ + "NewDSLMode"@ + ">"@ =~= "<NewDSLMode>"@);
    assert("<"@ + "NewModulationType"@ + ">"@ =~= "<NewModulationType>"@);
    assert("<"@ + "NewConnectionStatus"@ + ">"@ =~= "<NewConnectionStatus>"@);
    if !holds(a, "<NewStatus>"@) {
        an_element_is_what_stands_in_it(a, "NewStatus"@, v, b);
    }
    if !holds(a, "<NewDSLMode>"@) {
        an_element_is_what_stands_in_it(a, "NewDSLMode"@, v, b);
    }
    if !holds(a, "<NewModulationType>"@) {
        an_element_is_what_stands_in_it(a, "NewModulationType"@, v, b);
    }
    if !holds(a, "<NewConnectionStatus>"@) {
        an_element_is_what_stands_in_it(a, "NewConnectionStatus"@, v, b);
    }
}

/// Uptimes and numbers of clients are whole: thousandths are cut off, nothing is
/// less than nothing, and what is too large is the largest that can be held.
pub proof fn counts_are_whole(snap: SnapshotView, xml: Seq<char>, t: i128)
    ensures
        ({
            let s = snap.with_session(xml, Some(t)).uptime_secs;
            &&& s is Some
            &&& t < 1000 ==> s->0 == 0
            &&& 0 <= t < 18_446_744_073_709_551_616_000 ==> s->0 * 1000 <= t < s->0 * 1000 + 1000
            &&& t >= 18_446_744_073_709_551_616_000 ==> s->0 == u64::MAX
        }),
        ({
            let s = snap.with_wireless(Some(t)).wireless_clients;
            &&& s is Some
            &&& t < 1000 ==> s->0 == 0
            &&& 0 <= t < 4_294_967_296_000 ==> s->0 * 1000 <= t < s->0 * 1000 + 1000
            &&& t >= 4_294_967_296_000 ==> s->0 == u32::MAX
        }),
        snap.with_session(xml, None).uptime_secs is None,
        snap.with_wireless(None) == (SnapshotView { wireless_clients: None, ..snap }),
        snap.with_wireless(Some(t)) == (SnapshotView {
            wireless_clients: snap.with_wireless(Some(t)).wireless_clients,
            ..snap
        }),
        snap.with_session(xml, Some(t)) == (SnapshotView {
            uptime_secs: snap.with_session(xml, Some(t)).uptime_secs,
            state: snap.with_session(xml, Some(t)).state,
            ..snap
        }),
        snap.with_counters(xml) == (SnapshotView {
            crc_errors: snap.with_counters(xml).crc_errors,
            ..snap
        }),
{
}

/// Levels and rates that are too large or too small to be held are the largest
/// and the smallest that can be.
pub proof fn figures_are_held_as_far_as_they_can_be(t: i128)
    ensures
        line_figure(Some(t)) is Some,
        i64::MIN <= t <= i64::MAX ==> line_figure(Some(t))->0 == t,
        t > i64::MAX ==> line_figure(Some(t))->0 == i64::MAX,
        t < i64::MIN ==> line_figure(Some(t))->0 == i64::MIN,
        line_figure(None) is None,
{
}

/// A snapshot asks for the line, the session, the clients and the counters, in
/// that order, whatever comes back; only where the line information fails it ends
/// at once.
pub proof fn a_snapshot_asks_four_times(
    f: FetchView,
    line: ReplyView,
    session: ReplyView,
    wireless: ReplyView,
    monitor: ReplyView,
)
    requires
        f.query == Some(Query::LineInfo),
        line is Answer,
    ensures
        ({
            let f1 = f.replied(line);
            let f2 = f1.replied(session);
            let f3 = f2.replied(wireless);
            let f4 = f3.replied(monitor);
            &&& f1.query == Some(Query::Session)
            &&& f2.query == Some(Query::Wireless)
            &&& f3.query == Some(Query::OnlineMonitor)
            &&& f4.query is None
            &&& f1.snap.available && f2.snap.available && f3.snap.available && f4.snap.available
            &&& f4.snap.fetched_at == f.snap.fetched_at
            &&& f4.hostport == f.hostport
            // A failed query leaves what the others have filled.
            &&& session is Failure ==> f2.snap == f1.snap
            &&& wireless is Failure ==> f3.snap == f2.snap
            &&& monitor is Failure ==> f4.snap == f3.snap
            // What one query fills stays.
            &&& f4.snap.rate_down_bps == f1.snap.rate_down_bps
            &&& f4.snap.snr_up_db == f1.snap.snr_up_db
            &&& f4.snap.atten_down_db == f1.snap.atten_down_db
            &&& f4.snap.uptime_secs == f2.snap.uptime_secs
            &&& f4.snap.wireless_clients == f3.snap.wireless_clients
            &&& f4.replied(line) == f4
        }),
{
}

/// A poll that answered is followed by the next two seconds after its start, one
/// that failed after fifteen.
pub proof fn polls_keep_their_interval(elapsed_ns: u64)
    ensures
        elapsed_ns <= 2_000_000_000 ==> elapsed_ns + poll_pause(true, elapsed_ns) == 2_000_000_000,
        elapsed_ns > 2_000_000_000 ==> poll_pause(true, elapsed_ns) == 0,
        elapsed_ns <= 15_000_000_000 ==> elapsed_ns + poll_pause(false, elapsed_ns)
            == 15_000_000_000,
        elapsed_ns > 15_000_000_000 ==> poll_pause(false, elapsed_ns) == 0,
{
}

/// A rest is over once nothing of it remains or it is cancelled; until then it is
/// slept in slices of a tenth of a second, the last one as long as what remains.
pub proof fn rests_are_slept_in_slices(remaining: u64, cancelled: bool)
    ensures
        slice_of(remaining, cancelled) is Some <==> remaining > 0 && !cancelled,
        slice_of(remaining, cancelled) matches Some(s) ==> 0 < s <= remaining && s <= 100_000_000
            && (s == remaining || s == 100_000_000),
{
}

/// The scheme before an address and the slash behind it are dropped, and so is
/// the space around it; a plain host is kept as it is.
pub proof fn an_address_is_its_host(h: Seq<char>, a: Seq<char>, b: Seq<char>)
    requires
        plain_host(h),
        forall|k: int| 0 <= k < a.len() ==> white_space(#[trigger] a[k]),
        forall|k: int| 0 <= k < b.len() ==> white_space(#[trigger] b[k]),
    ensures
        bare_host(h) == h,
        bare_host(a + h + b) == h,
        bare_host(a + ("https://"@ + h) + b) == h,
        bare_host(a + ("http://"@ + h) + b) == h,
        bare_host(a + ("http://"@ + h).push('/') + b) == h,
{
    reveal_strlit("http://");
    reveal_strlit("https://");
    let (p, q) = ("http://"@, "https://"@);
    repeated_ends_are_taken_off(h, p, '/');
    repeated_ends_are_taken_off(h, q, '/');
    space_around_a_text_is_trimmed(a, h, b);
    let x = q + h;
    assert(x[0] == 'h' && x.last() == h.last());
    space_around_a_text_is_trimmed(a, x, b);
    assert(!matches_at(x, p, 0)) by {
        if matches_at(x, p, 0) {
            assert(x.subrange(0, 7)[4] == x[4]);
        }
    }
    repeated_ends_are_taken_off(x, p, '/');
    let y = p + h;
    assert(y[0] == 'h' && y.last() == h.last());
    space_around_a_text_is_trimmed(a, y, b);
    let z = y.push('/');
    let hs = h.push('/');
    assert(z =~= p + hs);
    assert(z[0] == 'h');
    space_around_a_text_is_trimmed(a, z, b);
    repeated_ends_are_taken_off(hs, p, '/');
    repeated_ends_are_taken_off(hs, q, '/');
    no_scheme_before(h, p);
    no_scheme_before(h, q);
}

proof fn no_scheme_before(h: Seq<char>, p: Seq<char>)
    requires
        h.len() > 0,
        h.last() != '/',
        p == "http://"@ || p == "https://"@,
        !matches_at(h, p, 0),
    ensures
        !matches_at(h.push('/'), p, 0),
{
    reveal_strlit("http://");
    reveal_strlit("https://");
    let hs = h.push('/');
    if matches_at(hs, p, 0) {
        let n = p.len() as int;
        assert(p[n - 2] == '/');
        assert(hs.subrange(0, n)[n - 2] == hs[n - 2]);
        if n <= h.len() {
            assert(h.subrange(0, n) =~= hs.subrange(0, n));
        } else {
            assert(hs[n - 2] == h.last());
        }
    }
}

/// An address that names a port is the host before it and that port; one without
/// is the host alone and port 4900. Its base address names both.
pub proof fn an_address_names_its_port(h: Seq<char>, port: u16)
    requires
        !h.contains(':'),
    ensures
        host_and_port(h + seq![':'] + decimal(port as nat)) == (h, port),
        host_and_port(h) == (h, 4900u16),
        base_url(h + seq![':'] + decimal(port as nat)) == "http://"@ + h + ":"@ + decimal(
            port as nat,
        ),
        base_url(h) == "http://"@ + h + ":"@ + decimal(4900),
{
    let d = decimal(port as nat);
    let x = h + seq![':'] + d;
    decimal_numbers_are_read_back(port as nat);
    assert(!d.contains(':')) by {
        if d.contains(':') {
            let k = choose|k: int| 0 <= k < d.len() && d[k] == ':';
            assert('0' <= d[k] <= '9');
        }
    }
    last_colon_stands(h, d);
    no_colon(h);
    assert(x.skip(h.len() as int + 1) =~= d);
    assert(x.take(h.len() as int) =~= h);
}

proof fn no_colon(h: Seq<char>)
    requires
        !h.contains(':'),
    ensures
        last_colon(h) is None,
    decreases h.len(),
{
    if h.len() > 0 {
        assert(h.contains(h.last()));
        assert forall|k: int| 0 <= k < h.drop_last().len() implies h.drop_last()[k] != ':' by {
            assert(h.contains(h[k]));
        }
        no_colon(h.drop_last());
    }
}

proof fn last_colon_stands(h: Seq<char>, d: Seq<char>)
    requires
        !d.contains(':'),
    ensures
        last_colon(h + seq![':'] + d) == Some(h.len() as int),
    decreases d.len(),
{
    let x = h + seq![':'] + d;
    if d.len() > 0 {
        assert(x.last() == d.last());
        assert(d.contains(d.last()));
        assert(x.drop_last() =~= h + seq![':'] + d.drop_last());
        assert forall|k: int| 0 <= k < d.drop_last().len() implies d.drop_last()[k] != ':' by {
            assert(d.contains(d[k]));
        }
        last_colon_stands(h, d.drop_last());
    } else {
        assert(x.last() == ':');
    }
}

/// A round asks the candidates in their order, each once, and is given up where
/// none has answered: that names those which were asked, and the last reason.
pub proof fn a_round_asks_the_candidates_in_order(p: PollerView, snap: SnapshotView, at: Timestamp)
    requires
        p.valid(),
        p.working_host is None,
        !snap.available,
    ensures
        0 <= p.tried < p.candidates.len() ==> p.next_host(false) == Some(p.candidates[p.tried]),
        p.next_host(true) is None,
        p.answered(snap).tried == p.tried + 1,
        p.answered(snap).candidates == p.candidates,
        p.tried == p.candidates.len() ==> p.next_host(false) is None,
        p.begun().tried == 0 && p.begun().reasons.len() == 0,
        snap.unavailable_reason matches Some(r) ==> p.answered(snap).reasons.contains(r) && (
        !p.reasons.contains(r) ==> p.answered(snap).reasons.last() == r),
        !p.given_up(at).available,
        p.given_up(at).fetched_at == Some(at),
        !p.settles(snap),
{
    if let Some(r) = snap.unavailable_reason {
        let out = p.answered(snap).reasons;
        if !p.reasons.contains(r) {
            assert(out[out.len() - 1] == r);
        }
    }
}

/// The CRC errors of a reply are the sum of all its counters: those of a reply in
/// two parts are those of both together, and none are told only where neither part
/// has a counter.
pub proof fn all_counters_are_summed(snap: SnapshotView, a: Seq<char>, b: Seq<char>)
    requires
        complete(a),
        !begins_with_end_tag(b),
        total(crc_values(a)) + total(crc_values(b)) <= u64::MAX,
    ensures
        ({
            let x = snap.with_counters(a).crc_errors;
            let y = snap.with_counters(b).crc_errors;
            let z = snap.with_counters(a + b).crc_errors;
            &&& z is None <==> x is None && y is None
            &&& x is Some && y is Some ==> z == Some((x->0 + y->0) as u64)
            &&& x is Some && y is None ==> z == x
            &&& x is None && y is Some ==> z == y
        }),
{
    crc_totals_add_up(a, b);
}

} // verus!
