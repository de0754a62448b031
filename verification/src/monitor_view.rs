//! The monitor tab.

use crate::app::App;
use crate::footer::{total_width, width_of_spans};
use crate::measure::{Quotient, MILLISECOND};
use crate::monitor::{incident_views, Incident, IncidentView, MonitorStats, MonitorView};
use crate::panels::{
    exactly, jitter_color, variation_color, whole_millis, whole_millis_of, Gauge, GaugeView,
};
use crate::style::{
    add_line, badge, blank, bold, centered_line, fg, line_of, line_views, no_lines, unstyled, Color,
    Line, LineView,
};
use crate::text::{
    chars_of, concat, decimal, fixed, fixed_text, pad_left, pad_right, padded_left, padded_right,
    push_decimal, push_spaces, spaces, string_of, texts,
};
use std::collections::VecDeque;
use vstd::prelude::*;

verus! {

// ---- colours and figures --------------------------------------------------

/// The colour of a round-trip time in nanoseconds.
pub open spec fn quality_color(q: Quotient, gaming: bool) -> Color {
    let ms = 10 * MILLISECOND;
    if q.le_tenths(
        if gaming {
            60 * ms
        } else {
            100 * ms
        },
    ) {
        Color::Green
    } else if q.le_tenths(
        if gaming {
            100 * ms
        } else {
            160 * ms
        },
    ) {
        Color::Yellow
    } else {
        Color::Red
    }
}

/// The colour of a round-trip time in nanoseconds.
pub fn ping_quality_color(q: &Quotient, gaming: bool) -> (c: Color)
    requires
        q.small(),
    ensures
        c == quality_color(*q, gaming),
{
    let ms: u64 = 10 * MILLISECOND;
    let (good, playable) = if gaming {
        (60 * ms, 100 * ms)
    } else {
        (100 * ms, 160 * ms)
    };
    if q.at_most_tenths(good) {
        Color::Green
    } else if q.at_most_tenths(playable) {
        Color::Yellow
    } else {
        Color::Red
    }
}

/// The colour of a stability in percent.
pub open spec fn steadiness_color(q: Quotient) -> Color {
    if !q.lt_tenths(950) {
        Color::LightGreen
    } else if !q.lt_tenths(850) {
        Color::Green
    } else if !q.lt_tenths(650) {
        Color::Yellow
    } else {
        Color::Red
    }
}

/// The colour of a stability in percent.
pub fn stability_color(q: &Quotient) -> (c: Color)
    requires
        q.small(),
    ensures
        c == steadiness_color(*q),
{
    if !q.below_tenths(950) {
        Color::LightGreen
    } else if !q.below_tenths(850) {
        Color::Green
    } else if !q.below_tenths(650) {
        Color::Yellow
    } else {
        Color::Red
    }
}

/// The colour of a loss in percent.
pub open spec fn loss_color(q: Quotient) -> Color {
    if q.num == 0 {
        Color::Green
    } else if q.lt_tenths(30) {
        Color::Yellow
    } else {
        Color::Red
    }
}

fn loss_color_of(q: &Quotient) -> (c: Color)
    requires
        q.small(),
    ensures
        c == loss_color(*q),
{
    if q.num == 0 {
        Color::Green
    } else if q.below_tenths(30) {
        Color::Yellow
    } else {
        Color::Red
    }
}

/// A time in nanoseconds as milliseconds with one decimal.
pub open spec fn time_text(q: Quotient) -> Seq<char> {
    fixed(q.num as nat, (q.den * MILLISECOND) as nat, 1)
}

/// A time in nanoseconds as milliseconds with one decimal.
fn time_text_of(q: &Quotient) -> (s: String)
    requires
        q.small(),
    ensures
        s@ == time_text(*q),
{
    assert(q.den * MILLISECOND == q.den * 1_000_000);
    fixed_text(q.num, q.den * 1_000_000, 1)
}

/// A share in percent.
pub open spec fn percent(q: Quotient, decimals: nat) -> Seq<char> {
    fixed(q.num as nat, q.den as nat, decimals)
}

fn percent_of(q: &Quotient, decimals: u8) -> (s: String)
    requires
        q.small(),
        decimals <= 2,
    ensures
        s@ == percent(*q, decimals as nat),
{
    fixed_text(q.num, q.den, decimals)
}

/// All figures of the statistics are in the range that is shown exactly.
pub open spec fn showable(stats: MonitorStats) -> bool {
    stats.avg.small() && stats.jitter.small() && stats.loss_pct.small() && stats.stability.small()
}

// ---- banner ---------------------------------------------------------------

/// What the latest incident says, nothing where there is none.
pub open spec fn latest_detail(m: MonitorView) -> Seq<char> {
    if m.incidents.len() > 0 {
        m.incidents.last().detail
    } else {
        Seq::empty()
    }
}

/// The state of the monitor.
pub open spec fn banner_head(m: MonitorView, in_trouble: bool, stable_for: u64) -> LineView {
    if m.paused {
        blank().with("[paused] "@, fg(Color::Yellow)).with(
            "monitor paused during the speed test - it resumes automatically"@,
            fg(Color::DarkGray),
        )
    } else if !m.running {
        blank().with("[idle] "@, fg(Color::DarkGray)).with(
            "press ENTER to start continuous ping"@,
            fg(Color::DarkGray),
        )
    } else if in_trouble {
        blank().with(
            " !! NETWORK TROUBLE DETECTED - "@ + latest_detail(m) + " "@,
            badge(Color::White, Color::Red),
        )
    } else {
        blank().with("LIVE "@, bold(Color::Green)).with("monitoring"@, fg(Color::Gray)).with(
            " · stable for "@ + decimal(stable_for as nat) + "s"@,
            fg(Color::DarkGray),
        )
    }
}

/// The state of the monitor at the left of a line of `width` columns, the
/// verdict at its right.
pub open spec fn banner(
    m: MonitorView,
    in_trouble: bool,
    stable_for: u64,
    verdict: (Seq<char>, Color),
    width: u16,
) -> LineView {
    let head = banner_head(m, in_trouble, stable_for);
    head.with(
        spaces(width - (total_width(head.spans) + verdict.0.len() + 2)),
        unstyled(),
    ).with(verdict.0 + " "@, bold(verdict.1))
}

fn latest_detail_of(app: &App) -> (s: String)
    ensures
        s@ == latest_detail(app@.monitor),
{
    let n: usize = app.monitor.incidents.len();
    reveal(incident_views);
    if n > 0 {
        assert(incident_views(app.monitor.incidents@).last() == app.monitor.incidents@[n - 1]@);
        app.monitor.incidents[n - 1].detail.as_str().to_owned()
    } else {
        String::new()
    }
}

fn banner_head_row(app: &App, stats: &MonitorStats) -> (l: Line)
    ensures
        l@ == banner_head(app@.monitor, stats.in_trouble, stats.stable_for_secs),
        l.spans@.len() <= 3,
{
    let mut l = Line::new();
    if app.monitor.paused {
        l.put("[paused] ", fg(Color::Yellow));
        l.put(
            "monitor paused during the speed test - it resumes automatically",
            fg(Color::DarkGray),
        );
    } else if !app.monitor.running {
        l.put("[idle] ", fg(Color::DarkGray));
        l.put("press ENTER to start continuous ping", fg(Color::DarkGray));
    } else if stats.in_trouble {
        let mut text: String = " !! NETWORK TROUBLE DETECTED - ".to_owned();
        let detail = latest_detail_of(app);
        text.append(detail.as_str());
        text.append(" ");
        l.put(text.as_str(), badge(Color::White, Color::Red));
    } else {
        l.put("LIVE ", bold(Color::Green));
        l.put("monitoring", fg(Color::Gray));
        let mut text: String = " · stable for ".to_owned();
        push_decimal(&mut text, stats.stable_for_secs as u128);
        text.append("s");
        l.put(text.as_str(), fg(Color::DarkGray));
    }
    proof {
        crate::style::span_views_follow(l.spans@, arbitrary());
    }
    l
}

/// The state of the monitor at the left of a line of `width` columns, the
/// verdict at its right.
pub fn banner_row(app: &App, stats: &MonitorStats, width: u16) -> (l: Line)
    ensures
        l@ == banner(
            app@.monitor,
            stats.in_trouble,
            stats.stable_for_secs,
            (stats.verdict.0@, stats.verdict.1),
            width,
        ),
{
    let mut l = banner_head_row(app, stats);
    let used: u128 = width_of_spans(&l.spans);
    assert(used <= 3 * usize::MAX) by (nonlinear_arith)
        requires
            used <= l.spans@.len() * usize::MAX,
            l.spans@.len() <= 3,
    ;
    let taken: u128 = used + stats.verdict.0.unicode_len() as u128 + 2;
    let total: u128 = width as u128;
    let pad: usize = if taken < total {
        (total - taken) as usize
    } else {
        0
    };
    let mut gap: String = String::new();
    push_spaces(&mut gap, pad);
    assert(gap@ =~= spaces(width - (used + stats.verdict.0@.len() + 2)));
    l.put(gap.as_str(), unstyled());
    let verdict = concat(stats.verdict.0, " ");
    l.put(verdict.as_str(), bold(stats.verdict.1));
    l
}

// ---- readout --------------------------------------------------------------

impl LineView {
    /// With a labelled value of a grid: fixed widths, so that values line up.
    pub open spec fn with_cell(self, label: Seq<char>, value: Seq<char>, color: Color) -> Self {
        self.with(" "@ + pad_right(label, 9), fg(Color::DarkGray)).with(
            pad_left(value, 8) + " "@,
            bold(color),
        )
    }
}

/// Two labelled values side by side.
pub open spec fn grid_line(
    l: (Seq<char>, Seq<char>, Color),
    r: (Seq<char>, Seq<char>, Color),
) -> LineView {
    blank().with_cell(l.0, l.1, l.2).with(" "@, unstyled()).with_cell(r.0, r.1, r.2)
}

fn put_cell(line: &mut Line, label: &str, value: &str, color: Color)
    ensures
        final(line)@ == old(line)@.with_cell(label@, value@, color),
{
    let label = padded_right(label, 9);
    let label = concat(" ", label.as_str());
    let value = padded_left(value, 8);
    let value = concat(value.as_str(), " ");
    line.put(label.as_str(), fg(Color::DarkGray));
    line.put(value.as_str(), bold(color));
}

/// The latest round-trip time.
pub open spec fn current_line(cur: Option<u64>, gaming: bool) -> LineView {
    match cur {
        Some(rtt) => blank().with(
            pad_left(time_text(exactly(rtt)), 5),
            bold(quality_color(exactly(rtt), gaming)),
        ).with(" ms  current"@, fg(Color::DarkGray)).in_the_middle(),
        None => blank().with("—  no samples yet"@, fg(Color::DarkGray)).in_the_middle(),
    }
}

fn current_row(cur: Option<u64>, gaming: bool) -> (l: Line)
    ensures
        l@ == current_line(cur, gaming),
{
    match cur {
        Some(rtt) => {
            let q = Quotient { num: rtt as u128, den: 1 };
            let text = time_text_of(&q);
            let text = padded_left(text.as_str(), 5);
            let mut l = Line::new();
            l.put(text.as_str(), bold(ping_quality_color(&q, gaming)));
            l.put(" ms  current", fg(Color::DarkGray));
            l.center();
            l
        },
        None => centered_line("—  no samples yet", fg(Color::DarkGray)),
    }
}

/// The thresholds of gaming mode.
pub open spec fn thresholds_line() -> LineView {
    blank().with(" thresholds "@, fg(Color::DarkGray)).with("<60"@, fg(Color::Green)).with(
        "  "@,
        unstyled(),
    ).with("<=100"@, fg(Color::Yellow)).with("  "@, unstyled()).with(">100 ms"@, fg(Color::Red))
}

fn thresholds_row() -> (l: Line)
    ensures
        l@ == thresholds_line(),
{
    let mut l = Line::new();
    l.put(" thresholds ", fg(Color::DarkGray));
    l.put("<60", fg(Color::Green));
    l.put("  ", unstyled());
    l.put("<=100", fg(Color::Yellow));
    l.put("  ", unstyled());
    l.put(">100 ms", fg(Color::Red));
    l
}

/// The readout: the latest round-trip time above a grid of figures.
pub open spec fn readout(gaming: bool, st: MonitorStats, height: u16) -> Seq<LineView> {
    let ms = " ms"@;
    let lines = Seq::empty().push(blank()).push(current_line(st.cur, gaming)).push(
        blank().with("─────────────"@, fg(Color::Rgb(60, 60, 90))).in_the_middle(),
    ).push(blank()).push(
        grid_line(
            ("avg"@, time_text(st.avg) + ms, quality_color(st.avg, gaming)),
            ("min"@, time_text(exactly(st.min)) + ms, Color::Gray),
        ),
    ).push(
        grid_line(
            ("max"@, time_text(exactly(st.max)) + ms, Color::Gray),
            ("jitter"@, time_text(st.jitter) + ms, variation_color(st.jitter)),
        ),
    ).push(
        grid_line(
            ("loss"@, percent(st.loss_pct, 2) + " %"@, loss_color(st.loss_pct)),
            ("stability"@, percent(st.stability, 1) + " %"@, steadiness_color(st.stability)),
        ),
    ).push(
        blank().with(
            " "@ + pad_right("probes"@, 9) + pad_left(
                decimal(st.received as nat) + "/"@ + decimal(st.sent as nat),
                8,
            ) + " "@,
            fg(Color::DarkGray),
        ),
    );
    if gaming && height > 10 {
        lines.push(blank()).push(thresholds_line())
    } else {
        lines
    }
}

fn probes_row(received: u64, sent: u64) -> (l: Line)
    ensures
        l@ == blank().with(
            " "@ + pad_right("probes"@, 9) + pad_left(
                decimal(received as nat) + "/"@ + decimal(sent as nat),
                8,
            ) + " "@,
            fg(Color::DarkGray),
        ),
{
    let mut count: String = String::new();
    push_decimal(&mut count, received as u128);
    count.append("/");
    push_decimal(&mut count, sent as u128);
    assert(count@ =~= decimal(received as nat) + "/"@ + decimal(sent as nat));
    let count = padded_left(count.as_str(), 8);
    let label = padded_right("probes", 9);
    let mut text: String = " ".to_owned();
    text.append(label.as_str());
    text.append(count.as_str());
    text.append(" ");
    line_of(text.as_str(), fg(Color::DarkGray))
}

fn grid_row(l: (&str, &str, Color), r: (&str, &str, Color)) -> (line: Line)
    ensures
        line@ == grid_line((l.0@, l.1@, l.2), (r.0@, r.1@, r.2)),
{
    let mut line = Line::new();
    put_cell(&mut line, l.0, l.1, l.2);
    line.put(" ", unstyled());
    put_cell(&mut line, r.0, r.1, r.2);
    line
}

fn millis_cell(q: &Quotient) -> (s: String)
    requires
        q.small(),
    ensures
        s@ == time_text(*q) + " ms"@,
{
    let s = time_text_of(q);
    concat(s.as_str(), " ms")
}

/// The readout: the latest round-trip time above a grid of figures, and in
/// gaming mode its thresholds where there is room.
pub fn readout_rows(gaming: bool, stats: &MonitorStats, height: u16) -> (t: Vec<Line>)
    requires
        showable(*stats),
    ensures
        line_views(t@) == readout(gaming, *stats, height),
{
    let avg = millis_cell(&stats.avg);
    let min = millis_cell(&Quotient { num: stats.min as u128, den: 1 });
    let max = millis_cell(&Quotient { num: stats.max as u128, den: 1 });
    let jitter = millis_cell(&stats.jitter);
    let loss = percent_of(&stats.loss_pct, 2);
    let loss = concat(loss.as_str(), " %");
    let stability = percent_of(&stats.stability, 1);
    let stability = concat(stability.as_str(), " %");
    let mut t = no_lines();
    add_line(&mut t, Line::new());
    add_line(&mut t, current_row(stats.cur, gaming));
    add_line(&mut t, centered_line("─────────────", fg(Color::Rgb(60, 60, 90))));
    add_line(&mut t, Line::new());
    let a = grid_row(
        ("avg", avg.as_str(), ping_quality_color(&stats.avg, gaming)),
        ("min", min.as_str(), Color::Gray),
    );
    add_line(&mut t, a);
    let b = grid_row(
        ("max", max.as_str(), Color::Gray),
        ("jitter", jitter.as_str(), jitter_color(&stats.jitter)),
    );
    add_line(&mut t, b);
    let c = grid_row(
        ("loss", loss.as_str(), loss_color_of(&stats.loss_pct)),
        ("stability", stability.as_str(), stability_color(&stats.stability)),
    );
    add_line(&mut t, c);
    add_line(&mut t, probes_row(stats.received, stats.sent));
    if gaming && height > 10 {
        add_line(&mut t, Line::new());
        add_line(&mut t, thresholds_row());
    }
    t
}

/// The title of the readout and its colour.
pub fn readout_title(gaming: bool) -> (t: (&'static str, Color))
    ensures
        (t.0@, t.1) == (if gaming {
            (" GAMING LATENCY "@, Color::LightGreen)
        } else {
            (" LATENCY "@, Color::Cyan)
        }),
{
    if gaming {
        (" GAMING LATENCY ", Color::LightGreen)
    } else {
        (" LATENCY ", Color::Cyan)
    }
}

/// The stability gauge of gaming mode, where there is room.
pub open spec fn stability_gauge_spec(
    gaming: bool,
    stability: Quotient,
    height: u16,
) -> Option<GaugeView> {
    if gaming && height > 14 {
        Some(
            GaugeView {
                label: "STABILITY "@ + percent(stability, 0) + "%"@,
                color: steadiness_color(stability),
                bg: None,
                filled: if !stability.le_tenths(1000) {
                    Quotient { num: 1, den: 1 }
                } else {
                    Quotient { num: stability.num, den: (stability.den * 100) as u128 }
                },
            },
        )
    } else {
        None
    }
}

/// What an optional gauge says.
pub open spec fn opt_gauge(g: Option<Gauge>) -> Option<GaugeView> {
    match g {
        Some(g) => Some(g@),
        None => None,
    }
}

/// The stability gauge of gaming mode, where there is room.
pub fn stability_gauge(gaming: bool, stats: &MonitorStats, height: u16) -> (g: Option<Gauge>)
    requires
        showable(*stats),
    ensures
        opt_gauge(g) == stability_gauge_spec(gaming, stats.stability, height),
{
    if !(gaming && height > 14) {
        return None;
    }
    let mut label: String = "STABILITY ".to_owned();
    let share = percent_of(&stats.stability, 0);
    label.append(share.as_str());
    label.append("%");
    let filled = if !stats.stability.at_most_tenths(1000) {
        Quotient { num: 1, den: 1 }
    } else {
        Quotient { num: stats.stability.num, den: stats.stability.den * 100 }
    };
    Some(Gauge { label, color: stability_color(&stats.stability), bg: None, filled })
}

// ---- graph ----------------------------------------------------------------

/// The ping graph: its title, its colour, its data in whole milliseconds, and
/// what stands in place of data or below it.
#[derive(Debug)]
pub struct PingGraph {
    pub title: String,
    pub color: Color,
    pub data: Vec<u64>,
    pub hint: Option<&'static str>,
    pub marker: Option<String>,
}

/// The height of a probe in the graph; lost ones are dips.
pub open spec fn graph_height(probe: Option<u64>) -> u64 {
    match probe {
        Some(ns) => whole_millis(ns),
        None => 0,
    }
}

/// The row below the graph.
pub open spec fn loss_marker(lost: u64) -> Seq<char> {
    if lost > 0 {
        " ["@ + decimal(lost as nat) + "] lost probes shown as dips "@
    } else {
        " no loss recorded"@
    }
}

fn graph_data(recent: &VecDeque<Option<u64>>) -> (out: Vec<u64>)
    ensures
        out@ == recent@.map_values(|p: Option<u64>| graph_height(p)),
{
    let mut out: Vec<u64> = Vec::new();
    let n: usize = recent.len();
    let mut i: usize = 0;
    while i < n
        invariant
            i <= n == recent@.len(),
            out@ == recent@.take(i as int).map_values(|p: Option<u64>| graph_height(p)),
        decreases n - i,
    {
        let h: u64 = match recent[i] {
            Some(ns) => whole_millis_of(ns),
            None => 0,
        };
        out.push(h);
        i = i + 1;
        assert(out@ =~= recent@.take(i as int).map_values(|p: Option<u64>| graph_height(p)));
    }
    assert(recent@.take(i as int) =~= recent@);
    out
}

/// The ping graph in an area of the given height.
pub fn ping_graph(app: &App, stats: &MonitorStats, height: u16) -> (g: PingGraph)
    ensures
        g.title@ == " LIVE PING — "@ + app@.monitor.target + " @ "@ + decimal(
            app@.monitor.interval_ms as nat,
        ) + "ms "@,
        g.color == (if stats.in_trouble {
            Color::Red
        } else if app@.monitor.gaming {
            Color::LightGreen
        } else {
            Color::Cyan
        }),
        g.data@ == app@.monitor.recent.map_values(|p: Option<u64>| graph_height(p)),
        match g.hint {
            Some(h) => app@.monitor.recent.len() == 0 && h@ == (if app@.monitor.running {
                "waiting for first probe…"@
            } else {
                "graph appears here once the monitor runs"@
            }),
            None => app@.monitor.recent.len() > 0,
        },
        match g.marker {
            Some(m) => app@.monitor.recent.len() > 0 && height > 2 && m@ == loss_marker(
                app@.monitor.lost,
            ),
            None => app@.monitor.recent.len() == 0 || height <= 2,
        },
{
    let mut title: String = " LIVE PING — ".to_owned();
    title.append(app.monitor.target.as_str());
    title.append(" @ ");
    push_decimal(&mut title, app.monitor.interval_ms as u128);
    title.append("ms ");
    let color = if stats.in_trouble {
        Color::Red
    } else if app.monitor.gaming {
        Color::LightGreen
    } else {
        Color::Cyan
    };
    let data = graph_data(&app.monitor.recent);
    let empty: bool = data.len() == 0;
    let hint: Option<&'static str> = if !empty {
        None
    } else if app.monitor.running {
        Some("waiting for first probe…")
    } else {
        Some("graph appears here once the monitor runs")
    };
    let marker: Option<String> = if empty || height <= 2 {
        None
    } else if app.monitor.lost > 0 {
        let mut text: String = " [".to_owned();
        push_decimal(&mut text, app.monitor.lost as u128);
        text.append("] lost probes shown as dips ");
        Some(text)
    } else {
        Some(" no loss recorded".to_owned())
    };
    PingGraph { title, color, data, hint, marker }
}

// ---- incident log ---------------------------------------------------------

/// One incident, with the time of day at which it came up.
pub open spec fn incident_line(i: IncidentView, clock: Seq<char>) -> LineView {
    blank().with(" "@ + clock + " "@, fg(Color::DarkGray)).with(
        " "@ + i.kind.name() + " "@,
        badge(Color::Black, i.kind.shade()),
    ).with(" "@ + i.detail, fg(Color::Gray))
}

/// One incident, with the time of day at which it came up.
pub fn incident_row(i: &Incident, clock: &str) -> (l: Line)
    ensures
        l@ == incident_line(i@, clock@),
{
    let mut time: String = " ".to_owned();
    time.append(clock);
    time.append(" ");
    let mut kind: String = " ".to_owned();
    kind.append(i.kind.label());
    kind.append(" ");
    let detail = concat(" ", i.detail.as_str());
    let mut l = Line::new();
    l.put(time.as_str(), fg(Color::DarkGray));
    l.put(kind.as_str(), badge(Color::Black, i.kind.color()));
    l.put(detail.as_str(), fg(Color::Gray));
    l
}

/// The title of the log and its colour.
pub fn log_title(app: &App, now: u64) -> (t: (String, Color))
    ensures
        t.0@ == " EVENTS / TROUBLE LOG ("@ + decimal(app@.monitor.incidents.len()) + " ) "@,
        t.1 == (if app@.monitor.in_trouble(now) {
            Color::Red
        } else {
            Color::Yellow
        }),
{
    assert(app@.monitor.incidents.len() == app.monitor.incidents@.len()) by {
        reveal(incident_views);
    }
    let trouble: bool = match app.monitor.trouble_until {
        Some(t) => now < t,
        None => false,
    };
    let mut title: String = " EVENTS / TROUBLE LOG (".to_owned();
    push_decimal(&mut title, app.monitor.incidents.len() as u128);
    title.append(" ) ");
    (
        title,
        if trouble {
            Color::Red
        } else {
            Color::Yellow
        },
    )
}

/// The hint in an empty log.
pub fn empty_log_row() -> (l: Line)
    ensures
        l@ == blank().with(
            "no network trouble detected — spikes, loss and jitter bursts will be logged here"@,
            fg(Color::DarkGray),
        ).in_the_middle(),
{
    centered_line(
        "no network trouble detected — spikes, loss and jitter bursts will be logged here",
        fg(Color::DarkGray),
    )
}

/// The newest incidents of a log, as many as fit, the newest on top.
pub open spec fn log_lines(
    incidents: Seq<IncidentView>,
    clocks: Seq<Seq<char>>,
    visible: int,
) -> Seq<LineView> {
    let n = incidents.len();
    Seq::new(
        (if n > visible {
            visible
        } else {
            n as int
        }) as nat,
        |k: int| incident_line(incidents[n - 1 - k], clocks[n - 1 - k]),
    )
}

/// The newest incidents, as many as fit, the newest on top. The clocks give the
/// time of day of every incident of the log.
pub fn log_rows(app: &App, clocks: &Vec<String>, visible: u16) -> (t: Vec<Line>)
    requires
        clocks@.len() == app@.monitor.incidents.len(),
    ensures
        line_views(t@) == log_lines(app@.monitor.incidents, texts(clocks@), visible as int),
{
    let ghost all = app@.monitor.incidents;
    proof {
        reveal(incident_views);
    }
    let n: usize = app.monitor.incidents.len();
    assert(n == all.len());
    let shown: usize = if n > visible as usize {
        visible as usize
    } else {
        n
    };
    let mut t = no_lines();
    let mut k: usize = 0;
    assert(line_views(t@) =~= log_lines(all, texts(clocks@), 0));
    while k < shown
        invariant
            k <= shown <= n,
            n == all.len(),
            n == app.monitor.incidents@.len(),
            n == clocks@.len(),
            all == app@.monitor.incidents,
            all == incident_views(app.monitor.incidents@),
            line_views(t@) == log_lines(all, texts(clocks@), k as int),
        decreases shown - k,
    {
        proof {
            reveal(incident_views);
        }
        let at: usize = n - 1 - k;
        assert(all[at as int] == app.monitor.incidents@[at as int]@);
        assert(texts(clocks@)[at as int] == clocks@[at as int]@);
        add_line(&mut t, incident_row(&app.monitor.incidents[at], clocks[at].as_str()));
        k = k + 1;
        assert(line_views(t@) =~= log_lines(all, texts(clocks@), k as int));
    }
    assert(log_lines(all, texts(clocks@), k as int) =~= log_lines(
        all,
        texts(clocks@),
        visible as int,
    ));
    t
}

// ---- target editor --------------------------------------------------------

/// A rectangle of the terminal.
#[derive(Debug, Clone, Copy, PartialEq, Eq, Structural)]
pub struct Area {
    pub x: u16,
    pub y: u16,
    pub width: u16,
    pub height: u16,
}

/// What is left of `a` after `b`, at least nothing.
pub open spec fn monus(a: int, b: int) -> int {
    if a > b {
        a - b
    } else {
        0
    }
}

/// The rectangle of a popup of the given height in the middle of an area: at
/// most 62 columns wide, with a margin.
pub open spec fn popup_area(area: Area, height: u16) -> Area {
    let width = if monus(area.width as int, 4) < 62 {
        monus(area.width as int, 4)
    } else {
        62
    };
    Area {
        x: (area.x + (area.width - width) / 2) as u16,
        y: (area.y + monus(area.height as int, height as int) / 2) as u16,
        width: width as u16,
        height,
    }
}

/// The rectangle of a popup of the given height in the middle of an area.
pub fn popup(area: Area, height: u16) -> (p: Area)
    requires
        area.x + area.width <= u16::MAX,
        area.y + area.height <= u16::MAX,
    ensures
        p == popup_area(area, height),
{
    let inner: u16 = if area.width > 4 {
        area.width - 4
    } else {
        0
    };
    let width: u16 = if inner < 62 {
        inner
    } else {
        62
    };
    let above: u16 = if area.height > height {
        area.height - height
    } else {
        0
    };
    Area {
        x: area.x + (area.width - width) / 2,
        y: area.y + above / 2,
        width,
        height,
    }
}

/// A cursor that blinks.
pub open spec fn cursor(frame: int) -> Seq<char> {
    if frame % 2 == 0 {
        "█"@
    } else {
        " "@
    }
}

/// A cursor that blinks.
pub fn cursor_of(frame: usize) -> (s: &'static str)
    ensures
        s@ == cursor(frame as int),
{
    if frame % 2 == 0 {
        "█"
    } else {
        " "
    }
}

/// The first `n` characters of a text, as far as it has them.
pub fn first_chars(s: &str, n: usize) -> (out: String)
    ensures
        out@ == crate::footer::clipped(s@, 0, n as int),
{
    let chars = chars_of(s);
    let end: usize = if chars.len() < n {
        chars.len()
    } else {
        n
    };
    string_of(&chars, 0, end)
}

/// The input line of the target editor in a popup with `width` columns inside.
pub fn target_editor_row(app: &App, width: u16) -> (l: Line)
    requires
        width >= 6,
    ensures
        l@ == blank().with(" > "@, fg(Color::Cyan)).with(
            crate::footer::clipped(app@.monitor.input_buf, 0, width - 6),
            bold(Color::White),
        ).with(cursor(app@.spinner_frame as int), fg(Color::Cyan)).with(
            "   ENTER apply · ESC cancel"@,
            fg(Color::DarkGray),
        ),
{
    let shown = first_chars(app.monitor.input_buf.as_str(), width as usize - 6);
    let mut l = Line::new();
    l.put(" > ", fg(Color::Cyan));
    l.put(shown.as_str(), bold(Color::White));
    l.put(cursor_of(app.spinner_frame), fg(Color::Cyan));
    l.put("   ENTER apply · ESC cancel", fg(Color::DarkGray));
    l
}

// ---- laws -----------------------------------------------------------------

/// A popup lies inside its area wherever that is high enough for it.
pub proof fn popups_stay_inside(area: Area, height: u16)
    requires
        area.x + area.width <= u16::MAX,
        area.y + area.height <= u16::MAX,
        height <= area.height,
    ensures
        ({
            let p = popup_area(area, height);
            &&& area.x <= p.x
            &&& p.x + p.width <= area.x + area.width
            &&& area.y <= p.y
            &&& p.y + p.height <= area.y + area.height
        }),
{
}

/// Each figure of the readout stands behind its own name: times in milliseconds,
/// shares in percent, and the probes that came back before those that were sent.
pub proof fn monitor_figures_stand_behind_their_names(gaming: bool, st: MonitorStats, height: u16)
    ensures
        ({
            let t = readout(gaming, st, height);
            let name = |s: Seq<char>| " "@ + pad_right(s, 9);
            let time = |q: Quotient|
                pad_left(
                    fixed(q.num as nat, (q.den * 1_000_000) as nat, 1) + " ms"@,
                    8,
                ) + " "@;
            let whole = |ns: u64| pad_left(fixed(ns as nat, 1_000_000, 1) + " ms"@, 8) + " "@;
            &&& t[4].says(name("avg"@), time(st.avg))
            &&& t[4].says(name("min"@), whole(st.min))
            &&& t[5].says(name("max"@), whole(st.max))
            &&& t[5].says(name("jitter"@), time(st.jitter))
            &&& t[6].says(
                name("loss"@),
                pad_left(
                    fixed(st.loss_pct.num as nat, st.loss_pct.den as nat, 2) + " %"@,
                    8,
                ) + " "@,
            )
            &&& t[6].says(
                name("stability"@),
                pad_left(
                    fixed(st.stability.num as nat, st.stability.den as nat, 1) + " %"@,
                    8,
                ) + " "@,
            )
            &&& t[7].spans[0].text == " "@ + pad_right("probes"@, 9) + pad_left(
                decimal(st.received as nat) + "/"@ + decimal(st.sent as nat),
                8,
            ) + " "@
            &&& st.cur matches Some(rtt) ==> t[1].says(
                pad_left(fixed(rtt as nat, 1_000_000, 1), 5),
                " ms  current"@,
            )
            &&& t.len() == (if gaming && height > 10 {
                10int
            } else {
                8
            })
        }),
{
    let t = readout(gaming, st, height);
    let name = |s: Seq<char>| " "@ + pad_right(s, 9);
    assert(t[4].spans[0].text == name("avg"@));
    assert(t[4].spans[3].text == name("min"@));
    assert(t[5].spans[0].text == name("max"@));
    assert(t[5].spans[3].text == name("jitter"@));
    assert(t[6].spans[0].text == name("loss"@));
    assert(t[6].spans[3].text == name("stability"@));
    if let Some(rtt) = st.cur {
        assert(t[1].spans[0].text == pad_left(fixed(rtt as nat, 1_000_000, 1), 5));
    }
}

/// A round-trip time is green up to 100 ms and yellow up to 160; in gaming mode up
/// to 60 and 100. A stability is bright green from 95 percent on, green from 85,
/// yellow from 65; a loss green where there is none and yellow under 3 percent.
/// Anything worse is red.
pub proof fn monitor_figures_have_their_colours(q: Quotient)
    requires
        q.den > 0,
    ensures
        ({
            &&& quality_color(q, true) == Color::Green <==> q.num <= 60_000_000 * q.den
            &&& quality_color(q, true) == Color::Yellow <==> 60_000_000 * q.den < q.num
                <= 100_000_000 * q.den
            &&& quality_color(q, true) == Color::Red <==> q.num > 100_000_000 * q.den
            &&& quality_color(q, false) == Color::Green <==> q.num <= 100_000_000 * q.den
            &&& quality_color(q, false) == Color::Yellow <==> 100_000_000 * q.den < q.num
                <= 160_000_000 * q.den
            &&& quality_color(q, false) == Color::Red <==> q.num > 160_000_000 * q.den
            &&& steadiness_color(q) == Color::LightGreen <==> q.num >= 95 * q.den
            &&& steadiness_color(q) == Color::Green <==> 85 * q.den <= q.num < 95 * q.den
            &&& steadiness_color(q) == Color::Yellow <==> 65 * q.den <= q.num < 85 * q.den
            &&& steadiness_color(q) == Color::Red <==> q.num < 65 * q.den
            &&& loss_color(q) == Color::Green <==> q.num == 0
            &&& loss_color(q) == Color::Yellow <==> 0 < q.num < 3 * q.den
            &&& loss_color(q) == Color::Red <==> q.num >= 3 * q.den
        }),
{
}

/// The stability gauge is filled as far as the stability goes, a hundred percent
/// being full; it is there in gaming mode alone, and where there is room.
pub proof fn the_gauge_shows_the_stability(gaming: bool, q: Quotient, height: u16)
    requires
        q.small(),
    ensures
        stability_gauge_spec(gaming, q, height) is Some <==> gaming && height > 14,
        stability_gauge_spec(gaming, q, height) matches Some(g) ==> {
            &&& q.num <= 100 * q.den ==> g.filled.num * (100 * q.den) == q.num * g.filled.den
            &&& q.num > 100 * q.den ==> g.filled.num == g.filled.den
            &&& g.filled.num <= g.filled.den
            &&& g.label == "STABILITY "@ + fixed(q.num as nat, q.den as nat, 0) + "%"@
            &&& g.color == steadiness_color(q)
        },
{
    if let Some(g) = stability_gauge_spec(gaming, q, height) {
        if q.num <= 100 * q.den {
            assert(g.filled.num * (100 * q.den) == q.num * g.filled.den) by (nonlinear_arith)
                requires
                    g.filled.num == q.num,
                    g.filled.den == q.den * 100,
            ;
        }
    }
}

/// The newest incident is on top of the log, and those before it follow as they
/// were; nothing is shown twice, and no more than fits.
pub proof fn the_newest_incident_is_on_top(
    incidents: Seq<IncidentView>,
    clocks: Seq<Seq<char>>,
    i: IncidentView,
    clock: Seq<char>,
    visible: int,
)
    requires
        clocks.len() == incidents.len(),
        visible >= 0,
    ensures
        log_lines(incidents.push(i), clocks.push(clock), visible + 1) == seq![
            incident_line(i, clock),
        ] + log_lines(incidents, clocks, visible),
        log_lines(incidents, clocks, visible).len() <= visible,
        log_lines(Seq::empty(), Seq::empty(), visible).len() == 0,
{
    assert(log_lines(incidents.push(i), clocks.push(clock), visible + 1) =~= seq![
        incident_line(i, clock),
    ] + log_lines(incidents, clocks, visible));
}

/// An incident is shown with its time, its kind and what it says.
pub proof fn incidents_are_shown_in_full(i: IncidentView, clock: Seq<char>)
    ensures
        incident_line(i, clock).says(" "@ + clock + " "@, " "@ + i.kind.name() + " "@),
        incident_line(i, clock).says(" "@ + i.kind.name() + " "@, " "@ + i.detail),
{
    let l = incident_line(i, clock);
    assert(l.spans[0].text == " "@ + clock + " "@);
    assert(l.spans[1].text == " "@ + i.kind.name() + " "@);
}

/// A probe that came back is as high in the graph as it took milliseconds, to the
/// nearest; a lost one has no height.
pub proof fn probes_are_as_high_as_they_took(ns: u64)
    ensures
        -500_000 <= graph_height(Some(ns)) * 1_000_000 - ns <= 500_000,
        graph_height(None) == 0,
{
}

/// The banner tells of a pause before anything else, then of a monitor at rest,
/// then of trouble, by its latest incident, and else of how long all has been
/// well.
pub proof fn the_banner_tells_the_state(m: MonitorView, trouble: bool, stable_for: u64)
    ensures
        ({
            let l = banner_head(m, trouble, stable_for);
            &&& m.paused ==> l.spans[0].text == "[paused] "@
            &&& !m.paused && !m.running ==> l.spans[0].text == "[idle] "@
            &&& !m.paused && m.running && trouble && m.incidents.len() > 0 ==> l.spans[0].text
                == " !! NETWORK TROUBLE DETECTED - "@ + m.incidents.last().detail + " "@
            &&& !m.paused && m.running && !trouble ==> l.says(
                "monitoring"@,
                " · stable for "@ + decimal(stable_for as nat) + "s"@,
            )
        }),
{
    let l = banner_head(m, trouble, stable_for);
    if !m.paused && m.running && !trouble {
        assert(l.spans[1].text == "monitoring"@);
    }
}

/// A popup is in the middle, to within a column and a row, and at most 62 columns
/// wide, with two columns left at either side.
pub proof fn popups_are_in_the_middle(area: Area, height: u16)
    requires
        area.x + area.width <= u16::MAX,
        area.y + area.height <= u16::MAX,
        height <= area.height,
    ensures
        ({
            let p = popup_area(area, height);
            let (left, right) = (p.x - area.x, area.x + area.width - (p.x + p.width));
            let (above, below) = (p.y - area.y, area.y + area.height - (p.y + p.height));
            &&& 0 <= right - left <= 1
            &&& 0 <= below - above <= 1
            &&& area.width >= 66 ==> p.width == 62
            &&& 4 <= area.width < 66 ==> left == 2 && right == 2
            &&& p.height == height
        }),
{
}

/// The cursor is there in every other frame.
pub proof fn the_cursor_blinks(frame: int)
    ensures
        cursor(frame) != cursor(frame + 1),
        cursor(frame) == cursor(frame + 2),
{
    reveal_strlit("█");
    reveal_strlit(" ");
    assert("█"@[0] != " "@[0]);
}

} // verus!
