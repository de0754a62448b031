//! The information strip, the tab bar and the panels of the test tab.

use crate::app::{grade_bps, grade_of, App, AppView, RunState};
use crate::measure::{LiveRate, Quotient, Rate, MEGABIT, MILLISECOND, SUM_LIMIT};
use crate::net::{ConnectionInfo, ConnectionView, LatencyStats, Metrics, Phase, Profile};
use crate::style::{
    add_line, badge, blank, bold, centered_line, fg, line_of, line_views, no_lines, on, opt_line,
    unstyled, Color, Line, LineView,
};
use crate::text::{
    concat, decimal, fixed, fixed_text, integer, pad_left, pad_right, padded_left, padded_right,
    push_decimal, push_integer,
};
use vstd::prelude::*;

verus! {

// ---- colours --------------------------------------------------------------

/// The colour of a data rate in bits per second.
pub open spec fn rate_color(bps: Quotient) -> Color {
    grade_of(bps).1
}

/// The colour of a data rate in bits per second.
pub fn speed_color(bps: &Quotient) -> (c: Color)
    requires
        bps.small(),
    ensures
        c == rate_color(*bps),
{
    grade_bps(bps).1
}

/// The colour of a latency in nanoseconds.
pub open spec fn delay_color(q: Quotient) -> Color {
    if q.lt_tenths(200 * MILLISECOND) {
        Color::Green
    } else if q.lt_tenths(600 * MILLISECOND) {
        Color::Yellow
    } else {
        Color::Red
    }
}

/// The colour of a latency in nanoseconds.
pub fn latency_color(q: &Quotient) -> (c: Color)
    requires
        q.small(),
    ensures
        c == delay_color(*q),
{
    if q.below_tenths(200 * MILLISECOND) {
        Color::Green
    } else if q.below_tenths(600 * MILLISECOND) {
        Color::Yellow
    } else {
        Color::Red
    }
}

/// The colour of a jitter in nanoseconds.
pub open spec fn variation_color(q: Quotient) -> Color {
    if q.lt_tenths(50 * MILLISECOND) {
        Color::Green
    } else if q.lt_tenths(200 * MILLISECOND) {
        Color::Yellow
    } else {
        Color::Red
    }
}

/// The colour of a jitter in nanoseconds.
pub fn jitter_color(q: &Quotient) -> (c: Color)
    requires
        q.small(),
    ensures
        c == variation_color(*q),
{
    if q.below_tenths(50 * MILLISECOND) {
        Color::Green
    } else if q.below_tenths(200 * MILLISECOND) {
        Color::Yellow
    } else {
        Color::Red
    }
}

/// A whole number as a quotient.
pub open spec fn exactly(n: u64) -> Quotient {
    Quotient { num: n as u128, den: 1 }
}

// ---- figures --------------------------------------------------------------

/// A time in nanoseconds as milliseconds.
pub open spec fn millis(q: Quotient, decimals: nat) -> Seq<char> {
    fixed(q.num as nat, (q.den * MILLISECOND) as nat, decimals)
}

/// A rate in bits per second as megabits per second.
pub open spec fn megabits(q: Quotient, decimals: nat) -> Seq<char> {
    fixed(q.num as nat, (q.den * MEGABIT) as nat, decimals)
}

/// A time in nanoseconds as milliseconds.
pub fn millis_text(q: &Quotient, decimals: u8) -> (s: String)
    requires
        q.small(),
        decimals <= 2,
    ensures
        s@ == millis(*q, decimals as nat),
{
    assert(q.den * MILLISECOND == q.den * 1_000_000);
    fixed_text(q.num, q.den * 1_000_000, decimals)
}

/// A rate in bits per second as megabits per second.
pub fn megabits_text(q: &Quotient, decimals: u8) -> (s: String)
    requires
        q.small(),
        decimals <= 2,
    ensures
        s@ == megabits(*q, decimals as nat),
{
    assert(q.den * MEGABIT == q.den * 1_000_000);
    fixed_text(q.num, q.den * 1_000_000, decimals)
}

/// The average of a sum of rates over a number of runs, in megabits per second.
pub open spec fn mean_rate(sum: u128, runs: u64) -> Seq<char> {
    fixed(sum as nat, (runs * 1_000_000_000_000_000) as nat, 0)
}

/// The average of a sum of times over a number of runs, in milliseconds.
pub open spec fn mean_time(sum: u128, runs: u64) -> Seq<char> {
    fixed(sum as nat, (runs * 27_720_000_000) as nat, 0)
}

fn mean_rate_text(sum: u128, runs: u64) -> (s: String)
    requires
        runs > 0,
        sum <= SUM_LIMIT,
    ensures
        s@ == mean_rate(sum, runs),
{
    fixed_text(sum, runs as u128 * 1_000_000_000_000_000, 0)
}

fn mean_time_text(sum: u128, runs: u64) -> (s: String)
    requires
        runs > 0,
        sum <= SUM_LIMIT,
    ensures
        s@ == mean_time(sum, runs),
{
    fixed_text(sum, runs as u128 * 27_720_000_000, 0)
}

/// A time in whole milliseconds, rounded.
pub open spec fn whole_millis(ns: u64) -> u64 {
    ((ns + 500_000) / 1_000_000) as u64
}

/// A time in whole milliseconds, rounded.
pub fn whole_millis_of(ns: u64) -> (ms: u64)
    ensures
        ms == whole_millis(ns),
{
    ((ns as u128 + 500_000) / 1_000_000) as u64
}

/// Text with something behind it.
fn joined_text(a: &str, b: &str, c: &str) -> (s: String)
    ensures
        s@ == a@ + b@ + c@,
{
    let mut s: String = a.to_owned();
    s.append(b);
    s.append(c);
    s
}

// ---- information strip ----------------------------------------------------

/// The name of the provider, with its number where it is known.
pub open spec fn provider(c: ConnectionView) -> Seq<char> {
    match c.asn {
        Some(asn) => c.as_organization + " (AS"@ + integer(asn as int) + ")"@,
        None => c.as_organization,
    }
}

/// The name of the provider, with its number where it is known.
pub fn isp_label(c: &ConnectionInfo) -> (s: String)
    ensures
        s@ == provider(c@),
{
    let mut s: String = c.as_organization.as_str().to_owned();
    if let Some(asn) = c.asn {
        s.append(" (AS");
        push_integer(&mut s, asn);
        s.append(")");
    }
    s
}

/// Whether an optional text is there and not empty.
pub open spec fn told(s: Option<Seq<char>>) -> bool {
    s is Some && s->0.len() > 0
}

/// Where the connection is: city and country as far as they are known, else the
/// data centre.
pub open spec fn place_name(c: ConnectionView) -> Seq<char> {
    if told(c.city) && told(c.country) {
        c.city->0 + " | "@ + c.country->0
    } else if told(c.city) {
        c.city->0
    } else if told(c.country) {
        c.country->0
    } else {
        match c.colo {
            Some(colo) => colo,
            None => "unknown"@,
        }
    }
}

/// An optional text, where it is there and not empty.
fn told_text(s: &Option<String>) -> (t: Option<String>)
    ensures
        match t {
            Some(t) => crate::text::opt_text(*s) == Some(t@) && t@.len() > 0,
            None => !told(crate::text::opt_text(*s)),
        },
{
    match s {
        Some(v) => {
            if v.as_str().is_empty() {
                None
            } else {
                Some(v.as_str().to_owned())
            }
        },
        None => None,
    }
}

/// Where the connection is: city and country as far as they are known, else the
/// data centre.
pub fn location_label(c: &ConnectionInfo) -> (s: String)
    ensures
        s@ == place_name(c@),
{
    match (told_text(&c.city), told_text(&c.country)) {
        (Some(city), Some(country)) => joined_text(city.as_str(), " | ", country.as_str()),
        (Some(city), None) => city,
        (None, Some(country)) => country,
        (None, None) => match &c.colo {
            Some(colo) => colo.as_str().to_owned(),
            None => "unknown".to_owned(),
        },
    }
}

/// A cell of the strip: its label above its value.
pub open spec fn cell_lines(label: Seq<char>, value: Seq<char>, color: Color) -> Seq<LineView> {
    Seq::empty().push(
        blank().with("▌ "@, fg(color)).with(pad_right(label, 9), bold(Color::DarkGray)),
    ).push(blank().with("  "@ + value, bold(color)))
}

/// A cell of the strip: its label above its value.
pub fn info_cell(label: &str, value: &str, color: Color) -> (t: Vec<Line>)
    ensures
        line_views(t@) == cell_lines(label@, value@, color),
{
    let mut head = Line::new();
    head.put("▌ ", fg(color));
    let label = padded_right(label, 9);
    head.put(label.as_str(), bold(Color::DarkGray));
    let value = concat("  ", value);
    let mut t = no_lines();
    add_line(&mut t, head);
    add_line(&mut t, line_of(value.as_str(), bold(color)));
    t
}

/// The strip on top: address, provider and place of the connection.
#[derive(Debug)]
pub struct InfoStrip {
    pub ip: Vec<Line>,
    pub isp: Vec<Line>,
    pub location: Vec<Line>,
}

/// What is shown behind known values while they are looked up again.
pub open spec fn refresh_note(refreshing: bool) -> Seq<char> {
    if refreshing {
        "  [F5]"@
    } else {
        ""@
    }
}

/// The strip on top. Known values stay while they are looked up again.
pub fn info_strip(app: &App) -> (strip: InfoStrip)
    ensures
        match app@.connection {
            Some(c) => ({
                let note = refresh_note(app@.connection_refreshing);
                &&& line_views(strip.ip@) == cell_lines("IP"@, c.client_ip + note, Color::Cyan)
                &&& line_views(strip.isp@) == cell_lines(
                    "ISP"@,
                    provider(c) + note,
                    Color::LightMagenta,
                )
                &&& line_views(strip.location@) == cell_lines(
                    "LOCATION"@,
                    place_name(c) + note,
                    Color::LightGreen,
                )
            }),
            None => ({
                &&& line_views(strip.ip@) == cell_lines("IP"@, "…"@, Color::Cyan)
                &&& line_views(strip.isp@) == Seq::empty().push(
                    blank().with("▌ ISP   resolving…"@, fg(Color::DarkGray)),
                )
                &&& line_views(strip.location@) == cell_lines(
                    "LOCATION"@,
                    "resolving…"@,
                    Color::LightGreen,
                )
            }),
        },
{
    reveal(crate::app::opt_connection);
    match &app.connection {
        Some(c) => {
            let note = if app.connection_refreshing {
                "  [F5]"
            } else {
                ""
            };
            let ip = concat(c.client_ip.as_str(), note);
            let isp = isp_label(c);
            let isp = concat(isp.as_str(), note);
            let place = location_label(c);
            let place = concat(place.as_str(), note);
            InfoStrip {
                ip: info_cell("IP", ip.as_str(), Color::Cyan),
                isp: info_cell("ISP", isp.as_str(), Color::LightMagenta),
                location: info_cell("LOCATION", place.as_str(), Color::LightGreen),
            }
        },
        None => {
            let mut isp = no_lines();
            add_line(&mut isp, line_of("▌ ISP   resolving…", fg(Color::DarkGray)));
            InfoStrip {
                ip: info_cell("IP", "…", Color::Cyan),
                isp,
                location: info_cell("LOCATION", "resolving…", Color::LightGreen),
            }
        },
    }
}

// ---- frame ----------------------------------------------------------------

/// Whether a terminal is too small for the layout.
pub fn too_small(width: u16, height: u16) -> (yes: bool)
    ensures
        yes == (width < 50 || height < 12),
{
    width < 50 || height < 12
}

/// The notice in a terminal that is too small.
pub fn too_small_notice() -> (l: Line)
    ensures
        l@ == blank().with(
            "terminal too small — resize to at least 50×12"@,
            fg(Color::Yellow),
        ).in_the_middle(),
{
    centered_line("terminal too small — resize to at least 50×12", fg(Color::Yellow))
}

/// The title of the tab at position `i` of the tab bar.
pub open spec fn tab_title_spec(i: int) -> Seq<char> {
    if i == 0 {
        " Test "@
    } else if i == 1 {
        " Monitor "@
    } else if i == 2 {
        " Modem "@
    } else if i == 3 {
        " History "@
    } else {
        " Help "@
    }
}

/// The title of the tab at position `i` of the tab bar.
pub fn tab_title(i: usize) -> (s: &'static str)
    ensures
        s@ == tab_title_spec(i as int),
{
    match i {
        0 => " Test ",
        1 => " Monitor ",
        2 => " Modem ",
        3 => " History ",
        _ => " Help ",
    }
}

/// A frame of the spinner. Classic ASCII frames render in every terminal font.
pub open spec fn spinner_frame(frame: int) -> Seq<char> {
    if frame == 0 {
        "|"@
    } else if frame == 1 {
        "/"@
    } else if frame == 2 {
        "-"@
    } else {
        "\\"@
    }
}

/// A frame of the spinner.
pub fn spinner(frame: usize) -> (s: &'static str)
    ensures
        s@ == spinner_frame(frame as int),
{
    match frame {
        0 => "|",
        1 => "/",
        2 => "-",
        _ => "\\",
    }
}

// ---- latency panel --------------------------------------------------------

/// The figures of a latency measurement.
pub open spec fn latency_lines(lat: LatencyStats) -> Seq<LineView> {
    let dim = fg(Color::DarkGray);
    let color = delay_color(lat.avg.nanos());
    Seq::empty().push(
        blank().with(" avg "@, dim).with(millis(lat.avg.nanos(), 1) + " ms"@, bold(color)).with(
            "   min "@,
            dim,
        ).with(millis(exactly(lat.min_ns), 1), fg(color)).with(" ms"@, dim),
    ).push(
        blank().with(" max "@, dim).with(millis(exactly(lat.max_ns), 1), fg(color)).with(
            " ms   "@,
            dim,
        ).with("jitter "@, dim).with(
            millis(lat.jitter.nanos(), 1) + " ms"@,
            bold(variation_color(lat.jitter.nanos())),
        ),
    ).push(blank())
}

fn latency_text(lat: &LatencyStats) -> (t: Vec<Line>)
    ensures
        line_views(t@) == latency_lines(*lat),
{
    let dim = fg(Color::DarkGray);
    let mean = lat.avg.time();
    let spread = lat.jitter.time();
    let color = latency_color(&mean);
    let avg = millis_text(&mean, 1);
    let avg = concat(avg.as_str(), " ms");
    let min = millis_text(&Quotient { num: lat.min_ns as u128, den: 1 }, 1);
    let max = millis_text(&Quotient { num: lat.max_ns as u128, den: 1 }, 1);
    let jitter = millis_text(&spread, 1);
    let jitter = concat(jitter.as_str(), " ms");
    let mut a = Line::new();
    a.put(" avg ", dim);
    a.put(avg.as_str(), bold(color));
    a.put("   min ", dim);
    a.put(min.as_str(), fg(color));
    a.put(" ms", dim);
    let mut b = Line::new();
    b.put(" max ", dim);
    b.put(max.as_str(), fg(color));
    b.put(" ms   ", dim);
    b.put("jitter ", dim);
    b.put(jitter.as_str(), bold(jitter_color(&spread)));
    let mut t = no_lines();
    add_line(&mut t, a);
    add_line(&mut t, b);
    add_line(&mut t, Line::new());
    t
}

/// The latency panel.
#[derive(Debug)]
pub struct LatencyPanel {
    /// What stands in place of data where there is none.
    pub notice: Option<Line>,
    /// The figures, once they are known.
    pub figures: Option<Vec<Line>>,
    /// The round-trip times so far, in whole milliseconds.
    pub pings: Vec<u64>,
}

/// What an optional text says.
pub open spec fn opt_lines(t: Option<Vec<Line>>) -> Option<Seq<LineView>> {
    match t {
        Some(t) => Some(line_views(t@)),
        None => None,
    }
}

fn whole_millis_list(list: &Vec<u64>) -> (out: Vec<u64>)
    ensures
        out@ == list@.map_values(|ns: u64| whole_millis(ns)),
{
    let mut out: Vec<u64> = Vec::new();
    let mut i: usize = 0;
    while i < list.len()
        invariant
            i <= list@.len(),
            out@ == list@.take(i as int).map_values(|ns: u64| whole_millis(ns)),
        decreases list@.len() - i,
    {
        out.push(whole_millis_of(list[i]));
        i = i + 1;
        assert(out@ =~= list@.take(i as int).map_values(|ns: u64| whole_millis(ns)));
    }
    assert(list@.take(i as int) =~= list@);
    out
}

/// The latency panel: while there is no data, a spinner or a hint; then the
/// figures and the round-trip times.
pub fn latency_panel(app: &App) -> (p: LatencyPanel)
    ensures
        ({
            let empty = app@.pings.len() == 0 && app@.run_state != RunState::Finished;
            &&& opt_line(p.notice) == (if !empty {
                None
            } else if app@.run_state == RunState::Running {
                Some(
                    blank().with(
                        spinner_frame(app@.spinner_frame as int),
                        unstyled(),
                    ).in_the_middle(),
                )
            } else {
                Some(blank().with("no data — run a test"@, fg(Color::DarkGray)).in_the_middle())
            })
            &&& opt_lines(p.figures) == (match app@.latency {
                Some(lat) => if empty {
                    None
                } else {
                    Some(latency_lines(lat))
                },
                None => None,
            })
            &&& p.pings@ == app@.pings.map_values(|ns: u64| whole_millis(ns))
        }),
{
    let pings = whole_millis_list(&app.pings);
    if app.pings.len() == 0 && app.run_state != RunState::Finished {
        let notice = if app.run_state == RunState::Running {
            centered_line(spinner(app.spinner_frame), unstyled())
        } else {
            centered_line("no data — run a test", fg(Color::DarkGray))
        };
        return LatencyPanel { notice: Some(notice), figures: None, pings };
    }
    let figures = match &app.latency {
        Some(lat) => Some(latency_text(lat)),
        None => None,
    };
    LatencyPanel { notice: None, figures, pings }
}

// ---- profile panel --------------------------------------------------------

/// The row of a profile.
pub open spec fn profile_line(p: Profile, selected: bool) -> LineView {
    let style = if selected {
        bold(Color::Cyan)
    } else {
        fg(Color::Gray)
    };
    blank().with(
        " "@ + (if selected {
            ">"@
        } else {
            " "@
        }) + " "@,
        style,
    ).with(pad_right(p.title(), 9), style).with(
        decimal(p.seconds().0 as nat) + "s down / "@ + decimal(p.seconds().1 as nat) + "s up"@,
        fg(Color::DarkGray),
    )
}

/// The row of a profile.
pub fn profile_row(p: Profile, selected: bool) -> (l: Line)
    ensures
        l@ == profile_line(p, selected),
{
    let style = if selected {
        bold(Color::Cyan)
    } else {
        fg(Color::Gray)
    };
    let marker = joined_text(
        " ",
        if selected {
            ">"
        } else {
            " "
        },
        " ",
    );
    let name = padded_right(p.name(), 9);
    let secs = p.phase_seconds();
    let mut times: String = String::new();
    push_decimal(&mut times, secs.0 as u128);
    times.append("s down / ");
    push_decimal(&mut times, secs.1 as u128);
    times.append("s up");
    assert(times@ =~= decimal(p.seconds().0 as nat) + "s down / "@ + decimal(
        p.seconds().1 as nat,
    ) + "s up"@);
    let mut l = Line::new();
    l.put(marker.as_str(), style);
    l.put(name.as_str(), style);
    l.put(times.as_str(), fg(Color::DarkGray));
    l
}

/// The line below the profiles: the mode while no test runs, the progress of
/// the session once a run is completed.
pub open spec fn mode_line(s: AppView) -> Option<LineView> {
    if s.run_state != RunState::Running {
        Some(
            if s.continuous_mode {
                blank().with(" "@, unstyled()).with(">"@, bold(Color::LightMagenta)).with(
                    " "@ + pad_right("Continuous"@, 9),
                    bold(Color::LightMagenta),
                ).with("[Ins]"@, fg(Color::DarkGray))
            } else {
                blank().with(" "@, unstyled()).with(" "@, fg(Color::DarkGray)).with(
                    " "@ + pad_right("Single"@, 9),
                    fg(Color::Gray),
                ).with("[Ins]"@, fg(Color::DarkGray))
            },
        )
    } else if s.runs_completed > 0 {
        Some(
            blank().with(" "@, unstyled()).with(
                "runs: "@ + decimal(s.runs_completed as nat) + "   avg dl "@ + mean_rate(
                    s.agg_down_sum,
                    s.runs_completed,
                ) + " / up "@ + mean_rate(s.agg_up_sum, s.runs_completed) + " Mbps"@,
                fg(Color::LightMagenta),
            ),
        )
    } else {
        None
    }
}

/// The line below the profiles: the mode while no test runs, the progress of
/// the session once a run is completed.
pub fn mode_row(app: &App) -> (l: Option<Line>)
    requires
        app@.valid(),
    ensures
        opt_line(l) == mode_line(app@),
{
    if app.run_state != RunState::Running {
        let mut l = Line::new();
        l.put(" ", unstyled());
        if app.continuous_mode {
            let label = padded_right("Continuous", 9);
            let label = concat(" ", label.as_str());
            l.put(">", bold(Color::LightMagenta));
            l.put(label.as_str(), bold(Color::LightMagenta));
        } else {
            let label = padded_right("Single", 9);
            let label = concat(" ", label.as_str());
            l.put(" ", fg(Color::DarkGray));
            l.put(label.as_str(), fg(Color::Gray));
        }
        l.put("[Ins]", fg(Color::DarkGray));
        return Some(l);
    }
    if app.runs_completed > 0 {
        let mut text: String = "runs: ".to_owned();
        push_decimal(&mut text, app.runs_completed as u128);
        text.append("   avg dl ");
        let down = mean_rate_text(app.agg_down_sum, app.runs_completed);
        text.append(down.as_str());
        text.append(" / up ");
        let up = mean_rate_text(app.agg_up_sum, app.runs_completed);
        text.append(up.as_str());
        text.append(" Mbps");
        let mut l = Line::new();
        l.put(" ", unstyled());
        l.put(text.as_str(), fg(Color::LightMagenta));
        return Some(l);
    }
    None
}

// ---- status panel ---------------------------------------------------------

/// A gauge: its label, its colours and how full it is.
#[derive(Debug)]
pub struct Gauge {
    pub label: String,
    pub color: Color,
    pub bg: Option<Color>,
    /// Between zero and one.
    pub filled: Quotient,
}

/// The contents of a [`Gauge`].
pub struct GaugeView {
    pub label: Seq<char>,
    pub color: Color,
    pub bg: Option<Color>,
    pub filled: Quotient,
}

impl View for Gauge {
    type V = GaugeView;

    open spec fn view(&self) -> GaugeView {
        GaugeView { label: self.label@, color: self.color, bg: self.bg, filled: self.filled }
    }
}

/// What the status panel shows.
#[derive(Debug)]
pub enum StatusBody {
    /// How to start.
    Invitation(Vec<Line>),
    /// A running measurement.
    Progress { figure: Line, gauge: Gauge, hint: Option<Line> },
    /// Nothing: there is nothing to measure yet.
    Quiet,
    /// The results of the session.
    Results { result: Line, session: Option<Line> },
    /// A session without a result.
    Stopped(Line),
}

/// What a [`StatusBody`] says.
pub enum StatusBodyView {
    Invitation(Seq<LineView>),
    Progress { figure: LineView, gauge: GaugeView, hint: Option<LineView> },
    Quiet,
    Results { result: LineView, session: Option<LineView> },
    Stopped(LineView),
}

impl View for StatusBody {
    type V = StatusBodyView;

    open spec fn view(&self) -> StatusBodyView {
        match *self {
            StatusBody::Invitation(t) => StatusBodyView::Invitation(line_views(t@)),
            StatusBody::Progress { figure, gauge, hint } => StatusBodyView::Progress {
                figure: figure@,
                gauge: gauge@,
                hint: opt_line(hint),
            },
            StatusBody::Quiet => StatusBodyView::Quiet,
            StatusBody::Results { result, session } => StatusBodyView::Results {
                result: result@,
                session: opt_line(session),
            },
            StatusBody::Stopped(l) => StatusBodyView::Stopped(l@),
        }
    }
}

/// The title of the status panel and its colour.
pub open spec fn status_title_spec(s: AppView) -> (Seq<char>, Color) {
    match s.run_state {
        RunState::Idle => (" STATUS "@, Color::DarkGray),
        RunState::Running => (
            " "@ + spinner_frame(s.spinner_frame as int) + " "@ + s.phase.name() + " "@,
            Color::Yellow,
        ),
        RunState::Finished => (" RESULTS "@, Color::Green),
    }
}

/// The title of the status panel and its colour.
pub fn status_title(app: &App) -> (t: (String, Color))
    ensures
        (t.0@, t.1) == status_title_spec(app@),
{
    match app.run_state {
        RunState::Idle => (" STATUS ".to_owned(), Color::DarkGray),
        RunState::Running => {
            let mut s: String = " ".to_owned();
            s.append(spinner(app.spinner_frame));
            s.append(" ");
            s.append(app.phase.label());
            s.append(" ");
            (s, Color::Yellow)
        },
        RunState::Finished => (" RESULTS ".to_owned(), Color::Green),
    }
}

/// How to start a test.
pub open spec fn invitation(continuous: bool) -> Seq<LineView> {
    Seq::empty().push(blank()).push(
        blank().with("Press ENTER to start the test"@, bold(Color::Cyan)).in_the_middle(),
    ).push(
        blank().with(
            if continuous {
                "continuous mode — tests repeat until you press ENTER again"@
            } else {
                "press M for continuous mode · powered by the Cloudflare network"@
            },
            fg(Color::DarkGray),
        ).in_the_middle(),
    )
}

fn invitation_text(continuous: bool) -> (t: Vec<Line>)
    ensures
        line_views(t@) == invitation(continuous),
{
    let mut t = no_lines();
    add_line(&mut t, Line::new());
    add_line(&mut t, centered_line("Press ENTER to start the test", bold(Color::Cyan)));
    let hint = if continuous {
        "continuous mode — tests repeat until you press ENTER again"
    } else {
        "press M for continuous mode · powered by the Cloudflare network"
    };
    add_line(&mut t, centered_line(hint, fg(Color::DarkGray)));
    t
}

/// How full the gauge of a data rate is: a gigabit per second fills it, and it
/// is never quite empty.
pub open spec fn rate_filled(bps: Quotient) -> Quotient {
    if !bps.reaches(20 * MEGABIT) {
        Quotient { num: 20, den: 1000 }
    } else if bps.reaches(1000 * MEGABIT) {
        Quotient { num: 1000, den: 1000 }
    } else {
        Quotient { num: bps.num, den: (bps.den * 1_000_000_000) as u128 }
    }
}

/// How full the gauge of the latency phase is: twelve probes fill it, and it is
/// never quite empty.
pub open spec fn probes_filled(probes: int) -> Quotient {
    if probes == 0 {
        Quotient { num: 2, den: 100 }
    } else if probes > 12 {
        Quotient { num: 12, den: 12 }
    } else {
        Quotient { num: probes as u128, den: 12 }
    }
}

fn rate_filled_of(bps: &Quotient) -> (q: Quotient)
    requires
        bps.small(),
    ensures
        q == rate_filled(*bps),
{
    if !bps.at_least(20 * MEGABIT) {
        Quotient { num: 20, den: 1000 }
    } else if bps.at_least(1000 * MEGABIT) {
        Quotient { num: 1000, den: 1000 }
    } else {
        Quotient { num: bps.num, den: bps.den * 1_000_000_000 }
    }
}

fn probes_filled_of(probes: usize) -> (q: Quotient)
    ensures
        q == probes_filled(probes as int),
{
    if probes == 0 {
        Quotient { num: 2, den: 100 }
    } else if probes > 12 {
        Quotient { num: 12, den: 12 }
    } else {
        Quotient { num: probes as u128, den: 12 }
    }
}

/// The momentary rate of a measurement beside its average.
pub open spec fn figure_line(instant: LiveRate, avg: Rate, color: Color) -> LineView {
    blank().with(pad_left(megabits(instant.bits(), 1), 8), bold(color)).with(
        " Mbps"@,
        fg(Color::DarkGray),
    ).with("   avg "@ + megabits(avg.bits(), 1), fg(Color::Gray)).in_the_middle()
}

fn figure_row(instant: LiveRate, avg: Rate, color: Color) -> (l: Line)
    ensures
        l@ == figure_line(instant, avg, color),
{
    let now = megabits_text(&instant.rate(), 1);
    let now = padded_left(now.as_str(), 8);
    let mean = megabits_text(&avg.bps(), 1);
    let mean = concat("   avg ", mean.as_str());
    let mut l = Line::new();
    l.put(now.as_str(), bold(color));
    l.put(" Mbps", fg(Color::DarkGray));
    l.put(mean.as_str(), fg(Color::Gray));
    l.center();
    l
}

/// What the gauge of a running test says of the loop it is part of.
pub open spec fn loop_note(continuous: bool, completed: u64) -> Seq<char> {
    if continuous {
        "  · loop run #"@ + decimal((completed + 1) as nat)
    } else {
        Seq::empty()
    }
}

/// The hint how to stop a loop, where there is room.
pub open spec fn stop_hint(continuous: bool, height: u16) -> Option<LineView> {
    if continuous && height > 5 {
        Some(
            blank().with("ENTER stops after this run"@, fg(Color::DarkGray)).in_the_middle(),
        )
    } else {
        None
    }
}

/// A running measurement: momentary and average rate, and a gauge.
pub open spec fn progress(
    instant: LiveRate,
    avg: Rate,
    label: Seq<char>,
    color: Color,
    filled: Quotient,
    s: AppView,
    height: u16,
) -> StatusBodyView {
    StatusBodyView::Progress {
        figure: figure_line(instant, avg, color),
        gauge: GaugeView {
            label: label + loop_note(s.continuous_mode, s.runs_completed),
            color,
            bg: Some(Color::Rgb(30, 30, 46)),
            filled,
        },
        hint: stop_hint(s.continuous_mode, height),
    }
}

/// What the status panel shows of a running test.
pub open spec fn running_body(s: AppView, height: u16) -> StatusBodyView {
    match s.phase {
        Phase::Download => progress(
            s.down_instant,
            s.down_avg,
            "DOWNLOAD"@,
            rate_color(s.down_instant.bits()),
            rate_filled(s.down_avg.bits()),
            s,
            height,
        ),
        Phase::Upload => progress(
            s.up_instant,
            s.up_avg,
            "UPLOAD"@,
            rate_color(s.up_instant.bits()),
            rate_filled(s.up_avg.bits()),
            s,
            height,
        ),
        Phase::Latency => progress(
            LiveRate::zero(),
            Rate::zero(),
            "LATENCY"@,
            Color::Magenta,
            probes_filled(s.pings.len() as int),
            s,
            height,
        ),
        _ => StatusBodyView::Quiet,
    }
}

fn progress_body(
    instant: LiveRate,
    avg: Rate,
    label: &str,
    color: Color,
    filled: Quotient,
    app: &App,
    height: u16,
) -> (b: StatusBody)
    requires
        app@.runs_completed < u64::MAX,
    ensures
        b@ == progress(instant, avg, label@, color, filled, app@, height),
{
    let mut text: String = label.to_owned();
    if app.continuous_mode {
        let mut note: String = "  · loop run #".to_owned();
        push_decimal(&mut note, app.runs_completed as u128 + 1);
        text.append(note.as_str());
    } else {
        assert(text@ =~= text@ + Seq::<char>::empty());
    }
    let hint = if app.continuous_mode && height > 5 {
        Some(centered_line("ENTER stops after this run", fg(Color::DarkGray)))
    } else {
        None
    };
    StatusBody::Progress {
        figure: figure_row(instant, avg, color),
        gauge: Gauge { label: text, color, bg: Some(Color::Rgb(30, 30, 46)), filled },
        hint,
    }
}

fn running_status(app: &App, height: u16) -> (b: StatusBody)
    requires
        app@.runs_completed < u64::MAX,
    ensures
        b@ == running_body(app@, height),
{
    match app.phase {
        Phase::Download => progress_body(
            app.down_instant,
            app.down_avg,
            "DOWNLOAD",
            speed_color(&app.down_instant.rate()),
            rate_filled_of(&app.down_avg.bps()),
            app,
            height,
        ),
        Phase::Upload => progress_body(
            app.up_instant,
            app.up_avg,
            "UPLOAD",
            speed_color(&app.up_instant.rate()),
            rate_filled_of(&app.up_avg.bps()),
            app,
            height,
        ),
        Phase::Latency => progress_body(
            LiveRate::zero(),
            Rate::zero(),
            "LATENCY",
            Color::Magenta,
            probes_filled_of(app.pings.len()),
            app,
            height,
        ),
        _ => StatusBody::Quiet,
    }
}

/// The results of a run: grade, rates and ping.
pub open spec fn result_line(m: Metrics) -> LineView {
    let (grade, grade_color) = grade_of(m.down.bits());
    let down = rate_color(m.down.bits());
    let up = rate_color(m.up.bits());
    blank().with(" "@ + seq![grade] + " "@, badge(Color::Black, grade_color)).with(
        "  "@,
        unstyled(),
    ).with("down "@, fg(down)).with(megabits(m.down.bits(), 1) + " Mbps"@, bold(down)).with(
        "   up "@,
        fg(up),
    ).with(megabits(m.up.bits(), 1) + " Mbps"@, bold(up)).with(
        "   ping "@,
        fg(delay_color(m.latency.avg.nanos())),
    ).with(millis(m.latency.avg.nanos(), 0) + " ms"@, fg(Color::Gray)).in_the_middle()
}

/// A character between two spaces.
pub fn spaced_char(c: char) -> (s: String)
    ensures
        s@ == " "@ + seq![c] + " "@,
{
    let mut s: String = " ".to_owned();
    s.push(c);
    s.append(" ");
    assert(s@ =~= " "@ + seq![c] + " "@);
    s
}

fn result_row(m: &Metrics) -> (l: Line)
    ensures
        l@ == result_line(*m),
{
    let (grade, grade_color) = App::grade(m.down);
    let down = speed_color(&m.down.bps());
    let up = speed_color(&m.up.bps());
    let delay = m.latency.avg.time();
    let mark = spaced_char(grade);
    let down_text = megabits_text(&m.down.bps(), 1);
    let down_text = concat(down_text.as_str(), " Mbps");
    let up_text = megabits_text(&m.up.bps(), 1);
    let up_text = concat(up_text.as_str(), " Mbps");
    let ping = millis_text(&delay, 0);
    let ping = concat(ping.as_str(), " ms");
    let mut l = Line::new();
    l.put(mark.as_str(), badge(Color::Black, grade_color));
    l.put("  ", unstyled());
    l.put("down ", fg(down));
    l.put(down_text.as_str(), bold(down));
    l.put("   up ", fg(up));
    l.put(up_text.as_str(), bold(up));
    l.put("   ping ", fg(latency_color(&delay)));
    l.put(ping.as_str(), fg(Color::Gray));
    l.center();
    l
}

/// The totals of the session, where it has completed runs.
pub open spec fn session_line(s: AppView) -> Option<LineView> {
    if s.runs_completed > 1 {
        Some(
            blank().with(
                "session: "@ + decimal(s.runs_completed as nat) + " runs · avg down "@ + mean_rate(
                    s.agg_down_sum,
                    s.runs_completed,
                ) + " / up "@ + mean_rate(s.agg_up_sum, s.runs_completed) + " Mbps · best "@ + megabits(
                    s.best_down.bits(),
                    0,
                ) + " · avg ping "@ + mean_time(s.agg_ping_sum, s.runs_completed) + " ms"@,
                fg(Color::LightMagenta),
            ).in_the_middle(),
        )
    } else if s.runs_completed == 1 {
        Some(
            blank().with(
                "1 completed run — results saved to history"@,
                fg(Color::DarkGray),
            ).in_the_middle(),
        )
    } else {
        None
    }
}

fn session_row(app: &App) -> (l: Option<Line>)
    requires
        app@.valid(),
    ensures
        opt_line(l) == session_line(app@),
{
    if app.runs_completed > 1 {
        let mut text: String = "session: ".to_owned();
        push_decimal(&mut text, app.runs_completed as u128);
        text.append(" runs · avg down ");
        let down = mean_rate_text(app.agg_down_sum, app.runs_completed);
        text.append(down.as_str());
        text.append(" / up ");
        let up = mean_rate_text(app.agg_up_sum, app.runs_completed);
        text.append(up.as_str());
        text.append(" Mbps · best ");
        let best = megabits_text(&app.best_down.bps(), 0);
        text.append(best.as_str());
        text.append(" · avg ping ");
        let ping = mean_time_text(app.agg_ping_sum, app.runs_completed);
        text.append(ping.as_str());
        text.append(" ms");
        return Some(centered_line(text.as_str(), fg(Color::LightMagenta)));
    }
    if app.runs_completed == 1 {
        return Some(
            centered_line("1 completed run — results saved to history", fg(Color::DarkGray)),
        );
    }
    None
}

/// What the status panel shows.
pub open spec fn status_spec(s: AppView, height: u16) -> StatusBodyView {
    match s.run_state {
        RunState::Idle => StatusBodyView::Invitation(invitation(s.continuous_mode)),
        RunState::Running => running_body(s, height),
        RunState::Finished => match s.metrics {
            Some(m) => StatusBodyView::Results { result: result_line(m), session: session_line(s) },
            None => StatusBodyView::Stopped(
                blank().with(
                    "stopped — no completed runs in this session"@,
                    fg(Color::Yellow),
                ).in_the_middle(),
            ),
        },
    }
}

/// What the status panel shows in an area of the given height: how to start, the
/// running measurement, or the results.
pub fn status_body(app: &App, height: u16) -> (b: StatusBody)
    requires
        app@.valid(),
        app@.runs_completed < u64::MAX,
    ensures
        b@ == status_spec(app@, height),
{
    match app.run_state {
        RunState::Idle => StatusBody::Invitation(invitation_text(app.continuous_mode)),
        RunState::Running => running_status(app, height),
        RunState::Finished => match &app.metrics {
            Some(m) => StatusBody::Results { result: result_row(m), session: session_row(app) },
            None => StatusBody::Stopped(
                centered_line("stopped — no completed runs in this session", fg(Color::Yellow)),
            ),
        },
    }
}

/// The error that is shown, where there is one.
pub fn error_row(app: &App) -> (l: Option<Line>)
    ensures
        opt_line(l) == (match app@.error {
            Some(e) => Some(
                blank().with(" ERROR: "@ + e + " "@, on(Color::Black, Color::Red)),
            ),
            None => None,
        }),
{
    match &app.error {
        Some(e) => {
            let text = joined_text(" ERROR: ", e.as_str(), " ");
            Some(line_of(text.as_str(), on(Color::Black, Color::Red)))
        },
        None => None,
    }
}

// ---- graph panel ----------------------------------------------------------

/// Which samples a throughput graph shows.
#[derive(Debug, Clone, Copy, PartialEq, Eq, Structural)]
pub enum Series {
    Nothing,
    Download,
    Upload,
}

/// The throughput graph: its title, its colour and what it shows.
#[derive(Debug)]
pub struct GraphPanel {
    pub title: &'static str,
    pub color: Color,
    pub series: Series,
    /// What stands in place of samples where there are none.
    pub hint: Option<&'static str>,
}

/// The title, the colour and the samples of the throughput graph.
pub open spec fn graph_head(s: AppView) -> (Seq<char>, Color, Series) {
    match s.run_state {
        RunState::Running => match s.phase {
            Phase::Upload => (
                " LIVE THROUGHPUT - UPLOAD "@,
                Color::LightMagenta,
                Series::Upload,
            ),
            Phase::Download => (
                " LIVE THROUGHPUT - DOWNLOAD "@,
                Color::LightBlue,
                Series::Download,
            ),
            _ => (" THROUGHPUT "@, Color::DarkGray, Series::Nothing),
        },
        RunState::Finished => (" THROUGHPUT - LAST RUN "@, Color::Blue, Series::Download),
        RunState::Idle => (" THROUGHPUT "@, Color::DarkGray, Series::Nothing),
    }
}

/// The samples of a series.
pub open spec fn series_of(s: AppView, series: Series) -> Seq<u64> {
    match series {
        Series::Nothing => Seq::empty(),
        Series::Download => s.down_samples,
        Series::Upload => s.up_samples,
    }
}

/// What stands in place of samples.
pub open spec fn graph_hint(run_state: RunState) -> Seq<char> {
    match run_state {
        RunState::Idle => "throughput graph will appear here during the test"@,
        RunState::Running => "warming up…"@,
        RunState::Finished => ""@,
    }
}

/// The throughput graph.
pub fn graph_panel(app: &App) -> (g: GraphPanel)
    ensures
        (g.title@, g.color, g.series) == graph_head(app@),
        match g.hint {
            Some(h) => series_of(app@, g.series).len() == 0 && h@ == graph_hint(app@.run_state),
            None => series_of(app@, g.series).len() > 0,
        },
{
    let (title, color, series) = match app.run_state {
        RunState::Running => match app.phase {
            Phase::Upload => (
                " LIVE THROUGHPUT - UPLOAD ",
                Color::LightMagenta,
                Series::Upload,
            ),
            Phase::Download => (
                " LIVE THROUGHPUT - DOWNLOAD ",
                Color::LightBlue,
                Series::Download,
            ),
            _ => (" THROUGHPUT ", Color::DarkGray, Series::Nothing),
        },
        RunState::Finished => (" THROUGHPUT - LAST RUN ", Color::Blue, Series::Download),
        RunState::Idle => (" THROUGHPUT ", Color::DarkGray, Series::Nothing),
    };
    let n: usize = match series {
        Series::Nothing => 0,
        Series::Download => app.down_samples.len(),
        Series::Upload => app.up_samples.len(),
    };
    let hint: Option<&'static str> = if n > 0 {
        None
    } else {
        Some(
            match app.run_state {
                RunState::Idle => "throughput graph will appear here during the test",
                RunState::Running => "warming up…",
                RunState::Finished => "",
            },
        )
    };
    GraphPanel { title, color, series, hint }
}

// ---- laws -----------------------------------------------------------------

/// Each figure of a latency measurement stands behind its own name, in
/// milliseconds.
pub proof fn latency_figures_stand_behind_their_names(lat: LatencyStats)
    ensures
        ({
            let t = latency_lines(lat);
            let (avg, jitter) = (lat.avg.nanos(), lat.jitter.nanos());
            &&& t.len() == 3
            &&& t[0].says(" avg "@, fixed(avg.num as nat, (avg.den * 1_000_000) as nat, 1) + " ms"@)
            &&& t[0].says("   min "@, fixed(lat.min_ns as nat, 1_000_000, 1))
            &&& t[1].says(" max "@, fixed(lat.max_ns as nat, 1_000_000, 1))
            &&& t[1].says(
                "jitter "@,
                fixed(jitter.num as nat, (jitter.den * 1_000_000) as nat, 1) + " ms"@,
            )
        }),
{
    let t = latency_lines(lat);
    assert(t[0].spans[0].text == " avg "@);
    assert(t[0].spans[2].text == "   min "@);
    assert(t[1].spans[0].text == " max "@);
    assert(t[1].spans[3].text == "jitter "@);
}

/// Each result of a run stands behind its own name: the rates in megabits per
/// second, the ping in milliseconds, all behind the grade.
pub proof fn results_stand_behind_their_names(m: Metrics)
    ensures
        ({
            let l = result_line(m);
            let (down, up, ping) = (m.down.bits(), m.up.bits(), m.latency.avg.nanos());
            &&& l.spans[0].text == " "@ + seq![grade_of(down).0] + " "@
            &&& l.says(
                "down "@,
                fixed(down.num as nat, (down.den * 1_000_000) as nat, 1) + " Mbps"@,
            )
            &&& l.says("   up "@, fixed(up.num as nat, (up.den * 1_000_000) as nat, 1) + " Mbps"@)
            &&& l.says(
                "   ping "@,
                fixed(ping.num as nat, (ping.den * 1_000_000) as nat, 0) + " ms"@,
            )
            &&& l.centered
        }),
{
    let l = result_line(m);
    assert(l.spans[2].text == "down "@);
    assert(l.spans[4].text == "   up "@);
    assert(l.spans[6].text == "   ping "@);
}

/// A running test shows the rates and the gauge of the phase it is in, under the
/// name of that phase; the latency phase has no rate, and the connection check
/// shows nothing.
pub proof fn the_status_shows_its_own_phase(s: AppView, height: u16)
    requires
        s.run_state == RunState::Running,
        !s.continuous_mode,
    ensures
        ({
            let b = status_spec(s, height);
            &&& s.phase == Phase::Download ==> (b matches StatusBodyView::Progress {
                figure,
                gauge,
                hint,
            } && figure == figure_line(s.down_instant, s.down_avg, gauge.color) && gauge.label
                == "DOWNLOAD"@ && gauge.filled == rate_filled(s.down_avg.bits()) && hint is None)
            &&& s.phase == Phase::Upload ==> (b matches StatusBodyView::Progress {
                figure,
                gauge,
                hint,
            } && figure == figure_line(s.up_instant, s.up_avg, gauge.color) && gauge.label
                == "UPLOAD"@ && gauge.filled == rate_filled(s.up_avg.bits()) && hint is None)
            &&& s.phase == Phase::Latency ==> (b matches StatusBodyView::Progress {
                figure,
                gauge,
                hint,
            } && gauge.label == "LATENCY"@ && gauge.filled == probes_filled(s.pings.len() as int))
            &&& s.phase == Phase::Connect ==> b == StatusBodyView::Quiet
        }),
{
    assert("DOWNLOAD"@ + Seq::<char>::empty() =~= "DOWNLOAD"@);
    assert("UPLOAD"@ + Seq::<char>::empty() =~= "UPLOAD"@);
    assert("LATENCY"@ + Seq::<char>::empty() =~= "LATENCY"@);
}

/// In a loop the gauge counts the run that is under way, from one on, and the hint
/// how to stop stands below where there is room for it.
pub proof fn loops_are_counted(s: AppView, height: u16)
    requires
        s.run_state == RunState::Running,
        s.continuous_mode,
        s.phase == Phase::Download,
    ensures
        status_spec(s, height) matches StatusBodyView::Progress { figure, gauge, hint }
            && gauge.label == "DOWNLOAD"@ + ("  · loop run #"@ + decimal(
            (s.runs_completed + 1) as nat,
        )) && (hint is Some <==> height > 5),
{
}

/// The rate of the moment stands before the average, both in megabits per second.
pub proof fn a_measurement_shows_both_rates(instant: LiveRate, avg: Rate, color: Color)
    ensures
        ({
            let l = figure_line(instant, avg, color);
            let a = avg.bits();
            &&& l.says(
                pad_left(fixed(instant.fine(), 1_000_000_000_000_000, 1), 8),
                " Mbps"@,
            )
            &&& l.says(
                " Mbps"@,
                "   avg "@ + fixed(a.num as nat, (a.den * 1_000_000) as nat, 1),
            )
        }),
{
    let l = figure_line(instant, avg, color);
    assert(instant.bits().num == instant.fine());
    assert(l.spans[0].text == pad_left(fixed(instant.fine(), 1_000_000_000_000_000, 1), 8));
    assert(l.spans[1].text == " Mbps"@);
}

/// What is shown of a finished session: its results where a run was completed,
/// else that there are none.
pub proof fn finished_sessions_show_their_results(s: AppView, height: u16)
    requires
        s.run_state == RunState::Finished,
    ensures
        s.metrics matches Some(m) ==> status_spec(s, height) == (StatusBodyView::Results {
            result: result_line(m),
            session: session_line(s),
        }),
        s.metrics is None ==> status_spec(s, height) is Stopped,
        session_line(s) is Some <==> s.runs_completed > 0,
{
}

/// The averages of a session are those of its runs, to the nearest whole megabit
/// per second and millisecond: of sums in billionths of a bit per second, and in
/// grains, of which a nanosecond has 27720.
pub proof fn averages_are_per_run(sum: u128, runs: u64)
    requires
        runs > 0,
    ensures
        exists|q: nat| #[trigger]
            crate::text::shows(mean_rate(sum, runs), 0, q) && crate::text::nearest(
                q,
                sum as nat,
                (runs * 1_000_000_000_000_000) as nat,
            ),
        exists|q: nat| #[trigger]
            crate::text::shows(mean_time(sum, runs), 0, q) && crate::text::nearest(
                q,
                sum as nat,
                (runs * 27_720_000_000) as nat,
            ),
{
    let total = sum as nat;
    let d = (runs * 1_000_000_000_000_000) as nat;
    crate::text::figures_are_shown_to_the_nearest(total, d, 0);
    let q = choose|q: nat| #[trigger]
        crate::text::shows(fixed(total, d, 0), 0, q) && crate::text::nearest(q, total, d);
    assert(mean_rate(sum, runs) == fixed(total, d, 0));
    assert(crate::text::shows(mean_rate(sum, runs), 0, q));
    let e = (runs * 27_720_000_000) as nat;
    crate::text::figures_are_shown_to_the_nearest(total, e, 0);
    let r = choose|r: nat| #[trigger]
        crate::text::shows(fixed(total, e, 0), 0, r) && crate::text::nearest(r, total, e);
    assert(mean_time(sum, runs) == fixed(total, e, 0));
    assert(crate::text::shows(mean_time(sum, runs), 0, r));
}

/// A latency is green under 20 ms, yellow under 60 ms and else red; a jitter green
/// under 5 ms, yellow under 20 ms and else red.
pub proof fn times_have_their_colours(q: Quotient)
    ensures
        delay_color(q) == Color::Green <==> q.num < 20_000_000 * q.den,
        delay_color(q) == Color::Yellow <==> 20_000_000 * q.den <= q.num < 60_000_000 * q.den,
        delay_color(q) == Color::Red <==> q.num >= 60_000_000 * q.den && q.num >= 20_000_000
            * q.den,
        variation_color(q) == Color::Green <==> q.num < 5_000_000 * q.den,
        variation_color(q) == Color::Yellow <==> 5_000_000 * q.den <= q.num < 20_000_000 * q.den,
        variation_color(q) == Color::Red <==> q.num >= 20_000_000 * q.den && q.num >= 5_000_000
            * q.den,
{
}

/// The gauge of a rate is filled in proportion to it, a gigabit per second being
/// full; it is never more than full and never under two percent.
pub proof fn rate_gauges_are_in_proportion(q: Quotient)
    requires
        q.small(),
    ensures
        ({
            let f = rate_filled(q);
            &&& f.den > 0
            &&& f.num <= f.den && 100 * f.num >= 2 * f.den
            &&& 20_000_000 * q.den <= q.num <= 1_000_000_000 * q.den ==> f.num * (1_000_000_000
                * q.den) == q.num * f.den
            &&& q.num > 1_000_000_000 * q.den ==> f.num == f.den
            &&& q.num < 20_000_000 * q.den ==> 100 * f.num == 2 * f.den
        }),
{
    let f = rate_filled(q);
    assert(q.den * 1_000_000_000 <= u128::MAX);
    if q.reaches(1000 * MEGABIT) {
        if q.num == 1_000_000_000 * q.den {
            assert(f.num * (1_000_000_000 * q.den) == q.num * f.den) by (nonlinear_arith)
                requires
                    f.num == 1000,
                    f.den == 1000,
                    q.num == 1_000_000_000 * q.den,
            ;
        }
    } else if q.reaches(20 * MEGABIT) {
        assert(f.num * (1_000_000_000 * q.den) == q.num * f.den) by (nonlinear_arith)
            requires
                f.num == q.num,
                f.den == q.den * 1_000_000_000,
        ;
    }
}

/// The gauge of the latency phase is filled by a twelfth per probe, and is never
/// quite empty nor more than full.
pub proof fn probe_gauges_are_in_twelfths(n: int)
    requires
        n >= 0,
    ensures
        ({
            let f = probes_filled(n);
            &&& 1 <= n <= 12 ==> 12 * f.num == n * f.den
            &&& n > 12 ==> f.num == f.den
            &&& n == 0 ==> 100 * f.num == 2 * f.den
            &&& f.den > 0
        }),
{
}

/// A time in whole milliseconds is the nearest one.
pub proof fn whole_milliseconds_are_the_nearest(ns: u64)
    ensures
        -500_000 <= whole_millis(ns) * 1_000_000 - ns <= 500_000,
{
}

/// The graph shows the samples of the phase that runs, and those of the download
/// once the session is over.
pub proof fn the_graph_shows_its_own_phase(s: AppView)
    ensures
        s.run_state == RunState::Running && s.phase == Phase::Upload ==> series_of(
            s,
            graph_head(s).2,
        ) == s.up_samples,
        s.run_state == RunState::Running && s.phase == Phase::Download ==> series_of(
            s,
            graph_head(s).2,
        ) == s.down_samples,
        s.run_state == RunState::Finished ==> series_of(s, graph_head(s).2) == s.down_samples,
        s.run_state == RunState::Idle || (s.run_state == RunState::Running && s.phase
            != Phase::Download && s.phase != Phase::Upload) ==> series_of(s, graph_head(s).2).len()
            == 0,
{
}

/// The place is told by what is known of it: city and country, one of them, or the
/// data centre; the provider by its name and, where it is known, its number.
pub proof fn places_are_told_by_what_is_known(c: ConnectionView)
    ensures
        ({
            let city = c.city is Some && c.city->0.len() > 0;
            let country = c.country is Some && c.country->0.len() > 0;
            &&& city && country ==> place_name(c) == c.city->0 + " | "@ + c.country->0
            &&& city && !country ==> place_name(c) == c.city->0
            &&& !city && country ==> place_name(c) == c.country->0
            &&& !city && !country && c.colo is Some ==> place_name(c) == c.colo->0
            &&& !city && !country && c.colo is None ==> place_name(c) == "unknown"@
        }),
        c.asn is None ==> provider(c) == c.as_organization,
        c.asn is Some ==> provider(c) == c.as_organization + " (AS"@ + integer(c.asn->0 as int)
            + ")"@,
{
}

/// Each profile has its own row with its name and its seconds, and only the
/// selected one is marked.
pub proof fn profiles_have_their_rows(p: Profile, selected: bool)
    ensures
        ({
            let l = profile_line(p, selected);
            &&& l.says(
                pad_right(p.title(), 9),
                decimal(p.seconds().0 as nat) + "s down / "@ + decimal(p.seconds().1 as nat)
                    + "s up"@,
            )
            &&& l.spans[0].text == " "@ + (if selected {
                ">"@
            } else {
                " "@
            }) + " "@
        }),
{
    let l = profile_line(p, selected);
    assert(l.spans[1].text == pad_right(p.title(), 9));
}

} // verus!
