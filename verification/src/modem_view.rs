//! The modem tab. What the modem does not report is shown as a dash.

use crate::app::App;
use crate::dsl::{
    modem_incident_views, DslSnapshot, ModemIncident, ModemIncidentView, SnapshotView, ATT_CRIT_DB,
    ATT_WARN_DB, SNR_CRIT_DB, SNR_WARN_DB,
};
use crate::measure::MEGABIT;
use crate::modem::{high_level, low_level, opt_snapshot, DslView};
use crate::monitor_view::{cursor, cursor_of};
use crate::style::{
    add_line, badge, blank, bold, centered_line, fg, line_views, no_lines, Color, Line, LineView,
};
use crate::text::{
    concat, decimal, decimal_text, opt_text, pad_right, padded_right, push_decimal,
    push_signed_fixed, signed_fixed, texts,
};
use vstd::prelude::*;

verus! {

// ---- banner ---------------------------------------------------------------

/// The state of the modem poller, and why values are missing where they are.
pub open spec fn modem_banner_spec(d: DslView) -> LineView {
    let dim = fg(Color::DarkGray);
    if d.paused {
        blank().with("[paused] "@, fg(Color::Yellow)).with(
            "modem polling paused - press ENTER to resume"@,
            dim,
        )
    } else if !d.polling {
        blank().with("[idle] "@, dim).with("press ENTER to start polling the modem"@, dim)
    } else {
        match d.current {
            None => blank().with("[waiting] "@, dim).with("looking for the modem…"@, dim),
            Some(s) => if s.available {
                blank().with("LIVE "@, bold(Color::Green)).with(
                    "line statistics from the modem"@,
                    fg(Color::Gray),
                )
            } else {
                blank().with("[unavailable] "@, bold(Color::Red)).with(
                    match s.unavailable_reason {
                        Some(r) => r,
                        None => "no answer"@,
                    },
                    fg(Color::Gray),
                )
            },
        }
    }
}

/// The state of the modem poller, and why values are missing where they are.
pub fn modem_banner(app: &App) -> (l: Line)
    ensures
        l@ == modem_banner_spec(app@.dsl),
{
    reveal(opt_snapshot);
    let dim = fg(Color::DarkGray);
    let mut l = Line::new();
    if app.dsl.paused {
        l.put("[paused] ", fg(Color::Yellow));
        l.put("modem polling paused - press ENTER to resume", dim);
        return l;
    }
    if !app.dsl.polling {
        l.put("[idle] ", dim);
        l.put("press ENTER to start polling the modem", dim);
        return l;
    }
    match &app.dsl.current {
        None => {
            l.put("[waiting] ", dim);
            l.put("looking for the modem…", dim);
        },
        Some(s) => {
            if s.available {
                l.put("LIVE ", bold(Color::Green));
                l.put("line statistics from the modem", fg(Color::Gray));
            } else {
                l.put("[unavailable] ", bold(Color::Red));
                match &s.unavailable_reason {
                    Some(r) => l.put(r.as_str(), fg(Color::Gray)),
                    None => l.put("no answer", fg(Color::Gray)),
                }
            }
        },
    }
    l
}

// ---- values ---------------------------------------------------------------

/// A value, or a dash in its place.
pub open spec fn or_dash(value: Option<Seq<char>>) -> Seq<char> {
    match value {
        Some(v) => v,
        None => "-"@,
    }
}

/// A value with its unit, where it is known.
pub open spec fn measured(
    value: Option<i64>,
    den: nat,
    decimals: nat,
    unit: Seq<char>,
) -> Option<Seq<char>> {
    match value {
        Some(v) => Some(signed_fixed(v as int, den, decimals) + unit),
        None => None,
    }
}

/// A counter, where it is known.
pub open spec fn counted(value: Option<u64>, unit: Seq<char>) -> Option<Seq<char>> {
    match value {
        Some(v) => Some(decimal(v as nat) + unit),
        None => None,
    }
}

fn measured_text(value: Option<i64>, den: u128, decimals: u8, unit: &str) -> (s: Option<String>)
    requires
        0 < den <= u64::MAX,
        decimals <= 2,
    ensures
        opt_text(s) == measured(value, den as nat, decimals as nat, unit@),
{
    match value {
        Some(v) => {
            let mut s: String = String::new();
            push_signed_fixed(&mut s, v, den, decimals);
            s.append(unit);
            assert(s@ =~= signed_fixed(v as int, den as nat, decimals as nat) + unit@);
            Some(s)
        },
        None => None,
    }
}

fn counted_text(value: Option<u64>, unit: &str) -> (s: Option<String>)
    ensures
        opt_text(s) == counted(value, unit@),
{
    match value {
        Some(v) => {
            let s = decimal_text(v as u128);
            Some(concat(s.as_str(), unit))
        },
        None => None,
    }
}

/// The colour of an alert level.
pub open spec fn level_color(level: u8) -> Color {
    if level == 0 {
        Color::Green
    } else if level == 1 {
        Color::Yellow
    } else {
        Color::Red
    }
}

/// The colour of an SNR margin.
pub open spec fn snr_color(value: Option<i64>) -> Color {
    match value {
        Some(v) => level_color(low_level(v, SNR_WARN_DB, SNR_CRIT_DB)),
        None => Color::DarkGray,
    }
}

/// The colour of an attenuation.
pub open spec fn attenuation_color(value: Option<i64>) -> Color {
    match value {
        Some(v) => level_color(high_level(v, ATT_WARN_DB, ATT_CRIT_DB)),
        None => Color::DarkGray,
    }
}

fn snr_color_of(value: Option<i64>) -> (c: Color)
    ensures
        c == snr_color(value),
{
    match value {
        Some(v) => if v < SNR_CRIT_DB {
            Color::Red
        } else if v < SNR_WARN_DB {
            Color::Yellow
        } else {
            Color::Green
        },
        None => Color::DarkGray,
    }
}

fn attenuation_color_of(value: Option<i64>) -> (c: Color)
    ensures
        c == attenuation_color(value),
{
    match value {
        Some(v) => if v > ATT_CRIT_DB {
            Color::Red
        } else if v > ATT_WARN_DB {
            Color::Yellow
        } else {
            Color::Green
        },
        None => Color::DarkGray,
    }
}

/// A labelled value.
pub open spec fn value_line(label: Seq<char>, value: Option<Seq<char>>) -> LineView {
    blank().with(" "@ + pad_right(label, 18), fg(Color::DarkGray)).with(
        or_dash(value),
        bold(Color::Gray),
    )
}

/// A labelled value of both directions.
pub open spec fn direction_line(
    label: Seq<char>,
    down: Option<Seq<char>>,
    down_color: Color,
    up: Option<Seq<char>>,
    up_color: Color,
) -> LineView {
    blank().with(" "@ + pad_right(label, 18), fg(Color::DarkGray)).with(
        pad_right(or_dash(down), 16),
        bold(down_color),
    ).with(or_dash(up), bold(up_color))
}

fn put_label(line: &mut Line, label: &str)
    ensures
        final(line)@ == old(line)@.with(" "@ + pad_right(label@, 18), fg(Color::DarkGray)),
{
    let label = padded_right(label, 18);
    let label = concat(" ", label.as_str());
    line.put(label.as_str(), fg(Color::DarkGray));
}

fn shown_value(value: &Option<String>) -> (s: String)
    ensures
        s@ == or_dash(opt_text(*value)),
{
    match value {
        Some(v) => v.as_str().to_owned(),
        None => "-".to_owned(),
    }
}

fn value_row(label: &str, value: &Option<String>) -> (l: Line)
    ensures
        l@ == value_line(label@, opt_text(*value)),
{
    let mut l = Line::new();
    put_label(&mut l, label);
    let value = shown_value(value);
    l.put(value.as_str(), bold(Color::Gray));
    l
}

fn direction_row(
    label: &str,
    down: Option<String>,
    down_color: Color,
    up: Option<String>,
    up_color: Color,
) -> (l: Line)
    ensures
        l@ == direction_line(label@, opt_text(down), down_color, opt_text(up), up_color),
{
    let mut l = Line::new();
    put_label(&mut l, label);
    let down = shown_value(&down);
    let down = padded_right(down.as_str(), 16);
    let up = shown_value(&up);
    l.put(down.as_str(), bold(down_color));
    l.put(up.as_str(), bold(up_color));
    l
}

/// A number of clients as a counter.
pub open spec fn widened(n: Option<u32>) -> Option<u64> {
    match n {
        Some(n) => Some(n as u64),
        None => None,
    }
}

/// The line status of a snapshot.
pub open spec fn line_status(t: Seq<LineView>, s: SnapshotView) -> Seq<LineView> {
    t.push(value_line("state"@, s.state)).push(value_line("mode"@, s.mode)).push(
        value_line("uptime"@, counted(s.uptime_secs, "s"@)),
    ).push(value_line("firmware"@, s.firmware))
}

/// The figures of both directions of a snapshot.
pub open spec fn direction_figures(t: Seq<LineView>, s: SnapshotView) -> Seq<LineView> {
    let rate = |v: Option<i64>| measured(v, MEGABIT as nat, 2, " Mbps"@);
    t.push(
        direction_line(
            ""@,
            Some("downstream"@),
            Color::DarkGray,
            Some("upstream"@),
            Color::DarkGray,
        ),
    ).push(
        direction_line(
            "SNR margin"@,
            measured(s.snr_down_db, 10_000, 1, " dB"@),
            snr_color(s.snr_down_db),
            measured(s.snr_up_db, 10_000, 1, " dB"@),
            snr_color(s.snr_up_db),
        ),
    ).push(
        direction_line(
            "attenuation"@,
            measured(s.atten_down_db, 10_000, 1, " dB"@),
            attenuation_color(s.atten_down_db),
            measured(s.atten_up_db, 10_000, 1, " dB"@),
            attenuation_color(s.atten_up_db),
        ),
    ).push(
        direction_line(
            "rate"@,
            rate(s.rate_down_bps),
            Color::Cyan,
            rate(s.rate_up_bps),
            Color::Cyan,
        ),
    ).push(
        direction_line(
            "max rate"@,
            rate(s.max_rate_down_bps),
            Color::Gray,
            rate(s.max_rate_up_bps),
            Color::Gray,
        ),
    ).push(
        direction_line(
            "power"@,
            measured(s.power_down_dbm, 10_000, 1, " dBm"@),
            Color::Gray,
            measured(s.power_up_dbm, 10_000, 1, " dBm"@),
            Color::Gray,
        ),
    )
}

/// The values of a snapshot.
pub open spec fn modem_values(s: SnapshotView) -> Seq<LineView> {
    direction_figures(line_status(Seq::empty(), s).push(blank()), s).push(blank()).push(
        value_line("CRC errors"@, counted(s.crc_errors, ""@)),
    ).push(value_line("wireless clients"@, counted(widened(s.wireless_clients), ""@)))
}

fn add_line_status(t: &mut Vec<Line>, s: &DslSnapshot)
    ensures
        line_views(final(t)@) == line_status(line_views(old(t)@), s@),
{
    add_line(t, value_row("state", &s.state));
    add_line(t, value_row("mode", &s.mode));
    let uptime = counted_text(s.uptime_secs, "s");
    add_line(t, value_row("uptime", &uptime));
    add_line(t, value_row("firmware", &s.firmware));
}

fn level_row(
    label: &str,
    down: Option<i64>,
    down_color: Color,
    up: Option<i64>,
    up_color: Color,
    unit: &str,
) -> (l: Line)
    ensures
        l@ == direction_line(
            label@,
            measured(down, 10_000, 1, unit@),
            down_color,
            measured(up, 10_000, 1, unit@),
            up_color,
        ),
{
    let down = measured_text(down, 10_000, 1, unit);
    let up = measured_text(up, 10_000, 1, unit);
    direction_row(label, down, down_color, up, up_color)
}

fn rate_row(label: &str, down: Option<i64>, up: Option<i64>, color: Color) -> (l: Line)
    ensures
        l@ == direction_line(
            label@,
            measured(down, MEGABIT as nat, 2, " Mbps"@),
            color,
            measured(up, MEGABIT as nat, 2, " Mbps"@),
            color,
        ),
{
    let down = measured_text(down, MEGABIT as u128, 2, " Mbps");
    let up = measured_text(up, MEGABIT as u128, 2, " Mbps");
    direction_row(label, down, color, up, color)
}

fn add_direction_figures(t: &mut Vec<Line>, s: &DslSnapshot)
    ensures
        line_views(final(t)@) == direction_figures(line_views(old(t)@), s@),
{
    add_line(
        t,
        direction_row(
            "",
            Some("downstream".to_owned()),
            Color::DarkGray,
            Some("upstream".to_owned()),
            Color::DarkGray,
        ),
    );
    add_line(
        t,
        level_row(
            "SNR margin",
            s.snr_down_db,
            snr_color_of(s.snr_down_db),
            s.snr_up_db,
            snr_color_of(s.snr_up_db),
            " dB",
        ),
    );
    add_line(
        t,
        level_row(
            "attenuation",
            s.atten_down_db,
            attenuation_color_of(s.atten_down_db),
            s.atten_up_db,
            attenuation_color_of(s.atten_up_db),
            " dB",
        ),
    );
    add_line(t, rate_row("rate", s.rate_down_bps, s.rate_up_bps, Color::Cyan));
    add_line(t, rate_row("max rate", s.max_rate_down_bps, s.max_rate_up_bps, Color::Gray));
    add_line(
        t,
        level_row(
            "power",
            s.power_down_dbm,
            Color::Gray,
            s.power_up_dbm,
            Color::Gray,
            " dBm",
        ),
    );
}

fn values_of(s: &DslSnapshot) -> (t: Vec<Line>)
    ensures
        line_views(t@) == modem_values(s@),
{
    let mut t = no_lines();
    add_line_status(&mut t, s);
    add_line(&mut t, Line::new());
    add_direction_figures(&mut t, s);
    add_line(&mut t, Line::new());
    let crc = counted_text(s.crc_errors, "");
    add_line(&mut t, value_row("CRC errors", &crc));
    let clients: Option<u64> = match s.wireless_clients {
        Some(n) => Some(n as u64),
        None => None,
    };
    let clients = counted_text(clients, "");
    add_line(&mut t, value_row("wireless clients", &clients));
    t
}

/// The values of the latest snapshot; dashes before the first one.
pub fn modem_value_rows(app: &App) -> (t: Vec<Line>)
    ensures
        line_views(t@) == modem_values(
            match app@.dsl.current {
                Some(s) => s,
                None => SnapshotView::blank(),
            },
        ),
{
    reveal(opt_snapshot);
    match &app.dsl.current {
        Some(s) => values_of(s),
        None => {
            let s = DslSnapshot::default();
            values_of(&s)
        },
    }
}

// ---- log ------------------------------------------------------------------

/// The title of the modem log.
pub fn modem_log_title(app: &App) -> (s: String)
    ensures
        s@ == " MODEM LOG ("@ + decimal(app@.dsl.incidents.len()) + ") "@,
{
    assert(app@.dsl.incidents.len() == app.dsl.incidents@.len()) by {
        reveal(modem_incident_views);
    }
    let mut s: String = " MODEM LOG (".to_owned();
    push_decimal(&mut s, app.dsl.incidents.len() as u128);
    s.append(") ");
    s
}

/// The hint in an empty modem log.
pub fn empty_modem_log_row() -> (l: Line)
    ensures
        l@ == blank().with(
            "no abnormal line values detected"@,
            fg(Color::DarkGray),
        ).in_the_middle(),
{
    centered_line("no abnormal line values detected", fg(Color::DarkGray))
}

/// One incident of the modem log, with the time of day at which it came up.
pub open spec fn modem_incident_line(i: ModemIncidentView, clock: Seq<char>) -> LineView {
    blank().with(" "@ + clock + " "@, fg(Color::DarkGray)).with(
        " "@ + i.severity.name() + " "@,
        badge(Color::Black, i.severity.shade()),
    ).with(" "@ + i.field + ": "@ + i.observed, fg(Color::Gray)).with(
        " (expected "@ + i.expected + ")"@,
        fg(Color::DarkGray),
    )
}

/// One incident of the modem log, with the time of day at which it came up.
pub fn modem_incident_row(i: &ModemIncident, clock: &str) -> (l: Line)
    ensures
        l@ == modem_incident_line(i@, clock@),
{
    let mut time: String = " ".to_owned();
    time.append(clock);
    time.append(" ");
    let mut severity: String = " ".to_owned();
    severity.append(i.severity.label());
    severity.append(" ");
    let mut what: String = " ".to_owned();
    what.append(i.field);
    what.append(": ");
    what.append(i.observed.as_str());
    let mut expected: String = " (expected ".to_owned();
    expected.append(i.expected.as_str());
    expected.append(")");
    let mut l = Line::new();
    l.put(time.as_str(), fg(Color::DarkGray));
    l.put(severity.as_str(), badge(Color::Black, i.severity.color()));
    l.put(what.as_str(), fg(Color::Gray));
    l.put(expected.as_str(), fg(Color::DarkGray));
    l
}

/// The newest incidents of a modem log, as many as fit, the newest on top.
pub open spec fn modem_log_lines(
    incidents: Seq<ModemIncidentView>,
    clocks: Seq<Seq<char>>,
    visible: int,
) -> Seq<LineView> {
    let n = incidents.len();
    Seq::new(
        (if n > visible {
            visible
        } else {
            n as int
        }) as nat,
        |k: int| modem_incident_line(incidents[n - 1 - k], clocks[n - 1 - k]),
    )
}

/// The newest incidents of the modem log, as many as fit, the newest on top.
/// The clocks give the time of day of every incident of the log.
pub fn modem_log_rows(app: &App, clocks: &Vec<String>, visible: u16) -> (t: Vec<Line>)
    requires
        clocks@.len() == app@.dsl.incidents.len(),
    ensures
        line_views(t@) == modem_log_lines(app@.dsl.incidents, texts(clocks@), visible as int),
{
    let ghost all = app@.dsl.incidents;
    proof {
        reveal(modem_incident_views);
    }
    let n: usize = app.dsl.incidents.len();
    assert(n == all.len());
    let shown: usize = if n > visible as usize {
        visible as usize
    } else {
        n
    };
    let mut t = no_lines();
    let mut k: usize = 0;
    assert(line_views(t@) =~= modem_log_lines(all, texts(clocks@), 0));
    while k < shown
        invariant
            k <= shown <= n,
            n == all.len(),
            n == app.dsl.incidents@.len(),
            n == clocks@.len(),
            all == modem_incident_views(app.dsl.incidents@),
            line_views(t@) == modem_log_lines(all, texts(clocks@), k as int),
        decreases shown - k,
    {
        proof {
            reveal(modem_incident_views);
        }
        let at: usize = n - 1 - k;
        assert(all[at as int] == app.dsl.incidents@[at as int]@);
        assert(texts(clocks@)[at as int] == clocks@[at as int]@);
        add_line(&mut t, modem_incident_row(&app.dsl.incidents[at], clocks[at].as_str()));
        k = k + 1;
        assert(line_views(t@) =~= modem_log_lines(all, texts(clocks@), k as int));
    }
    assert(modem_log_lines(all, texts(clocks@), k as int) =~= modem_log_lines(
        all,
        texts(clocks@),
        visible as int,
    ));
    t
}

// ---- editor ---------------------------------------------------------------

/// A text of the same length that tells nothing else.
pub open spec fn masked(s: Seq<char>) -> Seq<char> {
    Seq::new(s.len(), |i: int| '*')
}

fn masked_text(s: &str) -> (out: String)
    ensures
        out@ == masked(s@),
{
    let n: usize = s.unicode_len();
    let mut out: String = String::new();
    let mut i: usize = 0;
    while i < n
        invariant
            i <= n,
            out@ == Seq::new(i as nat, |k: int| '*'),
        decreases n - i,
    {
        out.push('*');
        i = i + 1;
        assert(out@ =~= Seq::new(i as nat, |k: int| '*'));
    }
    out
}

/// A field of the modem editor.
pub open spec fn field_line(
    label: Seq<char>,
    value: Seq<char>,
    edited: bool,
    frame: int,
) -> LineView {
    let line = blank().with(
        if edited {
            " > "@
        } else {
            "   "@
        },
        fg(Color::Cyan),
    ).with(pad_right(label, 10), fg(Color::DarkGray)).with(value, bold(Color::White));
    if edited {
        line.with(cursor(frame), fg(Color::Cyan))
    } else {
        line
    }
}

fn field_row(label: &str, value: &str, edited: bool, frame: usize) -> (l: Line)
    ensures
        l@ == field_line(label@, value@, edited, frame as int),
{
    let mut l = Line::new();
    l.put(
        if edited {
            " > "
        } else {
            "   "
        },
        fg(Color::Cyan),
    );
    let label = padded_right(label, 10);
    l.put(label.as_str(), fg(Color::DarkGray));
    l.put(value, bold(Color::White));
    if edited {
        l.put(cursor_of(frame), fg(Color::Cyan));
    }
    l
}

/// The lines of the modem editor. The password is never shown.
pub open spec fn modem_editor_lines(d: DslView, frame: int) -> Seq<LineView> {
    Seq::empty().push(field_line("address"@, d.buf_addr, d.edit_field == 0, frame)).push(
        field_line("user"@, d.buf_user, d.edit_field == 1, frame),
    ).push(field_line("password"@, masked(d.buf_pass), d.edit_field == 2, frame)).push(
        blank().with("   UP/DOWN field · ENTER apply · ESC cancel"@, fg(Color::DarkGray)),
    )
}

/// The lines of the modem editor. The password is never shown.
pub fn modem_editor_rows(app: &App) -> (t: Vec<Line>)
    ensures
        line_views(t@) == modem_editor_lines(app@.dsl, app@.spinner_frame as int),
{
    let field: usize = app.dsl.edit_field;
    let frame: usize = app.spinner_frame;
    let hidden = masked_text(app.dsl.buf_pass.as_str());
    let mut t = no_lines();
    add_line(&mut t, field_row("address", app.dsl.buf_addr.as_str(), field == 0, frame));
    add_line(&mut t, field_row("user", app.dsl.buf_user.as_str(), field == 1, frame));
    add_line(&mut t, field_row("password", hidden.as_str(), field == 2, frame));
    let mut hint = Line::new();
    hint.put("   UP/DOWN field · ENTER apply · ESC cancel", fg(Color::DarkGray));
    add_line(&mut t, hint);
    t
}

// ---- laws -----------------------------------------------------------------

/// What a modem does not report is shown as a dash: no value is made up.
pub proof fn unknown_values_are_dashes(s: SnapshotView)
    ensures
        ({
            let t = modem_values(s);
            let wide = pad_right("-"@, 16);
            &&& s.state is None ==> t[0] == value_line("state"@, Some("-"@))
            &&& s.mode is None ==> t[1] == value_line("mode"@, Some("-"@))
            &&& s.uptime_secs is None ==> t[2] == value_line("uptime"@, Some("-"@))
            &&& s.firmware is None ==> t[3] == value_line("firmware"@, Some("-"@))
            &&& s.snr_down_db is None ==> t[6].spans[1].text == wide
            &&& s.snr_up_db is None ==> t[6].spans[2].text == "-"@
            &&& s.atten_down_db is None ==> t[7].spans[1].text == wide
            &&& s.atten_up_db is None ==> t[7].spans[2].text == "-"@
            &&& s.rate_down_bps is None ==> t[8].spans[1].text == wide
            &&& s.rate_up_bps is None ==> t[8].spans[2].text == "-"@
            &&& s.max_rate_down_bps is None ==> t[9].spans[1].text == wide
            &&& s.max_rate_up_bps is None ==> t[9].spans[2].text == "-"@
            &&& s.power_down_dbm is None ==> t[10].spans[1].text == wide
            &&& s.power_up_dbm is None ==> t[10].spans[2].text == "-"@
            &&& s.crc_errors is None ==> t[12] == value_line("CRC errors"@, Some("-"@))
            &&& s.wireless_clients is None ==> t[13] == value_line(
                "wireless clients"@,
                Some("-"@),
            )
        }),
{
}

/// Whether a text has a row with a name and a value of either direction.
pub open spec fn row_of(
    t: Seq<LineView>,
    label: Seq<char>,
    down: Seq<char>,
    up: Seq<char>,
) -> bool {
    exists|i: int|
        0 <= i < t.len() && (#[trigger] t[i]).spans.len() == 3 && t[i].spans[0].text == " "@
            + pad_right(label, 18) && t[i].spans[1].text == pad_right(down, 16)
            && t[i].spans[2].text == up
}

/// A level in dB, with one decimal.
pub open spec fn decibels(v: i64) -> Seq<char> {
    signed_fixed(v as int, 10_000, 1)
}

/// A rate in megabits per second, with two decimals.
pub open spec fn in_megabits(v: i64) -> Seq<char> {
    signed_fixed(v as int, 1_000_000, 2) + " Mbps"@
}

/// Each figure of the line stands in the row of its own name, downstream before
/// upstream.
pub proof fn line_figures_stand_in_their_rows(s: SnapshotView, a: i64, b: i64)
    ensures
        ({
            let t = modem_values(s);
            &&& s.snr_down_db == Some(a) && s.snr_up_db == Some(b) ==> row_of(
                t,
                "SNR margin"@,
                decibels(a) + " dB"@,
                decibels(b) + " dB"@,
            )
            &&& s.atten_down_db == Some(a) && s.atten_up_db == Some(b) ==> row_of(
                t,
                "attenuation"@,
                decibels(a) + " dB"@,
                decibels(b) + " dB"@,
            )
            &&& s.rate_down_bps == Some(a) && s.rate_up_bps == Some(b) ==> row_of(
                t,
                "rate"@,
                in_megabits(a),
                in_megabits(b),
            )
            &&& s.max_rate_down_bps == Some(a) && s.max_rate_up_bps == Some(b) ==> row_of(
                t,
                "max rate"@,
                in_megabits(a),
                in_megabits(b),
            )
            &&& s.power_down_dbm == Some(a) && s.power_up_dbm == Some(b) ==> row_of(
                t,
                "power"@,
                decibels(a) + " dBm"@,
                decibels(b) + " dBm"@,
            )
            &&& row_of(t, ""@, "downstream"@, "upstream"@)
        }),
{
    let t = modem_values(s);
    assert(t[5].spans.len() == 3);
    assert(t[6].spans.len() == 3);
    assert(t[7].spans.len() == 3);
    assert(t[8].spans.len() == 3);
    assert(t[9].spans.len() == 3);
    assert(t[10].spans.len() == 3);
}

/// Each value that both directions share stands behind its own name.
pub proof fn shared_values_stand_behind_their_names(s: SnapshotView)
    ensures
        ({
            let t = modem_values(s);
            let name = |label: Seq<char>| " "@ + pad_right(label, 18);
            &&& s.state matches Some(v) ==> t[0].says(name("state"@), v)
            &&& s.mode matches Some(v) ==> t[1].says(name("mode"@), v)
            &&& s.uptime_secs matches Some(v) ==> t[2].says(
                name("uptime"@),
                decimal(v as nat) + "s"@,
            )
            &&& s.firmware matches Some(v) ==> t[3].says(name("firmware"@), v)
            &&& s.crc_errors matches Some(v) ==> t[12].says(
                name("CRC errors"@),
                decimal(v as nat) + ""@,
            )
            &&& s.wireless_clients matches Some(v) ==> t[13].says(
                name("wireless clients"@),
                decimal(v as nat) + ""@,
            )
            &&& t.len() == 14
        }),
{
    let t = modem_values(s);
    let name = |label: Seq<char>| " "@ + pad_right(label, 18);
    assert(t[0].spans[0].text == name("state"@));
    assert(t[1].spans[0].text == name("mode"@));
    assert(t[2].spans[0].text == name("uptime"@));
    assert(t[3].spans[0].text == name("firmware"@));
    assert(t[12].spans[0].text == name("CRC errors"@));
    assert(t[13].spans[0].text == name("wireless clients"@));
}

/// A noise margin is red under 3 dB and yellow under 6; an attenuation red over 58
/// dB and yellow over 49; else they are green, and grey where they are not known.
pub proof fn levels_have_their_colours(v: i64)
    ensures
        snr_color(Some(v)) == Color::Red <==> v < 30_000,
        snr_color(Some(v)) == Color::Yellow <==> 30_000 <= v < 60_000,
        snr_color(Some(v)) == Color::Green <==> v >= 60_000,
        attenuation_color(Some(v)) == Color::Red <==> v > 580_000,
        attenuation_color(Some(v)) == Color::Yellow <==> 490_000 < v <= 580_000,
        attenuation_color(Some(v)) == Color::Green <==> v <= 490_000,
        snr_color(None) == Color::DarkGray && attenuation_color(None) == Color::DarkGray,
{
}

/// The levels are coloured by their own values, each direction for itself.
pub proof fn each_direction_has_its_colour(s: SnapshotView)
    ensures
        ({
            let t = modem_values(s);
            &&& t[6].spans[1].style == bold(snr_color(s.snr_down_db))
            &&& t[6].spans[2].style == bold(snr_color(s.snr_up_db))
            &&& t[7].spans[1].style == bold(attenuation_color(s.atten_down_db))
            &&& t[7].spans[2].style == bold(attenuation_color(s.atten_up_db))
        }),
{
}

/// The editor shows of the password its length alone: with any other of that
/// length it looks the same. The address and the user are shown as they are, and
/// the field that is edited is the one that is marked.
pub proof fn the_password_is_never_shown(d: DslView, other: Seq<char>, frame: int)
    requires
        other.len() == d.buf_pass.len(),
    ensures
        modem_editor_lines(DslView { buf_pass: other, ..d }, frame) == modem_editor_lines(d, frame),
        ({
            let t = modem_editor_lines(d, frame);
            &&& t[0].says(pad_right("address"@, 10), d.buf_addr)
            &&& t[1].says(pad_right("user"@, 10), d.buf_user)
            &&& forall|i: int|
                0 <= i < 3 ==> ((#[trigger] t[i]).spans[0].text == " > "@ <==> d.edit_field == i)
        }),
{
    assert(masked(other) =~= masked(d.buf_pass));
    let t = modem_editor_lines(d, frame);
    assert(t[0].spans[1].text == pad_right("address"@, 10));
    assert(t[1].spans[1].text == pad_right("user"@, 10));
    reveal_strlit(" > ");
    reveal_strlit("   ");
    assert(" > "@[1] != "   "@[1]);
}

/// The newest incident is on top of the modem log, and those before it follow as
/// they were.
pub proof fn the_newest_modem_incident_is_on_top(
    incidents: Seq<ModemIncidentView>,
    clocks: Seq<Seq<char>>,
    i: ModemIncidentView,
    clock: Seq<char>,
    visible: int,
)
    requires
        clocks.len() == incidents.len(),
        visible >= 0,
    ensures
        modem_log_lines(incidents.push(i), clocks.push(clock), visible + 1) == seq![
            modem_incident_line(i, clock),
        ] + modem_log_lines(incidents, clocks, visible),
        modem_log_lines(incidents, clocks, visible).len() <= visible,
{
    assert(modem_log_lines(incidents.push(i), clocks.push(clock), visible + 1) =~= seq![
        modem_incident_line(i, clock),
    ] + modem_log_lines(incidents, clocks, visible));
}

/// A modem incident is shown with its time, how grave it is, what was seen of which
/// value, and what was expected.
pub proof fn modem_incidents_are_shown_in_full(i: ModemIncidentView, clock: Seq<char>)
    ensures
        ({
            let l = modem_incident_line(i, clock);
            &&& l.says(" "@ + clock + " "@, " "@ + i.severity.name() + " "@)
            &&& l.says(
                " "@ + i.field + ": "@ + i.observed,
                " (expected "@ + i.expected + ")"@,
            )
        }),
{
    let l = modem_incident_line(i, clock);
    assert(l.spans[0].text == " "@ + clock + " "@);
    assert(l.spans[2].text == " "@ + i.field + ": "@ + i.observed);
}

/// The banner tells of a pause before anything else, then of a modem that is not
/// polled, then of one that has not answered yet; of one that has, whether it gave
/// values and, where not, why.
pub proof fn the_modem_banner_tells_the_state(d: DslView)
    ensures
        ({
            let l = modem_banner_spec(d);
            &&& d.paused ==> l.spans[0].text == "[paused] "@
            &&& !d.paused && !d.polling ==> l.spans[0].text == "[idle] "@
            &&& !d.paused && d.polling && d.current is None ==> l.spans[0].text == "[waiting] "@
            &&& !d.paused && d.polling && d.current is Some && d.current->0.available
                ==> l.spans[0].text == "LIVE "@
            &&& !d.paused && d.polling && d.current is Some && !d.current->0.available
                && d.current->0.unavailable_reason is Some ==> l.says(
                "[unavailable] "@,
                d.current->0.unavailable_reason->0,
            )
        }),
{
    let l = modem_banner_spec(d);
    if !d.paused && d.polling && d.current is Some && !d.current->0.available {
        assert(l.spans[0].text == "[unavailable] "@);
    }
}

} // verus!
