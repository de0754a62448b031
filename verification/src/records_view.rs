//! The history tab and the help tab.

use crate::app::{grade_of, App};
use crate::history::{RecordView, TestRecord};
use crate::keys::{binding, binding_spec, KeyDef, KeyDefView, Scope, KEYMAP_LEN};
use crate::measure::Quotient;
use crate::panels::{
    delay_color, latency_color, megabits, megabits_text, millis, millis_text, rate_color,
    spaced_char, speed_color,
};
use crate::style::{
    add_line, badge, blank, bold, centered_line, fg, line_of, line_views, no_lines, on, Color, Line,
    LineView,
};
use crate::text::{
    concat, decimal, decimal_text, fixed, join, joined, pad_left, padded_left, push_decimal, texts,
};
use vstd::prelude::*;

verus! {

// ---- history --------------------------------------------------------------

/// The title of the history.
pub fn history_title(app: &App) -> (s: String)
    ensures
        s@ == " HISTORY ("@ + decimal(app@.history.len()) + " runs) "@,
{
    proof {
        crate::history::record_views_follow(app.history@, 0);
    }
    let mut s: String = " HISTORY (".to_owned();
    push_decimal(&mut s, app.history.len() as u128);
    s.append(" runs) ");
    s
}

/// The hint in an empty history.
pub fn empty_history_row() -> (l: Line)
    ensures
        l@ == blank().with(
            "no runs yet — complete a test to record history"@,
            fg(Color::DarkGray),
        ).in_the_middle(),
{
    centered_line("no runs yet — complete a test to record history", fg(Color::DarkGray))
}

/// The headings of the history, one span per column.
pub open spec fn history_headings() -> LineView {
    let dim = fg(Color::DarkGray);
    blank().with("#"@, dim).with("when"@, dim).with("grade"@, dim).with("download"@, dim).with(
        "upload"@,
        dim,
    ).with("ping"@, dim).with("jitter"@, dim).with("profile"@, dim)
}

/// The headings of the history, one span per column.
pub fn history_header_row() -> (l: Line)
    ensures
        l@ == history_headings(),
{
    let dim = fg(Color::DarkGray);
    let mut l = Line::new();
    l.put("#", dim);
    l.put("when", dim);
    l.put("grade", dim);
    l.put("download", dim);
    l.put("upload", dim);
    l.put("ping", dim);
    l.put("jitter", dim);
    l.put("profile", dim);
    l
}

/// A record of the history, one span per column. `when` is its date and time
/// of day.
pub open spec fn history_cells(idx: int, r: RecordView, when: Seq<char>) -> LineView {
    blank().with(decimal((idx + 1) as nat), fg(Color::DarkGray)).with(when, fg(Color::Gray)).with(
        " "@ + seq![r.grade] + " "@,
        on(Color::Black, grade_of(r.down.bits()).1),
    ).with(
        pad_left(megabits(r.down.bits(), 1), 7) + " Mbps"@,
        fg(rate_color(r.down.bits())),
    ).with(pad_left(megabits(r.up.bits(), 1), 7) + " Mbps"@, fg(rate_color(r.up.bits()))).with(
        pad_left(millis(r.ping.nanos(), 0), 5) + " ms"@,
        fg(delay_color(r.ping.nanos())),
    ).with(pad_left(millis(r.jitter.nanos(), 1), 5) + " ms"@, fg(Color::Gray)).with(
        r.profile,
        fg(Color::Cyan),
    )
}

fn figure(text: String, width: usize, unit: &str) -> (s: String)
    ensures
        s@ == pad_left(text@, width as nat) + unit@,
{
    let s = padded_left(text.as_str(), width);
    concat(s.as_str(), unit)
}

/// A record of the history, one span per column. `when` is its date and time
/// of day.
pub fn history_row(idx: usize, r: &TestRecord, when: &str) -> (l: Line)
    ensures
        l@ == history_cells(idx as int, r@, when@),
{
    let number = decimal_text(idx as u128 + 1);
    let mark = spaced_char(r.grade);
    let down = figure(megabits_text(&r.down.bps(), 1), 7, " Mbps");
    let up = figure(megabits_text(&r.up.bps(), 1), 7, " Mbps");
    let ping = figure(millis_text(&r.ping.time(), 0), 5, " ms");
    let jitter = figure(millis_text(&r.jitter.time(), 1), 5, " ms");
    let mut l = Line::new();
    l.put(number.as_str(), fg(Color::DarkGray));
    l.put(when, fg(Color::Gray));
    l.put(mark.as_str(), on(Color::Black, App::grade(r.down).1));
    l.put(down.as_str(), fg(speed_color(&r.down.bps())));
    l.put(up.as_str(), fg(speed_color(&r.up.bps())));
    l.put(ping.as_str(), fg(latency_color(&r.ping.time())));
    l.put(jitter.as_str(), fg(Color::Gray));
    l.put(r.profile.as_str(), fg(Color::Cyan));
    l
}

// ---- help -----------------------------------------------------------------

impl LineView {
    /// With the first `n` names of keys as badges, divided by slashes.
    pub open spec fn with_labels(self, labels: Seq<Seq<char>>, n: int) -> Self
        decreases n,
    {
        if n <= 0 {
            self
        } else {
            let rest = self.with_labels(labels, n - 1);
            (if n > 1 {
                rest.with("/"@, fg(Color::DarkGray))
            } else {
                rest
            }).with(" "@ + labels[n - 1] + " "@, badge(Color::Cyan, Color::Rgb(40, 40, 66)))
        }
    }
}

/// How many names at the front of a list have one character: letter aliases.
pub open spec fn leading_letters(labels: Seq<Seq<char>>) -> nat
    decreases labels.len(),
{
    if labels.len() > 0 && labels[0].len() == 1 {
        1 + leading_letters(labels.drop_first())
    } else {
        0
    }
}

/// What is said of the universal key of a shortcut: all names are single
/// characters, or the first ones are.
pub open spec fn universal_note(labels: Seq<Seq<char>>) -> Option<Seq<char>> {
    let k = leading_letters(labels) as int;
    if labels.len() == 0 {
        None
    } else if k == labels.len() {
        Some("  (universal key)"@)
    } else if labels.len() > 1 && k > 0 {
        Some("  · universal: "@ + join(labels.skip(k), "/"@))
    } else {
        None
    }
}

/// A shortcut in the help text.
pub open spec fn help_line(d: KeyDefView) -> LineView {
    let line = blank().with_labels(d.labels, d.labels.len() as int).with(
        " "@ + d.desc,
        fg(Color::Gray),
    );
    match universal_note(d.labels) {
        Some(note) => line.with(note, fg(Color::DarkGray)),
        None => line,
    }
}

proof fn leading_letters_fit(labels: Seq<Seq<char>>, k: int)
    requires
        0 <= k <= labels.len(),
        forall|j: int| 0 <= j < k ==> (#[trigger] labels[j]).len() == 1,
        k < labels.len() ==> labels[k].len() != 1,
    ensures
        leading_letters(labels) == k,
    decreases labels.len(),
{
    if k > 0 {
        let rest = labels.drop_first();
        assert forall|j: int| 0 <= j < k - 1 implies (#[trigger] rest[j]).len() == 1 by {
            assert(rest[j] == labels[j + 1]);
        }
        leading_letters_fit(rest, k - 1);
    }
}

fn universal_note_of(def: &KeyDef) -> (note: Option<String>)
    ensures
        crate::text::opt_text(note) == universal_note(def@.labels),
{
    let ghost labels = def@.labels;
    let n: usize = def.labels.len();
    let mut k: usize = 0;
    while k < n && def.labels[k].unicode_len() == 1
        invariant
            k <= n,
            n == def.labels@.len(),
            labels == def@.labels,
            forall|j: int| 0 <= j < k ==> (#[trigger] labels[j]).len() == 1,
        decreases n - k,
    {
        assert(labels[k as int] == def.labels@[k as int]@);
        k = k + 1;
    }
    proof {
        if k < n {
            assert(labels[k as int] == def.labels@[k as int]@);
        }
        leading_letters_fit(labels, k as int);
    }
    if n == 0 {
        return None;
    }
    if k == n {
        return Some("  (universal key)".to_owned());
    }
    if n > 1 && k > 0 {
        let mut rest: Vec<String> = Vec::new();
        let mut i: usize = k;
        assert(texts(rest@) =~= labels.subrange(k as int, k as int));
        while i < n
            invariant
                k <= i <= n,
                n == def.labels@.len(),
                labels == def@.labels,
                texts(rest@) == labels.subrange(k as int, i as int),
            decreases n - i,
        {
            let ghost before = rest@;
            rest.push(def.labels[i].to_owned());
            assert(texts(rest@) =~= texts(before).push(labels[i as int]));
            i = i + 1;
            assert(texts(rest@) =~= labels.subrange(k as int, i as int));
        }
        assert(texts(rest@) =~= labels.skip(k as int));
        assert(texts(rest@).len() == rest@.len());
        assert(texts(rest@).take(rest@.len() as int) =~= texts(rest@));
        let names = joined(&rest, rest.len(), "/");
        return Some(concat("  · universal: ", names.as_str()));
    }
    None
}

fn put_labels(line: &mut Line, def: &KeyDef)
    ensures
        final(line)@ == old(line)@.with_labels(def@.labels, def@.labels.len() as int),
{
    let n: usize = def.labels.len();
    let mut i: usize = 0;
    while i < n
        invariant
            i <= n,
            n == def.labels@.len(),
            line@ == old(line)@.with_labels(def@.labels, i as int),
        decreases n - i,
    {
        assert(def@.labels[i as int] == def.labels@[i as int]@);
        if i > 0 {
            line.put("/", fg(Color::DarkGray));
        }
        let mut name: String = " ".to_owned();
        name.append(def.labels[i]);
        name.append(" ");
        line.put(name.as_str(), badge(Color::Cyan, Color::Rgb(40, 40, 66)));
        i = i + 1;
    }
}

/// A shortcut in the help text.
pub fn help_row(def: &KeyDef) -> (l: Line)
    ensures
        l@ == help_line(def@),
{
    let mut l = Line::new();
    put_labels(&mut l, def);
    let desc = concat(" ", def.desc);
    l.put(desc.as_str(), fg(Color::Gray));
    if let Some(note) = universal_note_of(def) {
        l.put(note.as_str(), fg(Color::DarkGray));
    }
    l
}

/// A text with the first `n` shortcuts of the registry that have the given
/// scope.
pub open spec fn with_shortcuts(text: Seq<LineView>, scope: Scope, n: int) -> Seq<LineView>
    decreases n,
{
    if n <= 0 {
        text
    } else {
        let rest = with_shortcuts(text, scope, n - 1);
        let d = binding_spec(n - 1);
        if d.scope == scope {
            rest.push(help_line(d))
        } else {
            rest
        }
    }
}

/// A text with the section of a scope.
pub open spec fn with_section(text: Seq<LineView>, scope: Scope) -> Seq<LineView> {
    with_shortcuts(
        text.push(blank().with(" "@ + scope.name() + " "@, bold(scope.shade()))),
        scope,
        KEYMAP_LEN as int,
    ).push(blank())
}

fn add_section(text: &mut Vec<Line>, scope: Scope)
    ensures
        line_views(final(text)@) == with_section(line_views(old(text)@), scope),
{
    let mut title: String = " ".to_owned();
    title.append(scope.label());
    title.append(" ");
    add_line(text, line_of(title.as_str(), bold(scope.color())));
    let ghost head = line_views(text@);
    let mut i: usize = 0;
    while i < KEYMAP_LEN
        invariant
            i <= KEYMAP_LEN,
            line_views(text@) == with_shortcuts(head, scope, i as int),
        decreases KEYMAP_LEN - i,
    {
        let def = binding(i);
        if def.scope == scope {
            add_line(text, help_row(&def));
        }
        i = i + 1;
    }
    add_line(text, Line::new());
}

/// A text with a note.
pub open spec fn with_note(text: Seq<LineView>, note: Seq<char>) -> Seq<LineView> {
    text.push(blank().with(" "@ + note, fg(Color::DarkGray)))
}

fn add_note(text: &mut Vec<Line>, note: &str)
    ensures
        line_views(final(text)@) == with_note(line_views(old(text)@), note@),
{
    let note = concat(" ", note);
    add_line(text, line_of(note.as_str(), fg(Color::DarkGray)));
}

/// A text with the notes of the help tab.
pub open spec fn with_notes(text: Seq<LineView>) -> Seq<LineView> {
    let t = text.push(blank().with("NOTES"@, bold(Color::Magenta)));
    let t = with_note(t, "Trouble detection logs spikes, packet loss, outages and jitter bursts."@);
    let t = with_note(t, "Probes are tiny (~100 bytes): monitoring never loads your connection,"@);
    let t = with_note(t, "and it auto-pauses during speed tests so results stay clean."@);
    let t = with_note(t, "If a test server stops responding, the app aborts with an error"@);
    let t = with_note(t, "message instead of hanging."@);
    let t = with_note(t, "The shortcut bar scrolls by itself when there is not enough room"@);
    with_note(t, "for every entry on screen."@)
}

fn add_notes(text: &mut Vec<Line>)
    ensures
        line_views(final(text)@) == with_notes(line_views(old(text)@)),
{
    add_line(text, line_of("NOTES", bold(Color::Magenta)));
    add_note(text, "Trouble detection logs spikes, packet loss, outages and jitter bursts.");
    add_note(text, "Probes are tiny (~100 bytes): monitoring never loads your connection,");
    add_note(text, "and it auto-pauses during speed tests so results stay clean.");
    add_note(text, "If a test server stops responding, the app aborts with an error");
    add_note(text, "message instead of hanging.");
    add_note(text, "The shortcut bar scrolls by itself when there is not enough room");
    add_note(text, "for every entry on screen.");
}

impl LineView {
    /// With a grade and the rates that earn it.
    pub open spec fn with_grade(self, grade: char, range: Seq<char>, color: Color) -> Self {
        self.with("  "@ + seq![grade] + ": "@ + range + " "@, bold(color))
    }
}

fn put_grade(line: &mut Line, grade: char, range: &str, color: Color)
    ensures
        final(line)@ == old(line)@.with_grade(grade, range@, color),
{
    let mut text: String = "  ".to_owned();
    text.push(grade);
    assert(text@ =~= "  "@ + seq![grade]);
    text.append(": ");
    text.append(range);
    text.append(" ");
    line.put(text.as_str(), bold(color));
}

/// The grades and the rates that earn them.
pub open spec fn grades_line() -> LineView {
    blank().with_grade('S', "≥ 300 Mbps"@, Color::LightGreen).with_grade(
        'A',
        "≥ 100"@,
        Color::Green,
    ).with_grade('B', "≥ 50"@, Color::Yellow).with_grade('C', "≥ 25"@, Color::LightYellow).with_grade(
        'D',
        "≥ 10"@,
        Color::LightRed,
    ).with_grade('F', "< 10"@, Color::Red)
}

fn grades_row() -> (l: Line)
    ensures
        l@ == grades_line(),
{
    let mut l = Line::new();
    put_grade(&mut l, 'S', "≥ 300 Mbps", Color::LightGreen);
    put_grade(&mut l, 'A', "≥ 100", Color::Green);
    put_grade(&mut l, 'B', "≥ 50", Color::Yellow);
    put_grade(&mut l, 'C', "≥ 25", Color::LightYellow);
    put_grade(&mut l, 'D', "≥ 10", Color::LightRed);
    put_grade(&mut l, 'F', "< 10", Color::Red);
    l
}

/// The help text: every shortcut by scope, notes and grades.
pub open spec fn help_spec() -> Seq<LineView> {
    let t = Seq::empty().push(blank());
    let t = with_section(t, Scope::Global);
    let t = with_section(t, Scope::Test);
    let t = with_section(t, Scope::Monitor);
    let t = with_section(t, Scope::Dsl);
    let t = with_section(t, Scope::History);
    with_notes(t).push(blank()).push(
        blank().with("Speed grades are based on download speed:"@, fg(Color::DarkGray)),
    ).push(grades_line())
}

/// The help text. The shortcuts come from the registry, so they can never drift
/// out of sync with what works.
pub fn help_text() -> (t: Vec<Line>)
    ensures
        line_views(t@) == help_spec(),
{
    let mut t = no_lines();
    add_line(&mut t, Line::new());
    add_section(&mut t, Scope::Global);
    add_section(&mut t, Scope::Test);
    add_section(&mut t, Scope::Monitor);
    add_section(&mut t, Scope::Dsl);
    add_section(&mut t, Scope::History);
    add_notes(&mut t);
    add_line(&mut t, Line::new());
    add_line(&mut t, line_of("Speed grades are based on download speed:", fg(Color::DarkGray)));
    add_line(&mut t, grades_row());
    t
}

// ---- laws -----------------------------------------------------------------

proof fn shortcuts_keep(text: Seq<LineView>, scope: Scope, n: int, line: LineView)
    requires
        text.contains(line),
    ensures
        with_shortcuts(text, scope, n).contains(line),
    decreases n,
{
    if n > 0 {
        shortcuts_keep(text, scope, n - 1, line);
        let rest = with_shortcuts(text, scope, n - 1);
        kept_by_push(rest, help_line(binding_spec(n - 1)), line);
    }
}

proof fn kept_by_push(text: Seq<LineView>, x: LineView, line: LineView)
    requires
        text.contains(line) || x == line,
    ensures
        text.push(x).contains(line),
{
    if text.contains(line) {
        let k = choose|k: int| 0 <= k < text.len() && text[k] == line;
        assert(text.push(x)[k] == line);
    } else {
        assert(text.push(x)[text.len() as int] == line);
    }
}

proof fn shortcuts_list(text: Seq<LineView>, scope: Scope, n: int, i: int)
    requires
        0 <= i < n,
        binding_spec(i).scope == scope,
    ensures
        with_shortcuts(text, scope, n).contains(help_line(binding_spec(i))),
    decreases n,
{
    let rest = with_shortcuts(text, scope, n - 1);
    let x = help_line(binding_spec(n - 1));
    if i == n - 1 {
        kept_by_push(rest, x, x);
    } else {
        shortcuts_list(text, scope, n - 1, i);
        kept_by_push(rest, x, help_line(binding_spec(i)));
    }
}

proof fn section_keeps(text: Seq<LineView>, scope: Scope, line: LineView)
    requires
        text.contains(line),
    ensures
        with_section(text, scope).contains(line),
{
    let title = blank().with(" "@ + scope.name() + " "@, bold(scope.shade()));
    kept_by_push(text, title, line);
    shortcuts_keep(text.push(title), scope, KEYMAP_LEN as int, line);
    kept_by_push(with_shortcuts(text.push(title), scope, KEYMAP_LEN as int), blank(), line);
}

proof fn section_lists(text: Seq<LineView>, scope: Scope, i: int)
    requires
        0 <= i < KEYMAP_LEN,
        binding_spec(i).scope == scope,
    ensures
        with_section(text, scope).contains(help_line(binding_spec(i))),
{
    let title = blank().with(" "@ + scope.name() + " "@, bold(scope.shade()));
    shortcuts_list(text.push(title), scope, KEYMAP_LEN as int, i);
    kept_by_push(
        with_shortcuts(text.push(title), scope, KEYMAP_LEN as int),
        blank(),
        help_line(binding_spec(i)),
    );
}

proof fn notes_keep(text: Seq<LineView>, line: LineView)
    requires
        text.contains(line),
    ensures
        with_notes(text).contains(line),
{
    let k = choose|k: int| 0 <= k < text.len() && text[k] == line;
    assert(with_notes(text)[k] == line);
}

/// The help text lists every shortcut there is.
pub proof fn the_help_lists_every_shortcut(i: int)
    requires
        0 <= i < KEYMAP_LEN,
    ensures
        help_spec().contains(help_line(binding_spec(i))),
{
    let line = help_line(binding_spec(i));
    let scope = binding_spec(i).scope;
    let t0 = Seq::empty().push(blank());
    let t1 = with_section(t0, Scope::Global);
    let t2 = with_section(t1, Scope::Test);
    let t3 = with_section(t2, Scope::Monitor);
    let t4 = with_section(t3, Scope::Dsl);
    let t5 = with_section(t4, Scope::History);
    match scope {
        Scope::Global => {
            section_lists(t0, scope, i);
            section_keeps(t1, Scope::Test, line);
            section_keeps(t2, Scope::Monitor, line);
            section_keeps(t3, Scope::Dsl, line);
            section_keeps(t4, Scope::History, line);
        },
        Scope::Test => {
            section_lists(t1, scope, i);
            section_keeps(t2, Scope::Monitor, line);
            section_keeps(t3, Scope::Dsl, line);
            section_keeps(t4, Scope::History, line);
        },
        Scope::Monitor => {
            section_lists(t2, scope, i);
            section_keeps(t3, Scope::Dsl, line);
            section_keeps(t4, Scope::History, line);
        },
        Scope::Dsl => {
            section_lists(t3, scope, i);
            section_keeps(t4, Scope::History, line);
        },
        Scope::History => {
            section_lists(t4, scope, i);
        },
    }
    notes_keep(t5, line);
    let t6 = with_notes(t5);
    let about = blank().with("Speed grades are based on download speed:"@, fg(Color::DarkGray));
    kept_by_push(t6, blank(), line);
    kept_by_push(t6.push(blank()), about, line);
    kept_by_push(t6.push(blank()).push(about), grades_line(), line);
}

/// Every record has a cell under each heading, with the figure that the heading
/// names: the rates in megabits per second, the times in milliseconds.
pub proof fn cells_stand_under_their_headings(idx: int, r: RecordView, when: Seq<char>)
    requires
        idx >= 0,
    ensures
        ({
            let h = history_headings().spans;
            let c = history_cells(idx, r, when).spans;
            let rate = |q: Quotient|
                pad_left(fixed(q.num as nat, (q.den * 1_000_000) as nat, 1), 7) + " Mbps"@;
            let time = |q: Quotient, decimals: nat|
                pad_left(fixed(q.num as nat, (q.den * 1_000_000) as nat, decimals), 5) + " ms"@;
            let cell = |heading: Seq<char>, text: Seq<char>|
                exists|i: int|
                    0 <= i < h.len() && (#[trigger] h[i]).text == heading && c[i].text == text;
            &&& c.len() == h.len()
            &&& cell("#"@, decimal((idx + 1) as nat))
            &&& cell("when"@, when)
            &&& cell("grade"@, " "@ + seq![r.grade] + " "@)
            &&& cell("download"@, rate(r.down.bits()))
            &&& cell("upload"@, rate(r.up.bits()))
            &&& cell("ping"@, time(r.ping.nanos(), 0))
            &&& cell("jitter"@, time(r.jitter.nanos(), 1))
            &&& cell("profile"@, r.profile)
        }),
{
    let h = history_headings().spans;
    assert(h[0].text == "#"@);
    assert(h[1].text == "when"@);
    assert(h[2].text == "grade"@);
    assert(h[3].text == "download"@);
    assert(h[4].text == "upload"@);
    assert(h[5].text == "ping"@);
    assert(h[6].text == "jitter"@);
    assert(h[7].text == "profile"@);
}

/// The help names the grades in the colours in which they are given.
pub proof fn the_help_colours_the_grades(bps: Quotient)
    ensures
        exists|i: int|
            0 <= i < 6 && (#[trigger] grades_line().spans[i]).style == bold(grade_of(bps).1)
                && grades_line().spans[i].text[2] == grade_of(bps).0,
{
    reveal_strlit("  ");
    let t = grades_line().spans;
    let g = grade_of(bps);
    let i: int = if g.0 == 'S' {
        0
    } else if g.0 == 'A' {
        1
    } else if g.0 == 'B' {
        2
    } else if g.0 == 'C' {
        3
    } else if g.0 == 'D' {
        4
    } else {
        5
    };
    assert(t[i].style == bold(g.1));
    assert(t[i].text[2] == g.0);
}

} // verus!
