//! The shortcut bar: which shortcuts it lists and how it scrolls.

use crate::app::{App, AppView, RunState, Tab};
use crate::keys::{
    binding, binding_spec, scope_of, tab_scope, Action, KeyDef, KeyDefView, Scope, KEYMAP_LEN,
};
use crate::measure::{Moment, MILLISECOND};
use crate::style::{
    badge, blank, fg, span_views, span_views_follow, Color, Line, LineView, Span, SpanView, Style,
};
use crate::text::{chars_of, string_of};
use vstd::prelude::*;

verus! {

// ---- widths ---------------------------------------------------------------

/// The columns that a text takes in a terminal.
pub uninterp spec fn display_width(text: Seq<char>) -> usize;

/// Whether a text holds printable ASCII characters only.
pub open spec fn printable(text: Seq<char>) -> bool {
    forall|i: int| 0 <= i < text.len() ==> ' ' <= #[trigger] text[i] <= '~'
}

/// `ratatui::text::Span::width` on an unstyled span: the columns that a text
/// takes in a terminal, one per character of a text of printable ASCII.
#[verifier::external_body]
pub(crate) fn width_of(text: &str) -> (w: usize)
    ensures
        w == display_width(text@),
        printable(text@) ==> w == text@.len(),
{
    ratatui::text::Span::raw(text).width()
}

/// The columns that a text takes: one per character of printable ASCII.
pub open spec fn text_width(text: Seq<char>) -> nat {
    if printable(text) {
        text.len()
    } else {
        display_width(text) as nat
    }
}

/// The columns that a list of spans takes.
pub open spec fn total_width(spans: Seq<SpanView>) -> nat
    decreases spans.len(),
{
    if spans.len() == 0 {
        0
    } else {
        total_width(spans.drop_last()) + text_width(spans.last().text)
    }
}

/// The columns that a list of spans takes.
pub fn width_of_spans(spans: &Vec<Span>) -> (w: u128)
    ensures
        w == total_width(span_views(spans@)),
        w <= spans@.len() * usize::MAX,
{
    let ghost all = span_views(spans@);
    let mut w: u128 = 0;
    let mut i: usize = 0;
    assert(spans.len() <= usize::MAX);
    assert(all.take(0) =~= Seq::empty());
    while i < spans.len()
        invariant
            i <= spans@.len() <= usize::MAX,
            all == span_views(spans@),
            w == total_width(all.take(i as int)),
            w <= i * usize::MAX,
        decreases spans@.len() - i,
    {
        proof {
            span_views_follow(spans@, spans@[i as int]);
            assert(all.take(i + 1).drop_last() =~= all.take(i as int));
            assert(all.take(i + 1).last() == spans@[i as int]@);
            room(i as nat, w as nat);
        }
        w = w + width_of(spans[i].text.as_str()) as u128;
        i = i + 1;
    }
    proof {
        span_views_follow(spans@, arbitrary());
        assert(all.take(i as int) =~= all);
    }
    w
}

/// Widths of fewer spans than a machine word counts add up within 128 bits.
proof fn room(i: nat, w: nat)
    requires
        i < usize::MAX,
        w <= i * usize::MAX,
    ensures
        w + usize::MAX <= (i + 1) * usize::MAX,
        (i + 1) * usize::MAX <= u128::MAX,
{
    assert((i + 1) * usize::MAX == i * usize::MAX + usize::MAX) by (nonlinear_arith);
    assert((i + 1) * usize::MAX <= usize::MAX * usize::MAX) by (nonlinear_arith)
        requires
            i + 1 <= usize::MAX,
    ;
    assert(usize::MAX * usize::MAX <= u128::MAX) by (nonlinear_arith)
        requires
            usize::MAX <= u64::MAX,
    ;
}

// ---- windows --------------------------------------------------------------

/// The smaller of two numbers.
pub open spec fn lesser(a: int, b: int) -> int {
    if a < b {
        a
    } else {
        b
    }
}

/// The characters of `text` from position `a` up to position `b`, as far as it
/// has them.
pub open spec fn clipped(text: Seq<char>, a: int, b: int) -> Seq<char> {
    text.subrange(lesser(a, text.len() as int), lesser(b, text.len() as int))
}

/// What is seen of spans through a window of columns from `start` up to `end`.
pub open spec fn seen(spans: Seq<SpanView>, start: int, end: int) -> Seq<SpanView>
    decreases spans.len(),
{
    if spans.len() == 0 {
        Seq::empty()
    } else {
        let rest = seen(spans.drop_last(), start, end);
        let span = spans.last();
        let left = total_width(spans.drop_last()) as int;
        let right = left + text_width(span.text);
        if right <= start || left >= end {
            rest
        } else {
            rest.push(
                SpanView {
                    text: clipped(
                        span.text,
                        if start > left {
                            start - left
                        } else {
                            0
                        },
                        lesser(end, right) - left,
                    ),
                    style: span.style,
                },
            )
        }
    }
}

/// The window of `width` columns from `start` on, each span in its own style.
pub open spec fn sliced(spans: Seq<SpanView>, start: int, width: int) -> Seq<SpanView> {
    if width == 0 {
        Seq::empty()
    } else {
        seen(spans, start, start + width)
    }
}

/// The characters of `text` from position `a` up to position `b`, as far as it
/// has them.
fn clip(text: &str, a: u128, b: u128) -> (out: String)
    requires
        a <= b,
    ensures
        out@ == clipped(text@, a as int, b as int),
{
    let chars = chars_of(text);
    let n: usize = chars.len();
    let from: usize = if a < n as u128 {
        a as usize
    } else {
        n
    };
    let to: usize = if b < n as u128 {
        b as usize
    } else {
        n
    };
    string_of(&chars, from, to)
}

/// Extracts a window of columns from styled spans, preserving each span's style
/// and clipping content at both boundaries.
pub fn slice_line(spans: &Vec<Span>, start: usize, width: usize) -> (out: Vec<Span>)
    ensures
        span_views(out@) == sliced(span_views(spans@), start as int, width as int),
{
    let mut out: Vec<Span> = Vec::new();
    assert(span_views(out@) =~= Seq::empty()) by {
        reveal(span_views);
    }
    if width == 0 {
        return out;
    }
    let start: u128 = start as u128;
    let end: u128 = start + width as u128;
    let ghost all = span_views(spans@);
    let mut pos: u128 = 0;
    let mut i: usize = 0;
    assert(spans.len() <= usize::MAX);
    assert(all.take(0) =~= Seq::empty());
    while i < spans.len()
        invariant
            i <= spans@.len() <= usize::MAX,
            all == span_views(spans@),
            start < end,
            pos == total_width(all.take(i as int)),
            pos <= i * usize::MAX,
            span_views(out@) == seen(all.take(i as int), start as int, end as int),
        decreases spans@.len() - i,
    {
        proof {
            span_views_follow(spans@, spans@[i as int]);
            assert(all.take(i + 1).drop_last() =~= all.take(i as int));
            assert(all.take(i + 1).last() == spans@[i as int]@);
            room(i as nat, pos as nat);
        }
        let w: u128 = width_of(spans[i].text.as_str()) as u128;
        let right: u128 = pos + w;
        if !(right <= start || pos >= end) {
            let a: u128 = if start > pos {
                start - pos
            } else {
                0
            };
            let b: u128 = if end < right {
                end - pos
            } else {
                w
            };
            let s = Span { text: clip(spans[i].text.as_str(), a, b), style: spans[i].style };
            proof {
                span_views_follow(out@, s);
            }
            out.push(s);
        }
        pos = right;
        i = i + 1;
    }
    proof {
        span_views_follow(spans@, arbitrary());
        assert(all.take(i as int) =~= all);
    }
    out
}

// ---- scrolling ------------------------------------------------------------

/// Time between two steps of the shortcut bar, in nanoseconds (about nine
/// columns per second: readable, not distracting).
pub const FOOTER_STEP: u64 = 110 * MILLISECOND;

/// Rest of the shortcut bar at either edge, in nanoseconds.
pub const FOOTER_EDGE_PAUSE: u64 = 1500 * MILLISECOND;

/// How far a bar of `total` columns can scroll in a view of `viewport`.
pub open spec fn max_offset(total: u16, viewport: u16) -> u16 {
    if total > viewport {
        (total - viewport) as u16
    } else {
        0
    }
}

/// Where the shortcut bar is, which way it goes (negative: left) and when its
/// next step may happen.
#[derive(Debug, Clone, Copy, PartialEq, Eq, Structural)]
pub struct Marquee {
    pub scroll: u16,
    pub dir: i8,
    pub next_step: Option<u64>,
}

impl Marquee {
    /// One column on, where it is time: back and forth, with a rest at both
    /// ends.
    pub open spec fn stepped(self, total: u16, viewport: u16, now: u64) -> Self {
        let max = max_offset(total, viewport);
        let scroll = if self.scroll > max {
            max
        } else {
            self.scroll
        };
        let waiting = match self.next_step {
            Some(next) => now < next,
            None => false,
        };
        let rest = Some((now + FOOTER_EDGE_PAUSE) as u64);
        let step = Some((now + FOOTER_STEP) as u64);
        if waiting {
            Marquee { scroll, ..self }
        } else if self.dir < 0 {
            if scroll == 0 {
                Marquee { scroll, dir: 1, next_step: rest }
            } else {
                Marquee { scroll: (scroll - 1) as u16, dir: self.dir, next_step: step }
            }
        } else if scroll >= max {
            Marquee { scroll, dir: -1i8, next_step: rest }
        } else {
            Marquee { scroll: (scroll + 1) as u16, dir: self.dir, next_step: step }
        }
    }

    /// One column on, where it is time.
    pub fn step(self, total: u16, viewport: u16, m: Moment) -> (q: Self)
        requires
            m.valid(),
        ensures
            q == self.stepped(total, viewport, m.ticks),
    {
        let max: u16 = if total > viewport {
            total - viewport
        } else {
            0
        };
        let scroll: u16 = if self.scroll > max {
            max
        } else {
            self.scroll
        };
        let now: u64 = m.ticks;
        if let Some(next) = self.next_step {
            if now < next {
                return Marquee { scroll, dir: self.dir, next_step: self.next_step };
            }
        }
        let rest: Option<u64> = Some(now + FOOTER_EDGE_PAUSE);
        let step: Option<u64> = Some(now + FOOTER_STEP);
        if self.dir < 0 {
            if scroll == 0 {
                Marquee { scroll, dir: 1, next_step: rest }
            } else {
                Marquee { scroll: scroll - 1, dir: self.dir, next_step: step }
            }
        } else if scroll >= max {
            Marquee { scroll, dir: -1, next_step: rest }
        } else {
            Marquee { scroll: scroll + 1, dir: self.dir, next_step: step }
        }
    }
}

impl AppView {
    /// The state of the shortcut bar.
    pub open spec fn marquee(self) -> Marquee {
        Marquee {
            scroll: self.footer_scroll,
            dir: self.footer_dir,
            next_step: self.footer_next_step,
        }
    }

    /// With the shortcut bar in another state.
    #[verifier::opaque]
    pub open spec fn with_marquee(self, q: Marquee) -> Self {
        AppView {
            footer_scroll: q.scroll,
            footer_dir: q.dir,
            footer_next_step: q.next_step,
            ..self
        }
    }

    /// With the shortcut bar at rest.
    pub open spec fn footer_reset(self) -> Self {
        self.with_marquee(Marquee { scroll: 0, dir: 1, next_step: None })
    }

    /// With the shortcut bar one column on, where it is time.
    pub open spec fn footer_stepped(self, total: u16, viewport: u16, now: u64) -> Self {
        self.with_marquee(self.marquee().stepped(total, viewport, now))
    }
}

fn set_marquee(app: &mut App, q: Marquee)
    ensures
        final(app)@ == old(app)@.with_marquee(q),
        final(app)@.footer_scroll == q.scroll,
        old(app)@.valid() ==> final(app)@.valid(),
{
    reveal(AppView::with_marquee);
    app.footer_scroll = q.scroll;
    app.footer_dir = q.dir;
    app.footer_next_step = q.next_step;
}

/// Advances the shortcut bar by one column, where it is time, pausing at both
/// edges so that entries can be read before the direction flips.
pub fn advance_footer_marquee(app: &mut App, total: u16, viewport: u16, m: Moment)
    requires
        m.valid(),
    ensures
        final(app)@ == old(app)@.footer_stepped(total, viewport, m.ticks),
        old(app)@.valid() ==> final(app)@.valid(),
{
    let q = Marquee {
        scroll: app.footer_scroll,
        dir: app.footer_dir,
        next_step: app.footer_next_step,
    };
    set_marquee(app, q.step(total, viewport, m));
}

// ---- entries --------------------------------------------------------------

/// What the shortcut bar says of a shortcut in the present state.
pub open spec fn entry_text(
    d: KeyDefView,
    tab: Tab,
    run_state: RunState,
    monitoring: bool,
) -> Seq<char> {
    if d.action == Action::StartStopTest {
        if run_state == RunState::Running {
            "stop loop"@
        } else {
            "start test"@
        }
    } else if d.action == Action::MonitorToggle && tab == Tab::Monitor {
        if monitoring {
            "stop ping"@
        } else {
            "start ping"@
        }
    } else {
        d.desc
    }
}

fn entry_text_of(def: &KeyDef, tab: Tab, run_state: RunState, monitoring: bool) -> (s: &'static str)
    ensures
        s@ == entry_text(def@, tab, run_state, monitoring),
{
    if def.action == Action::StartStopTest {
        if run_state == RunState::Running {
            "stop loop"
        } else {
            "start test"
        }
    } else if def.action == Action::MonitorToggle && tab == Tab::Monitor {
        if monitoring {
            "stop ping"
        } else {
            "start ping"
        }
    } else {
        def.desc
    }
}

impl LineView {
    /// With a key as a bright badge and its description in a dimmer colour.
    pub open spec fn with_key(self, name: Seq<char>, action: Seq<char>) -> Self {
        self.with(" "@ + name + " "@, badge(Color::Cyan, Color::Rgb(40, 40, 66))).with(
            " "@ + action + " "@,
            fg(Color::Gray),
        )
    }

    /// With a shortcut behind those before it.
    pub open spec fn with_entry(self, name: Seq<char>, action: Seq<char>) -> Self {
        (if self.spans.len() > 0 {
            self.with(" | "@, fg(Color::Rgb(70, 70, 100)))
        } else {
            self
        }).with_key(name, action)
    }

    /// With the first `n` shortcuts of the registry that have the given scope.
    pub open spec fn with_scope(
        self,
        scope: Scope,
        n: int,
        tab: Tab,
        run_state: RunState,
        monitoring: bool,
    ) -> Self
        decreases n,
    {
        if n <= 0 {
            self
        } else {
            let rest = self.with_scope(scope, n - 1, tab, run_state, monitoring);
            let d = binding_spec(n - 1);
            if d.scope == scope {
                rest.with_entry(d.labels[0], entry_text(d, tab, run_state, monitoring))
            } else {
                rest
            }
        }
    }
}

/// The shortcut bar: the shortcuts of the tab, then those that work everywhere.
pub open spec fn footer_line(tab: Tab, run_state: RunState, monitoring: bool) -> LineView {
    blank().with_scope(
        tab_scope(tab),
        KEYMAP_LEN as int,
        tab,
        run_state,
        monitoring,
    ).with_scope(Scope::Global, KEYMAP_LEN as int, tab, run_state, monitoring)
}

/// `text` between two spaces.
fn spaced(text: &str) -> (out: String)
    ensures
        out@ == " "@ + text@ + " "@,
{
    let mut out: String = " ".to_owned();
    out.append(text);
    out.append(" ");
    out
}

fn put_entry(line: &mut Line, name: &str, action: &str)
    ensures
        final(line)@ == old(line)@.with_entry(name@, action@),
{
    proof {
        span_views_follow(line.spans@, arbitrary());
    }
    if line.spans.len() > 0 {
        line.put(" | ", fg(Color::Rgb(70, 70, 100)));
    }
    let name = spaced(name);
    let action = spaced(action);
    line.put(name.as_str(), badge(Color::Cyan, Color::Rgb(40, 40, 66)));
    line.put(action.as_str(), fg(Color::Gray));
}

fn put_scope(line: &mut Line, scope: Scope, tab: Tab, run_state: RunState, monitoring: bool)
    ensures
        final(line)@ == old(line)@.with_scope(
            scope,
            KEYMAP_LEN as int,
            tab,
            run_state,
            monitoring,
        ),
{
    let mut i: usize = 0;
    while i < KEYMAP_LEN
        invariant
            i <= KEYMAP_LEN,
            line@ == old(line)@.with_scope(scope, i as int, tab, run_state, monitoring),
        decreases KEYMAP_LEN - i,
    {
        let def = binding(i);
        if def.scope == scope {
            assert(def@.labels.len() == def.labels@.len());
            proof {
                crate::keys::every_shortcut_has_a_universal_key(i as int);
            }
            assert(def@.labels[0] == def.labels@[0]@);
            let action = entry_text_of(&def, tab, run_state, monitoring);
            put_entry(line, def.labels[0], action);
        }
        i = i + 1;
    }
}

/// The shortcut bar in the present state. It is generated from the registry, so
/// it always lists what works: the shortcuts of the active tab, then those that
/// work everywhere.
pub fn footer_entries(app: &App) -> (line: Line)
    ensures
        line@ == footer_line(app@.tab, app@.run_state, app@.monitor.running),
{
    let mut line = Line::new();
    put_scope(&mut line, scope_of(app.tab), app.tab, app.run_state, app.monitor.running);
    put_scope(&mut line, Scope::Global, app.tab, app.run_state, app.monitor.running);
    line
}

/// The low sixteen bits of a width.
pub open spec fn columns(width: nat) -> u16 {
    (width % 0x1_0000) as u16
}

/// The visible part of the shortcut bar in a view of `viewport` columns. What
/// fits is shown at rest; a longer bar scrolls by itself.
pub fn footer(app: &mut App, viewport: u16, m: Moment) -> (line: Line)
    requires
        old(app)@.valid(),
        m.valid(),
    ensures
        ({
            let whole = footer_line(
                old(app)@.tab,
                old(app)@.run_state,
                old(app)@.monitor.running,
            );
            let total = total_width(whole.spans);
            if total <= viewport {
                final(app)@ == old(app)@.footer_reset() && line@ == whole
            } else {
                &&& final(app)@ == old(app)@.footer_stepped(columns(total), viewport, m.ticks)
                &&& line@ == (LineView {
                    spans: sliced(whole.spans, final(app)@.footer_scroll as int, viewport as int),
                    centered: false,
                })
            }
        }),
        final(app)@.valid(),
{
    let whole = footer_entries(app);
    let total: u128 = width_of_spans(&whole.spans);
    if total <= viewport as u128 {
        set_marquee(app, Marquee { scroll: 0, dir: 1, next_step: None });
        return whole;
    }
    advance_footer_marquee(app, (total % 0x1_0000) as u16, viewport, m);
    let spans = slice_line(&whole.spans, app.footer_scroll as usize, viewport as usize);
    Line { spans, centered: false }
}

// ---- laws -----------------------------------------------------------------

/// The characters of spans, one after another.
pub open spec fn flat(spans: Seq<SpanView>) -> Seq<char>
    decreases spans.len(),
{
    if spans.len() == 0 {
        Seq::empty()
    } else {
        flat(spans.drop_last()) + spans.last().text
    }
}

/// Every span takes one column per character.
pub open spec fn even(spans: Seq<SpanView>) -> bool {
    forall|i: int| 0 <= i < spans.len() ==> text_width((#[trigger] spans[i]).text) == spans[i].text.len()
}

proof fn even_widths(spans: Seq<SpanView>)
    requires
        even(spans),
    ensures
        total_width(spans) == flat(spans).len(),
    decreases spans.len(),
{
    if spans.len() > 0 {
        assert forall|i: int| 0 <= i < spans.drop_last().len() implies text_width(
            (#[trigger] spans.drop_last()[i]).text,
        ) == spans.drop_last()[i].text.len() by {
            assert(spans.drop_last()[i] == spans[i]);
        }
        even_widths(spans.drop_last());
        assert(spans[spans.len() - 1] == spans.last());
    }
}

/// What is seen through a window is exactly the part of the text that lies in
/// it: no character is lost, doubled or moved, wherever the spans begin (where
/// every character takes one column).
pub proof fn a_window_shows_its_part_of_the_text(spans: Seq<SpanView>, start: int, width: int)
    requires
        even(spans),
        0 <= start,
        0 <= width,
    ensures
        flat(sliced(spans, start, width)) == clipped(flat(spans), start, start + width),
    decreases spans.len(),
{
    let end = start + width;
    if width == 0 {
        assert(flat(sliced(spans, start, width)) =~= clipped(flat(spans), start, end));
    } else if spans.len() == 0 {
        assert(flat(seen(spans, start, end)) =~= clipped(flat(spans), start, end));
    } else {
        let init = spans.drop_last();
        let last = spans.last();
        assert forall|i: int| 0 <= i < init.len() implies text_width((#[trigger] init[i]).text)
            == init[i].text.len() by {
            assert(init[i] == spans[i]);
        }
        a_window_shows_its_part_of_the_text(init, start, width);
        even_widths(init);
        assert(spans[spans.len() - 1] == last);
        let left = flat(init).len() as int;
        let right = left + last.text.len();
        let before = seen(init, start, end);
        let out = seen(spans, start, end);
        if right <= start || left >= end {
            assert(clipped(flat(spans), start, end) =~= clipped(flat(init), start, end));
        } else {
            let piece = out.last();
            assert(out.drop_last() =~= before);
            assert(flat(out) =~= flat(before) + piece.text);
            assert(flat(before) + piece.text =~= clipped(flat(spans), start, end));
        }
    }
}

/// The positions of the spans of which something is seen through a window of
/// columns from `start` up to `end`.
pub open spec fn seen_positions(spans: Seq<SpanView>, start: int, end: int) -> Seq<int>
    decreases spans.len(),
{
    if spans.len() == 0 {
        Seq::empty()
    } else {
        let rest = seen_positions(spans.drop_last(), start, end);
        let left = total_width(spans.drop_last()) as int;
        if left + text_width(spans.last().text) <= start || left >= end {
            rest
        } else {
            rest.push(spans.len() - 1)
        }
    }
}

/// Every span that is seen is a part of one span of the whole, in the style of
/// that span, and the spans keep their order.
pub proof fn a_window_keeps_spans(spans: Seq<SpanView>, start: int, width: int, k: int)
    requires
        0 < width,
        0 <= k < sliced(spans, start, width).len(),
    ensures
        ({
            let end = start + width;
            let at = seen_positions(spans, start, end);
            let piece = sliced(spans, start, width)[k];
            let left = total_width(spans.take(at[k])) as int;
            &&& at.len() == sliced(spans, start, width).len()
            &&& 0 <= at[k] < spans.len()
            &&& k > 0 ==> at[k - 1] < at[k]
            &&& piece.style == spans[at[k]].style
            &&& piece.text == clipped(
                spans[at[k]].text,
                if start > left {
                    start - left
                } else {
                    0
                },
                lesser(end, left + text_width(spans[at[k]].text)) - left,
            )
        }),
    decreases spans.len(),
{
    let end = start + width;
    positions_fit(spans, start, end);
    if spans.len() > 0 {
        let init = spans.drop_last();
        positions_fit(init, start, end);
        let before = seen(init, start, end);
        let at = seen_positions(spans, start, end);
        if k < before.len() {
            a_window_keeps_spans(init, start, width, k);
            assert(init.take(at[k]) =~= spans.take(at[k]));
        } else {
            assert(spans.take(at[k]) =~= init);
        }
    }
}

proof fn positions_fit(spans: Seq<SpanView>, start: int, end: int)
    ensures
        seen_positions(spans, start, end).len() == seen(spans, start, end).len(),
        forall|k: int|
            0 <= k < seen_positions(spans, start, end).len() ==> 0 <= #[trigger] seen_positions(
                spans,
                start,
                end,
            )[k] < spans.len(),
    decreases spans.len(),
{
    if spans.len() > 0 {
        positions_fit(spans.drop_last(), start, end);
    }
}

/// The styles of the characters of spans, one after another.
pub open spec fn styles(spans: Seq<SpanView>) -> Seq<Style>
    decreases spans.len(),
{
    if spans.len() == 0 {
        Seq::empty()
    } else {
        styles(spans.drop_last()) + Seq::new(
            spans.last().text.len(),
            |i: int| spans.last().style,
        )
    }
}

proof fn one_style_per_character(spans: Seq<SpanView>)
    ensures
        styles(spans).len() == flat(spans).len(),
    decreases spans.len(),
{
    if spans.len() > 0 {
        one_style_per_character(spans.drop_last());
    }
}

/// Every character that is seen has the style of the span that it comes from:
/// the styles seen through a window are those of the characters that lie in it
/// (where every character takes one column).
pub proof fn a_window_keeps_styles(spans: Seq<SpanView>, start: int, width: int)
    requires
        even(spans),
        0 <= start,
        0 <= width,
    ensures
        ({
            let n = flat(spans).len() as int;
            &&& styles(spans).len() == n
            &&& styles(sliced(spans, start, width)) == styles(spans).subrange(
                lesser(start, n),
                lesser(start + width, n),
            )
        }),
    decreases spans.len(),
{
    let end = start + width;
    let n = flat(spans).len() as int;
    one_style_per_character(spans);
    let part = styles(spans).subrange(lesser(start, n), lesser(end, n));
    if width == 0 || spans.len() == 0 {
        assert(styles(sliced(spans, start, width)) =~= part);
    } else {
        let init = spans.drop_last();
        let last = spans.last();
        assert forall|i: int| 0 <= i < init.len() implies text_width((#[trigger] init[i]).text)
            == init[i].text.len() by {
            assert(init[i] == spans[i]);
        }
        a_window_keeps_styles(init, start, width);
        even_widths(init);
        assert(spans[spans.len() - 1] == last);
        let left = flat(init).len() as int;
        let right = left + last.text.len();
        let before = seen(init, start, end);
        let out = seen(spans, start, end);
        let inner = styles(init).subrange(lesser(start, left), lesser(end, left));
        if right <= start || left >= end {
            assert(part =~= inner);
        } else {
            assert(out.drop_last() =~= before);
            assert(styles(out) =~= part);
        }
    }
}

/// The shortcut bar never scrolls beyond its ends, never moves by more than a
/// column (unless the view has become wider), and turns round only at an end,
/// where it rests.
pub proof fn the_bar_goes_back_and_forth(s: AppView, total: u16, viewport: u16, now: u64)
    requires
        now + FOOTER_EDGE_PAUSE <= u64::MAX,
    ensures
        ({
            let max = max_offset(total, viewport);
            let t = s.footer_stepped(total, viewport, now);
            &&& t.footer_scroll <= max
            &&& s.footer_scroll <= max ==> -1 <= t.footer_scroll - s.footer_scroll <= 1
            &&& t.footer_dir != s.footer_dir ==> (t.footer_scroll == 0 || t.footer_scroll == max)
                && t.footer_next_step == Some((now + FOOTER_EDGE_PAUSE) as u64)
            &&& t.footer_dir != s.footer_dir ==> (t.footer_dir == 1 || t.footer_dir == -1)
        }),
{
    reveal(AppView::with_marquee);
}

/// Whether a line has a shortcut: its key and, right behind, what it does.
pub open spec fn lists(l: LineView, key: Seq<char>, action: Seq<char>) -> bool {
    l.says(" "@ + key + " "@, " "@ + action + " "@)
}

proof fn listed_stays(l: LineView, more: LineView, key: Seq<char>, action: Seq<char>)
    requires
        lists(l, key, action),
        l.spans.len() <= more.spans.len(),
        more.spans.take(l.spans.len() as int) == l.spans,
    ensures
        lists(more, key, action),
{
    let i = choose|i: int|
        0 <= i < l.spans.len() - 1 && (#[trigger] l.spans[i]).text == " "@ + key + " "@
            && l.spans[i + 1].text == " "@ + action + " "@;
    assert(more.spans.take(l.spans.len() as int)[i] == more.spans[i]);
    assert(more.spans.take(l.spans.len() as int)[i + 1] == more.spans[i + 1]);
    assert(more.spans[i].text == " "@ + key + " "@);
}

proof fn scopes_only_append(
    l: LineView,
    scope: Scope,
    n: int,
    tab: Tab,
    run_state: RunState,
    monitoring: bool,
)
    ensures
        ({
            let t = l.with_scope(scope, n, tab, run_state, monitoring);
            t.spans.len() >= l.spans.len() && t.spans.take(l.spans.len() as int) == l.spans
        }),
    decreases n,
{
    if n > 0 {
        scopes_only_append(l, scope, n - 1, tab, run_state, monitoring);
        let rest = l.with_scope(scope, n - 1, tab, run_state, monitoring);
        let t = l.with_scope(scope, n, tab, run_state, monitoring);
        assert(t.spans.take(l.spans.len() as int) =~= rest.spans.take(l.spans.len() as int));
    } else {
        assert(l.spans.take(l.spans.len() as int) =~= l.spans);
    }
}

proof fn scope_lists(
    l: LineView,
    scope: Scope,
    n: int,
    i: int,
    tab: Tab,
    run_state: RunState,
    monitoring: bool,
)
    requires
        0 <= i < n <= KEYMAP_LEN,
        binding_spec(i).scope == scope,
    ensures
        lists(
            l.with_scope(scope, n, tab, run_state, monitoring),
            binding_spec(i).labels[0],
            entry_text(binding_spec(i), tab, run_state, monitoring),
        ),
    decreases n,
{
    let t = l.with_scope(scope, n, tab, run_state, monitoring);
    let d = binding_spec(i);
    let (key, action) = (d.labels[0], entry_text(d, tab, run_state, monitoring));
    if i == n - 1 {
        let k = t.spans.len() - 2;
        assert(t.spans[k].text == " "@ + key + " "@);
        assert(t.spans[k + 1].text == " "@ + action + " "@);
    } else {
        scope_lists(l, scope, n - 1, i, tab, run_state, monitoring);
        let rest = l.with_scope(scope, n - 1, tab, run_state, monitoring);
        assert(t.spans.take(rest.spans.len() as int) =~= rest.spans);
        listed_stays(rest, t, key, action);
    }
}

/// The shortcut bar lists every shortcut that works on the tab, by its
/// layout-independent key; those of the tab itself come first.
pub proof fn the_bar_lists_every_shortcut(
    i: int,
    tab: Tab,
    run_state: RunState,
    monitoring: bool,
)
    requires
        0 <= i < KEYMAP_LEN,
        binding_spec(i).scope == Scope::Global || binding_spec(i).scope == tab_scope(tab),
    ensures
        lists(
            footer_line(tab, run_state, monitoring),
            binding_spec(i).labels[0],
            entry_text(binding_spec(i), tab, run_state, monitoring),
        ),
        ({
            let own = blank().with_scope(
                tab_scope(tab),
                KEYMAP_LEN as int,
                tab,
                run_state,
                monitoring,
            );
            footer_line(tab, run_state, monitoring).spans.take(own.spans.len() as int) == own.spans
        }),
{
    let n = KEYMAP_LEN as int;
    let own = blank().with_scope(tab_scope(tab), n, tab, run_state, monitoring);
    scopes_only_append(own, Scope::Global, n, tab, run_state, monitoring);
    let d = binding_spec(i);
    if d.scope == tab_scope(tab) {
        scope_lists(blank(), tab_scope(tab), n, i, tab, run_state, monitoring);
        listed_stays(
            own,
            footer_line(tab, run_state, monitoring),
            d.labels[0],
            entry_text(d, tab, run_state, monitoring),
        );
    } else {
        scope_lists(own, Scope::Global, n, i, tab, run_state, monitoring);
    }
}

/// What the bar says of a shortcut is what it does at the time: the start key
/// starts or stops, the monitor key on its tab as well, and any other does what
/// the registry says.
pub proof fn entries_say_what_they_do(d: KeyDefView, tab: Tab, monitoring: bool)
    ensures
        d.action == Action::StartStopTest ==> entry_text(d, tab, RunState::Running, monitoring)
            == "stop loop"@ && entry_text(d, tab, RunState::Idle, monitoring) == "start test"@
            && entry_text(d, tab, RunState::Finished, monitoring) == "start test"@,
        d.action == Action::MonitorToggle && tab == Tab::Monitor ==> entry_text(
            d,
            tab,
            RunState::Idle,
            true,
        ) == "stop ping"@ && entry_text(d, tab, RunState::Idle, false) == "start ping"@,
        d.action != Action::StartStopTest && d.action != Action::MonitorToggle ==> entry_text(
            d,
            tab,
            RunState::Running,
            monitoring,
        ) == d.desc,
{
}

/// A bar that may move goes on by one column, right or left, and waits 110
/// milliseconds; at an end it turns round and waits a second and a half. One that
/// has to wait stays where it is.
pub proof fn the_bar_moves_in_time(q: Marquee, total: u16, viewport: u16, now: u64)
    requires
        now + 1_500_000_000 <= u64::MAX,
        total > viewport,
        q.scroll <= total - viewport,
        q.dir == 1 || q.dir == -1,
    ensures
        ({
            let t = q.stepped(total, viewport, now);
            let due = q.next_step is None || q.next_step->0 <= now;
            let last = total - viewport;
            &&& !due ==> t == q
            &&& due && q.dir == 1 && q.scroll < last ==> t.scroll == q.scroll + 1 && t.dir == 1
                && t.next_step == Some((now + 110_000_000) as u64)
            &&& due && q.dir == -1 && q.scroll > 0 ==> t.scroll == q.scroll - 1 && t.dir == -1
                && t.next_step == Some((now + 110_000_000) as u64)
            &&& due && q.dir == 1 && q.scroll == last ==> t.scroll == last && t.dir == -1
                && t.next_step == Some((now + 1_500_000_000) as u64)
            &&& due && q.dir == -1 && q.scroll == 0 ==> t.scroll == 0 && t.dir == 1 && t.next_step
                == Some((now + 1_500_000_000) as u64)
        }),
{
}

} // verus!
