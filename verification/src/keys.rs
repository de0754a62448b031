//! One central registry for every keyboard shortcut.
//!
//! 1. Every action has at least one canonical binding on a layout-independent
//!    key (function keys, Insert/Delete/Backspace, arrows, Enter, Esc, Tab).
//! 2. Letter keys are optional aliases. They go through [`normalize_char`],
//!    which maps the Russian layout back to US positions, but they are never
//!    the only binding of an action.
//! 3. Resolution is scope-aware: a binding of one tab only fires while that tab
//!    is open, so the same physical key can be reused across tabs without
//!    collisions.
//! 4. Input handling, footer and help screen all read [`binding`].

use crate::app::Tab;
use crate::style::Color;
use crate::text::{decimal, lowered_char, to_lower_char};
use vstd::prelude::*;

verus! {

/// A key of the keyboard.
#[derive(Debug, Clone, Copy, PartialEq, Eq, Structural)]
pub enum KeyCode {
    Backspace,
    Enter,
    Left,
    Right,
    Up,
    Down,
    Home,
    End,
    PageUp,
    PageDown,
    Tab,
    BackTab,
    Delete,
    Insert,
    Esc,
    F(u8),
    Char(char),
    /// Any other key.
    Other,
}

/// The modifier keys held during a key press.
#[derive(Debug, Clone, Copy, PartialEq, Eq, Structural)]
pub struct KeyModifiers {
    pub shift: bool,
    pub control: bool,
    pub alt: bool,
    /// Any other modifier.
    pub other: bool,
}

impl KeyModifiers {
    /// No modifier.
    pub fn none() -> (m: Self)
        ensures
            m == (KeyModifiers { shift: false, control: false, alt: false, other: false }),
    {
        KeyModifiers { shift: false, control: false, alt: false, other: false }
    }

    /// Shift alone.
    pub fn shift() -> (m: Self)
        ensures
            m == (KeyModifiers { shift: true, control: false, alt: false, other: false }),
    {
        KeyModifiers { shift: true, control: false, alt: false, other: false }
    }

    /// Control alone.
    pub fn control() -> (m: Self)
        ensures
            m == (KeyModifiers { shift: false, control: true, alt: false, other: false }),
    {
        KeyModifiers { shift: false, control: true, alt: false, other: false }
    }

    /// Alt alone.
    pub fn alt() -> (m: Self)
        ensures
            m == (KeyModifiers { shift: false, control: false, alt: true, other: false }),
    {
        KeyModifiers { shift: false, control: false, alt: true, other: false }
    }
}

/// Whether a key went down, is held or came up.
#[derive(Debug, Clone, Copy, PartialEq, Eq, Structural)]
pub enum KeyEventKind {
    Press,
    Repeat,
    Release,
}

/// One event of the keyboard.
#[derive(Debug, Clone, Copy, PartialEq, Eq, Structural)]
pub struct KeyEvent {
    pub code: KeyCode,
    pub modifiers: KeyModifiers,
    pub kind: KeyEventKind,
}

impl KeyEvent {
    /// A press of `code`.
    pub fn new(code: KeyCode, modifiers: KeyModifiers) -> (k: Self)
        ensures
            k == (KeyEvent { code, modifiers, kind: KeyEventKind::Press }),
    {
        KeyEvent { code, modifiers, kind: KeyEventKind::Press }
    }
}

/// What a shortcut does.
#[derive(Debug, Clone, Copy, PartialEq, Eq, Structural)]
pub enum Action {
    RefreshConnection,
    Quit,
    CancelTest,
    TabNext,
    TabPrev,
    TabTest,
    TabMonitor,
    TabHistory,
    TabHelp,
    TabDsl,
    StartStopTest,
    ToggleContinuous,
    ProfileNext,
    ProfilePrev,
    MonitorToggle,
    ToggleGaming,
    EditTarget,
    ResetSession,
    DslPauseResume,
    EditModem,
    ClearModemLog,
    HistoryUp,
    HistoryDown,
    DeleteEntry,
    ClearAll,
}

/// Where a shortcut works.
#[derive(Debug, Clone, Copy, PartialEq, Eq, Structural)]
pub enum Scope {
    Global,
    Test,
    Monitor,
    Dsl,
    History,
}

impl Scope {
    /// The heading of this scope on the help screen.
    pub open spec fn name(self) -> Seq<char> {
        match self {
            Scope::Global => "GENERAL"@,
            Scope::Test => "SPEED TEST"@,
            Scope::Monitor => "MONITOR"@,
            Scope::Dsl => "MODEM"@,
            Scope::History => "HISTORY"@,
        }
    }

    /// The colour of that heading.
    pub open spec fn shade(self) -> Color {
        match self {
            Scope::Global => Color::Yellow,
            Scope::Test => Color::Cyan,
            Scope::Monitor => Color::LightGreen,
            Scope::Dsl => Color::LightMagenta,
            Scope::History => Color::Green,
        }
    }

    pub fn label(self) -> (s: &'static str)
        ensures
            s@ == self.name(),
    {
        match self {
            Scope::Global => "GENERAL",
            Scope::Test => "SPEED TEST",
            Scope::Monitor => "MONITOR",
            Scope::Dsl => "MODEM",
            Scope::History => "HISTORY",
        }
    }

    pub fn color(self) -> (c: Color)
        ensures
            c == self.shade(),
    {
        match self {
            Scope::Global => Color::Yellow,
            Scope::Test => Color::Cyan,
            Scope::Monitor => Color::LightGreen,
            Scope::Dsl => Color::LightMagenta,
            Scope::History => Color::Green,
        }
    }
}

/// One shortcut: an action and the keys that trigger it.
#[derive(Debug)]
pub struct KeyDef {
    pub action: Action,
    /// Canonical universal key first, letter alias after.
    pub keys: Vec<KeyCode>,
    /// Human-readable names of `keys`, same order.
    pub labels: Vec<&'static str>,
    pub scope: Scope,
    pub desc: &'static str,
}

/// The contents of a [`KeyDef`].
#[verifier::ext_equal]
pub struct KeyDefView {
    pub action: Action,
    pub keys: Seq<KeyCode>,
    pub labels: Seq<Seq<char>>,
    pub scope: Scope,
    pub desc: Seq<char>,
}

impl View for KeyDef {
    type V = KeyDefView;

    open spec fn view(&self) -> KeyDefView {
        KeyDefView {
            action: self.action,
            keys: self.keys@,
            labels: self.labels@.map_values(|l: &'static str| l@),
            scope: self.scope,
            desc: self.desc@,
        }
    }
}

/// A shortcut with a canonical key and, where there is one, a letter alias.
pub open spec fn define(
    action: Action,
    scope: Scope,
    desc: Seq<char>,
    key: KeyCode,
    label: Seq<char>,
    alias: Option<(KeyCode, Seq<char>)>,
) -> KeyDefView {
    KeyDefView {
        action,
        keys: match alias {
            Some(a) => seq![key, a.0],
            None => seq![key],
        },
        labels: match alias {
            Some(a) => seq![label, a.1],
            None => seq![label],
        },
        scope,
        desc,
    }
}

fn make(
    action: Action,
    scope: Scope,
    desc: &'static str,
    key: KeyCode,
    label: &'static str,
    alias: Option<(KeyCode, &'static str)>,
) -> (d: KeyDef)
    ensures
        d@ == define(
            action,
            scope,
            desc@,
            key,
            label@,
            match alias {
                Some(a) => Some((a.0, a.1@)),
                None => None,
            },
        ),
{
    let mut keys: Vec<KeyCode> = Vec::new();
    let mut labels: Vec<&'static str> = Vec::new();
    keys.push(key);
    labels.push(label);
    if let Some(a) = alias {
        keys.push(a.0);
        labels.push(a.1);
    }
    let d = KeyDef { action, keys, labels, scope, desc };
    assert(d@.labels =~= define(
        action,
        scope,
        desc@,
        key,
        label@,
        match alias {
            Some(a) => Some((a.0, a.1@)),
            None => None,
        },
    ).labels);
    d
}

/// The number of shortcuts.
pub const KEYMAP_LEN: usize = 25;

/// The shortcut at position `i` of the registry.
pub open spec fn binding_spec(i: int) -> KeyDefView {
    if i == 0 {
        define(
            Action::RefreshConnection,
            Scope::Global,
            "refresh IP"@,
            KeyCode::F(5),
            "F5"@,
            Some((KeyCode::Char('r'), "R"@)),
        )
    } else if i == 1 {
        define(
            Action::Quit,
            Scope::Global,
            "quit"@,
            KeyCode::F(10),
            "F10"@,
            Some((KeyCode::Char('q'), "Q"@)),
        )
    } else if i == 2 {
        define(
            Action::CancelTest,
            Scope::Global,
            "cancel / back"@,
            KeyCode::Esc,
            "ESC"@,
            None,
        )
    } else if i == 3 {
        define(
            Action::TabNext,
            Scope::Global,
            "next tab"@,
            KeyCode::Tab,
            "TAB"@,
            None,
        )
    } else if i == 4 {
        define(
            Action::TabPrev,
            Scope::Global,
            "previous tab"@,
            KeyCode::BackTab,
            "SHIFT+TAB"@,
            None,
        )
    } else if i == 5 {
        define(
            Action::TabTest,
            Scope::Global,
            "open test tab"@,
            KeyCode::F(1),
            "F1"@,
            None,
        )
    } else if i == 6 {
        define(
            Action::TabMonitor,
            Scope::Global,
            "open monitor tab"@,
            KeyCode::F(2),
            "F2"@,
            None,
        )
    } else if i == 7 {
        define(
            Action::TabHistory,
            Scope::Global,
            "open history tab"@,
            KeyCode::F(3),
            "F3"@,
            None,
        )
    } else if i == 8 {
        define(
            Action::TabHelp,
            Scope::Global,
            "open help tab"@,
            KeyCode::F(4),
            "F4"@,
            None,
        )
    } else if i == 9 {
        define(
            Action::TabDsl,
            Scope::Global,
            "open modem tab"@,
            KeyCode::F(9),
            "F9"@,
            None,
        )
    } else if i == 10 {
        define(
            Action::StartStopTest,
            Scope::Test,
            "start test · stop continuous session"@,
            KeyCode::Enter,
            "ENTER"@,
            None,
        )
    } else if i == 11 {
        define(
            Action::ToggleContinuous,
            Scope::Test,
            "single / loop"@,
            KeyCode::Insert,
            "INS"@,
            Some((KeyCode::Char('m'), "M"@)),
        )
    } else if i == 12 {
        define(
            Action::ProfileNext,
            Scope::Test,
            "next profile"@,
            KeyCode::Down,
            "DOWN"@,
            Some((KeyCode::Char('p'), "P"@)),
        )
    } else if i == 13 {
        define(
            Action::ProfilePrev,
            Scope::Test,
            "previous profile"@,
            KeyCode::Up,
            "UP"@,
            None,
        )
    } else if i == 14 {
        define(
            Action::MonitorToggle,
            Scope::Monitor,
            "start / stop continuous ping"@,
            KeyCode::Enter,
            "ENTER"@,
            None,
        )
    } else if i == 15 {
        define(
            Action::ToggleGaming,
            Scope::Monitor,
            "gaming mode"@,
            KeyCode::F(6),
            "F6"@,
            Some((KeyCode::Char('g'), "G"@)),
        )
    } else if i == 16 {
        define(
            Action::EditTarget,
            Scope::Monitor,
            "change target host"@,
            KeyCode::F(7),
            "F7"@,
            Some((KeyCode::Char('t'), "T"@)),
        )
    } else if i == 17 {
        define(
            Action::ResetSession,
            Scope::Monitor,
            "reset session stats & events"@,
            KeyCode::F(8),
            "F8"@,
            Some((KeyCode::Char('c'), "C"@)),
        )
    } else if i == 18 {
        define(
            Action::DslPauseResume,
            Scope::Dsl,
            "pause / resume polling"@,
            KeyCode::Enter,
            "ENTER"@,
            None,
        )
    } else if i == 19 {
        define(
            Action::EditModem,
            Scope::Dsl,
            "edit modem configuration"@,
            KeyCode::F(7),
            "F7"@,
            Some((KeyCode::Char('t'), "T"@)),
        )
    } else if i == 20 {
        define(
            Action::ClearModemLog,
            Scope::Dsl,
            "clear modem log"@,
            KeyCode::F(8),
            "F8"@,
            Some((KeyCode::Char('c'), "C"@)),
        )
    } else if i == 21 {
        define(
            Action::HistoryUp,
            Scope::History,
            "previous entry"@,
            KeyCode::Up,
            "UP"@,
            Some((KeyCode::Char('k'), "K"@)),
        )
    } else if i == 22 {
        define(
            Action::HistoryDown,
            Scope::History,
            "next entry"@,
            KeyCode::Down,
            "DOWN"@,
            Some((KeyCode::Char('j'), "J"@)),
        )
    } else if i == 23 {
        define(
            Action::DeleteEntry,
            Scope::History,
            "delete selected entry"@,
            KeyCode::Delete,
            "DEL"@,
            Some((KeyCode::Char('d'), "D"@)),
        )
    } else {
        define(
            Action::ClearAll,
            Scope::History,
            "clear entire history"@,
            KeyCode::Backspace,
            "BACKSPACE"@,
            Some((KeyCode::Char('x'), "X"@)),
        )
    }
}

/// The shortcut at position `i` of the registry.
pub fn binding(i: usize) -> (d: KeyDef)
    requires
        i < KEYMAP_LEN,
    ensures
        d@ == binding_spec(i as int),
{
    if i == 0 {
        make(
            Action::RefreshConnection,
            Scope::Global,
            "refresh IP",
            KeyCode::F(5),
            "F5",
            Some((KeyCode::Char('r'), "R")),
        )
    } else if i == 1 {
        make(
            Action::Quit,
            Scope::Global,
            "quit",
            KeyCode::F(10),
            "F10",
            Some((KeyCode::Char('q'), "Q")),
        )
    } else if i == 2 {
        make(
            Action::CancelTest,
            Scope::Global,
            "cancel / back",
            KeyCode::Esc,
            "ESC",
            None,
        )
    } else if i == 3 {
        make(
            Action::TabNext,
            Scope::Global,
            "next tab",
            KeyCode::Tab,
            "TAB",
            None,
        )
    } else if i == 4 {
        make(
            Action::TabPrev,
            Scope::Global,
            "previous tab",
            KeyCode::BackTab,
            "SHIFT+TAB",
            None,
        )
    } else if i == 5 {
        make(
            Action::TabTest,
            Scope::Global,
            "open test tab",
            KeyCode::F(1),
            "F1",
            None,
        )
    } else if i == 6 {
        make(
            Action::TabMonitor,
            Scope::Global,
            "open monitor tab",
            KeyCode::F(2),
            "F2",
            None,
        )
    } else if i == 7 {
        make(
            Action::TabHistory,
            Scope::Global,
            "open history tab",
            KeyCode::F(3),
            "F3",
            None,
        )
    } else if i == 8 {
        make(
            Action::TabHelp,
            Scope::Global,
            "open help tab",
            KeyCode::F(4),
            "F4",
            None,
        )
    } else if i == 9 {
        make(
            Action::TabDsl,
            Scope::Global,
            "open modem tab",
            KeyCode::F(9),
            "F9",
            None,
        )
    } else if i == 10 {
        make(
            Action::StartStopTest,
            Scope::Test,
            "start test · stop continuous session",
            KeyCode::Enter,
            "ENTER",
            None,
        )
    } else if i == 11 {
        make(
            Action::ToggleContinuous,
            Scope::Test,
            "single / loop",
            KeyCode::Insert,
            "INS",
            Some((KeyCode::Char('m'), "M")),
        )
    } else if i == 12 {
        make(
            Action::ProfileNext,
            Scope::Test,
            "next profile",
            KeyCode::Down,
            "DOWN",
            Some((KeyCode::Char('p'), "P")),
        )
    } else if i == 13 {
        make(
            Action::ProfilePrev,
            Scope::Test,
            "previous profile",
            KeyCode::Up,
            "UP",
            None,
        )
    } else if i == 14 {
        make(
            Action::MonitorToggle,
            Scope::Monitor,
            "start / stop continuous ping",
            KeyCode::Enter,
            "ENTER",
            None,
        )
    } else if i == 15 {
        make(
            Action::ToggleGaming,
            Scope::Monitor,
            "gaming mode",
            KeyCode::F(6),
            "F6",
            Some((KeyCode::Char('g'), "G")),
        )
    } else if i == 16 {
        make(
            Action::EditTarget,
            Scope::Monitor,
            "change target host",
            KeyCode::F(7),
            "F7",
            Some((KeyCode::Char('t'), "T")),
        )
    } else if i == 17 {
        make(
            Action::ResetSession,
            Scope::Monitor,
            "reset session stats & events",
            KeyCode::F(8),
            "F8",
            Some((KeyCode::Char('c'), "C")),
        )
    } else if i == 18 {
        make(
            Action::DslPauseResume,
            Scope::Dsl,
            "pause / resume polling",
            KeyCode::Enter,
            "ENTER",
            None,
        )
    } else if i == 19 {
        make(
            Action::EditModem,
            Scope::Dsl,
            "edit modem configuration",
            KeyCode::F(7),
            "F7",
            Some((KeyCode::Char('t'), "T")),
        )
    } else if i == 20 {
        make(
            Action::ClearModemLog,
            Scope::Dsl,
            "clear modem log",
            KeyCode::F(8),
            "F8",
            Some((KeyCode::Char('c'), "C")),
        )
    } else if i == 21 {
        make(
            Action::HistoryUp,
            Scope::History,
            "previous entry",
            KeyCode::Up,
            "UP",
            Some((KeyCode::Char('k'), "K")),
        )
    } else if i == 22 {
        make(
            Action::HistoryDown,
            Scope::History,
            "next entry",
            KeyCode::Down,
            "DOWN",
            Some((KeyCode::Char('j'), "J")),
        )
    } else if i == 23 {
        make(
            Action::DeleteEntry,
            Scope::History,
            "delete selected entry",
            KeyCode::Delete,
            "DEL",
            Some((KeyCode::Char('d'), "D")),
        )
    } else {
        make(
            Action::ClearAll,
            Scope::History,
            "clear entire history",
            KeyCode::Backspace,
            "BACKSPACE",
            Some((KeyCode::Char('x'), "X")),
        )
    }
}

/// The position of a Russian letter key on a US keyboard; any other character
/// as it is.
pub open spec fn us_position(c: char) -> char {
    match c {
        // Russian ЙЦУКЕН → US position
        'й' => 'q',
        'ц' => 'w',
        'у' => 'e',
        'к' => 'r',
        'е' => 't',
        'н' => 'y',
        'г' => 'u',
        'ш' => 'i',
        'щ' => 'o',
        'з' => 'p',
        'ф' => 'a',
        'ы' => 's',
        'в' => 'd',
        'а' => 'f',
        'п' => 'g',
        'р' => 'h',
        'о' => 'j',
        'л' => 'k',
        'д' => 'l',
        'я' => 'z',
        'ч' => 'x',
        'с' => 'c',
        'м' => 'v',
        'и' => 'b',
        'т' => 'n',
        'ь' => 'm',
        _ => c,
    }
}

/// The character of the US keyboard that stands for `c`.
pub open spec fn normal_char(c: char) -> char {
    us_position(lowered_char(c))
}

/// Translates a character of a non-Latin layout to the small letter at the
/// same position of a US keyboard.
pub fn normalize_char(c: char) -> (n: char)
    ensures
        n == normal_char(c),
{
    us_key(to_lower_char(c))
}

/// The position of a (small) Russian letter key on a US keyboard; any other
/// character as it is.
pub fn us_key(c: char) -> (n: char)
    ensures
        n == us_position(c),
{
    match c {
        'й' => 'q',
        'ц' => 'w',
        'у' => 'e',
        'к' => 'r',
        'е' => 't',
        'н' => 'y',
        'г' => 'u',
        'ш' => 'i',
        'щ' => 'o',
        'з' => 'p',
        'ф' => 'a',
        'ы' => 's',
        'в' => 'd',
        'а' => 'f',
        'п' => 'g',
        'р' => 'h',
        'о' => 'j',
        'л' => 'k',
        'д' => 'l',
        'я' => 'z',
        'ч' => 'x',
        'с' => 'c',
        'м' => 'v',
        'и' => 'b',
        'т' => 'n',
        'ь' => 'm',
        _ => c,
    }
}

/// The logical character of a key event; nothing for other keys.
pub open spec fn logical(key: KeyEvent) -> Option<char> {
    match key.code {
        KeyCode::Char(c) => Some(normal_char(c)),
        _ => None,
    }
}

/// Translates a key event into its logical character, applying the non-Latin
/// layout translation. Returns `None` for non-character keys.
pub fn logical_char(key: &KeyEvent) -> (c: Option<char>)
    ensures
        c == logical(*key),
{
    match key.code {
        KeyCode::Char(c) => Some(normalize_char(c)),
        _ => None,
    }
}

/// Whether the key `k` of a shortcut is the one of a key event, whose logical
/// character is `lchar`. Alt and Ctrl always reject. A letter alias accepts
/// Shift; so does BackTab, which arrives as Shift+Tab; any other key must be
/// pressed alone.
pub open spec fn binds(k: KeyCode, key: KeyEvent, lchar: Option<char>) -> bool {
    &&& match k {
        KeyCode::Char(expected) => lchar == Some(expected),
        _ => key.code == k,
    }
    &&& !key.modifiers.alt
    &&& !key.modifiers.control
    &&& match k {
        KeyCode::BackTab => true,
        KeyCode::Char(_) => !key.modifiers.other,
        _ => !key.modifiers.other && !key.modifiers.shift,
    }
}

fn bindings_match(def_key: &KeyCode, key: &KeyEvent, lchar: Option<char>) -> (yes: bool)
    ensures
        yes == binds(*def_key, *key, lchar),
{
    let matched: bool = match *def_key {
        KeyCode::Char(expected) => match lchar {
            Some(c) => c == expected,
            None => false,
        },
        other => key.code == other,
    };
    if !matched {
        return false;
    }
    if key.modifiers.alt || key.modifiers.control {
        return false;
    }
    match *def_key {
        KeyCode::BackTab => true,
        KeyCode::Char(_) => !key.modifiers.other,
        _ => !key.modifiers.other && !key.modifiers.shift,
    }
}

/// The scope of a tab's own shortcuts (the help tab has none of its own and
/// shares those of the history tab).
pub open spec fn tab_scope(tab: Tab) -> Scope {
    match tab {
        Tab::Test => Scope::Test,
        Tab::Monitor => Scope::Monitor,
        Tab::Dsl => Scope::Dsl,
        Tab::History => Scope::History,
        Tab::Help => Scope::History,
    }
}

pub fn scope_of(tab: Tab) -> (s: Scope)
    ensures
        s == tab_scope(tab),
{
    match tab {
        Tab::Test => Scope::Test,
        Tab::Monitor => Scope::Monitor,
        Tab::Dsl => Scope::Dsl,
        Tab::History => Scope::History,
        Tab::Help => Scope::History,  // help has no own bindings
    }
}

/// Whether the shortcut at position `i` is in force on `tab` and triggered by
/// `key`, whose logical character is `lchar`.
pub open spec fn fires_as(i: int, key: KeyEvent, lchar: Option<char>, tab: Tab) -> bool {
    let d = binding_spec(i);
    &&& d.scope == Scope::Global || d.scope == tab_scope(tab)
    &&& exists|j: int| 0 <= j < d.keys.len() && binds(#[trigger] d.keys[j], key, lchar)
}

/// Whether the shortcut at position `i` is in force on `tab` and triggered by
/// `key`.
pub open spec fn fires(i: int, key: KeyEvent, tab: Tab) -> bool {
    fires_as(i, key, logical(key), tab)
}

/// The action of the first shortcut from position `i` on that fires for `key`,
/// whose logical character is `lchar`.
pub open spec fn resolve_as(i: int, key: KeyEvent, lchar: Option<char>, tab: Tab) -> Option<Action>
    decreases KEYMAP_LEN - i,
{
    if i < 0 || i >= KEYMAP_LEN {
        None
    } else if fires_as(i, key, lchar, tab) {
        Some(binding_spec(i).action)
    } else {
        resolve_as(i + 1, key, lchar, tab)
    }
}

/// The action of the first shortcut from position `i` on that fires.
pub open spec fn resolve_from(i: int, key: KeyEvent, tab: Tab) -> Option<Action> {
    resolve_as(i, key, logical(key), tab)
}

/// Resolves a key event to an action. Bindings declared for the `active` tab
/// and global bindings are considered; the first matching definition wins.
pub fn resolve(key: &KeyEvent, active: Tab) -> (a: Option<Action>)
    ensures
        a == resolve_from(0, *key, active),
{
    resolve_logical(key, logical_char(key), active)
}

/// Resolves a key event whose logical character is `lchar` to an action.
pub fn resolve_logical(key: &KeyEvent, lchar: Option<char>, active: Tab) -> (a: Option<Action>)
    ensures
        a == resolve_as(0, *key, lchar, active),
{
    let mut i: usize = 0;
    while i < KEYMAP_LEN
        invariant
            i <= KEYMAP_LEN,
            resolve_as(0, *key, lchar, active) == resolve_as(i as int, *key, lchar, active),
        decreases KEYMAP_LEN - i,
    {
        let def = binding(i);
        if def.scope == Scope::Global || def.scope == scope_of(active) {
            let mut j: usize = 0;
            while j < def.keys.len()
                invariant
                    i < KEYMAP_LEN,
                    j <= def.keys@.len(),
                    def@ == binding_spec(i as int),
                    def.scope == Scope::Global || def.scope == tab_scope(active),
                    resolve_as(0, *key, lchar, active) == resolve_as(
                        i as int,
                        *key,
                        lchar,
                        active,
                    ),
                    forall|k: int|
                        0 <= k < j ==> !binds(
                            #[trigger] binding_spec(i as int).keys[k],
                            *key,
                            lchar,
                        ),
                decreases def.keys@.len() - j,
            {
                if bindings_match(&def.keys[j], key, lchar) {
                    assert(binds(binding_spec(i as int).keys[j as int], *key, lchar));
                    assert(fires_as(i as int, *key, lchar, active));
                    return Some(def.action);
                }
                j = j + 1;
            }
        }
        assert(!fires_as(i as int, *key, lchar, active));
        i = i + 1;
    }
    None
}

/// True when the key is Ctrl+C (layout-independent quit).
pub open spec fn ctrl_c(key: KeyEvent) -> bool {
    key.modifiers.control && logical(key) == Some('c')
}

/// True when the key is Ctrl+C (layout-independent quit).
pub fn is_ctrl_c(key: &KeyEvent) -> (yes: bool)
    ensures
        yes == ctrl_c(*key),
{
    key.modifiers.control && match logical_char(key) {
        Some(c) => c == 'c',
        None => false,
    }
}

/// Keys used while a text editor popup is open. These bypass the action map.
#[derive(Debug, Clone, Copy, PartialEq, Eq, Structural)]
pub enum EditorKey {
    Confirm,
    Cancel,
    Backspace,
    Char(char),
    Ignored,
}

/// What a key means to a text editor popup.
pub open spec fn editor_meaning(key: KeyEvent) -> EditorKey {
    match key.code {
        KeyCode::Enter => EditorKey::Confirm,
        KeyCode::Esc => EditorKey::Cancel,
        KeyCode::Backspace => EditorKey::Backspace,
        KeyCode::Char(c) => EditorKey::Char(c),
        _ => EditorKey::Ignored,
    }
}

/// What a key means to a text editor popup.
pub fn editor_key(key: &KeyEvent) -> (k: EditorKey)
    ensures
        k == editor_meaning(*key),
{
    match key.code {
        KeyCode::Enter => EditorKey::Confirm,
        KeyCode::Esc => EditorKey::Cancel,
        KeyCode::Backspace => EditorKey::Backspace,
        KeyCode::Char(c) => EditorKey::Char(c),
        _ => EditorKey::Ignored,
    }
}

// ---- laws -----------------------------------------------------------------

/// Whether a key works the same on every keyboard layout.
pub open spec fn universal(k: KeyCode) -> bool {
    match k {
        KeyCode::F(_)
        | KeyCode::Insert
        | KeyCode::Delete
        | KeyCode::Backspace
        | KeyCode::Enter
        | KeyCode::Esc
        | KeyCode::Tab
        | KeyCode::BackTab
        | KeyCode::Up
        | KeyCode::Down
        | KeyCode::Left
        | KeyCode::Right => true,
        _ => false,
    }
}

/// Every shortcut has a layout-independent key, listed first, and every other
/// key of it is a letter.
pub proof fn every_shortcut_has_a_universal_key(i: int)
    requires
        0 <= i < KEYMAP_LEN,
    ensures
        binding_spec(i).keys.len() >= 1,
        universal(binding_spec(i).keys[0]),
        forall|j: int| 1 <= j < binding_spec(i).keys.len() ==> #[trigger] binding_spec(i).keys[j] is Char,
        binding_spec(i).labels.len() == binding_spec(i).keys.len(),
{
}

/// The position of an action's shortcut in the registry.
pub open spec fn position(a: Action) -> int {
    match a {
        Action::RefreshConnection => 0,
        Action::Quit => 1,
        Action::CancelTest => 2,
        Action::TabNext => 3,
        Action::TabPrev => 4,
        Action::TabTest => 5,
        Action::TabMonitor => 6,
        Action::TabHistory => 7,
        Action::TabHelp => 8,
        Action::TabDsl => 9,
        Action::StartStopTest => 10,
        Action::ToggleContinuous => 11,
        Action::ProfileNext => 12,
        Action::ProfilePrev => 13,
        Action::MonitorToggle => 14,
        Action::ToggleGaming => 15,
        Action::EditTarget => 16,
        Action::ResetSession => 17,
        Action::DslPauseResume => 18,
        Action::EditModem => 19,
        Action::ClearModemLog => 20,
        Action::HistoryUp => 21,
        Action::HistoryDown => 22,
        Action::DeleteEntry => 23,
        Action::ClearAll => 24,
    }
}

/// Every action has exactly one shortcut.
pub proof fn every_action_has_one_shortcut(a: Action, i: int)
    requires
        0 <= i < KEYMAP_LEN,
    ensures
        0 <= position(a) < KEYMAP_LEN,
        binding_spec(position(a)).action == a,
        binding_spec(i).action == a <==> i == position(a),
{
}

/// What `resolve_from` finds fires, and nothing before it does.
pub proof fn resolve_is_first(i: int, key: KeyEvent, tab: Tab)
    requires
        0 <= i <= KEYMAP_LEN,
    ensures
        match resolve_from(i, key, tab) {
            Some(a) => i <= position(a) && fires(position(a), key, tab) && forall|j: int|
                i <= j < position(a) ==> !#[trigger] fires(j, key, tab),
            None => forall|j: int| i <= j < KEYMAP_LEN ==> !#[trigger] fires(j, key, tab),
        },
    decreases KEYMAP_LEN - i,
{
    if i < KEYMAP_LEN {
        if fires(i, key, tab) {
            every_action_has_one_shortcut(binding_spec(i).action, i);
        } else {
            resolve_is_first(i + 1, key, tab);
        }
    }
}

/// Alt and Ctrl keep every shortcut from firing.
pub proof fn alt_and_ctrl_reject(key: KeyEvent, tab: Tab)
    requires
        key.modifiers.alt || key.modifiers.control,
    ensures
        resolve_from(0, key, tab) is None,
{
    resolve_is_first(0, key, tab);
}

/// A shortcut of one tab never fires on a tab of another scope.
pub proof fn scoped_shortcuts_do_not_leak(a: Action, key: KeyEvent, tab: Tab)
    requires
        resolve_from(0, key, tab) == Some(a),
    ensures
        binding_spec(position(a)).scope == Scope::Global || binding_spec(position(a)).scope
            == tab_scope(tab),
{
    resolve_is_first(0, key, tab);
}

/// Two characters at the same position of the US keyboard trigger the same
/// action, whatever layout or letter case produced them.
pub proof fn same_position_same_action(a: KeyEvent, b: KeyEvent, i: int, tab: Tab)
    requires
        0 <= i <= KEYMAP_LEN,
        a.code is Char,
        b.code is Char,
        normal_char(a.code->Char_0) == normal_char(b.code->Char_0),
        a.modifiers == b.modifiers,
    ensures
        resolve_from(i, a, tab) == resolve_from(i, b, tab),
    decreases KEYMAP_LEN - i,
{
    if i < KEYMAP_LEN {
        let keys = binding_spec(i).keys;
        assert forall|j: int| 0 <= j < keys.len() implies binds(#[trigger] keys[j], a, logical(a))
            == binds(keys[j], b, logical(b)) by {
            every_shortcut_has_a_universal_key(i);
        }
        if fires(i, a, tab) {
            let j = choose|j: int| 0 <= j < keys.len() && binds(#[trigger] keys[j], a, logical(a));
            assert(binds(keys[j], b, logical(b)));
        }
        if fires(i, b, tab) {
            let j = choose|j: int| 0 <= j < keys.len() && binds(#[trigger] keys[j], b, logical(b));
            assert(binds(keys[j], a, logical(a)));
        }
        same_position_same_action(a, b, i + 1, tab);
    }
}

/// On every tab a key event triggers at most one shortcut: keys are reused
/// across tabs without collisions.
pub proof fn shortcuts_do_not_collide(key: KeyEvent, tab: Tab, i: int, j: int)
    requires
        0 <= i < KEYMAP_LEN,
        0 <= j < KEYMAP_LEN,
        fires(i, key, tab),
        fires(j, key, tab),
    ensures
        i == j,
{
    let a = choose|k: int|
        0 <= k < binding_spec(i).keys.len() && binds(
            #[trigger] binding_spec(i).keys[k],
            key,
            logical(key),
        );
    let b = choose|k: int|
        0 <= k < binding_spec(j).keys.len() && binds(
            #[trigger] binding_spec(j).keys[k],
            key,
            logical(key),
        );
    let x = binding_spec(i).keys[a];
    let y = binding_spec(j).keys[b];
    assert(a == 0 || a == 1);
    assert(b == 0 || b == 1);
    // A key event has one code and one logical character.
    assert(x == y);
}

/// A key pressed alone.
pub open spec fn alone(code: KeyCode) -> KeyEvent {
    KeyEvent {
        code,
        modifiers: KeyModifiers { shift: false, control: false, alt: false, other: false },
        kind: KeyEventKind::Press,
    }
}

/// What fires is what a key event resolves to.
proof fn firing_resolves(i: int, key: KeyEvent, tab: Tab)
    requires
        0 <= i < KEYMAP_LEN,
        fires(i, key, tab),
    ensures
        resolve_from(0, key, tab) == Some(binding_spec(i).action),
{
    resolve_is_first(0, key, tab);
    if let Some(a) = resolve_from(0, key, tab) {
        every_action_has_one_shortcut(a, i);
        shortcuts_do_not_collide(key, tab, i, position(a));
    }
}

proof fn key_leads(k: KeyCode, a: Action, tab: Tab)
    requires
        binding_spec(position(a)).action == a,
        binding_spec(position(a)).keys.len() > 0,
        binding_spec(position(a)).keys[0] == k,
        !(k is Char),
        binding_spec(position(a)).scope == Scope::Global || binding_spec(position(a)).scope
            == tab_scope(tab),
    ensures
        resolve_from(0, alone(k), tab) == Some(a),
{
    every_action_has_one_shortcut(a, 0);
    assert(binds(binding_spec(position(a)).keys[0], alone(k), logical(alone(k))));
    firing_resolves(position(a), alone(k), tab);
}

proof fn letter_leads(c: char, letter: char, a: Action, tab: Tab)
    requires
        normal_char(c) == letter,
        binding_spec(position(a)).action == a,
        binding_spec(position(a)).keys.len() > 1,
        binding_spec(position(a)).keys[1] == KeyCode::Char(letter),
        binding_spec(position(a)).scope == Scope::Global || binding_spec(position(a)).scope
            == tab_scope(tab),
    ensures
        resolve_from(0, alone(KeyCode::Char(c)), tab) == Some(a),
{
    let key = alone(KeyCode::Char(c));
    every_action_has_one_shortcut(a, 0);
    assert(binds(binding_spec(position(a)).keys[1], key, logical(key)));
    firing_resolves(position(a), key, tab);
}

/// The layout-independent keys: those that work on every tab, and those of each
/// tab.
pub proof fn keys_lead_to_their_actions(tab: Tab)
    ensures
        resolve_from(0, alone(KeyCode::F(5)), tab) == Some(Action::RefreshConnection),
        resolve_from(0, alone(KeyCode::F(10)), tab) == Some(Action::Quit),
        resolve_from(0, alone(KeyCode::Esc), tab) == Some(Action::CancelTest),
        resolve_from(0, alone(KeyCode::Tab), tab) == Some(Action::TabNext),
        resolve_from(0, alone(KeyCode::BackTab), tab) == Some(Action::TabPrev),
        resolve_from(0, alone(KeyCode::F(1)), tab) == Some(Action::TabTest),
        resolve_from(0, alone(KeyCode::F(2)), tab) == Some(Action::TabMonitor),
        resolve_from(0, alone(KeyCode::F(3)), tab) == Some(Action::TabHistory),
        resolve_from(0, alone(KeyCode::F(4)), tab) == Some(Action::TabHelp),
        resolve_from(0, alone(KeyCode::F(9)), tab) == Some(Action::TabDsl),
        resolve_from(0, alone(KeyCode::Enter), Tab::Test) == Some(Action::StartStopTest),
        resolve_from(0, alone(KeyCode::Insert), Tab::Test) == Some(Action::ToggleContinuous),
        resolve_from(0, alone(KeyCode::Down), Tab::Test) == Some(Action::ProfileNext),
        resolve_from(0, alone(KeyCode::Up), Tab::Test) == Some(Action::ProfilePrev),
        resolve_from(0, alone(KeyCode::Enter), Tab::Monitor) == Some(Action::MonitorToggle),
        resolve_from(0, alone(KeyCode::F(6)), Tab::Monitor) == Some(Action::ToggleGaming),
        resolve_from(0, alone(KeyCode::F(7)), Tab::Monitor) == Some(Action::EditTarget),
        resolve_from(0, alone(KeyCode::F(8)), Tab::Monitor) == Some(Action::ResetSession),
        resolve_from(0, alone(KeyCode::Enter), Tab::Dsl) == Some(Action::DslPauseResume),
        resolve_from(0, alone(KeyCode::F(7)), Tab::Dsl) == Some(Action::EditModem),
        resolve_from(0, alone(KeyCode::F(8)), Tab::Dsl) == Some(Action::ClearModemLog),
        resolve_from(0, alone(KeyCode::Up), Tab::History) == Some(Action::HistoryUp),
        resolve_from(0, alone(KeyCode::Down), Tab::History) == Some(Action::HistoryDown),
        resolve_from(0, alone(KeyCode::Delete), Tab::History) == Some(Action::DeleteEntry),
        resolve_from(0, alone(KeyCode::Backspace), Tab::History) == Some(Action::ClearAll),
{
    key_leads(KeyCode::F(5), Action::RefreshConnection, tab);
    key_leads(KeyCode::F(10), Action::Quit, tab);
    key_leads(KeyCode::Esc, Action::CancelTest, tab);
    key_leads(KeyCode::Tab, Action::TabNext, tab);
    key_leads(KeyCode::BackTab, Action::TabPrev, tab);
    key_leads(KeyCode::F(1), Action::TabTest, tab);
    key_leads(KeyCode::F(2), Action::TabMonitor, tab);
    key_leads(KeyCode::F(3), Action::TabHistory, tab);
    key_leads(KeyCode::F(4), Action::TabHelp, tab);
    key_leads(KeyCode::F(9), Action::TabDsl, tab);
    key_leads(KeyCode::Enter, Action::StartStopTest, Tab::Test);
    key_leads(KeyCode::Insert, Action::ToggleContinuous, Tab::Test);
    key_leads(KeyCode::Down, Action::ProfileNext, Tab::Test);
    key_leads(KeyCode::Up, Action::ProfilePrev, Tab::Test);
    key_leads(KeyCode::Enter, Action::MonitorToggle, Tab::Monitor);
    key_leads(KeyCode::F(6), Action::ToggleGaming, Tab::Monitor);
    key_leads(KeyCode::F(7), Action::EditTarget, Tab::Monitor);
    key_leads(KeyCode::F(8), Action::ResetSession, Tab::Monitor);
    key_leads(KeyCode::Enter, Action::DslPauseResume, Tab::Dsl);
    key_leads(KeyCode::F(7), Action::EditModem, Tab::Dsl);
    key_leads(KeyCode::F(8), Action::ClearModemLog, Tab::Dsl);
    key_leads(KeyCode::Up, Action::HistoryUp, Tab::History);
    key_leads(KeyCode::Down, Action::HistoryDown, Tab::History);
    key_leads(KeyCode::Delete, Action::DeleteEntry, Tab::History);
    key_leads(KeyCode::Backspace, Action::ClearAll, Tab::History);
}

/// The letter keys: a character at the position of a letter of the US keyboard
/// does what the letter stands for, on every tab or on one.
pub proof fn letters_lead_to_their_actions(c: char, tab: Tab)
    ensures
        normal_char(c) == 'r' ==> resolve_from(0, alone(KeyCode::Char(c)), tab) == Some(
            Action::RefreshConnection,
        ),
        normal_char(c) == 'q' ==> resolve_from(0, alone(KeyCode::Char(c)), tab) == Some(
            Action::Quit,
        ),
        normal_char(c) == 'm' ==> resolve_from(0, alone(KeyCode::Char(c)), Tab::Test) == Some(
            Action::ToggleContinuous,
        ),
        normal_char(c) == 'p' ==> resolve_from(0, alone(KeyCode::Char(c)), Tab::Test) == Some(
            Action::ProfileNext,
        ),
        normal_char(c) == 'g' ==> resolve_from(0, alone(KeyCode::Char(c)), Tab::Monitor) == Some(
            Action::ToggleGaming,
        ),
        normal_char(c) == 't' ==> resolve_from(0, alone(KeyCode::Char(c)), Tab::Monitor) == Some(
            Action::EditTarget,
        ),
        normal_char(c) == 'c' ==> resolve_from(0, alone(KeyCode::Char(c)), Tab::Monitor) == Some(
            Action::ResetSession,
        ),
        normal_char(c) == 't' ==> resolve_from(0, alone(KeyCode::Char(c)), Tab::Dsl) == Some(
            Action::EditModem,
        ),
        normal_char(c) == 'c' ==> resolve_from(0, alone(KeyCode::Char(c)), Tab::Dsl) == Some(
            Action::ClearModemLog,
        ),
        normal_char(c) == 'k' ==> resolve_from(0, alone(KeyCode::Char(c)), Tab::History) == Some(
            Action::HistoryUp,
        ),
        normal_char(c) == 'j' ==> resolve_from(0, alone(KeyCode::Char(c)), Tab::History) == Some(
            Action::HistoryDown,
        ),
        normal_char(c) == 'd' ==> resolve_from(0, alone(KeyCode::Char(c)), Tab::History) == Some(
            Action::DeleteEntry,
        ),
        normal_char(c) == 'x' ==> resolve_from(0, alone(KeyCode::Char(c)), Tab::History) == Some(
            Action::ClearAll,
        ),
{
    if normal_char(c) == 'r' {
        letter_leads(c, 'r', Action::RefreshConnection, tab);
    }
    if normal_char(c) == 'q' {
        letter_leads(c, 'q', Action::Quit, tab);
    }
    if normal_char(c) == 'm' {
        letter_leads(c, 'm', Action::ToggleContinuous, Tab::Test);
    }
    if normal_char(c) == 'p' {
        letter_leads(c, 'p', Action::ProfileNext, Tab::Test);
    }
    if normal_char(c) == 'g' {
        letter_leads(c, 'g', Action::ToggleGaming, Tab::Monitor);
    }
    if normal_char(c) == 't' {
        letter_leads(c, 't', Action::EditTarget, Tab::Monitor);
    }
    if normal_char(c) == 'c' {
        letter_leads(c, 'c', Action::ResetSession, Tab::Monitor);
    }
    if normal_char(c) == 't' {
        letter_leads(c, 't', Action::EditModem, Tab::Dsl);
    }
    if normal_char(c) == 'c' {
        letter_leads(c, 'c', Action::ClearModemLog, Tab::Dsl);
    }
    if normal_char(c) == 'k' {
        letter_leads(c, 'k', Action::HistoryUp, Tab::History);
    }
    if normal_char(c) == 'j' {
        letter_leads(c, 'j', Action::HistoryDown, Tab::History);
    }
    if normal_char(c) == 'd' {
        letter_leads(c, 'd', Action::DeleteEntry, Tab::History);
    }
    if normal_char(c) == 'x' {
        letter_leads(c, 'x', Action::ClearAll, Tab::History);
    }
}

/// The name under which a key is shown.
pub open spec fn key_name(k: KeyCode) -> Seq<char> {
    match k {
        KeyCode::F(n) => "F"@ + decimal(n as nat),
        KeyCode::Char(c) => seq![(c as u32 - 32) as char],
        KeyCode::Enter => "ENTER"@,
        KeyCode::Esc => "ESC"@,
        KeyCode::Tab => "TAB"@,
        KeyCode::BackTab => "SHIFT+TAB"@,
        KeyCode::Insert => "INS"@,
        KeyCode::Delete => "DEL"@,
        KeyCode::Backspace => "BACKSPACE"@,
        KeyCode::Up => "UP"@,
        KeyCode::Down => "DOWN"@,
        _ => ""@,
    }
}

/// Every label names its key: a function key by its number, a letter by its
/// capital, any other key by its own name.
pub proof fn labels_name_their_keys(i: int, j: int)
    requires
        0 <= i < KEYMAP_LEN,
        0 <= j < binding_spec(i).keys.len(),
    ensures
        binding_spec(i).labels[j] == key_name(binding_spec(i).keys[j]),
{
    reveal_strlit("F");
    reveal_strlit("F1");
    reveal_strlit("F2");
    reveal_strlit("F3");
    reveal_strlit("F4");
    reveal_strlit("F5");
    reveal_strlit("F6");
    reveal_strlit("F7");
    reveal_strlit("F8");
    reveal_strlit("F9");
    reveal_strlit("F10");
    reveal_strlit("R");
    reveal_strlit("Q");
    reveal_strlit("M");
    reveal_strlit("P");
    reveal_strlit("G");
    reveal_strlit("T");
    reveal_strlit("C");
    reveal_strlit("K");
    reveal_strlit("J");
    reveal_strlit("D");
    reveal_strlit("X");
    reveal_with_fuel(decimal, 2);
    let label = binding_spec(i).labels[j];
    let name = key_name(binding_spec(i).keys[j]);
    if binding_spec(i).keys[j] is F || binding_spec(i).keys[j] is Char {
        assert(label =~= name);
    }
}

/// The keys of the Russian layout stand where those of the US layout do, row by
/// row and from left to right.
pub proof fn layouts_agree_row_by_row(i: int)
    ensures
        0 <= i < 10 ==> us_position("йцукенгшщз"@[i]) == "qwertyuiop"@[i],
        0 <= i < 9 ==> us_position("фывапролд"@[i]) == "asdfghjkl"@[i],
        0 <= i < 7 ==> us_position("ячсмить"@[i]) == "zxcvbnm"@[i],
{
    reveal_strlit("йцукенгшщз");
    reveal_strlit("фывапролд");
    reveal_strlit("ячсмить");
    reveal_strlit("qwertyuiop");
    reveal_strlit("asdfghjkl");
    reveal_strlit("zxcvbnm");
}

/// Latin letters and everything else that is no Russian letter stand for
/// themselves, capital letters for the small ones.
pub proof fn latin_letters_stand_for_themselves(c: char)
    requires
        (c as u32) < 128,
    ensures
        'A' <= c <= 'Z' ==> normal_char(c) as u32 == c as u32 + 32,
        !('A' <= c <= 'Z') ==> normal_char(c) == c,
{
}

/// Shift is no part of a letter and makes BackTab; any other key counts only
/// where it is pressed alone.
pub proof fn shift_is_for_letters(code: KeyCode, tab: Tab)
    ensures
        ({
            let shifted = KeyEvent {
                code,
                modifiers: KeyModifiers { shift: true, control: false, alt: false, other: false },
                kind: KeyEventKind::Press,
            };
            &&& code is Char || code == KeyCode::BackTab ==> resolve_from(0, shifted, tab)
                == resolve_from(0, alone(code), tab)
            &&& !(code is Char) && code != KeyCode::BackTab ==> resolve_from(0, shifted, tab) is None
        }),
{
    let shifted = KeyEvent {
        code,
        modifiers: KeyModifiers { shift: true, control: false, alt: false, other: false },
        kind: KeyEventKind::Press,
    };
    resolve_is_first(0, shifted, tab);
    resolve_is_first(0, alone(code), tab);
    if code is Char || code == KeyCode::BackTab {
        if let Some(a) = resolve_from(0, shifted, tab) {
            let p = position(a);
            let keys = binding_spec(p).keys;
            let j = choose|j: int|
                0 <= j < keys.len() && binds(#[trigger] keys[j], shifted, logical(shifted));
            assert(binds(keys[j], alone(code), logical(alone(code))));
            assert(fires(p, alone(code), tab));
            every_action_has_one_shortcut(a, p);
            firing_resolves(p, alone(code), tab);
        }
        if let Some(a) = resolve_from(0, alone(code), tab) {
            let p = position(a);
            let keys = binding_spec(p).keys;
            let j = choose|j: int|
                0 <= j < keys.len() && binds(#[trigger] keys[j], alone(code), logical(alone(code)));
            assert(binds(keys[j], shifted, logical(shifted)));
            assert(fires(p, shifted, tab));
            every_action_has_one_shortcut(a, p);
            firing_resolves(p, shifted, tab);
        }
    }
}

/// Ctrl and C, on whatever layout, is what quits, with or without other keys held;
/// no key without Ctrl does so that way.
pub proof fn ctrl_c_is_ctrl_and_c(key: KeyEvent, c: char)
    ensures
        ctrl_c(key) ==> key.modifiers.control && key.code is Char,
        key.code == KeyCode::Char('c') && key.modifiers.control ==> ctrl_c(key),
        key.code == KeyCode::Char('C') && key.modifiers.control ==> ctrl_c(key),
        key.code == KeyCode::Char('с') && key.modifiers.control ==> ctrl_c(key),
        key.code == KeyCode::Char(c) && normal_char(c) != 'c' ==> !ctrl_c(key),
{
}

/// In an editor, Enter confirms, Escape cancels, Backspace erases and a character
/// is typed as it is, whatever else is held; any other key does nothing.
pub proof fn editor_keys_mean_what_they_say(key: KeyEvent)
    ensures
        editor_meaning(key) == EditorKey::Confirm <==> key.code == KeyCode::Enter,
        editor_meaning(key) == EditorKey::Cancel <==> key.code == KeyCode::Esc,
        editor_meaning(key) == EditorKey::Backspace <==> key.code == KeyCode::Backspace,
        key.code matches KeyCode::Char(c) ==> editor_meaning(key) == EditorKey::Char(c),
        editor_meaning(key) is Char <==> key.code is Char,
{
}

/// With any other modifier held no shortcut fires but the one of BackTab, which is
/// itself made of one.
pub proof fn other_modifiers_reject(key: KeyEvent, tab: Tab)
    requires
        key.modifiers.other,
        key.code != KeyCode::BackTab,
    ensures
        resolve_from(0, key, tab) is None,
{
    resolve_is_first(0, key, tab);
}

} // verus!
