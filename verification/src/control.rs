//! Keyboard control: every shortcut flows through one table and one dispatch
//! site.

use crate::app::{App, AppView, Effect, Env, EnvView, RunState, Tab};
use crate::history::{record_views, record_views_follow, TestRecord};
use crate::keys::{
    ctrl_c, editor_key, editor_meaning, is_ctrl_c, resolve, resolve_from, Action, EditorKey,
    KeyEvent, KeyEventKind,
};
use crate::net::{bare_bounds, bare_target, Profile};
use crate::text::{ascii_lower_text, chars_of, lower_ascii, trim, trimmed};
use vstd::prelude::*;

verus! {

// ---- monitor targets ------------------------------------------------------

/// A target as it is stored: bare and in lower case.
pub open spec fn stored_target(s: Seq<char>) -> Seq<char> {
    ascii_lower_text(bare_target(s))
}

/// A target as it is stored: without surrounding space, scheme and trailing
/// slashes, in lower case.
pub fn normalize_stored_target(target: &str) -> (out: String)
    ensures
        out@ == stored_target(target@),
{
    let chars = chars_of(target);
    let (a, b) = bare_bounds(&chars);
    lower_ascii(&chars, a, b)
}

/// Whether a character may stand in a host name or an address.
pub open spec fn host_char(c: char) -> bool {
    'a' <= c <= 'z' || 'A' <= c <= 'Z' || '0' <= c <= '9' || c == '.' || c == '-' || c == ':'
}

/// Whether a text can be a host name: it has a dot, and nothing but what may
/// stand in one.
pub open spec fn host_text(s: Seq<char>) -> bool {
    s.contains('.') && forall|i: int| 0 <= i < s.len() ==> host_char(#[trigger] s[i])
}

/// Whether a target can be a host name.
pub fn valid_target(target: &str) -> (yes: bool)
    ensures
        yes == host_text(target@),
{
    let chars = chars_of(target);
    let mut dotted: bool = false;
    let mut i: usize = 0;
    while i < chars.len()
        invariant
            i <= chars@.len(),
            chars@ == target@,
            dotted == chars@.take(i as int).contains('.'),
            forall|j: int| 0 <= j < i ==> host_char(#[trigger] chars@[j]),
        decreases chars@.len() - i,
    {
        let c: char = chars[i];
        assert(chars@.take(i + 1) =~= chars@.take(i as int).push(c));
        assert(chars@.take(i + 1)[i as int] == c);
        assert(forall|k: int| 0 <= k < i ==> chars@.take(i + 1)[k] == chars@.take(i as int)[k]);
        let allowed: bool = ('a' <= c && c <= 'z') || ('A' <= c && c <= 'Z') || ('0' <= c && c
            <= '9') || c == '.' || c == '-' || c == ':';
        if !allowed {
            assert(!host_char(target@[i as int]));
            return false;
        }
        if c == '.' {
            dotted = true;
        }
        i = i + 1;
    }
    assert(chars@.take(i as int) =~= chars@);
    dotted
}

// ---- actions --------------------------------------------------------------

impl AppView {
    /// On the way out; a running test is abandoned.
    #[verifier::opaque]
    pub open spec fn quitting(self, env: EnvView) -> Self {
        let s = if self.run_state == RunState::Running {
            self.test_cancelled(env)
        } else {
            self
        };
        AppView { should_quit: true, ..s }
    }

    /// With a running test abandoned, else on the way out.
    #[verifier::opaque]
    pub open spec fn escaped(self, env: EnvView) -> Self {
        if self.run_state == RunState::Running {
            self.test_cancelled(env)
        } else {
            AppView { should_quit: true, ..self }
        }
    }

    /// On another tab.
    #[verifier::opaque]
    pub open spec fn on_tab(self, tab: Tab) -> Self {
        AppView { tab, ..self }
    }

    /// With a test started or, in continuous mode, asked to stop.
    #[verifier::opaque]
    pub open spec fn test_toggled(self, now: u64) -> Self {
        if self.run_state != RunState::Running {
            self.test_started(true, now)
        } else if self.continuous_mode {
            self.stopping()
        } else {
            self
        }
    }

    /// With continuous mode switched over, unless a test runs.
    #[verifier::opaque]
    pub open spec fn continuous_toggled(self) -> Self {
        if self.run_state == RunState::Running {
            self
        } else {
            AppView { continuous_mode: !self.continuous_mode, ..self }
        }
    }

    /// With another profile, unless a test runs.
    #[verifier::opaque]
    pub open spec fn with_profile(self, profile: Profile) -> Self {
        if self.run_state == RunState::Running {
            self
        } else {
            AppView { profile, ..self }
        }
    }

    /// With the monitor started or stopped, unless it is paused for a speed test
    /// and resumes by itself.
    #[verifier::opaque]
    pub open spec fn monitor_toggled(self, env: EnvView) -> Self {
        if self.monitor.paused {
            self
        } else if self.monitor.running {
            let s = self.monitor_stopped();
            AppView { monitor: s.monitor.stable_from(env.now.ticks), ..s }
        } else {
            self.monitor_started(env)
        }
    }

    /// With the target editor open.
    #[verifier::opaque]
    pub open spec fn target_editor_opened(self) -> Self {
        AppView { monitor: self.monitor.editor_opened(), ..self }
    }

    /// With the modem polled, or its reading paused or resumed.
    #[verifier::opaque]
    pub open spec fn modem_toggled(self) -> Self {
        if !self.dsl.polling {
            self.polling_begun()
        } else {
            AppView { dsl: self.dsl.pause_toggled(), ..self }
        }
    }

    /// With the modem editor open.
    #[verifier::opaque]
    pub open spec fn modem_editor_opened(self) -> Self {
        AppView { dsl: self.dsl.editor_opened(), ..self }
    }

    /// With the entry above selected, where there is one.
    #[verifier::opaque]
    pub open spec fn selected_up(self) -> Self {
        AppView {
            history_selected: if self.history_selected > 0 {
                (self.history_selected - 1) as usize
            } else {
                0
            },
            ..self
        }
    }

    /// With the entry below selected, where there is one.
    #[verifier::opaque]
    pub open spec fn selected_down(self) -> Self {
        if self.history_selected + 1 < self.history.len() {
            AppView { history_selected: (self.history_selected + 1) as usize, ..self }
        } else {
            self
        }
    }

    /// Without the selected entry; the one before it is selected.
    #[verifier::opaque]
    pub open spec fn entry_deleted(self) -> Self {
        if self.history.len() == 0 {
            self
        } else {
            AppView {
                history: self.history.remove(self.history_selected as int),
                history_selected: if self.history_selected > 0 {
                    (self.history_selected - 1) as usize
                } else {
                    0
                },
                ..self
            }.asking(Effect::SaveHistory)
        }
    }

    /// Without any entry.
    #[verifier::opaque]
    pub open spec fn history_cleared(self) -> Self {
        if self.history.len() == 0 {
            self
        } else {
            AppView { history: Seq::empty(), history_selected: 0, ..self }.asking(
                Effect::SaveHistory,
            )
        }
    }

    /// After an action.
    pub open spec fn dispatched(self, action: Action, env: EnvView) -> Self {
        match action {
            Action::Quit => self.quitting(env),
            Action::CancelTest => self.escaped(env),
            Action::RefreshConnection => self.looking_up(),
            Action::TabNext => self.on_tab(self.tab.successor()),
            Action::TabPrev => self.on_tab(self.tab.predecessor()),
            Action::TabTest => self.on_tab(Tab::Test),
            Action::TabMonitor => self.on_tab(Tab::Monitor),
            Action::TabHistory => self.on_tab(Tab::History),
            Action::TabHelp => self.on_tab(Tab::Help),
            Action::TabDsl => self.on_tab(Tab::Dsl),
            Action::StartStopTest => self.test_toggled(env.now.ticks),
            Action::ToggleContinuous => self.continuous_toggled(),
            Action::ProfileNext => self.with_profile(self.profile.successor()),
            Action::ProfilePrev => self.with_profile(self.profile.predecessor()),
            Action::MonitorToggle => self.monitor_toggled(env),
            Action::ToggleGaming => self.gaming_toggled(),
            Action::EditTarget => self.target_editor_opened(),
            Action::ResetSession => self.session_cleared(env.now.ticks),
            Action::DslPauseResume => self.modem_toggled(),
            Action::EditModem => self.modem_editor_opened(),
            Action::ClearModemLog => self.modem_log_cleared(),
            Action::HistoryUp => self.selected_up(),
            Action::HistoryDown => self.selected_down(),
            Action::DeleteEntry => self.entry_deleted(),
            Action::ClearAll => self.history_cleared(),
        }
    }

    // ---- editors ----

    /// After a new target was entered. A running monitor starts over on it.
    #[verifier::opaque]
    pub open spec fn retargeted(self, entered: Seq<char>, env: EnvView) -> Self {
        let target = stored_target(entered);
        if !host_text(target) {
            self.errored(
                "'"@ + entered
                    + "' is not a valid host name — expected something like example.com"@,
                env.now,
            )
        } else {
            let s = AppView { monitor: self.monitor.aimed(target), ..self };
            if self.monitor.running {
                s.monitor_stopped().session_cleared(env.now.ticks).monitor_started(env)
            } else {
                s
            }
        }
    }

    /// With the target editor closed.
    #[verifier::opaque]
    pub open spec fn target_editor_closed(self) -> Self {
        AppView { monitor: self.monitor.editor_closed(), ..self }
    }

    /// After the target editor is confirmed; an empty input changes nothing.
    #[verifier::opaque]
    pub open spec fn target_confirmed(self, env: EnvView) -> Self {
        let entered = trim(self.monitor.input_buf);
        let s = self.target_editor_closed();
        if entered.len() == 0 {
            s
        } else {
            s.retargeted(entered, env)
        }
    }

    /// With the last character of the target editor's input taken off.
    #[verifier::opaque]
    pub open spec fn target_erased(self) -> Self {
        AppView { monitor: self.monitor.erased(), ..self }
    }

    /// With a character in the target editor's input.
    #[verifier::opaque]
    pub open spec fn target_typed(self, c: char) -> Self {
        AppView { monitor: self.monitor.typed(c), ..self }
    }

    /// After a key in the target editor.
    pub open spec fn target_edited(self, key: EditorKey, env: EnvView) -> Self {
        match key {
            EditorKey::Confirm => self.target_confirmed(env),
            EditorKey::Cancel => self.target_editor_closed(),
            EditorKey::Backspace => self.target_erased(),
            EditorKey::Char(c) => self.target_typed(c),
            EditorKey::Ignored => self,
        }
    }

    /// With the modem editor closed.
    #[verifier::opaque]
    pub open spec fn modem_editor_closed(self) -> Self {
        AppView { dsl: self.dsl.editor_closed(), ..self }
    }

    /// After the modem editor is confirmed: where it has an address, everything
    /// is applied and polling starts over.
    #[verifier::opaque]
    pub open spec fn modem_confirmed(self) -> Self {
        let s = self.modem_editor_closed();
        if s.dsl.applicable() {
            AppView { dsl: s.dsl.configured(), ..s }.polling_stopped().polling_begun()
        } else {
            s
        }
    }

    /// With the last character of the edited modem field taken off.
    #[verifier::opaque]
    pub open spec fn modem_erased(self) -> Self {
        AppView { dsl: self.dsl.erased(), ..self }
    }

    /// With a character in the edited modem field.
    #[verifier::opaque]
    pub open spec fn modem_typed(self, c: char) -> Self {
        AppView { dsl: self.dsl.typed(c), ..self }
    }

    /// After an editor key in the modem editor.
    pub open spec fn modem_edited(self, key: EditorKey) -> Self {
        match key {
            EditorKey::Confirm => self.modem_confirmed(),
            EditorKey::Cancel => self.modem_editor_closed(),
            EditorKey::Backspace => self.modem_erased(),
            EditorKey::Char(c) => self.modem_typed(c),
            EditorKey::Ignored => self,
        }
    }

    /// After any key in the modem editor: the arrow keys switch fields.
    #[verifier::opaque]
    pub open spec fn modem_keyed(self, key: KeyEvent) -> Self {
        let s = self.modem_edited(editor_meaning(key));
        AppView { dsl: s.dsl.field_moved(key.code), ..s }
    }

    /// After a key event. Only presses count; Ctrl+C always quits; an open
    /// editor takes every other key; the rest are shortcuts.
    pub open spec fn keyed(self, key: KeyEvent, env: EnvView) -> Self {
        if key.kind != KeyEventKind::Press {
            self
        } else if ctrl_c(key) {
            self.quitting(env)
        } else if self.tab == Tab::Monitor && self.monitor.editing_target {
            self.target_edited(editor_meaning(key), env)
        } else if self.tab == Tab::Dsl && self.dsl.editing {
            self.modem_keyed(key)
        } else {
            match resolve_from(0, key, self.tab) {
                Some(action) => self.dispatched(action, env),
                None => self,
            }
        }
    }
}

fn drop_record(list: &mut Vec<TestRecord>, at: usize)
    requires
        at < old(list)@.len(),
    ensures
        record_views(final(list)@) == record_views(old(list)@).remove(at as int),
{
    proof {
        record_views_follow(list@, at as int);
    }
    list.remove(at);
}

impl App {
    fn quit(&mut self, env: &Env)
        requires
            old(self)@.valid(),
            env.now.valid(),
        ensures
            final(self)@ == old(self)@.quitting(env@),
            final(self)@.valid(),
    {
        reveal(AppView::quitting);
        if self.run_state == RunState::Running {
            self.cancel_test(env);
        }
        self.should_quit = true;
    }

    fn escape(&mut self, env: &Env)
        requires
            old(self)@.valid(),
            env.now.valid(),
        ensures
            final(self)@ == old(self)@.escaped(env@),
            final(self)@.valid(),
    {
        reveal(AppView::escaped);
        if self.run_state == RunState::Running {
            self.cancel_test(env);
        } else {
            self.should_quit = true;
        }
    }

    fn go_to(&mut self, tab: Tab)
        requires
            old(self)@.valid(),
        ensures
            final(self)@ == old(self)@.on_tab(tab),
            final(self)@.valid(),
    {
        reveal(AppView::on_tab);
        self.tab = tab;
    }

    fn start_or_stop_test(&mut self, now: u64)
        requires
            old(self)@.valid(),
        ensures
            final(self)@ == old(self)@.test_toggled(now),
            final(self)@.valid(),
    {
        reveal(AppView::test_toggled);
        match self.run_state {
            RunState::Idle | RunState::Finished => self.start_test(true, now),
            RunState::Running => {
                if self.continuous_mode {
                    self.stop_continuous();
                }
            },
        }
    }

    fn toggle_continuous(&mut self)
        requires
            old(self)@.valid(),
        ensures
            final(self)@ == old(self)@.continuous_toggled(),
            final(self)@.valid(),
    {
        reveal(AppView::continuous_toggled);
        if self.run_state != RunState::Running {
            self.continuous_mode = !self.continuous_mode;
        }
    }

    fn choose_profile(&mut self, profile: Profile)
        requires
            old(self)@.valid(),
        ensures
            final(self)@ == old(self)@.with_profile(profile),
            final(self)@.valid(),
    {
        reveal(AppView::with_profile);
        if self.run_state != RunState::Running {
            self.profile = profile;
        }
    }

    fn toggle_monitor(&mut self, env: &Env)
        requires
            old(self)@.valid(),
            env.now.valid(),
        ensures
            final(self)@ == old(self)@.monitor_toggled(env@),
            final(self)@.valid(),
    {
        reveal(AppView::monitor_toggled);
        if self.monitor.paused {
            // Paused by a running speed test: it resumes by itself.
            return ;
        }
        if self.monitor.running {
            self.stop_monitor_task();
            self.monitor.set_stable(env.now.ticks);
        } else {
            self.start_monitor(env);
        }
    }

    fn open_target_editor(&mut self)
        requires
            old(self)@.valid(),
        ensures
            final(self)@ == old(self)@.target_editor_opened(),
            final(self)@.valid(),
    {
        reveal(AppView::target_editor_opened);
        self.monitor.open_editor();
    }

    fn toggle_modem(&mut self)
        requires
            old(self)@.valid(),
        ensures
            final(self)@ == old(self)@.modem_toggled(),
            final(self)@.valid(),
    {
        reveal(AppView::modem_toggled);
        if !self.dsl.polling {
            self.begin_dsl_polling();
        } else {
            self.dsl.toggle_pause();
        }
    }

    fn open_modem_editor(&mut self)
        requires
            old(self)@.valid(),
        ensures
            final(self)@ == old(self)@.modem_editor_opened(),
            final(self)@.valid(),
    {
        reveal(AppView::modem_editor_opened);
        self.dsl.open_editor();
    }

    fn select_up(&mut self)
        requires
            old(self)@.valid(),
        ensures
            final(self)@ == old(self)@.selected_up(),
            final(self)@.valid(),
    {
        reveal(AppView::selected_up);
        if self.history_selected > 0 {
            self.history_selected = self.history_selected - 1;
        }
    }

    fn select_down(&mut self)
        requires
            old(self)@.valid(),
        ensures
            final(self)@ == old(self)@.selected_down(),
            final(self)@.valid(),
    {
        reveal(AppView::selected_down);
        proof {
            record_views_follow(self.history@, 0);
        }
        let n: usize = self.history.len();
        if n > 0 && self.history_selected < n - 1 {
            self.history_selected = self.history_selected + 1;
        }
    }

    fn delete_entry(&mut self)
        requires
            old(self)@.valid(),
        ensures
            final(self)@ == old(self)@.entry_deleted(),
            final(self)@.valid(),
    {
        reveal(AppView::entry_deleted);
        proof {
            record_views_follow(self.history@, 0);
        }
        if self.history.len() > 0 {
            let at: usize = self.history_selected;
            drop_record(&mut self.history, at);
            self.history_selected = if at > 0 {
                at - 1
            } else {
                0
            };
            self.outbox.push(Effect::SaveHistory);
        }
    }

    fn clear_history(&mut self)
        requires
            old(self)@.valid(),
        ensures
            final(self)@ == old(self)@.history_cleared(),
            final(self)@.valid(),
    {
        reveal(AppView::history_cleared);
        proof {
            record_views_follow(self.history@, 0);
        }
        if self.history.len() > 0 {
            self.history.clear();
            self.history_selected = 0;
            self.outbox.push(Effect::SaveHistory);
        }
    }

    /// Carries an action out.
    pub fn dispatch(&mut self, action: Action, env: &Env)
        requires
            old(self)@.valid(),
            env.now.valid(),
        ensures
            final(self)@ == old(self)@.dispatched(action, env@),
            final(self)@.valid(),
    {
        match action {
            // ----- global -----
            Action::Quit => self.quit(env),
            Action::CancelTest => self.escape(env),
            Action::RefreshConnection => self.begin_connection_lookup(),
            Action::TabNext => self.go_to(self.tab.next()),
            Action::TabPrev => self.go_to(self.tab.prev()),
            Action::TabTest => self.go_to(Tab::Test),
            Action::TabMonitor => self.go_to(Tab::Monitor),
            Action::TabHistory => self.go_to(Tab::History),
            Action::TabHelp => self.go_to(Tab::Help),
            Action::TabDsl => self.go_to(Tab::Dsl),
            // ----- test tab -----
            Action::StartStopTest => self.start_or_stop_test(env.now.ticks),
            Action::ToggleContinuous => self.toggle_continuous(),
            Action::ProfileNext => self.choose_profile(self.profile.next()),
            Action::ProfilePrev => self.choose_profile(self.profile.prev()),
            // ----- monitor tab -----
            Action::MonitorToggle => self.toggle_monitor(env),
            Action::ToggleGaming => self.toggle_gaming(),
            Action::EditTarget => self.open_target_editor(),
            Action::ResetSession => self.clear_monitor_session(env.now.ticks),
            // ----- modem tab -----
            Action::DslPauseResume => self.toggle_modem(),
            Action::EditModem => self.open_modem_editor(),
            Action::ClearModemLog => self.clear_modem_log(),
            // ----- history tab -----
            Action::HistoryUp => self.select_up(),
            Action::HistoryDown => self.select_down(),
            Action::DeleteEntry => self.delete_entry(),
            Action::ClearAll => self.clear_history(),
        }
    }

    fn retarget(&mut self, entered: String, env: &Env)
        requires
            old(self)@.valid(),
            env.now.valid(),
        ensures
            final(self)@ == old(self)@.retargeted(entered@, env@),
            final(self)@.valid(),
    {
        reveal(AppView::retargeted);
        let target = normalize_stored_target(entered.as_str());
        if !valid_target(target.as_str()) {
            let mut msg: String = "'".to_owned();
            msg.append(entered.as_str());
            msg.append("' is not a valid host name — expected something like example.com");
            self.set_error(msg, env.now);
            return ;
        }
        let running: bool = self.monitor.running;
        self.monitor.aim(target);
        if running {
            self.stop_monitor_task();
            self.clear_monitor_session(env.now.ticks);
            self.start_monitor(env);
        }
    }

    fn close_target_editor(&mut self)
        requires
            old(self)@.valid(),
        ensures
            final(self)@ == old(self)@.target_editor_closed(),
            final(self)@.valid(),
    {
        reveal(AppView::target_editor_closed);
        self.monitor.close_editor();
    }

    fn confirm_target(&mut self, env: &Env)
        requires
            old(self)@.valid(),
            env.now.valid(),
        ensures
            final(self)@ == old(self)@.target_confirmed(env@),
            final(self)@.valid(),
    {
        reveal(AppView::target_confirmed);
        let entered = trimmed(self.monitor.input_buf.as_str());
        self.close_target_editor();
        if !entered.as_str().is_empty() {
            self.retarget(entered, env);
        }
    }

    fn erase_target(&mut self)
        requires
            old(self)@.valid(),
        ensures
            final(self)@ == old(self)@.target_erased(),
            final(self)@.valid(),
    {
        reveal(AppView::target_erased);
        self.monitor.erase();
    }

    fn type_target(&mut self, c: char)
        requires
            old(self)@.valid(),
        ensures
            final(self)@ == old(self)@.target_typed(c),
            final(self)@.valid(),
    {
        reveal(AppView::target_typed);
        self.monitor.type_char(c);
    }

    /// A key in the editor of the monitor's target.
    pub fn handle_editor_key(&mut self, key: &KeyEvent, env: &Env)
        requires
            old(self)@.valid(),
            env.now.valid(),
        ensures
            final(self)@ == old(self)@.target_edited(editor_meaning(*key), env@),
            final(self)@.valid(),
    {
        match editor_key(key) {
            EditorKey::Confirm => self.confirm_target(env),
            EditorKey::Cancel => self.close_target_editor(),
            EditorKey::Backspace => self.erase_target(),
            EditorKey::Char(c) => self.type_target(c),
            EditorKey::Ignored => {},
        }
    }

    fn close_modem_editor(&mut self)
        requires
            old(self)@.valid(),
        ensures
            final(self)@ == old(self)@.modem_editor_closed(),
            final(self)@.valid(),
    {
        reveal(AppView::modem_editor_closed);
        self.dsl.close_editor();
    }

    fn confirm_modem(&mut self)
        requires
            old(self)@.valid(),
        ensures
            final(self)@ == old(self)@.modem_confirmed(),
            final(self)@.valid(),
    {
        reveal(AppView::modem_confirmed);
        self.close_modem_editor();
        if self.dsl.apply_edit() {
            self.stop_dsl_polling();
            self.begin_dsl_polling();
        }
    }

    fn erase_modem(&mut self)
        requires
            old(self)@.valid(),
        ensures
            final(self)@ == old(self)@.modem_erased(),
            final(self)@.valid(),
    {
        reveal(AppView::modem_erased);
        self.dsl.erase();
    }

    fn type_modem(&mut self, c: char)
        requires
            old(self)@.valid(),
        ensures
            final(self)@ == old(self)@.modem_typed(c),
            final(self)@.valid(),
    {
        reveal(AppView::modem_typed);
        self.dsl.type_char(c);
    }

    fn edit_modem(&mut self, key: EditorKey)
        requires
            old(self)@.valid(),
        ensures
            final(self)@ == old(self)@.modem_edited(key),
            final(self)@.valid(),
    {
        match key {
            EditorKey::Confirm => self.confirm_modem(),
            EditorKey::Cancel => self.close_modem_editor(),
            EditorKey::Backspace => self.erase_modem(),
            EditorKey::Char(c) => self.type_modem(c),
            EditorKey::Ignored => {},
        }
    }

    /// A key in the editor of the modem connection (address, user, password).
    /// The arrow keys switch fields; Enter applies everything.
    pub fn handle_modem_edit_key(&mut self, key: &KeyEvent)
        requires
            old(self)@.valid(),
        ensures
            final(self)@ == old(self)@.modem_keyed(*key),
            final(self)@.valid(),
    {
        reveal(AppView::modem_keyed);
        self.edit_modem(editor_key(key));
        self.dsl.move_field(key.code);
    }

    /// Single entry point for all keyboard input.
    pub fn on_key(&mut self, key: KeyEvent, env: &Env)
        requires
            old(self)@.valid(),
            env.now.valid(),
        ensures
            final(self)@ == old(self)@.keyed(key, env@),
            final(self)@.valid(),
    {
        if key.kind != KeyEventKind::Press {
            return ;
        }
        // Ctrl+C always quits (layout-independent).
        if is_ctrl_c(&key) {
            self.quit(env);
            return ;
        }
        // An open editor captures all input.
        if self.tab == Tab::Monitor && self.monitor.editing_target {
            self.handle_editor_key(&key, env);
            return ;
        }
        if self.tab == Tab::Dsl && self.dsl.editing {
            self.handle_modem_edit_key(&key);
            return ;
        }
        match resolve(&key, self.tab) {
            Some(action) => self.dispatch(action, env),
            None => {},
        }
    }
}

} // verus!
