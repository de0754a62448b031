//! Modem diagnostics state: the latest snapshot and the incidents derived from
//! one snapshot to the next.

use crate::dsl::{
    modem_incident_views, ConfigView, DslSnapshot, ModemConfig, ModemIncident, ModemIncidentView,
    Severity, SnapshotView, ATT_CRIT_DB, ATT_WARN_DB, RATE_MIN_PCT, RATE_RECOVERED_PCT,
    SNR_CRIT_DB, SNR_WARN_DB,
};
use crate::keys::KeyCode;
use crate::measure::{pushed, Moment, MEGABIT};
use crate::text::{
    decimal, push_decimal, push_limited, push_signed_fixed, signed_fixed, trim, trimmed, with_char,
    without_last,
};
use vstd::prelude::*;

verus! {

/// Modem log entries kept (newest appended at the end).
pub const MAX_MODEM_LOG: usize = 80;

/// The modem tab's state. `cancel` and `rx` speak of the background poller:
/// whether it can be told to stop and whether its snapshots are still read.
#[derive(Debug)]
pub struct DslState {
    pub polling: bool,
    pub paused: bool,
    pub current: Option<DslSnapshot>,
    pub incidents: Vec<ModemIncident>,
    pub config: ModemConfig,
    pub editing: bool,
    /// 0 = address, 1 = user, 2 = password.
    pub edit_field: usize,
    pub buf_addr: String,
    pub buf_user: String,
    pub buf_pass: String,
    pub cancel: bool,
    pub rx: bool,
    pub prev_uptime: Option<u64>,
    pub prev_crc: Option<u64>,
    pub prev_wireless: Option<u32>,
    pub snr_alert_down: u8,
    pub snr_alert_up: u8,
    pub att_alert_down: u8,
    pub att_alert_up: u8,
    pub rate_alert_down: bool,
    pub rate_alert_up: bool,
}

/// The contents of a [`DslState`].
#[verifier::ext_equal]
pub struct DslView {
    pub polling: bool,
    pub paused: bool,
    pub current: Option<SnapshotView>,
    pub incidents: Seq<ModemIncidentView>,
    pub config: ConfigView,
    pub editing: bool,
    pub edit_field: usize,
    pub buf_addr: Seq<char>,
    pub buf_user: Seq<char>,
    pub buf_pass: Seq<char>,
    pub cancel: bool,
    pub rx: bool,
    pub prev_uptime: Option<u64>,
    pub prev_crc: Option<u64>,
    pub prev_wireless: Option<u32>,
    pub snr_alert_down: u8,
    pub snr_alert_up: u8,
    pub att_alert_down: u8,
    pub att_alert_up: u8,
    pub rate_alert_down: bool,
    pub rate_alert_up: bool,
}

/// The contents of an optional snapshot.
#[verifier::opaque]
pub open spec fn opt_snapshot(s: Option<DslSnapshot>) -> Option<SnapshotView> {
    match s {
        Some(s) => Some(s@),
        None => None,
    }
}

impl View for DslState {
    type V = DslView;

    open spec fn view(&self) -> DslView {
        DslView {
            polling: self.polling,
            paused: self.paused,
            current: opt_snapshot(self.current),
            incidents: modem_incident_views(self.incidents@),
            config: self.config@,
            editing: self.editing,
            edit_field: self.edit_field,
            buf_addr: self.buf_addr@,
            buf_user: self.buf_user@,
            buf_pass: self.buf_pass@,
            cancel: self.cancel,
            rx: self.rx,
            prev_uptime: self.prev_uptime,
            prev_crc: self.prev_crc,
            prev_wireless: self.prev_wireless,
            snr_alert_down: self.snr_alert_down,
            snr_alert_up: self.snr_alert_up,
            att_alert_down: self.att_alert_down,
            att_alert_up: self.att_alert_up,
            rate_alert_down: self.rate_alert_down,
            rate_alert_up: self.rate_alert_up,
        }
    }
}

// ---- level alerts ---------------------------------------------------------

/// How bad a value is that must not fall: 2 below `crit`, 1 below `warn`.
pub open spec fn low_level(v: i64, warn: i64, crit: i64) -> u8 {
    if v < crit {
        2
    } else if v < warn {
        1
    } else {
        0
    }
}

/// How bad a value is that must not rise: 2 above `crit`, 1 above `warn`.
pub open spec fn high_level(v: i64, warn: i64, crit: i64) -> u8 {
    if v > crit {
        2
    } else if v > warn {
        1
    } else {
        0
    }
}

/// A modem log together with the alert level that one of its values has
/// reached.
#[verifier::ext_equal]
pub struct LevelLog {
    pub log: Seq<ModemIncidentView>,
    pub level: u8,
}

impl LevelLog {
    /// A value of `v` ten-thousandths of a dB at alert level `level` is reported
    /// where it is worse than what was reported so far, and where it is normal
    /// again after a report; in between nothing is.
    pub open spec fn observed(
        self,
        field: Seq<char>,
        v: i64,
        level: u8,
        expected: Seq<char>,
        m: Moment,
    ) -> Self {
        if level > self.level {
            LevelLog {
                log: pushed(
                    self.log,
                    ModemIncidentView {
                        at: m.wall,
                        severity: if level == 2 {
                            Severity::Critical
                        } else {
                            Severity::Warning
                        },
                        field,
                        observed: signed_fixed(v as int, 10_000, 1) + " dB"@,
                        expected,
                    },
                    MAX_MODEM_LOG as nat,
                ),
                level,
            }
        } else if level == 0 && self.level > 0 {
            LevelLog {
                log: pushed(
                    self.log,
                    ModemIncidentView {
                        at: m.wall,
                        severity: Severity::Info,
                        field,
                        observed: "recovered to "@ + signed_fixed(v as int, 10_000, 1),
                        expected,
                    },
                    MAX_MODEM_LOG as nat,
                ),
                level: 0,
            }
        } else {
            self
        }
    }

    /// After a check of a value that must not fall.
    pub open spec fn checked_low(
        self,
        field: Seq<char>,
        value: Option<i64>,
        warn: i64,
        crit: i64,
        expected: Seq<char>,
        m: Moment,
    ) -> Self {
        match value {
            Some(v) => self.observed(field, v, low_level(v, warn, crit), expected, m),
            None => self,
        }
    }

    /// After a check of a value that must not rise.
    pub open spec fn checked_high(
        self,
        field: Seq<char>,
        value: Option<i64>,
        warn: i64,
        crit: i64,
        expected: Seq<char>,
        m: Moment,
    ) -> Self {
        match value {
            Some(v) => self.observed(field, v, high_level(v, warn, crit), expected, m),
            None => self,
        }
    }
}

/// A modem log together with whether a collapsed rate has been reported.
#[verifier::ext_equal]
pub struct RateLog {
    pub log: Seq<ModemIncidentView>,
    pub alert: bool,
}

impl RateLog {
    /// A rate below half of a meaningful maximum (above 1 Mbps) is reported
    /// once; the next report waits until it has been at 70 percent again.
    pub open spec fn checked(
        self,
        field: Seq<char>,
        rate: Option<i64>,
        max: Option<i64>,
        m: Moment,
    ) -> Self {
        match (rate, max) {
            (Some(rate), Some(max)) => {
                let collapsed = 100 * rate < RATE_MIN_PCT * max;
                if max <= MEGABIT {
                    self
                } else if collapsed && !self.alert {
                    RateLog {
                        log: pushed(
                            self.log,
                            ModemIncidentView {
                                at: m.wall,
                                severity: Severity::Warning,
                                field,
                                observed: signed_fixed(rate as int, MEGABIT as nat, 2)
                                    + " Mbps of "@ + signed_fixed(max as int, MEGABIT as nat, 2)
                                    + " Mbps max"@,
                                expected: ">= 50% of the max rate"@,
                            },
                            MAX_MODEM_LOG as nat,
                        ),
                        alert: true,
                    }
                } else if !collapsed && self.alert && 100 * rate >= RATE_RECOVERED_PCT * max {
                    RateLog { alert: false, ..self }
                } else {
                    self
                }
            },
            _ => self,
        }
    }
}

impl DslView {
    /// A modem tab at rest, with no figures yet.
    pub open spec fn fresh() -> Self {
        DslView {
            polling: false,
            paused: false,
            current: None,
            incidents: Seq::empty(),
            config: ConfigView {
                host: "fritz.box"@,
                username: Seq::empty(),
                password: Seq::empty(),
            },
            editing: false,
            edit_field: 0,
            buf_addr: Seq::empty(),
            buf_user: Seq::empty(),
            buf_pass: Seq::empty(),
            cancel: false,
            rx: false,
            prev_uptime: None,
            prev_crc: None,
            prev_wireless: None,
            snr_alert_down: 0,
            snr_alert_up: 0,
            att_alert_down: 0,
            att_alert_up: 0,
            rate_alert_down: false,
            rate_alert_up: false,
        }
    }

    /// The log keeps its bound, the alert levels and the edited field are known
    /// ones.
    pub open spec fn valid(self) -> bool {
        &&& self.incidents.len() <= MAX_MODEM_LOG
        &&& self.snr_alert_down <= 2
        &&& self.snr_alert_up <= 2
        &&& self.att_alert_down <= 2
        &&& self.att_alert_up <= 2
        &&& self.edit_field <= 2
    }

    /// With a new poller.
    pub open spec fn polling_on(self) -> Self {
        DslView { cancel: true, rx: true, polling: true, ..self }
    }

    /// Without a poller.
    pub open spec fn polling_off(self) -> Self {
        DslView { cancel: false, rx: false, polling: false, ..self }
    }

    /// With an empty log.
    pub open spec fn log_cleared(self) -> Self {
        DslView { incidents: Seq::empty(), ..self }
    }

    /// Reading the poller, or no longer.
    pub open spec fn pause_toggled(self) -> Self {
        DslView { paused: !self.paused, ..self }
    }

    /// With the editor open on the configuration, unless it is.
    pub open spec fn editor_opened(self) -> Self {
        if self.editing {
            self
        } else {
            DslView {
                editing: true,
                edit_field: 0,
                buf_addr: self.config.host,
                buf_user: self.config.username,
                buf_pass: self.config.password,
                ..self
            }
        }
    }

    /// With the editor closed.
    pub open spec fn editor_closed(self) -> Self {
        DslView { editing: false, ..self }
    }

    /// Whether the edited configuration can be applied: it has an address.
    pub open spec fn applicable(self) -> bool {
        trim(self.buf_addr).len() > 0
    }

    /// With the edited configuration.
    pub open spec fn configured(self) -> Self {
        DslView {
            config: ConfigView {
                host: trim(self.buf_addr),
                username: trim(self.buf_user),
                password: self.buf_pass,
            },
            ..self
        }
    }

    /// With the last character of the edited field taken off.
    pub open spec fn erased(self) -> Self {
        if self.edit_field == 0 {
            DslView { buf_addr: without_last(self.buf_addr), ..self }
        } else if self.edit_field == 1 {
            DslView { buf_user: without_last(self.buf_user), ..self }
        } else {
            DslView { buf_pass: without_last(self.buf_pass), ..self }
        }
    }

    /// With a character at the end of the edited field, where there is room.
    pub open spec fn typed(self, c: char) -> Self {
        if self.edit_field == 0 {
            DslView { buf_addr: with_char(self.buf_addr, c), ..self }
        } else if self.edit_field == 1 {
            DslView { buf_user: with_char(self.buf_user, c), ..self }
        } else {
            DslView { buf_pass: with_char(self.buf_pass, c), ..self }
        }
    }

    /// With the field above or below edited, where there is one and an arrow key
    /// was pressed.
    pub open spec fn field_moved(self, code: KeyCode) -> Self {
        match code {
            KeyCode::Up => DslView {
                edit_field: if self.edit_field > 0 {
                    (self.edit_field - 1) as usize
                } else {
                    0
                },
                ..self
            },
            KeyCode::Down => DslView {
                edit_field: if self.edit_field < 2 {
                    (self.edit_field + 1) as usize
                } else {
                    2
                },
                ..self
            },
            _ => self,
        }
    }

    /// With one more incident in the log.
    pub open spec fn logged(
        self,
        severity: Severity,
        field: Seq<char>,
        observed: Seq<char>,
        expected: Seq<char>,
        m: Moment,
    ) -> Self {
        DslView {
            incidents: pushed(
                self.incidents,
                ModemIncidentView { at: m.wall, severity, field, observed, expected },
                MAX_MODEM_LOG as nat,
            ),
            ..self
        }
    }

    /// An uptime that fell by more than five seconds, from a minute or more,
    /// is a reconnect.
    #[verifier::opaque]
    pub open spec fn judged_uptime(self, uptime: Option<u64>, m: Moment) -> Self {
        match uptime {
            Some(up) => {
                let s = match self.prev_uptime {
                    Some(prev) => if up + 5 < prev && prev >= 60 {
                        self.logged(
                            Severity::Warning,
                            "Connection uptime"@,
                            "reconnected - reset to "@ + decimal(up as nat) + "s after "@ + decimal(
                                prev as nat,
                            ) + "s"@,
                            "monotonically increasing while connected"@,
                            m,
                        )
                    } else {
                        self
                    },
                    None => self,
                };
                DslView { prev_uptime: Some(up), ..s }
            },
            None => self,
        }
    }

    /// Growth of the CRC counter is reported, the more severe the larger.
    #[verifier::opaque]
    pub open spec fn judged_crc(self, errors: Option<u64>, m: Moment) -> Self {
        match errors {
            Some(crc) => {
                let s = match self.prev_crc {
                    Some(prev) => if crc > prev {
                        let delta = crc - prev;
                        self.logged(
                            if delta >= 100 {
                                Severity::Critical
                            } else if delta >= 10 {
                                Severity::Warning
                            } else {
                                Severity::Info
                            },
                            "CRC errors"@,
                            "+"@ + decimal(delta as nat) + " in ~2s (total "@ + decimal(crc as nat)
                                + ")"@,
                            "no growth over time"@,
                            m,
                        )
                    } else {
                        self
                    },
                    None => self,
                };
                DslView { prev_crc: Some(crc), ..s }
            },
            None => self,
        }
    }

    /// A change of the number of wireless clients is reported.
    #[verifier::opaque]
    pub open spec fn judged_wireless(self, clients: Option<u32>, m: Moment) -> Self {
        match clients {
            Some(w) => {
                let s = match self.prev_wireless {
                    Some(prev) => if w != prev {
                        self.logged(
                            Severity::Info,
                            "Wireless clients"@,
                            decimal(prev as nat) + " -> "@ + decimal(w as nat),
                            "changes are informational"@,
                            m,
                        )
                    } else {
                        self
                    },
                    None => self,
                };
                DslView { prev_wireless: Some(w), ..s }
            },
            None => self,
        }
    }

    /// Both SNR margins are checked against 6 and 3 dB.
    #[verifier::opaque]
    pub open spec fn judged_snr(self, down: Option<i64>, up: Option<i64>, m: Moment) -> Self {
        let d = LevelLog { log: self.incidents, level: self.snr_alert_down }.checked_low(
            "SNR margin downstream"@,
            down,
            SNR_WARN_DB,
            SNR_CRIT_DB,
            ">= 6 dB (critical below 3)"@,
            m,
        );
        let u = LevelLog { log: d.log, level: self.snr_alert_up }.checked_low(
            "SNR margin upstream"@,
            up,
            SNR_WARN_DB,
            SNR_CRIT_DB,
            ">= 6 dB (critical below 3)"@,
            m,
        );
        DslView { incidents: u.log, snr_alert_down: d.level, snr_alert_up: u.level, ..self }
    }

    /// Both attenuations are checked against 49 and 58 dB.
    #[verifier::opaque]
    pub open spec fn judged_attenuation(
        self,
        down: Option<i64>,
        up: Option<i64>,
        m: Moment,
    ) -> Self {
        let d = LevelLog { log: self.incidents, level: self.att_alert_down }.checked_high(
            "Line attenuation downstream"@,
            down,
            ATT_WARN_DB,
            ATT_CRIT_DB,
            "< 45 dB typical for DSL"@,
            m,
        );
        let u = LevelLog { log: d.log, level: self.att_alert_up }.checked_high(
            "Line attenuation upstream"@,
            up,
            ATT_WARN_DB,
            ATT_CRIT_DB,
            "< 45 dB typical for DSL"@,
            m,
        );
        DslView { incidents: u.log, att_alert_down: d.level, att_alert_up: u.level, ..self }
    }

    /// Both data rates are checked against their maximum.
    #[verifier::opaque]
    pub open spec fn judged_rates(self, snap: SnapshotView, m: Moment) -> Self {
        let d = RateLog { log: self.incidents, alert: self.rate_alert_down }.checked(
            "Data rate downstream"@,
            snap.rate_down_bps,
            snap.max_rate_down_bps,
            m,
        );
        let u = RateLog { log: d.log, alert: self.rate_alert_up }.checked(
            "Data rate upstream"@,
            snap.rate_up_bps,
            snap.max_rate_up_bps,
            m,
        );
        DslView { incidents: u.log, rate_alert_down: d.alert, rate_alert_up: u.alert, ..self }
    }

    /// After one snapshot. One without values only replaces the current one.
    pub open spec fn polled(self, snap: SnapshotView, m: Moment) -> Self {
        let s = if snap.available {
            self.judged_uptime(snap.uptime_secs, m).judged_crc(snap.crc_errors, m).judged_wireless(
                snap.wireless_clients,
                m,
            ).judged_snr(snap.snr_down_db, snap.snr_up_db, m).judged_attenuation(
                snap.atten_down_db,
                snap.atten_up_db,
                m,
            ).judged_rates(snap, m)
        } else {
            self
        };
        DslView { current: Some(snap), ..s }
    }
}

proof fn views_len(log: Seq<ModemIncident>)
    ensures
        modem_incident_views(log).len() == log.len(),
{
    reveal(modem_incident_views);
}

proof fn modem_views_pushed(log: Seq<ModemIncident>, x: ModemIncident)
    ensures
        modem_incident_views(log).len() == log.len(),
        modem_incident_views(log.push(x)) == modem_incident_views(log).push(x@),
        modem_incident_views(log.push(x).remove(0)) == modem_incident_views(log).push(
            x@,
        ).drop_first(),
{
    reveal(modem_incident_views);
    assert(modem_incident_views(log.push(x)) =~= modem_incident_views(log).push(x@));
    assert(modem_incident_views(log.push(x).remove(0)) =~= modem_incident_views(log).push(
        x@,
    ).drop_first());
}

/// Appends an incident to a modem log, which keeps the newest eighty.
fn push_entry(log: &mut Vec<ModemIncident>, x: ModemIncident)
    requires
        old(log)@.len() <= MAX_MODEM_LOG,
    ensures
        modem_incident_views(final(log)@) == pushed(
            modem_incident_views(old(log)@),
            x@,
            MAX_MODEM_LOG as nat,
        ),
        final(log)@.len() <= MAX_MODEM_LOG,
{
    proof {
        modem_views_pushed(log@, x);
    }
    log.push(x);
    if log.len() > MAX_MODEM_LOG {
        log.remove(0);
    }
}

fn report_level(
    incidents: &mut Vec<ModemIncident>,
    field: &'static str,
    v: i64,
    level: u8,
    state: &mut u8,
    expected: &'static str,
    m: Moment,
)
    requires
        old(incidents)@.len() <= MAX_MODEM_LOG,
        level <= 2,
        *old(state) <= 2,
    ensures
        (LevelLog { log: modem_incident_views(final(incidents)@), level: *final(state) }) == (
        LevelLog { log: modem_incident_views(old(incidents)@), level: *old(state) }).observed(
            field@,
            v,
            level,
            expected@,
            m,
        ),
        final(incidents)@.len() <= MAX_MODEM_LOG,
        *final(state) <= 2,
{
    if level > *state {
        let severity = if level == 2 {
            Severity::Critical
        } else {
            Severity::Warning
        };
        let mut observed: String = String::new();
        push_signed_fixed(&mut observed, v, 10_000, 1);
        observed.append(" dB");
        assert(observed@ =~= signed_fixed(v as int, 10_000, 1) + " dB"@);
        push_entry(
            incidents,
            ModemIncident { at: m.wall, severity, field, observed, expected: expected.to_owned() },
        );
        *state = level;
    } else if level == 0 && *state > 0 {
        let mut observed: String = "recovered to ".to_owned();
        push_signed_fixed(&mut observed, v, 10_000, 1);
        push_entry(
            incidents,
            ModemIncident {
                at: m.wall,
                severity: Severity::Info,
                field,
                observed,
                expected: expected.to_owned(),
            },
        );
        *state = 0;
    }
}

/// Checks a value where lower is worse.
pub fn check_level(
    incidents: &mut Vec<ModemIncident>,
    field: &'static str,
    value: Option<i64>,
    state: &mut u8,
    warn_below: i64,
    crit_below: i64,
    expected: &'static str,
    m: Moment,
)
    requires
        old(incidents)@.len() <= MAX_MODEM_LOG,
        *old(state) <= 2,
    ensures
        (LevelLog { log: modem_incident_views(final(incidents)@), level: *final(state) }) == (
        LevelLog { log: modem_incident_views(old(incidents)@), level: *old(state) }).checked_low(
            field@,
            value,
            warn_below,
            crit_below,
            expected@,
            m,
        ),
        final(incidents)@.len() <= MAX_MODEM_LOG,
        *final(state) <= 2,
{
    match value {
        Some(v) => {
            let level: u8 = if v < crit_below {
                2
            } else if v < warn_below {
                1
            } else {
                0
            };
            report_level(incidents, field, v, level, state, expected, m);
        },
        None => {},
    }
}

/// Checks a value where higher is worse.
pub fn check_high_level(
    incidents: &mut Vec<ModemIncident>,
    field: &'static str,
    value: Option<i64>,
    state: &mut u8,
    warn_above: i64,
    crit_above: i64,
    expected: &'static str,
    m: Moment,
)
    requires
        old(incidents)@.len() <= MAX_MODEM_LOG,
        *old(state) <= 2,
    ensures
        (LevelLog { log: modem_incident_views(final(incidents)@), level: *final(state) }) == (
        LevelLog { log: modem_incident_views(old(incidents)@), level: *old(state) }).checked_high(
            field@,
            value,
            warn_above,
            crit_above,
            expected@,
            m,
        ),
        final(incidents)@.len() <= MAX_MODEM_LOG,
        *final(state) <= 2,
{
    match value {
        Some(v) => {
            let level: u8 = if v > crit_above {
                2
            } else if v > warn_above {
                1
            } else {
                0
            };
            report_level(incidents, field, v, level, state, expected, m);
        },
        None => {},
    }
}

/// Checks a data rate against its maximum.
pub fn rate_collapse_check(
    incidents: &mut Vec<ModemIncident>,
    field: &'static str,
    rate: Option<i64>,
    max: Option<i64>,
    alert_active: &mut bool,
    m: Moment,
)
    requires
        old(incidents)@.len() <= MAX_MODEM_LOG,
    ensures
        (RateLog { log: modem_incident_views(final(incidents)@), alert: *final(alert_active) }) == (
        RateLog {
            log: modem_incident_views(old(incidents)@),
            alert: *old(alert_active),
        }).checked(field@, rate, max, m),
        final(incidents)@.len() <= MAX_MODEM_LOG,
{
    if let (Some(rate), Some(max)) = (rate, max) {
        if max <= MEGABIT as i64 {
            return ;
        }
        let collapsed: bool = 100 * (rate as i128) < RATE_MIN_PCT as i128 * (max as i128);
        if collapsed && !*alert_active {
            let mut observed: String = String::new();
            push_signed_fixed(&mut observed, rate, MEGABIT as u128, 2);
            observed.append(" Mbps of ");
            push_signed_fixed(&mut observed, max, MEGABIT as u128, 2);
            observed.append(" Mbps max");
            assert(observed@ =~= signed_fixed(rate as int, MEGABIT as nat, 2) + " Mbps of "@
                + signed_fixed(max as int, MEGABIT as nat, 2) + " Mbps max"@);
            push_entry(
                incidents,
                ModemIncident {
                    at: m.wall,
                    severity: Severity::Warning,
                    field,
                    observed,
                    expected: ">= 50% of the max rate".to_owned(),
                },
            );
            *alert_active = true;
        } else if !collapsed && *alert_active && 100 * (rate as i128) >= RATE_RECOVERED_PCT as i128
            * (max as i128) {
            *alert_active = false;
        }
    }
}

impl DslState {
    /// A modem tab at rest, with no figures yet.
    pub fn new() -> (s: Self)
        ensures
            s@ == DslView::fresh(),
            s@.valid(),
    {
        let s = DslState {
            polling: false,
            paused: false,
            current: None,
            incidents: Vec::new(),
            config: ModemConfig::default(),
            editing: false,
            edit_field: 0,
            buf_addr: String::new(),
            buf_user: String::new(),
            buf_pass: String::new(),
            cancel: false,
            rx: false,
            prev_uptime: None,
            prev_crc: None,
            prev_wireless: None,
            snr_alert_down: 0,
            snr_alert_up: 0,
            att_alert_down: 0,
            att_alert_up: 0,
            rate_alert_down: false,
            rate_alert_up: false,
        };
        reveal(opt_snapshot);
        assert(modem_incident_views(s.incidents@) =~= Seq::empty()) by {
            reveal(modem_incident_views);
        }
        s
    }

    /// Takes a new poller in charge.
    pub fn start_polling(&mut self)
        ensures
            final(self)@ == old(self)@.polling_on(),
            old(self)@.valid() ==> final(self)@.valid(),
    {
        self.cancel = true;
        self.rx = true;
        self.polling = true;
    }

    /// Gives the poller up.
    pub fn stop_polling(&mut self)
        ensures
            final(self)@ == old(self)@.polling_off(),
            old(self)@.valid() ==> final(self)@.valid(),
    {
        self.cancel = false;
        self.rx = false;
        self.polling = false;
    }

    /// Empties the log.
    pub fn clear_log(&mut self)
        ensures
            final(self)@ == old(self)@.log_cleared(),
            old(self)@.valid() ==> final(self)@.valid(),
    {
        self.incidents.clear();
        assert(modem_incident_views(self.incidents@) =~= Seq::empty()) by {
            reveal(modem_incident_views);
        }
    }

    /// Stops or resumes reading the poller.
    pub fn toggle_pause(&mut self)
        ensures
            final(self)@ == old(self)@.pause_toggled(),
            old(self)@.valid() ==> final(self)@.valid(),
    {
        self.paused = !self.paused;
    }

    /// Opens the editor on the configuration.
    pub fn open_editor(&mut self)
        ensures
            final(self)@ == old(self)@.editor_opened(),
            old(self)@.valid() ==> final(self)@.valid(),
    {
        if !self.editing {
            self.editing = true;
            self.edit_field = 0;
            self.buf_addr = self.config.host.as_str().to_owned();
            self.buf_user = self.config.username.as_str().to_owned();
            self.buf_pass = self.config.password.as_str().to_owned();
        }
    }

    /// Closes the editor.
    pub fn close_editor(&mut self)
        ensures
            final(self)@ == old(self)@.editor_closed(),
            old(self)@.valid() ==> final(self)@.valid(),
    {
        self.editing = false;
    }

    /// Applies the edited configuration, where it has an address.
    pub fn apply_edit(&mut self) -> (applied: bool)
        ensures
            applied == old(self)@.applicable(),
            final(self)@ == (if applied {
                old(self)@.configured()
            } else {
                old(self)@
            }),
            old(self)@.valid() ==> final(self)@.valid(),
    {
        let host = trimmed(self.buf_addr.as_str());
        if host.as_str().is_empty() {
            return false;
        }
        self.config.host = host;
        self.config.username = trimmed(self.buf_user.as_str());
        self.config.password = self.buf_pass.as_str().to_owned();
        true
    }

    /// Takes the last character of the edited field off.
    pub fn erase(&mut self)
        ensures
            final(self)@ == old(self)@.erased(),
            old(self)@.valid() ==> final(self)@.valid(),
    {
        match self.edit_field {
            0 => {
                self.buf_addr.pop();
            },
            1 => {
                self.buf_user.pop();
            },
            _ => {
                self.buf_pass.pop();
            },
        }
    }

    /// Appends a character to the edited field, where there is room.
    pub fn type_char(&mut self, c: char)
        ensures
            final(self)@ == old(self)@.typed(c),
            old(self)@.valid() ==> final(self)@.valid(),
    {
        match self.edit_field {
            0 => push_limited(&mut self.buf_addr, c),
            1 => push_limited(&mut self.buf_user, c),
            _ => push_limited(&mut self.buf_pass, c),
        }
    }

    /// Edits the field above or below, where an arrow key was pressed.
    pub fn move_field(&mut self, code: KeyCode)
        requires
            old(self)@.valid(),
        ensures
            final(self)@ == old(self)@.field_moved(code),
            final(self)@.valid(),
    {
        match code {
            KeyCode::Up => {
                if self.edit_field > 0 {
                    self.edit_field = self.edit_field - 1;
                }
            },
            KeyCode::Down => {
                if self.edit_field < 2 {
                    self.edit_field = self.edit_field + 1;
                }
            },
            _ => {},
        }
    }

    /// Appends an incident to the log, which keeps the newest eighty.
    pub fn push_incident(
        &mut self,
        severity: Severity,
        field: &'static str,
        observed: String,
        expected: &'static str,
        m: Moment,
    )
        requires
            old(self)@.valid(),
        ensures
            final(self)@ == old(self)@.logged(severity, field@, observed@, expected@, m),
            final(self)@.valid(),
    {
        proof {
            views_len(self.incidents@);
        }
        push_entry(
            &mut self.incidents,
            ModemIncident { at: m.wall, severity, field, observed, expected: expected.to_owned() },
        );
    }

    /// Feeds one snapshot and derives incidents from what changed since the
    /// previous one. Level-based alerts fire once on entry and once on recovery
    /// instead of on every poll.
    pub fn on_snapshot(&mut self, snap: DslSnapshot, m: Moment)
        requires
            old(self)@.valid(),
        ensures
            final(self)@ == old(self)@.polled(snap@, m),
            final(self)@.valid(),
    {
        if snap.available {
            self.check_uptime(snap.uptime_secs, m);
            self.check_crc(snap.crc_errors, m);
            self.check_wireless(snap.wireless_clients, m);
            self.check_snr(snap.snr_down_db, snap.snr_up_db, m);
            self.check_attenuation(snap.atten_down_db, snap.atten_up_db, m);
            self.check_rates(&snap, m);
        }
        self.current = Some(snap);
        assert(opt_snapshot(self.current) == Some(snap@)) by {
            reveal(opt_snapshot);
        }
    }

    fn check_uptime(&mut self, uptime: Option<u64>, m: Moment)
        requires
            old(self)@.valid(),
        ensures
            final(self)@ == old(self)@.judged_uptime(uptime, m),
            final(self)@.valid(),
    {
        reveal(DslView::judged_uptime);
        if let Some(up) = uptime {
            if let Some(prev) = self.prev_uptime {
                if prev >= 60 && up < prev - 5 {
                    let mut observed: String = "reconnected - reset to ".to_owned();
                    push_decimal(&mut observed, up as u128);
                    observed.append("s after ");
                    push_decimal(&mut observed, prev as u128);
                    observed.append("s");
                    self.push_incident(
                        Severity::Warning,
                        "Connection uptime",
                        observed,
                        "monotonically increasing while connected",
                        m,
                    );
                }
            }
            self.prev_uptime = Some(up);
        }
    }

    fn check_crc(&mut self, errors: Option<u64>, m: Moment)
        requires
            old(self)@.valid(),
        ensures
            final(self)@ == old(self)@.judged_crc(errors, m),
            final(self)@.valid(),
    {
        reveal(DslView::judged_crc);
        if let Some(crc) = errors {
            if let Some(prev) = self.prev_crc {
                if crc > prev {
                    let delta: u64 = crc - prev;
                    let severity = if delta >= 100 {
                        Severity::Critical
                    } else if delta >= 10 {
                        Severity::Warning
                    } else {
                        Severity::Info
                    };
                    let mut observed: String = "+".to_owned();
                    push_decimal(&mut observed, delta as u128);
                    observed.append(" in ~2s (total ");
                    push_decimal(&mut observed, crc as u128);
                    observed.append(")");
                    self.push_incident(severity, "CRC errors", observed, "no growth over time", m);
                }
            }
            self.prev_crc = Some(crc);
        }
    }

    fn check_wireless(&mut self, clients: Option<u32>, m: Moment)
        requires
            old(self)@.valid(),
        ensures
            final(self)@ == old(self)@.judged_wireless(clients, m),
            final(self)@.valid(),
    {
        reveal(DslView::judged_wireless);
        if let Some(w) = clients {
            if let Some(prev) = self.prev_wireless {
                if w != prev {
                    let mut observed: String = String::new();
                    push_decimal(&mut observed, prev as u128);
                    observed.append(" -> ");
                    push_decimal(&mut observed, w as u128);
                    assert(observed@ =~= decimal(prev as nat) + " -> "@ + decimal(w as nat));
                    self.push_incident(
                        Severity::Info,
                        "Wireless clients",
                        observed,
                        "changes are informational",
                        m,
                    );
                }
            }
            self.prev_wireless = Some(w);
        }
    }

    fn check_snr(&mut self, down: Option<i64>, up: Option<i64>, m: Moment)
        requires
            old(self)@.valid(),
        ensures
            final(self)@ == old(self)@.judged_snr(down, up, m),
            final(self)@.valid(),
    {
        reveal(DslView::judged_snr);
        proof {
            views_len(self.incidents@);
        }
        check_level(
            &mut self.incidents,
            "SNR margin downstream",
            down,
            &mut self.snr_alert_down,
            SNR_WARN_DB,
            SNR_CRIT_DB,
            ">= 6 dB (critical below 3)",
            m,
        );
        check_level(
            &mut self.incidents,
            "SNR margin upstream",
            up,
            &mut self.snr_alert_up,
            SNR_WARN_DB,
            SNR_CRIT_DB,
            ">= 6 dB (critical below 3)",
            m,
        );
    }

    fn check_attenuation(&mut self, down: Option<i64>, up: Option<i64>, m: Moment)
        requires
            old(self)@.valid(),
        ensures
            final(self)@ == old(self)@.judged_attenuation(down, up, m),
            final(self)@.valid(),
    {
        reveal(DslView::judged_attenuation);
        proof {
            views_len(self.incidents@);
        }
        check_high_level(
            &mut self.incidents,
            "Line attenuation downstream",
            down,
            &mut self.att_alert_down,
            ATT_WARN_DB,
            ATT_CRIT_DB,
            "< 45 dB typical for DSL",
            m,
        );
        check_high_level(
            &mut self.incidents,
            "Line attenuation upstream",
            up,
            &mut self.att_alert_up,
            ATT_WARN_DB,
            ATT_CRIT_DB,
            "< 45 dB typical for DSL",
            m,
        );
    }

    fn check_rates(&mut self, snap: &DslSnapshot, m: Moment)
        requires
            old(self)@.valid(),
        ensures
            final(self)@ == old(self)@.judged_rates(snap@, m),
            final(self)@.valid(),
    {
        reveal(DslView::judged_rates);
        proof {
            views_len(self.incidents@);
        }
        rate_collapse_check(
            &mut self.incidents,
            "Data rate downstream",
            snap.rate_down_bps,
            snap.max_rate_down_bps,
            &mut self.rate_alert_down,
            m,
        );
        rate_collapse_check(
            &mut self.incidents,
            "Data rate upstream",
            snap.rate_up_bps,
            snap.max_rate_up_bps,
            &mut self.rate_alert_up,
            m,
        );
    }
}

// ---- laws -----------------------------------------------------------------

/// A level alert is reported once: as long as the level stays, nothing more is
/// logged, whatever the value.
pub proof fn a_level_is_reported_once(
    l: LevelLog,
    field: Seq<char>,
    v: i64,
    w: i64,
    level: u8,
    expected: Seq<char>,
    m: Moment,
    n: Moment,
)
    ensures
        l.observed(field, v, level, expected, m).observed(field, w, level, expected, n)
            == l.observed(field, v, level, expected, m),
{
}

/// A recovery is reported once, on the return to normal after a report, and a
/// new alert can then be reported.
pub proof fn a_recovery_is_reported_once(
    l: LevelLog,
    field: Seq<char>,
    v: i64,
    expected: Seq<char>,
    m: Moment,
)
    requires
        l.log.len() <= MAX_MODEM_LOG,
    ensures
        ({
            let t = l.observed(field, v, 0, expected, m);
            &&& t.level == 0
            &&& l.level > 0 ==> t.log.len() > 0 && t.log.last().severity == Severity::Info
                && t.log.last().field == field
            &&& l.level == 0 ==> t.log == l.log
        }),
{
}

/// A value that gets worse is reported, with the severity of its level.
pub proof fn a_worse_level_is_reported(
    l: LevelLog,
    field: Seq<char>,
    v: i64,
    level: u8,
    expected: Seq<char>,
    m: Moment,
)
    requires
        l.log.len() <= MAX_MODEM_LOG,
        l.level < level <= 2,
    ensures
        ({
            let t = l.observed(field, v, level, expected, m);
            &&& t.level == level
            &&& t.log.len() > 0
            &&& t.log.last().severity == (if level == 2 {
                Severity::Critical
            } else {
                Severity::Warning
            })
        }),
{
}

/// A collapsed rate is reported once: a report is made where a rate below half
/// of a meaningful maximum follows none, nothing is logged while it stands, and
/// it stands until the rate is back at 70 percent.
pub proof fn a_collapse_is_reported_once(
    l: RateLog,
    field: Seq<char>,
    rate: Option<i64>,
    max: Option<i64>,
    m: Moment,
)
    requires
        l.log.len() <= MAX_MODEM_LOG,
    ensures
        ({
            let t = l.checked(field, rate, max, m);
            let known = rate is Some && max is Some && max->0 > MEGABIT;
            &&& !l.alert ==> (t.alert <==> known && 100 * rate->0 < 50 * max->0)
            &&& !l.alert && t.alert ==> t.log.len() > 0 && t.log.last().field == field
                && t.log.last().severity == Severity::Warning
            &&& l.alert || !t.alert ==> t.log == l.log
            &&& l.alert ==> (!t.alert <==> known && 100 * rate->0 >= 70 * max->0)
        }),
{
}

proof fn counters_keep_valid(v: DslView, snap: SnapshotView, m: Moment)
    requires
        v.valid(),
    ensures
        v.judged_uptime(snap.uptime_secs, m).valid(),
        v.judged_crc(snap.crc_errors, m).valid(),
        v.judged_wireless(snap.wireless_clients, m).valid(),
{
    reveal(DslView::judged_uptime);
    reveal(DslView::judged_crc);
    reveal(DslView::judged_wireless);
}

proof fn low_levels_keep_valid(v: DslView, snap: SnapshotView, m: Moment)
    requires
        v.valid(),
    ensures
        v.judged_snr(snap.snr_down_db, snap.snr_up_db, m).valid(),
{
    reveal(DslView::judged_snr);
}

proof fn high_levels_keep_valid(v: DslView, snap: SnapshotView, m: Moment)
    requires
        v.valid(),
    ensures
        v.judged_attenuation(snap.atten_down_db, snap.atten_up_db, m).valid(),
{
    reveal(DslView::judged_attenuation);
}

proof fn rates_keep_valid(v: DslView, snap: SnapshotView, m: Moment)
    requires
        v.valid(),
    ensures
        v.judged_rates(snap, m).valid(),
{
    reveal(DslView::judged_rates);
}

proof fn judges_keep_valid(v: DslView, snap: SnapshotView, m: Moment)
    requires
        v.valid(),
    ensures
        v.judged_uptime(snap.uptime_secs, m).valid(),
        v.judged_crc(snap.crc_errors, m).valid(),
        v.judged_wireless(snap.wireless_clients, m).valid(),
        v.judged_snr(snap.snr_down_db, snap.snr_up_db, m).valid(),
        v.judged_attenuation(snap.atten_down_db, snap.atten_up_db, m).valid(),
        v.judged_rates(snap, m).valid(),
{
    counters_keep_valid(v, snap, m);
    low_levels_keep_valid(v, snap, m);
    high_levels_keep_valid(v, snap, m);
    rates_keep_valid(v, snap, m);
}

/// The log keeps its bound and the alert levels stay known ones, whatever the
/// snapshots are.
pub proof fn snapshots_keep_the_modem_valid(v: DslView, snap: SnapshotView, m: Moment)
    requires
        v.valid(),
    ensures
        v.polled(snap, m).valid(),
        v.polled(snap, m).current == Some(snap),
{
    let a = v.judged_uptime(snap.uptime_secs, m);
    let b = a.judged_crc(snap.crc_errors, m);
    let c = b.judged_wireless(snap.wireless_clients, m);
    let d = c.judged_snr(snap.snr_down_db, snap.snr_up_db, m);
    let e = d.judged_attenuation(snap.atten_down_db, snap.atten_up_db, m);
    judges_keep_valid(v, snap, m);
    judges_keep_valid(a, snap, m);
    judges_keep_valid(b, snap, m);
    judges_keep_valid(c, snap, m);
    judges_keep_valid(d, snap, m);
    judges_keep_valid(e, snap, m);
}

/// A snapshot without values is shown, and reveals nothing.
pub proof fn no_values_no_incidents(v: DslView, snap: SnapshotView, m: Moment)
    requires
        !snap.available,
    ensures
        v.polled(snap, m).incidents == v.incidents,
        v.polled(snap, m).current == Some(snap),
{
}

/// A value at alert level `level` has nothing to report where `reported` was
/// the last report.
pub open spec fn quiet(level: u8, reported: u8) -> bool {
    level <= reported && (level == 0 ==> reported == 0)
}

/// A low value has nothing to report.
pub open spec fn quiet_low(value: Option<i64>, warn: i64, crit: i64, reported: u8) -> bool {
    value is Some ==> quiet(low_level(value->0, warn, crit), reported)
}

/// A high value has nothing to report.
pub open spec fn quiet_high(value: Option<i64>, warn: i64, crit: i64, reported: u8) -> bool {
    value is Some ==> quiet(high_level(value->0, warn, crit), reported)
}

/// A rate has nothing to report and nothing to take back.
pub open spec fn quiet_rate(rate: Option<i64>, max: Option<i64>, alert: bool) -> bool {
    rate is Some && max is Some && max->0 > MEGABIT ==> {
        let collapsed = 100 * rate->0 < RATE_MIN_PCT * max->0;
        &&& collapsed ==> alert
        &&& alert && !collapsed ==> 100 * rate->0 < RATE_RECOVERED_PCT * max->0
    }
}

impl DslView {
    /// A snapshot has nothing to report.
    pub open spec fn quiet(self, snap: SnapshotView) -> bool {
        &&& snap.uptime_secs is Some ==> self.prev_uptime == snap.uptime_secs
        &&& snap.crc_errors is Some ==> self.prev_crc == snap.crc_errors
        &&& snap.wireless_clients is Some ==> self.prev_wireless == snap.wireless_clients
        &&& quiet_low(snap.snr_down_db, SNR_WARN_DB, SNR_CRIT_DB, self.snr_alert_down)
        &&& quiet_low(snap.snr_up_db, SNR_WARN_DB, SNR_CRIT_DB, self.snr_alert_up)
        &&& quiet_high(snap.atten_down_db, ATT_WARN_DB, ATT_CRIT_DB, self.att_alert_down)
        &&& quiet_high(snap.atten_up_db, ATT_WARN_DB, ATT_CRIT_DB, self.att_alert_up)
        &&& quiet_rate(snap.rate_down_bps, snap.max_rate_down_bps, self.rate_alert_down)
        &&& quiet_rate(snap.rate_up_bps, snap.max_rate_up_bps, self.rate_alert_up)
    }
}

proof fn counters_settle(v: DslView, snap: SnapshotView, m: Moment)
    ensures
        ({
            let t = v.judged_uptime(snap.uptime_secs, m);
            &&& t == (DslView { incidents: t.incidents, prev_uptime: t.prev_uptime, ..v })
            &&& snap.uptime_secs is Some ==> t.prev_uptime == snap.uptime_secs
        }),
        ({
            let t = v.judged_crc(snap.crc_errors, m);
            &&& t == (DslView { incidents: t.incidents, prev_crc: t.prev_crc, ..v })
            &&& snap.crc_errors is Some ==> t.prev_crc == snap.crc_errors
        }),
        ({
            let t = v.judged_wireless(snap.wireless_clients, m);
            &&& t == (DslView { incidents: t.incidents, prev_wireless: t.prev_wireless, ..v })
            &&& snap.wireless_clients is Some ==> t.prev_wireless == snap.wireless_clients
        }),
{
    reveal(DslView::judged_uptime);
    reveal(DslView::judged_crc);
    reveal(DslView::judged_wireless);
}

proof fn levels_settle(v: DslView, snap: SnapshotView, m: Moment)
    requires
        v.valid(),
    ensures
        ({
            let t = v.judged_snr(snap.snr_down_db, snap.snr_up_db, m);
            &&& t == (DslView {
                incidents: t.incidents,
                snr_alert_down: t.snr_alert_down,
                snr_alert_up: t.snr_alert_up,
                ..v
            })
            &&& quiet_low(snap.snr_down_db, SNR_WARN_DB, SNR_CRIT_DB, t.snr_alert_down)
            &&& quiet_low(snap.snr_up_db, SNR_WARN_DB, SNR_CRIT_DB, t.snr_alert_up)
        }),
        ({
            let t = v.judged_attenuation(snap.atten_down_db, snap.atten_up_db, m);
            &&& t == (DslView {
                incidents: t.incidents,
                att_alert_down: t.att_alert_down,
                att_alert_up: t.att_alert_up,
                ..v
            })
            &&& quiet_high(snap.atten_down_db, ATT_WARN_DB, ATT_CRIT_DB, t.att_alert_down)
            &&& quiet_high(snap.atten_up_db, ATT_WARN_DB, ATT_CRIT_DB, t.att_alert_up)
        }),
        ({
            let t = v.judged_rates(snap, m);
            &&& t == (DslView {
                incidents: t.incidents,
                rate_alert_down: t.rate_alert_down,
                rate_alert_up: t.rate_alert_up,
                ..v
            })
            &&& quiet_rate(snap.rate_down_bps, snap.max_rate_down_bps, t.rate_alert_down)
            &&& quiet_rate(snap.rate_up_bps, snap.max_rate_up_bps, t.rate_alert_up)
        }),
{
    reveal(DslView::judged_snr);
    reveal(DslView::judged_attenuation);
    reveal(DslView::judged_rates);
}

proof fn quiet_counters_stay(v: DslView, snap: SnapshotView, m: Moment)
    requires
        v.quiet(snap),
    ensures
        v.judged_uptime(snap.uptime_secs, m) == v,
        v.judged_crc(snap.crc_errors, m) == v,
        v.judged_wireless(snap.wireless_clients, m) == v,
{
    reveal(DslView::judged_uptime);
    reveal(DslView::judged_crc);
    reveal(DslView::judged_wireless);
}

proof fn quiet_levels_stay(v: DslView, snap: SnapshotView, m: Moment)
    requires
        v.quiet(snap),
    ensures
        v.judged_snr(snap.snr_down_db, snap.snr_up_db, m) == v,
        v.judged_attenuation(snap.atten_down_db, snap.atten_up_db, m) == v,
        v.judged_rates(snap, m) == v,
{
    reveal(DslView::judged_snr);
    reveal(DslView::judged_attenuation);
    reveal(DslView::judged_rates);
}

/// A snapshot that repeats the one before it reveals nothing new.
pub proof fn a_repeated_snapshot_reveals_nothing(
    v: DslView,
    snap: SnapshotView,
    m: Moment,
    n: Moment,
)
    requires
        v.valid(),
    ensures
        v.polled(snap, m).polled(snap, n) == v.polled(snap, m),
{
    if snap.available {
        let a = v.judged_uptime(snap.uptime_secs, m);
        let b = a.judged_crc(snap.crc_errors, m);
        let c = b.judged_wireless(snap.wireless_clients, m);
        let d = c.judged_snr(snap.snr_down_db, snap.snr_up_db, m);
        let e = d.judged_attenuation(snap.atten_down_db, snap.atten_up_db, m);
        let f = e.judged_rates(snap, m);
        judges_keep_valid(v, snap, m);
        judges_keep_valid(a, snap, m);
        judges_keep_valid(b, snap, m);
        judges_keep_valid(c, snap, m);
        judges_keep_valid(d, snap, m);
        counters_settle(v, snap, m);
        counters_settle(a, snap, m);
        counters_settle(b, snap, m);
        levels_settle(c, snap, m);
        levels_settle(d, snap, m);
        levels_settle(e, snap, m);
        let g = v.polled(snap, m);
        assert(g == (DslView { current: Some(snap), ..f }));
        assert(g.quiet(snap));
        quiet_counters_stay(g, snap, n);
        quiet_levels_stay(g, snap, n);
    }
}

/// Whether an incident is among the newest `k` of a log.
pub open spec fn among_newest(log: Seq<ModemIncidentView>, x: ModemIncidentView, k: int) -> bool {
    exists|i: int| log.len() - k <= i < log.len() && 0 <= i && #[trigger] log[i] == x
}

/// Whether every incident of a field in a log was in it before.
pub open spec fn nothing_new(
    before: Seq<ModemIncidentView>,
    after: Seq<ModemIncidentView>,
    field: Seq<char>,
) -> bool {
    forall|i: int|
        0 <= i < after.len() && (#[trigger] after[i]).field == field ==> before.contains(after[i])
}

proof fn one_more_report(log: Seq<ModemIncidentView>, y: ModemIncidentView)
    requires
        log.len() <= 80,
    ensures
        ({
            let t = pushed(log, y, 80);
            &&& t.len() <= 80
            &&& among_newest(t, y, 1)
            &&& forall|x: ModemIncidentView, k: int| #[trigger]
                among_newest(log, x, k) && k < 80 ==> among_newest(t, x, k + 1)
            &&& forall|f: Seq<char>| f != y.field ==> #[trigger] nothing_new(log, t, f)
        }),
{
    let t = pushed(log, y, 80);
    assert(t[t.len() - 1] == y);
    assert forall|x: ModemIncidentView, k: int| #[trigger]
        among_newest(log, x, k) && k < 80 implies among_newest(t, x, k + 1) by {
        let i = choose|i: int| log.len() - k <= i < log.len() && 0 <= i && #[trigger] log[i] == x;
        if log.len() < 80 {
            assert(t[i] == x);
        } else {
            assert(t[i - 1] == x);
        }
    }
    assert forall|f: Seq<char>| f != y.field implies #[trigger] nothing_new(log, t, f) by {
        assert forall|i: int| 0 <= i < t.len() && (#[trigger] t[i]).field == f implies log.contains(
            t[i],
        ) by {
            if log.len() < 80 {
                assert(log[i] == t[i]);
            } else {
                assert(log[i + 1] == t[i]);
            }
        }
    }
}

/// What a step of judging does to a log: at most two reports, of its own fields.
spec fn judged_step(
    before: Seq<ModemIncidentView>,
    after: Seq<ModemIncidentView>,
    f: Seq<char>,
    g: Seq<char>,
) -> bool {
    &&& after.len() <= 80
    &&& forall|x: ModemIncidentView, k: int| #[trigger]
        among_newest(before, x, k) && k <= 78 ==> among_newest(after, x, k + 2)
    &&& forall|h: Seq<char>| h != f && h != g ==> #[trigger] nothing_new(before, after, h)
}

proof fn same_log_is_a_step(log: Seq<ModemIncidentView>, f: Seq<char>, g: Seq<char>)
    requires
        log.len() <= 80,
    ensures
        judged_step(log, log, f, g),
        forall|h: Seq<char>| #[trigger] nothing_new(log, log, h),
{
    assert forall|x: ModemIncidentView, k: int| #[trigger]
        among_newest(log, x, k) && k <= 78 implies among_newest(log, x, k + 2) by {
        let i = choose|i: int| log.len() - k <= i < log.len() && 0 <= i && #[trigger] log[i] == x;
        assert(log[i] == x);
    }
}

proof fn one_report_is_a_step(
    log: Seq<ModemIncidentView>,
    y: ModemIncidentView,
    f: Seq<char>,
    g: Seq<char>,
)
    requires
        log.len() <= 80,
        y.field == f || y.field == g,
    ensures
        judged_step(log, pushed(log, y, 80), f, g),
        among_newest(pushed(log, y, 80), y, 2),
{
    let t = pushed(log, y, 80);
    one_more_report(log, y);
    assert(t[t.len() - 1] == y);
    assert forall|x: ModemIncidentView, k: int| #[trigger]
        among_newest(log, x, k) && k <= 78 implies among_newest(t, x, k + 2) by {
        assert(among_newest(t, x, k + 1));
        let i = choose|i: int| t.len() - (k + 1) <= i < t.len() && 0 <= i && #[trigger] t[i] == x;
        assert(t[i] == x);
    }
}

proof fn nothing_new_goes_on(
    a: Seq<ModemIncidentView>,
    b: Seq<ModemIncidentView>,
    c: Seq<ModemIncidentView>,
    f: Seq<char>,
)
    requires
        nothing_new(a, b, f),
        nothing_new(b, c, f),
    ensures
        nothing_new(a, c, f),
{
    assert forall|i: int| 0 <= i < c.len() && (#[trigger] c[i]).field == f implies a.contains(
        c[i],
    ) by {
        let j = choose|j: int| 0 <= j < b.len() && b[j] == c[i];
        assert(b[j].field == f);
    }
}

/// The fields of modem incidents are told apart.
proof fn fields_differ()
    ensures
        "Connection uptime"@.len() == 17,
        "CRC errors"@.len() == 10,
        "Wireless clients"@.len() == 16,
        "SNR margin downstream"@.len() == 21,
        "SNR margin upstream"@.len() == 19,
        "Line attenuation downstream"@.len() == 27,
        "Line attenuation upstream"@.len() == 25,
        "Data rate downstream"@.len() == 20,
        "Data rate upstream"@.len() == 18,
{
    reveal_strlit("Connection uptime");
    reveal_strlit("CRC errors");
    reveal_strlit("Wireless clients");
    reveal_strlit("SNR margin downstream");
    reveal_strlit("SNR margin upstream");
    reveal_strlit("Line attenuation downstream");
    reveal_strlit("Line attenuation upstream");
    reveal_strlit("Data rate downstream");
    reveal_strlit("Data rate upstream");
}

/// What is told of a level: a value that is bad, or very bad, is reported where
/// it was not so before, a good one where it was not good, with what was seen and
/// what was expected; else nothing is.
pub open spec fn level_told(
    before: Seq<ModemIncidentView>,
    after: Seq<ModemIncidentView>,
    m: Moment,
    field: Seq<char>,
    expected: Seq<char>,
    was: u8,
    now: u8,
    v: i64,
    bad: bool,
    very_bad: bool,
) -> bool {
    let seen = signed_fixed(v as int, 10_000, 1);
    let report = |severity: Severity, observed: Seq<char>|
        after.contains(ModemIncidentView { at: m.wall, severity, field, observed, expected });
    &&& very_bad && was < 2 ==> report(Severity::Critical, seen + " dB"@) && now == 2
    &&& bad && !very_bad && was == 0 ==> report(Severity::Warning, seen + " dB"@) && now == 1
    &&& !bad && !very_bad && was > 0 ==> report(Severity::Info, "recovered to "@ + seen) && now
        == 0
    &&& (very_bad && was == 2) || (bad && !very_bad && was > 0) || (!bad && !very_bad && was == 0)
        ==> nothing_new(before, after, field) && now == was
}

/// Whether an uptime tells of a reconnect: it has fallen by more than five
/// seconds from a minute or more.
spec fn uptime_told(v: DslView, snap: SnapshotView, m: Moment) -> bool {
    snap.uptime_secs is Some && v.prev_uptime is Some && v.prev_uptime->0 >= 60
        && snap.uptime_secs->0 < v.prev_uptime->0 - 5
}

spec fn uptime_report(v: DslView, snap: SnapshotView, m: Moment) -> ModemIncidentView {
    ModemIncidentView {
        at: m.wall,
        severity: Severity::Warning,
        field: "Connection uptime"@,
        observed: "reconnected - reset to "@ + decimal(snap.uptime_secs->0 as nat) + "s after "@
            + decimal(v.prev_uptime->0 as nat) + "s"@,
        expected: "monotonically increasing while connected"@,
    }
}

spec fn crc_told(v: DslView, snap: SnapshotView) -> bool {
    snap.crc_errors is Some && v.prev_crc is Some && snap.crc_errors->0 > v.prev_crc->0
}

spec fn crc_report(v: DslView, snap: SnapshotView, m: Moment) -> ModemIncidentView {
    let growth = snap.crc_errors->0 - v.prev_crc->0;
    ModemIncidentView {
        at: m.wall,
        severity: if growth >= 100 {
            Severity::Critical
        } else if growth >= 10 {
            Severity::Warning
        } else {
            Severity::Info
        },
        field: "CRC errors"@,
        observed: "+"@ + decimal(growth as nat) + " in ~2s (total "@ + decimal(
            snap.crc_errors->0 as nat,
        ) + ")"@,
        expected: "no growth over time"@,
    }
}

spec fn clients_told(v: DslView, snap: SnapshotView) -> bool {
    snap.wireless_clients is Some && v.prev_wireless is Some && snap.wireless_clients->0
        != v.prev_wireless->0
}

spec fn clients_report(v: DslView, snap: SnapshotView, m: Moment) -> ModemIncidentView {
    ModemIncidentView {
        at: m.wall,
        severity: Severity::Info,
        field: "Wireless clients"@,
        observed: decimal(v.prev_wireless->0 as nat) + " -> "@ + decimal(
            snap.wireless_clients->0 as nat,
        ),
        expected: "changes are informational"@,
    }
}

proof fn uptime_step(v: DslView, snap: SnapshotView, m: Moment)
    requires
        v.valid(),
    ensures
        ({
            let t = v.judged_uptime(snap.uptime_secs, m);
            &&& judged_step(v.incidents, t.incidents, "Connection uptime"@, "Connection uptime"@)
            &&& t.valid()
            &&& t.prev_crc == v.prev_crc
            &&& t.prev_wireless == v.prev_wireless
            &&& t.snr_alert_down == v.snr_alert_down
            &&& t.snr_alert_up == v.snr_alert_up
            &&& t.att_alert_down == v.att_alert_down
            &&& t.att_alert_up == v.att_alert_up
            &&& t.rate_alert_down == v.rate_alert_down
            &&& t.rate_alert_up == v.rate_alert_up
            &&& snap.uptime_secs is None ==> t.prev_uptime == v.prev_uptime
            &&& snap.uptime_secs is Some ==> t.prev_uptime == snap.uptime_secs
            &&& uptime_told(v, snap, m) ==> among_newest(t.incidents, uptime_report(v, snap, m), 2)
            &&& !uptime_told(v, snap, m) ==> nothing_new(
                v.incidents,
                t.incidents,
                "Connection uptime"@,
            )
        }),
{
    reveal(DslView::judged_uptime);
    fields_differ();
    same_log_is_a_step(v.incidents, "Connection uptime"@, "Connection uptime"@);
    if uptime_told(v, snap, m) {
        one_report_is_a_step(
            v.incidents,
            uptime_report(v, snap, m),
            "Connection uptime"@,
            "Connection uptime"@,
        );
    }
}

proof fn crc_step(v: DslView, snap: SnapshotView, m: Moment)
    requires
        v.valid(),
    ensures
        ({
            let t = v.judged_crc(snap.crc_errors, m);
            &&& judged_step(v.incidents, t.incidents, "CRC errors"@, "CRC errors"@)
            &&& t.valid()
            &&& t.prev_uptime == v.prev_uptime
            &&& t.prev_wireless == v.prev_wireless
            &&& t.snr_alert_down == v.snr_alert_down
            &&& t.snr_alert_up == v.snr_alert_up
            &&& t.att_alert_down == v.att_alert_down
            &&& t.att_alert_up == v.att_alert_up
            &&& t.rate_alert_down == v.rate_alert_down
            &&& t.rate_alert_up == v.rate_alert_up
            &&& snap.crc_errors is None ==> t.prev_crc == v.prev_crc
            &&& snap.crc_errors is Some ==> t.prev_crc == snap.crc_errors
            &&& crc_told(v, snap) ==> among_newest(t.incidents, crc_report(v, snap, m), 2)
            &&& !crc_told(v, snap) ==> nothing_new(v.incidents, t.incidents, "CRC errors"@)
        }),
{
    reveal(DslView::judged_crc);
    fields_differ();
    same_log_is_a_step(v.incidents, "CRC errors"@, "CRC errors"@);
    if crc_told(v, snap) {
        one_report_is_a_step(v.incidents, crc_report(v, snap, m), "CRC errors"@, "CRC errors"@);
    }
}

proof fn clients_step(v: DslView, snap: SnapshotView, m: Moment)
    requires
        v.valid(),
    ensures
        ({
            let t = v.judged_wireless(snap.wireless_clients, m);
            &&& judged_step(v.incidents, t.incidents, "Wireless clients"@, "Wireless clients"@)
            &&& t.valid()
            &&& t.prev_uptime == v.prev_uptime
            &&& t.prev_crc == v.prev_crc
            &&& t.snr_alert_down == v.snr_alert_down
            &&& t.snr_alert_up == v.snr_alert_up
            &&& t.att_alert_down == v.att_alert_down
            &&& t.att_alert_up == v.att_alert_up
            &&& t.rate_alert_down == v.rate_alert_down
            &&& t.rate_alert_up == v.rate_alert_up
            &&& snap.wireless_clients is None ==> t.prev_wireless == v.prev_wireless
            &&& snap.wireless_clients is Some ==> t.prev_wireless == snap.wireless_clients
            &&& clients_told(v, snap) ==> among_newest(t.incidents, clients_report(v, snap, m), 2)
            &&& !clients_told(v, snap) ==> nothing_new(v.incidents, t.incidents, "Wireless clients"@)
        }),
{
    reveal(DslView::judged_wireless);
    fields_differ();
    same_log_is_a_step(v.incidents, "Wireless clients"@, "Wireless clients"@);
    if clients_told(v, snap) {
        one_report_is_a_step(v.incidents, clients_report(v, snap, m), "Wireless clients"@, "Wireless clients"@);
    }
}

/// The report of a level.
spec fn level_report(
    was: u8,
    bad: bool,
    very_bad: bool,
    v: i64,
    field: Seq<char>,
    expected: Seq<char>,
    m: Moment,
) -> Option<ModemIncidentView> {
    let seen = signed_fixed(v as int, 10_000, 1);
    let report = |severity: Severity, observed: Seq<char>|
        Some(ModemIncidentView { at: m.wall, severity, field, observed, expected });
    if very_bad && was < 2 {
        report(Severity::Critical, seen + " dB"@)
    } else if bad && !very_bad && was == 0 {
        report(Severity::Warning, seen + " dB"@)
    } else if !bad && !very_bad && was > 0 {
        report(Severity::Info, "recovered to "@ + seen)
    } else {
        None
    }
}

spec fn level_after(was: u8, bad: bool, very_bad: bool) -> u8 {
    if very_bad {
        2
    } else if bad {
        if was > 1 {
            was
        } else {
            1
        }
    } else {
        0
    }
}

spec fn margin_report(was: u8, v: Option<i64>, field: Seq<char>, m: Moment) -> Option<
    ModemIncidentView,
> {
    match v {
        Some(x) => level_report(
            was,
            x < 60_000,
            x < 30_000,
            x,
            field,
            ">= 6 dB (critical below 3)"@,
            m,
        ),
        None => None,
    }
}

spec fn attenuation_report(was: u8, v: Option<i64>, field: Seq<char>, m: Moment) -> Option<
    ModemIncidentView,
> {
    match v {
        Some(x) => level_report(
            was,
            x > 490_000,
            x > 580_000,
            x,
            field,
            "< 45 dB typical for DSL"@,
            m,
        ),
        None => None,
    }
}

spec fn rate_report(was: bool, rate: Option<i64>, max: Option<i64>, field: Seq<char>, m: Moment) -> Option<
    ModemIncidentView,
> {
    if !was && rate is Some && max is Some && max->0 > 1_000_000 && 2 * rate->0 < max->0 {
        Some(
            ModemIncidentView {
                at: m.wall,
                severity: Severity::Warning,
                field,
                observed: signed_fixed(rate->0 as int, 1_000_000, 2) + " Mbps of "@ + signed_fixed(
                    max->0 as int,
                    1_000_000,
                    2,
                ) + " Mbps max"@,
                expected: ">= 50% of the max rate"@,
            },
        )
    } else {
        None
    }
}

/// Two reports on end, where each may be missing.
proof fn one_of_two_stands(
    a: Seq<ModemIncidentView>,
    b: Seq<ModemIncidentView>,
    c: Seq<ModemIncidentView>,
    y: Option<ModemIncidentView>,
    z: Option<ModemIncidentView>,
    f: Seq<char>,
    g: Seq<char>,
)
    requires
        a.len() <= 80,
        f != g,
        match y {
            Some(y) => b == pushed(a, y, 80) && y.field == f,
            None => b == a,
        },
        match z {
            Some(z) => c == pushed(b, z, 80) && z.field == g,
            None => c == b,
        },
    ensures
        judged_step(a, c, f, g),
        y is Some ==> among_newest(c, y->0, 2),
        z is Some ==> among_newest(c, z->0, 2),
        y is None ==> nothing_new(a, c, f),
        z is None ==> nothing_new(a, c, g),
{
    same_log_is_a_step(a, f, g);
    same_log_is_a_step(b, f, g);
    if let Some(y) = y {
        one_more_report(a, y);
        assert(among_newest(b, y, 1));
    }
    if let Some(z) = z {
        one_more_report(b, z);
        assert(c[c.len() - 1] == z);
    }
    if let Some(y) = y {
        if z is Some {
            assert(among_newest(c, y, 2));
        } else {
            assert(c[c.len() - 1] == y);
        }
    }
    assert forall|x: ModemIncidentView, k: int| #[trigger]
        among_newest(a, x, k) && k <= 78 implies among_newest(c, x, k + 2) by {
        if y is Some {
            assert(among_newest(b, x, k + 1));
            if z is Some {
                assert(among_newest(c, x, k + 2));
            } else {
                let i = choose|i: int|
                    b.len() - (k + 1) <= i < b.len() && 0 <= i && #[trigger] b[i] == x;
                assert(c[i] == x);
            }
        } else if z is Some {
            assert(among_newest(c, x, k + 1));
            let i = choose|i: int|
                c.len() - (k + 1) <= i < c.len() && 0 <= i && #[trigger] c[i] == x;
            assert(c[i] == x);
        }
    }
    assert forall|h: Seq<char>| (h != f || y is None) && (h != g || z is None) implies #[trigger] nothing_new(
        a,
        c,
        h,
    ) by {
        assert(nothing_new(a, b, h));
        assert(nothing_new(b, c, h));
        nothing_new_goes_on(a, b, c, h);
    }
}

proof fn margins_step(v: DslView, snap: SnapshotView, m: Moment)
    requires
        v.valid(),
    ensures
        ({
            let t = v.judged_snr(snap.snr_down_db, snap.snr_up_db, m);
            &&& judged_step(v.incidents, t.incidents, "SNR margin downstream"@, "SNR margin upstream"@)
            &&& t.valid()
            &&& t.prev_uptime == v.prev_uptime
            &&& t.prev_crc == v.prev_crc
            &&& t.prev_wireless == v.prev_wireless
            &&& t.att_alert_down == v.att_alert_down
            &&& t.att_alert_up == v.att_alert_up
            &&& t.rate_alert_down == v.rate_alert_down
            &&& t.rate_alert_up == v.rate_alert_up
            &&& margin_report(v.snr_alert_down, snap.snr_down_db, "SNR margin downstream"@, m) is Some ==> among_newest(t.incidents, margin_report(v.snr_alert_down, snap.snr_down_db, "SNR margin downstream"@, m)->0, 2)
            &&& margin_report(v.snr_alert_up, snap.snr_up_db, "SNR margin upstream"@, m) is Some ==> among_newest(t.incidents, margin_report(v.snr_alert_up, snap.snr_up_db, "SNR margin upstream"@, m)->0, 2)
            &&& margin_report(v.snr_alert_down, snap.snr_down_db, "SNR margin downstream"@, m) is None ==> nothing_new(v.incidents, t.incidents, "SNR margin downstream"@)
            &&& margin_report(v.snr_alert_up, snap.snr_up_db, "SNR margin upstream"@, m) is None ==> nothing_new(v.incidents, t.incidents, "SNR margin upstream"@)
            &&& t.snr_alert_down == (match snap.snr_down_db {
                Some(x) => level_after(v.snr_alert_down, x < 60_000, x < 30_000),
                None => v.snr_alert_down,
            })
            &&& t.snr_alert_up == (match snap.snr_up_db {
                Some(x) => level_after(v.snr_alert_up, x < 60_000, x < 30_000),
                None => v.snr_alert_up,
            })
        }),
{
    reveal(DslView::judged_snr);
    fields_differ();
    let t = v.judged_snr(snap.snr_down_db, snap.snr_up_db, m);
    let (y, z) = (margin_report(v.snr_alert_down, snap.snr_down_db, "SNR margin downstream"@, m), margin_report(v.snr_alert_up, snap.snr_up_db, "SNR margin upstream"@, m));
    let b = match y {
        Some(y) => pushed(v.incidents, y, 80),
        None => v.incidents,
    };
    one_of_two_stands(v.incidents, b, t.incidents, y, z, "SNR margin downstream"@, "SNR margin upstream"@);
}

proof fn attenuations_step(v: DslView, snap: SnapshotView, m: Moment)
    requires
        v.valid(),
    ensures
        ({
            let t = v.judged_attenuation(snap.atten_down_db, snap.atten_up_db, m);
            &&& judged_step(v.incidents, t.incidents, "Line attenuation downstream"@, "Line attenuation upstream"@)
            &&& t.valid()
            &&& t.prev_uptime == v.prev_uptime
            &&& t.prev_crc == v.prev_crc
            &&& t.prev_wireless == v.prev_wireless
            &&& t.snr_alert_down == v.snr_alert_down
            &&& t.snr_alert_up == v.snr_alert_up
            &&& t.rate_alert_down == v.rate_alert_down
            &&& t.rate_alert_up == v.rate_alert_up
            &&& attenuation_report(v.att_alert_down, snap.atten_down_db, "Line attenuation downstream"@, m) is Some ==> among_newest(t.incidents, attenuation_report(v.att_alert_down, snap.atten_down_db, "Line attenuation downstream"@, m)->0, 2)
            &&& attenuation_report(v.att_alert_up, snap.atten_up_db, "Line attenuation upstream"@, m) is Some ==> among_newest(t.incidents, attenuation_report(v.att_alert_up, snap.atten_up_db, "Line attenuation upstream"@, m)->0, 2)
            &&& attenuation_report(v.att_alert_down, snap.atten_down_db, "Line attenuation downstream"@, m) is None ==> nothing_new(v.incidents, t.incidents, "Line attenuation downstream"@)
            &&& attenuation_report(v.att_alert_up, snap.atten_up_db, "Line attenuation upstream"@, m) is None ==> nothing_new(v.incidents, t.incidents, "Line attenuation upstream"@)
            &&& t.att_alert_down == (match snap.atten_down_db {
                Some(x) => level_after(v.att_alert_down, x > 490_000, x > 580_000),
                None => v.att_alert_down,
            })
            &&& t.att_alert_up == (match snap.atten_up_db {
                Some(x) => level_after(v.att_alert_up, x > 490_000, x > 580_000),
                None => v.att_alert_up,
            })
        }),
{
    reveal(DslView::judged_attenuation);
    fields_differ();
    let t = v.judged_attenuation(snap.atten_down_db, snap.atten_up_db, m);
    let (y, z) = (attenuation_report(v.att_alert_down, snap.atten_down_db, "Line attenuation downstream"@, m), attenuation_report(v.att_alert_up, snap.atten_up_db, "Line attenuation upstream"@, m));
    let b = match y {
        Some(y) => pushed(v.incidents, y, 80),
        None => v.incidents,
    };
    one_of_two_stands(v.incidents, b, t.incidents, y, z, "Line attenuation downstream"@, "Line attenuation upstream"@);
}

spec fn rate_alert_after(was: bool, rate: Option<i64>, max: Option<i64>) -> bool {
    if rate is Some && max is Some && max->0 > 1_000_000 {
        if was {
            10 * rate->0 < 7 * max->0
        } else {
            2 * rate->0 < max->0
        }
    } else {
        was
    }
}

proof fn rates_step(v: DslView, snap: SnapshotView, m: Moment)
    requires
        v.valid(),
    ensures
        ({
            let t = v.judged_rates(snap, m);
            &&& judged_step(v.incidents, t.incidents, "Data rate downstream"@, "Data rate upstream"@)
            &&& t.valid()
            &&& t.prev_uptime == v.prev_uptime
            &&& t.prev_crc == v.prev_crc
            &&& t.prev_wireless == v.prev_wireless
            &&& t.snr_alert_down == v.snr_alert_down
            &&& t.snr_alert_up == v.snr_alert_up
            &&& t.att_alert_down == v.att_alert_down
            &&& t.att_alert_up == v.att_alert_up
            &&& rate_report(v.rate_alert_down, snap.rate_down_bps, snap.max_rate_down_bps, "Data rate downstream"@, m) is Some ==> among_newest(t.incidents, rate_report(v.rate_alert_down, snap.rate_down_bps, snap.max_rate_down_bps, "Data rate downstream"@, m)->0, 2)
            &&& rate_report(v.rate_alert_up, snap.rate_up_bps, snap.max_rate_up_bps, "Data rate upstream"@, m) is Some ==> among_newest(t.incidents, rate_report(v.rate_alert_up, snap.rate_up_bps, snap.max_rate_up_bps, "Data rate upstream"@, m)->0, 2)
            &&& rate_report(v.rate_alert_down, snap.rate_down_bps, snap.max_rate_down_bps, "Data rate downstream"@, m) is None ==> nothing_new(v.incidents, t.incidents, "Data rate downstream"@)
            &&& rate_report(v.rate_alert_up, snap.rate_up_bps, snap.max_rate_up_bps, "Data rate upstream"@, m) is None ==> nothing_new(v.incidents, t.incidents, "Data rate upstream"@)
            &&& t.rate_alert_down == rate_alert_after(
                v.rate_alert_down,
                snap.rate_down_bps,
                snap.max_rate_down_bps,
            )
            &&& t.rate_alert_up == rate_alert_after(
                v.rate_alert_up,
                snap.rate_up_bps,
                snap.max_rate_up_bps,
            )
        }),
{
    reveal(DslView::judged_rates);
    fields_differ();
    let t = v.judged_rates(snap, m);
    let (y, z) = (rate_report(v.rate_alert_down, snap.rate_down_bps, snap.max_rate_down_bps, "Data rate downstream"@, m), rate_report(v.rate_alert_up, snap.rate_up_bps, snap.max_rate_up_bps, "Data rate upstream"@, m));
    let b = match y {
        Some(y) => pushed(v.incidents, y, 80),
        None => v.incidents,
    };
    one_of_two_stands(v.incidents, b, t.incidents, y, z, "Data rate downstream"@, "Data rate upstream"@);
}

/// What one of seven logs, each of which follows from the one before by one
/// step, has among its newest two is in the last.
proof fn still_there(logs: Seq<Seq<ModemIncidentView>>, k: int, x: ModemIncidentView)
    requires
        logs.len() == 7,
        1 <= k <= 6,
        forall|i: int, y: ModemIncidentView, n: int|
            0 <= i < 6 && n <= 78 && #[trigger] among_newest(logs[i], y, n) ==> among_newest(
                logs[i + 1],
                y,
                n + 2,
            ),
        among_newest(logs[k], x, 2),
    ensures
        logs[6].contains(x),
{
    newest_stay(logs, k, x, 2);
}

proof fn newest_stay(logs: Seq<Seq<ModemIncidentView>>, k: int, x: ModemIncidentView, n: int)
    requires
        logs.len() == 7,
        0 <= k <= 6,
        0 <= n <= 68 + 2 * k,
        forall|i: int, y: ModemIncidentView, n: int|
            0 <= i < 6 && n <= 78 && #[trigger] among_newest(logs[i], y, n) ==> among_newest(
                logs[i + 1],
                y,
                n + 2,
            ),
        among_newest(logs[k], x, n),
    ensures
        logs[6].contains(x),
    decreases 6 - k,
{
    if k < 6 {
        assert(among_newest(logs[k + 1], x, n + 2));
        newest_stay(logs, k + 1, x, n + 2);
    } else {
        let l = logs[6];
        let i = choose|i: int| l.len() - n <= i < l.len() && 0 <= i && #[trigger] l[i] == x;
        assert(l[i] == x);
    }
}

/// What no step adds to is unchanged by all of them.
proof fn still_nothing_new(logs: Seq<Seq<ModemIncidentView>>, f: Seq<char>)
    requires
        logs.len() == 7,
        forall|i: int| 0 <= i < 6 ==> nothing_new(#[trigger] logs[i], logs[i + 1], f),
    ensures
        nothing_new(logs[0], logs[6], f),
{
    assert(nothing_new(logs[0], logs[1], f));
    assert(nothing_new(logs[1], logs[2], f));
    nothing_new_goes_on(logs[0], logs[1], logs[2], f);
    assert(nothing_new(logs[2], logs[3], f));
    nothing_new_goes_on(logs[0], logs[2], logs[3], f);
    assert(nothing_new(logs[3], logs[4], f));
    nothing_new_goes_on(logs[0], logs[3], logs[4], f);
    assert(nothing_new(logs[4], logs[5], f));
    nothing_new_goes_on(logs[0], logs[4], logs[5], f);
    assert(nothing_new(logs[5], logs[6], f));
    nothing_new_goes_on(logs[0], logs[5], logs[6], f);
}

#[verifier::rlimit(60)]
#[verifier::spinoff_prover]
proof fn poll_reports(v: DslView, snap: SnapshotView, m: Moment)
    requires
        v.valid(),
        snap.available,
    ensures
        ({
            let t = v.polled(snap, m);
            &&& uptime_told(v, snap, m) ==> t.incidents.contains(uptime_report(v, snap, m))
            &&& !uptime_told(v, snap, m) ==> nothing_new(v.incidents, t.incidents, "Connection uptime"@)
            &&& crc_told(v, snap) ==> t.incidents.contains(crc_report(v, snap, m))
            &&& !crc_told(v, snap) ==> nothing_new(v.incidents, t.incidents, "CRC errors"@)
            &&& clients_told(v, snap) ==> t.incidents.contains(clients_report(v, snap, m))
            &&& !clients_told(v, snap) ==> nothing_new(v.incidents, t.incidents, "Wireless clients"@)
            &&& margin_report(v.snr_alert_down, snap.snr_down_db, "SNR margin downstream"@, m) matches Some(x) ==> t.incidents.contains(x)
            &&& margin_report(v.snr_alert_down, snap.snr_down_db, "SNR margin downstream"@, m) is None ==> nothing_new(v.incidents, t.incidents, "SNR margin downstream"@)
            &&& margin_report(v.snr_alert_up, snap.snr_up_db, "SNR margin upstream"@, m) matches Some(x) ==> t.incidents.contains(x)
            &&& margin_report(v.snr_alert_up, snap.snr_up_db, "SNR margin upstream"@, m) is None ==> nothing_new(v.incidents, t.incidents, "SNR margin upstream"@)
            &&& attenuation_report(v.att_alert_down, snap.atten_down_db, "Line attenuation downstream"@, m) matches Some(x) ==> t.incidents.contains(x)
            &&& attenuation_report(v.att_alert_down, snap.atten_down_db, "Line attenuation downstream"@, m) is None ==> nothing_new(v.incidents, t.incidents, "Line attenuation downstream"@)
            &&& attenuation_report(v.att_alert_up, snap.atten_up_db, "Line attenuation upstream"@, m) matches Some(x) ==> t.incidents.contains(x)
            &&& attenuation_report(v.att_alert_up, snap.atten_up_db, "Line attenuation upstream"@, m) is None ==> nothing_new(v.incidents, t.incidents, "Line attenuation upstream"@)
            &&& rate_report(v.rate_alert_down, snap.rate_down_bps, snap.max_rate_down_bps, "Data rate downstream"@, m) matches Some(x) ==> t.incidents.contains(x)
            &&& rate_report(v.rate_alert_down, snap.rate_down_bps, snap.max_rate_down_bps, "Data rate downstream"@, m) is None ==> nothing_new(v.incidents, t.incidents, "Data rate downstream"@)
            &&& rate_report(v.rate_alert_up, snap.rate_up_bps, snap.max_rate_up_bps, "Data rate upstream"@, m) matches Some(x) ==> t.incidents.contains(x)
            &&& rate_report(v.rate_alert_up, snap.rate_up_bps, snap.max_rate_up_bps, "Data rate upstream"@, m) is None ==> nothing_new(v.incidents, t.incidents, "Data rate upstream"@)
            &&& t.valid()
            &&& t.prev_uptime == (if snap.uptime_secs is Some {
                snap.uptime_secs
            } else {
                v.prev_uptime
            })
            &&& t.prev_crc == (if snap.crc_errors is Some {
                snap.crc_errors
            } else {
                v.prev_crc
            })
            &&& t.prev_wireless == (if snap.wireless_clients is Some {
                snap.wireless_clients
            } else {
                v.prev_wireless
            })
            &&& t.snr_alert_down == (match snap.snr_down_db {
                Some(x) => level_after(v.snr_alert_down, x < 60_000, x < 30_000),
                None => v.snr_alert_down,
            })
            &&& t.snr_alert_up == (match snap.snr_up_db {
                Some(x) => level_after(v.snr_alert_up, x < 60_000, x < 30_000),
                None => v.snr_alert_up,
            })
            &&& t.att_alert_down == (match snap.atten_down_db {
                Some(x) => level_after(v.att_alert_down, x > 490_000, x > 580_000),
                None => v.att_alert_down,
            })
            &&& t.att_alert_up == (match snap.atten_up_db {
                Some(x) => level_after(v.att_alert_up, x > 490_000, x > 580_000),
                None => v.att_alert_up,
            })
            &&& t.rate_alert_down == rate_alert_after(
                v.rate_alert_down,
                snap.rate_down_bps,
                snap.max_rate_down_bps,
            )
            &&& t.rate_alert_up == rate_alert_after(
                v.rate_alert_up,
                snap.rate_up_bps,
                snap.max_rate_up_bps,
            )
        }),
{
    fields_differ();
    let s1 = v.judged_uptime(snap.uptime_secs, m);
    let s2 = s1.judged_crc(snap.crc_errors, m);
    let s3 = s2.judged_wireless(snap.wireless_clients, m);
    let s4 = s3.judged_snr(snap.snr_down_db, snap.snr_up_db, m);
    let s5 = s4.judged_attenuation(snap.atten_down_db, snap.atten_up_db, m);
    let s6 = s5.judged_rates(snap, m);
    uptime_step(v, snap, m);
    crc_step(s1, snap, m);
    clients_step(s2, snap, m);
    margins_step(s3, snap, m);
    attenuations_step(s4, snap, m);
    rates_step(s5, snap, m);
    let logs = seq![
        v.incidents,
        s1.incidents,
        s2.incidents,
        s3.incidents,
        s4.incidents,
        s5.incidents,
        s6.incidents,
    ];
    if uptime_told(v, snap, m) {
        still_there(logs, 1, uptime_report(v, snap, m));
    } else {
        still_nothing_new(logs, "Connection uptime"@);
    }
    if crc_told(v, snap) {
        still_there(logs, 2, crc_report(v, snap, m));
    } else {
        still_nothing_new(logs, "CRC errors"@);
    }
    if clients_told(v, snap) {
        still_there(logs, 3, clients_report(v, snap, m));
    } else {
        still_nothing_new(logs, "Wireless clients"@);
    }
    match margin_report(v.snr_alert_down, snap.snr_down_db, "SNR margin downstream"@, m) {
        Some(x) => {
            still_there(logs, 4, x);
        },
        None => {
            still_nothing_new(logs, "SNR margin downstream"@);
        },
    }
    match margin_report(v.snr_alert_up, snap.snr_up_db, "SNR margin upstream"@, m) {
        Some(x) => {
            still_there(logs, 4, x);
        },
        None => {
            still_nothing_new(logs, "SNR margin upstream"@);
        },
    }
    match attenuation_report(v.att_alert_down, snap.atten_down_db, "Line attenuation downstream"@, m) {
        Some(x) => {
            still_there(logs, 5, x);
        },
        None => {
            still_nothing_new(logs, "Line attenuation downstream"@);
        },
    }
    match attenuation_report(v.att_alert_up, snap.atten_up_db, "Line attenuation upstream"@, m) {
        Some(x) => {
            still_there(logs, 5, x);
        },
        None => {
            still_nothing_new(logs, "Line attenuation upstream"@);
        },
    }
    match rate_report(v.rate_alert_down, snap.rate_down_bps, snap.max_rate_down_bps, "Data rate downstream"@, m) {
        Some(x) => {
            still_there(logs, 6, x);
        },
        None => {
            still_nothing_new(logs, "Data rate downstream"@);
        },
    }
    match rate_report(v.rate_alert_up, snap.rate_up_bps, snap.max_rate_up_bps, "Data rate upstream"@, m) {
        Some(x) => {
            still_there(logs, 6, x);
        },
        None => {
            still_nothing_new(logs, "Data rate upstream"@);
        },
    }
}

/// A snapshot takes no more out of the log than it puts in: at least the newest
/// 68 earlier incidents stay, and all of them where the snapshot holds no
/// values.
pub proof fn a_snapshot_keeps_earlier_incidents(v: DslView, snap: SnapshotView, m: Moment, i: int)
    requires
        v.valid(),
        0 <= i < v.incidents.len(),
        i >= v.incidents.len() - 68 || !snap.available,
    ensures
        v.polled(snap, m).incidents.contains(v.incidents[i]),
{
    if snap.available {
        let s1 = v.judged_uptime(snap.uptime_secs, m);
        let s2 = s1.judged_crc(snap.crc_errors, m);
        let s3 = s2.judged_wireless(snap.wireless_clients, m);
        let s4 = s3.judged_snr(snap.snr_down_db, snap.snr_up_db, m);
        let s5 = s4.judged_attenuation(snap.atten_down_db, snap.atten_up_db, m);
        let s6 = s5.judged_rates(snap, m);
        uptime_step(v, snap, m);
        crc_step(s1, snap, m);
        clients_step(s2, snap, m);
        margins_step(s3, snap, m);
        attenuations_step(s4, snap, m);
        rates_step(s5, snap, m);
        let logs = seq![
            v.incidents,
            s1.incidents,
            s2.incidents,
            s3.incidents,
            s4.incidents,
            s5.incidents,
            s6.incidents,
        ];
        let x = v.incidents[i];
        assert(among_newest(logs[0], x, 68)) by {
            assert(logs[0][i] == x);
        }
        newest_stay(logs, 0, x, 68);
    } else {
        let t = v.polled(snap, m);
        assert(t.incidents[i] == v.incidents[i]);
    }
}

/// A downstream noise margin that falls under six dB, or under three, is
/// reported as such, and one that is back at six as recovered.
pub proof fn a_low_downstream_margin_is_reported(v: DslView, snap: SnapshotView, m: Moment)
    requires
        v.valid(),
        snap.available,
    ensures
        snap.snr_down_db matches Some(x) ==> level_told(
            v.incidents,
            v.polled(snap, m).incidents,
            m,
            "SNR margin downstream"@,
            ">= 6 dB (critical below 3)"@,
            v.snr_alert_down,
            v.polled(snap, m).snr_alert_down,
            x,
            x < 60_000,
            x < 30_000,
        ),
        snap.snr_down_db is None ==> nothing_new(
            v.incidents,
            v.polled(snap, m).incidents,
            "SNR margin downstream"@,
        ) && v.polled(snap, m).snr_alert_down == v.snr_alert_down,
{
    poll_reports(v, snap, m);
}

/// An upstream noise margin that falls under six dB, or under three, is reported
/// as such, and one that is back at six as recovered.
pub proof fn a_low_upstream_margin_is_reported(v: DslView, snap: SnapshotView, m: Moment)
    requires
        v.valid(),
        snap.available,
    ensures
        snap.snr_up_db matches Some(x) ==> level_told(
            v.incidents,
            v.polled(snap, m).incidents,
            m,
            "SNR margin upstream"@,
            ">= 6 dB (critical below 3)"@,
            v.snr_alert_up,
            v.polled(snap, m).snr_alert_up,
            x,
            x < 60_000,
            x < 30_000,
        ),
        snap.snr_up_db is None ==> nothing_new(
            v.incidents,
            v.polled(snap, m).incidents,
            "SNR margin upstream"@,
        ) && v.polled(snap, m).snr_alert_up == v.snr_alert_up,
{
    poll_reports(v, snap, m);
}

/// A downstream attenuation that rises over 49 dB, or over 58, is reported as
/// such, and one that is back at 49 as recovered.
pub proof fn a_high_downstream_attenuation_is_reported(v: DslView, snap: SnapshotView, m: Moment)
    requires
        v.valid(),
        snap.available,
    ensures
        snap.atten_down_db matches Some(x) ==> level_told(
            v.incidents,
            v.polled(snap, m).incidents,
            m,
            "Line attenuation downstream"@,
            "< 45 dB typical for DSL"@,
            v.att_alert_down,
            v.polled(snap, m).att_alert_down,
            x,
            x > 490_000,
            x > 580_000,
        ),
        snap.atten_down_db is None ==> nothing_new(
            v.incidents,
            v.polled(snap, m).incidents,
            "Line attenuation downstream"@,
        ) && v.polled(snap, m).att_alert_down == v.att_alert_down,
{
    poll_reports(v, snap, m);
}

/// An upstream attenuation that rises over 49 dB, or over 58, is reported as
/// such, and one that is back at 49 as recovered.
pub proof fn a_high_upstream_attenuation_is_reported(v: DslView, snap: SnapshotView, m: Moment)
    requires
        v.valid(),
        snap.available,
    ensures
        snap.atten_up_db matches Some(x) ==> level_told(
            v.incidents,
            v.polled(snap, m).incidents,
            m,
            "Line attenuation upstream"@,
            "< 45 dB typical for DSL"@,
            v.att_alert_up,
            v.polled(snap, m).att_alert_up,
            x,
            x > 490_000,
            x > 580_000,
        ),
        snap.atten_up_db is None ==> nothing_new(
            v.incidents,
            v.polled(snap, m).incidents,
            "Line attenuation upstream"@,
        ) && v.polled(snap, m).att_alert_up == v.att_alert_up,
{
    poll_reports(v, snap, m);
}

/// A downstream data rate that falls under half of its maximum is reported once, until
/// it is back at seven tenths; a maximum of a megabit or less counts for nothing.
pub proof fn a_collapsed_downstream_rate_is_reported(v: DslView, snap: SnapshotView, m: Moment)
    requires
        v.valid(),
        snap.available,
    ensures
        ({
            let t = v.polled(snap, m);
            let quiet = nothing_new(v.incidents, t.incidents, "Data rate downstream"@);
            &&& match (snap.rate_down_bps, snap.max_rate_down_bps) {
                (Some(rate), Some(max)) => if max <= 1_000_000 {
                    quiet && t.rate_alert_down == v.rate_alert_down
                } else if v.rate_alert_down {
                    quiet && (t.rate_alert_down <==> 10 * rate < 7 * max)
                } else if 2 * rate < max {
                    &&& t.rate_alert_down
                    &&& t.incidents.contains(
                        ModemIncidentView {
                            at: m.wall,
                            severity: Severity::Warning,
                            field: "Data rate downstream"@,
                            observed: signed_fixed(rate as int, 1_000_000, 2) + " Mbps of "@
                                + signed_fixed(max as int, 1_000_000, 2) + " Mbps max"@,
                            expected: ">= 50% of the max rate"@,
                        },
                    )
                } else {
                    quiet && !t.rate_alert_down
                },
                _ => quiet && t.rate_alert_down == v.rate_alert_down,
            }
        }),
{
    poll_reports(v, snap, m);
}

/// An upstream data rate that falls under half of its maximum is reported once, until
/// it is back at seven tenths; a maximum of a megabit or less counts for nothing.
pub proof fn a_collapsed_upstream_rate_is_reported(v: DslView, snap: SnapshotView, m: Moment)
    requires
        v.valid(),
        snap.available,
    ensures
        ({
            let t = v.polled(snap, m);
            let quiet = nothing_new(v.incidents, t.incidents, "Data rate upstream"@);
            &&& match (snap.rate_up_bps, snap.max_rate_up_bps) {
                (Some(rate), Some(max)) => if max <= 1_000_000 {
                    quiet && t.rate_alert_up == v.rate_alert_up
                } else if v.rate_alert_up {
                    quiet && (t.rate_alert_up <==> 10 * rate < 7 * max)
                } else if 2 * rate < max {
                    &&& t.rate_alert_up
                    &&& t.incidents.contains(
                        ModemIncidentView {
                            at: m.wall,
                            severity: Severity::Warning,
                            field: "Data rate upstream"@,
                            observed: signed_fixed(rate as int, 1_000_000, 2) + " Mbps of "@
                                + signed_fixed(max as int, 1_000_000, 2) + " Mbps max"@,
                            expected: ">= 50% of the max rate"@,
                        },
                    )
                } else {
                    quiet && !t.rate_alert_up
                },
                _ => quiet && t.rate_alert_up == v.rate_alert_up,
            }
        }),
{
    poll_reports(v, snap, m);
}

/// A connection that has been up for less long than at the snapshot before, by
/// more than five seconds and after a minute or more, is reported as reconnected.
pub proof fn a_reconnect_is_reported(v: DslView, snap: SnapshotView, m: Moment)
    requires
        v.valid(),
        snap.available,
    ensures
        ({
            let t = v.polled(snap, m);
            let quiet = nothing_new(v.incidents, t.incidents, "Connection uptime"@);
            match (v.prev_uptime, snap.uptime_secs) {
                (Some(was), Some(now)) => {
                    &&& t.prev_uptime == Some(now)
                    &&& if was >= 60 && was - now > 5 {
                        t.incidents.contains(
                            ModemIncidentView {
                                at: m.wall,
                                severity: Severity::Warning,
                                field: "Connection uptime"@,
                                observed: "reconnected - reset to "@ + decimal(now as nat)
                                    + "s after "@ + decimal(was as nat) + "s"@,
                                expected: "monotonically increasing while connected"@,
                            },
                        )
                    } else {
                        quiet
                    }
                },
                (None, Some(now)) => quiet && t.prev_uptime == Some(now),
                (_, None) => quiet && t.prev_uptime == v.prev_uptime,
            }
        }),
{
    poll_reports(v, snap, m);
}

/// More CRC errors than at the snapshot before are reported, the more gravely the
/// more there are.
pub proof fn growing_errors_are_reported(v: DslView, snap: SnapshotView, m: Moment)
    requires
        v.valid(),
        snap.available,
    ensures
        ({
            let t = v.polled(snap, m);
            let quiet = nothing_new(v.incidents, t.incidents, "CRC errors"@);
            match (v.prev_crc, snap.crc_errors) {
                (Some(was), Some(now)) => {
                    &&& t.prev_crc == Some(now)
                    &&& now <= was ==> quiet
                    &&& now > was ==> t.incidents.contains(
                        ModemIncidentView {
                            at: m.wall,
                            severity: if now >= was + 100 {
                                Severity::Critical
                            } else if now >= was + 10 {
                                Severity::Warning
                            } else {
                                Severity::Info
                            },
                            field: "CRC errors"@,
                            observed: "+"@ + decimal((now - was) as nat) + " in ~2s (total "@
                                + decimal(now as nat) + ")"@,
                            expected: "no growth over time"@,
                        },
                    )
                },
                (None, Some(now)) => quiet && t.prev_crc == Some(now),
                (_, None) => quiet && t.prev_crc == v.prev_crc,
            }
        }),
{
    poll_reports(v, snap, m);
}

/// Another number of wireless clients than at the snapshot before is noted.
pub proof fn other_clients_are_noted(v: DslView, snap: SnapshotView, m: Moment)
    requires
        v.valid(),
        snap.available,
    ensures
        ({
            let t = v.polled(snap, m);
            let quiet = nothing_new(v.incidents, t.incidents, "Wireless clients"@);
            match (v.prev_wireless, snap.wireless_clients) {
                (Some(was), Some(now)) => {
                    &&& t.prev_wireless == Some(now)
                    &&& now == was ==> quiet
                    &&& now != was ==> t.incidents.contains(
                        ModemIncidentView {
                            at: m.wall,
                            severity: Severity::Info,
                            field: "Wireless clients"@,
                            observed: decimal(was as nat) + " -> "@ + decimal(now as nat),
                            expected: "changes are informational"@,
                        },
                    )
                },
                (None, Some(now)) => quiet && t.prev_wireless == Some(now),
                (_, None) => quiet && t.prev_wireless == v.prev_wireless,
            }
        }),
{
    poll_reports(v, snap, m);
}

/// The newest snapshot is the current one, with values or without, and reading it
/// changes neither the configuration nor the editor nor the poller.
pub proof fn the_newest_snapshot_is_current(v: DslView, snap: SnapshotView, m: Moment)
    ensures
        ({
            let t = v.polled(snap, m);
            &&& t.current == Some(snap)
            &&& t.config == v.config && t.editing == v.editing && t.edit_field == v.edit_field
            &&& t.buf_addr == v.buf_addr && t.buf_user == v.buf_user && t.buf_pass == v.buf_pass
            &&& t.polling == v.polling && t.paused == v.paused
        }),
{
    reveal(DslView::judged_uptime);
    reveal(DslView::judged_crc);
    reveal(DslView::judged_wireless);
    reveal(DslView::judged_snr);
    reveal(DslView::judged_attenuation);
    reveal(DslView::judged_rates);
}

/// A modem is looked for under its usual name, without a login, and nothing is
/// known of it at first: no level has been reported and none can be compared.
pub proof fn a_modem_begins_unknown()
    ensures
        ({
            let v = DslView::fresh();
            &&& v.config.host == "fritz.box"@ && v.config.username.len() == 0
                && v.config.password.len() == 0
            &&& !v.polling && !v.paused && !v.editing && v.current is None
            &&& v.incidents.len() == 0
            &&& v.prev_uptime is None && v.prev_crc is None && v.prev_wireless is None
            &&& v.snr_alert_down == 0 && v.snr_alert_up == 0 && v.att_alert_down == 0
                && v.att_alert_up == 0 && !v.rate_alert_down && !v.rate_alert_up
        }),
{
}

} // verus!
