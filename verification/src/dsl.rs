//! DSL modem statistics from the TR-064/SOAP management interface.
//!
//! Values like SNR margin, line attenuation and data rates exist only inside
//! the modem itself, so they are read from its LAN management interface. What a
//! modem does not report stays absent.

use crate::measure::Timestamp;
use crate::style::Color;
use crate::text::opt_text;
use vstd::prelude::*;

verus! {

/// One poll of every configured value. Levels are in ten-thousandths of a dB (or
/// dBm), rates in bits per second.
#[derive(Debug)]
pub struct DslSnapshot {
    pub available: bool,
    /// Why values are missing (shown in the banner).
    pub unavailable_reason: Option<String>,
    pub fetched_at: Option<Timestamp>,
    pub state: Option<String>,
    pub mode: Option<String>,
    pub uptime_secs: Option<u64>,
    pub firmware: Option<String>,
    pub snr_down_db: Option<i64>,
    pub snr_up_db: Option<i64>,
    pub atten_down_db: Option<i64>,
    pub atten_up_db: Option<i64>,
    pub rate_down_bps: Option<i64>,
    pub rate_up_bps: Option<i64>,
    pub max_rate_down_bps: Option<i64>,
    pub max_rate_up_bps: Option<i64>,
    pub power_down_dbm: Option<i64>,
    pub power_up_dbm: Option<i64>,
    pub crc_errors: Option<u64>,
    pub wireless_clients: Option<u32>,
}

/// The contents of a [`DslSnapshot`].
#[verifier::ext_equal]
pub struct SnapshotView {
    pub available: bool,
    pub unavailable_reason: Option<Seq<char>>,
    pub fetched_at: Option<Timestamp>,
    pub state: Option<Seq<char>>,
    pub mode: Option<Seq<char>>,
    pub uptime_secs: Option<u64>,
    pub firmware: Option<Seq<char>>,
    pub snr_down_db: Option<i64>,
    pub snr_up_db: Option<i64>,
    pub atten_down_db: Option<i64>,
    pub atten_up_db: Option<i64>,
    pub rate_down_bps: Option<i64>,
    pub rate_up_bps: Option<i64>,
    pub max_rate_down_bps: Option<i64>,
    pub max_rate_up_bps: Option<i64>,
    pub power_down_dbm: Option<i64>,
    pub power_up_dbm: Option<i64>,
    pub crc_errors: Option<u64>,
    pub wireless_clients: Option<u32>,
}

impl View for DslSnapshot {
    type V = SnapshotView;

    open spec fn view(&self) -> SnapshotView {
        SnapshotView {
            available: self.available,
            unavailable_reason: opt_text(self.unavailable_reason),
            fetched_at: self.fetched_at,
            state: opt_text(self.state),
            mode: opt_text(self.mode),
            uptime_secs: self.uptime_secs,
            firmware: opt_text(self.firmware),
            snr_down_db: self.snr_down_db,
            snr_up_db: self.snr_up_db,
            atten_down_db: self.atten_down_db,
            atten_up_db: self.atten_up_db,
            rate_down_bps: self.rate_down_bps,
            rate_up_bps: self.rate_up_bps,
            max_rate_down_bps: self.max_rate_down_bps,
            max_rate_up_bps: self.max_rate_up_bps,
            power_down_dbm: self.power_down_dbm,
            power_up_dbm: self.power_up_dbm,
            crc_errors: self.crc_errors,
            wireless_clients: self.wireless_clients,
        }
    }
}

impl SnapshotView {
    /// A snapshot in which nothing is known.
    pub open spec fn blank() -> Self {
        SnapshotView {
            available: false,
            unavailable_reason: None,
            fetched_at: None,
            state: None,
            mode: None,
            uptime_secs: None,
            firmware: None,
            snr_down_db: None,
            snr_up_db: None,
            atten_down_db: None,
            atten_up_db: None,
            rate_down_bps: None,
            rate_up_bps: None,
            max_rate_down_bps: None,
            max_rate_up_bps: None,
            power_down_dbm: None,
            power_up_dbm: None,
            crc_errors: None,
            wireless_clients: None,
        }
    }
}

impl Default for DslSnapshot {
    fn default() -> (s: Self)
        ensures
            s@ == SnapshotView::blank(),
    {
        DslSnapshot {
            available: false,
            unavailable_reason: None,
            fetched_at: None,
            state: None,
            mode: None,
            uptime_secs: None,
            firmware: None,
            snr_down_db: None,
            snr_up_db: None,
            atten_down_db: None,
            atten_up_db: None,
            rate_down_bps: None,
            rate_up_bps: None,
            max_rate_down_bps: None,
            max_rate_up_bps: None,
            power_down_dbm: None,
            power_up_dbm: None,
            crc_errors: None,
            wireless_clients: None,
        }
    }
}

/// An event that the modem poller emits.
#[derive(Debug)]
pub enum DslEvent {
    Snapshot(DslSnapshot),
}

// ---- abnormal-value thresholds --------------------------------------------

/// SNR margin below which a warning is raised, in ten-thousandths of a dB.
pub const SNR_WARN_DB: i64 = 60_000;

/// SNR margin below which the line is critical, in ten-thousandths of a dB.
pub const SNR_CRIT_DB: i64 = 30_000;

/// Attenuation above which a warning is raised, in ten-thousandths of a dB.
pub const ATT_WARN_DB: i64 = 490_000;

/// Attenuation above which the line is critical, in ten-thousandths of a dB.
pub const ATT_CRIT_DB: i64 = 580_000;

/// A data rate below this share of the maximum, in percent, has collapsed.
pub const RATE_MIN_PCT: i64 = 50;

/// A collapsed data rate has recovered from this share of the maximum on, in
/// percent.
pub const RATE_RECOVERED_PCT: i64 = 70;

#[derive(Debug, Clone, Copy, PartialEq, Eq, Structural)]
pub enum Severity {
    Info,
    Warning,
    Critical,
}

impl Severity {
    /// The name under which this severity is listed.
    pub open spec fn name(self) -> Seq<char> {
        match self {
            Severity::Info => "INFO"@,
            Severity::Warning => "WARN"@,
            Severity::Critical => "CRIT"@,
        }
    }

    /// The colour in which this severity is shown.
    pub open spec fn shade(self) -> Color {
        match self {
            Severity::Info => Color::Green,
            Severity::Warning => Color::Yellow,
            Severity::Critical => Color::Red,
        }
    }

    pub fn label(self) -> (s: &'static str)
        ensures
            s@ == self.name(),
    {
        match self {
            Severity::Info => "INFO",
            Severity::Warning => "WARN",
            Severity::Critical => "CRIT",
        }
    }

    pub fn color(self) -> (c: Color)
        ensures
            c == self.shade(),
    {
        match self {
            Severity::Info => Color::Green,
            Severity::Warning => Color::Yellow,
            Severity::Critical => Color::Red,
        }
    }
}

/// A detected abnormality or notable event on the modem side.
#[derive(Debug)]
pub struct ModemIncident {
    pub at: Timestamp,
    pub severity: Severity,
    pub field: &'static str,
    /// What was observed, human-formatted.
    pub observed: String,
    /// The normal/expected range for this value.
    pub expected: String,
}

/// What a [`ModemIncident`] says.
pub struct ModemIncidentView {
    pub at: Timestamp,
    pub severity: Severity,
    pub field: Seq<char>,
    pub observed: Seq<char>,
    pub expected: Seq<char>,
}

impl View for ModemIncident {
    type V = ModemIncidentView;

    open spec fn view(&self) -> ModemIncidentView {
        ModemIncidentView {
            at: self.at,
            severity: self.severity,
            field: self.field@,
            observed: self.observed@,
            expected: self.expected@,
        }
    }
}

/// What every incident of a modem log says.
#[verifier::opaque]
pub open spec fn modem_incident_views(log: Seq<ModemIncident>) -> Seq<ModemIncidentView> {
    log.map_values(|i: ModemIncident| i@)
}

/// Where the modem is and how to log in to it.
#[derive(Debug)]
pub struct ModemConfig {
    pub host: String,
    pub username: String,
    pub password: String,
}

/// The contents of a [`ModemConfig`].
#[verifier::ext_equal]
pub struct ConfigView {
    pub host: Seq<char>,
    pub username: Seq<char>,
    pub password: Seq<char>,
}

impl View for ModemConfig {
    type V = ConfigView;

    open spec fn view(&self) -> ConfigView {
        ConfigView {
            host: self.host@,
            username: self.username@,
            password: self.password@,
        }
    }
}

impl Default for ModemConfig {
    fn default() -> (c: Self)
        ensures
            c@ == (ConfigView {
                host: "fritz.box"@,
                username: Seq::empty(),
                password: Seq::empty(),
            }),
    {
        ModemConfig {
            host: "fritz.box".to_owned(),
            username: String::new(),
            password: String::new(),
        }
    }
}

/// The severities have their own names; the graver they are, the warmer the colour.
pub proof fn severities_are_told_apart(a: Severity, b: Severity)
    ensures
        a != b ==> a.name() != b.name() && a.shade() != b.shade(),
        a.shade() == Color::Red <==> a == Severity::Critical,
        a.shade() == Color::Green <==> a == Severity::Info,
{
    reveal_strlit("INFO");
    reveal_strlit("WARN");
    reveal_strlit("CRIT");
    assert("INFO"@[0] == 'I' && "WARN"@[0] == 'W' && "CRIT"@[0] == 'C');
}

} // verus!
