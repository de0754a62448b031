//! The order in which a full speed test runs: which phase follows which, what
//! is announced and how the test ends.

use crate::measure::Rate;
use crate::net::{LatencyStats, Metrics, Phase, Profile, TestEvent, TestEventView};
use crate::text::concat;
use vstd::prelude::*;

verus! {

/// What the engine waits for.
#[derive(Debug, Clone, Copy, PartialEq, Eq, Structural)]
pub enum Stage {
    /// The HTTP client.
    Client,
    /// The connection check.
    Connect,
    /// The latency measurement.
    Latency,
    /// The download, once the latency is known.
    Download(LatencyStats),
    /// The upload, once latency and download rate are known.
    Upload(LatencyStats, Rate),
    /// Nothing: the test is over.
    Done,
}

/// The outcome of what the engine waited for. A failure brings its message.
#[derive(Debug)]
pub enum StageOutcome {
    ClientReady,
    Connected,
    Latency(LatencyStats),
    Rate(Rate),
    Failed(String),
}

/// The contents of a [`StageOutcome`].
pub enum OutcomeView {
    ClientReady,
    Connected,
    Latency(LatencyStats),
    Rate(Rate),
    Failed(Seq<char>),
}

impl View for StageOutcome {
    type V = OutcomeView;

    open spec fn view(&self) -> OutcomeView {
        match *self {
            StageOutcome::ClientReady => OutcomeView::ClientReady,
            StageOutcome::Connected => OutcomeView::Connected,
            StageOutcome::Latency(st) => OutcomeView::Latency(st),
            StageOutcome::Rate(rate) => OutcomeView::Rate(rate),
            StageOutcome::Failed(msg) => OutcomeView::Failed(msg@),
        }
    }
}

/// What has to be done for the engine next.
#[derive(Debug, Clone, Copy, PartialEq, Eq, Structural)]
pub enum EngineAction {
    CheckConnection,
    MeasureLatency,
    /// Download for this many seconds.
    MeasureDownload(u64),
    /// Upload for this many seconds.
    MeasureUpload(u64),
    Stop,
}

/// A full test under way.
#[derive(Debug, Clone, Copy, PartialEq, Eq, Structural)]
pub struct FullTest {
    pub profile: Profile,
    pub stage: Stage,
}

/// What one step of the engine does: the next stage, the event it announces and
/// the action it asks for.
pub struct EngineStep {
    pub stage: Stage,
    pub event: Option<TestEventView>,
    pub action: EngineAction,
}

/// What a failed stage is called in the message.
pub open spec fn failure_prefix(stage: Stage) -> Seq<char> {
    match stage {
        Stage::Connect => "connection check failed: "@,
        Stage::Latency => "latency test failed: "@,
        Stage::Download(_) => "download test failed: "@,
        Stage::Upload(_, _) => "upload test failed: "@,
        _ => ""@,
    }
}

/// Whether an outcome is one that the stage waits for.
pub open spec fn expected(stage: Stage, outcome: OutcomeView) -> bool {
    match (stage, outcome) {
        (Stage::Done, _) => false,
        (_, OutcomeView::Failed(_)) => true,
        (Stage::Client, OutcomeView::ClientReady) => true,
        (Stage::Connect, OutcomeView::Connected) => true,
        (Stage::Latency, OutcomeView::Latency(_)) => true,
        (Stage::Download(_), OutcomeView::Rate(_)) => true,
        (Stage::Upload(_, _), OutcomeView::Rate(_)) => true,
        _ => false,
    }
}

/// The silent end of a test.
pub open spec fn quiet_end() -> EngineStep {
    EngineStep { stage: Stage::Done, event: None, action: EngineAction::Stop }
}

/// The step from one stage to the next. A missing client is always reported;
/// any other failure is reported unless the test was cancelled. A cancelled
/// test ends without a word, except that the latency measurement still begins
/// once the connection check has passed.
pub open spec fn step(
    profile: Profile,
    stage: Stage,
    outcome: OutcomeView,
    cancelled: bool,
) -> EngineStep {
    match (stage, outcome) {
        (Stage::Client, OutcomeView::Failed(msg)) => EngineStep {
            stage: Stage::Done,
            event: Some(TestEventView::Failed(msg)),
            action: EngineAction::Stop,
        },
        (_, OutcomeView::Failed(msg)) => if cancelled {
            quiet_end()
        } else {
            EngineStep {
                stage: Stage::Done,
                event: Some(TestEventView::Failed(failure_prefix(stage) + msg)),
                action: EngineAction::Stop,
            }
        },
        (Stage::Client, _) => EngineStep {
            stage: Stage::Connect,
            event: Some(TestEventView::Phase(Phase::Connect)),
            action: EngineAction::CheckConnection,
        },
        (Stage::Connect, _) => EngineStep {
            stage: Stage::Latency,
            event: Some(TestEventView::Phase(Phase::Latency)),
            action: EngineAction::MeasureLatency,
        },
        (Stage::Latency, OutcomeView::Latency(latency)) => if cancelled {
            quiet_end()
        } else {
            EngineStep {
                stage: Stage::Download(latency),
                event: Some(TestEventView::Phase(Phase::Download)),
                action: EngineAction::MeasureDownload(profile.seconds().0),
            }
        },
        (Stage::Download(latency), OutcomeView::Rate(down)) => if cancelled {
            quiet_end()
        } else {
            EngineStep {
                stage: Stage::Upload(latency, down),
                event: Some(TestEventView::Phase(Phase::Upload)),
                action: EngineAction::MeasureUpload(profile.seconds().1),
            }
        },
        (Stage::Upload(latency, down), OutcomeView::Rate(up)) => if cancelled {
            quiet_end()
        } else {
            EngineStep {
                stage: Stage::Done,
                event: Some(
                    TestEventView::Finished(Metrics { down, up, latency }),
                ),
                action: EngineAction::Stop,
            }
        },
        _ => quiet_end(),
    }
}

impl FullTest {
    /// A test that waits for its HTTP client.
    pub fn new(profile: Profile) -> (t: Self)
        ensures
            t == (FullTest { profile, stage: Stage::Client }),
    {
        FullTest { profile, stage: Stage::Client }
    }

    /// Whether an outcome is one that the current stage waits for.
    pub fn expects(&self, outcome: &StageOutcome) -> (yes: bool)
        ensures
            yes == expected(self.stage, outcome@),
    {
        match (&self.stage, outcome) {
            (Stage::Done, _) => false,
            (_, StageOutcome::Failed(_)) => true,
            (Stage::Client, StageOutcome::ClientReady) => true,
            (Stage::Connect, StageOutcome::Connected) => true,
            (Stage::Latency, StageOutcome::Latency(_)) => true,
            (Stage::Download(_), StageOutcome::Rate(_)) => true,
            (Stage::Upload(_, _), StageOutcome::Rate(_)) => true,
            _ => false,
        }
    }

    /// Takes the outcome of the current stage in and moves on.
    pub fn advance(&mut self, outcome: StageOutcome, cancelled: bool) -> (r: (
        Option<TestEvent>,
        EngineAction,
    ))
        requires
            expected(old(self).stage, outcome@),
        ensures
            ({
                let s = step(old(self).profile, old(self).stage, outcome@, cancelled);
                &&& *final(self) == (FullTest { profile: old(self).profile, stage: s.stage })
                &&& r.1 == s.action
                &&& match r.0 {
                    Some(ev) => s.event == Some(ev@),
                    None => s.event is None,
                }
            }),
    {
        let stage = self.stage;
        self.stage = Stage::Done;
        let (down_s, up_s) = self.profile.phase_seconds();
        match outcome {
            StageOutcome::Failed(msg) => {
                let prefix: &'static str = match stage {
                    Stage::Client => {
                        return (Some(TestEvent::Failed(msg)), EngineAction::Stop);
                    },
                    Stage::Connect => "connection check failed: ",
                    Stage::Latency => "latency test failed: ",
                    Stage::Download(_) => "download test failed: ",
                    Stage::Upload(_, _) => "upload test failed: ",
                    Stage::Done => "",
                };
                if cancelled {
                    return (None, EngineAction::Stop);
                }
                (Some(TestEvent::Failed(concat(prefix, msg.as_str()))), EngineAction::Stop)
            },
            StageOutcome::ClientReady => {
                self.stage = Stage::Connect;
                (Some(TestEvent::Phase(Phase::Connect)), EngineAction::CheckConnection)
            },
            StageOutcome::Connected => {
                self.stage = Stage::Latency;
                (Some(TestEvent::Phase(Phase::Latency)), EngineAction::MeasureLatency)
            },
            StageOutcome::Latency(latency) => {
                if cancelled {
                    return (None, EngineAction::Stop);
                }
                self.stage = Stage::Download(latency);
                (Some(TestEvent::Phase(Phase::Download)), EngineAction::MeasureDownload(down_s))
            },
            StageOutcome::Rate(rate) => {
                if cancelled {
                    return (None, EngineAction::Stop);
                }
                match stage {
                    Stage::Download(latency) => {
                        self.stage = Stage::Upload(latency, rate);
                        (Some(TestEvent::Phase(Phase::Upload)), EngineAction::MeasureUpload(up_s))
                    },
                    Stage::Upload(latency, down) => (
                        Some(
                            TestEvent::Finished(Metrics { down, up: rate, latency }),
                        ),
                        EngineAction::Stop,
                    ),
                    _ => (None, EngineAction::Stop),
                }
            },
        }
    }
}

/// How far a test has come.
pub open spec fn rank(stage: Stage) -> int {
    match stage {
        Stage::Client => 0,
        Stage::Connect => 1,
        Stage::Latency => 2,
        Stage::Download(_) => 3,
        Stage::Upload(_, _) => 4,
        Stage::Done => 5,
    }
}

/// Whether an event ends a test.
pub open spec fn terminal(ev: TestEventView) -> bool {
    ev is Finished || ev is Failed
}

/// Every step of a test moves it on; it is over exactly where there is nothing
/// left to do; and one that was not cancelled never ends without reporting an
/// outcome, nor reports one before its end.
pub proof fn tests_end_with_an_outcome(
    profile: Profile,
    stage: Stage,
    outcome: OutcomeView,
    cancelled: bool,
)
    requires
        expected(stage, outcome),
    ensures
        ({
            let s = step(profile, stage, outcome, cancelled);
            &&& rank(stage) < rank(s.stage)
            &&& s.stage == Stage::Done <==> s.action == EngineAction::Stop
            &&& s.stage == Stage::Done && !cancelled ==> s.event is Some && terminal(s.event->0)
            &&& s.stage != Stage::Done ==> s.event is Some && !terminal(s.event->0)
        }),
{
}

/// A test that was cancelled reports no failure but that of a missing client.
pub proof fn a_cancelled_test_is_no_failure(profile: Profile, stage: Stage, outcome: OutcomeView)
    requires
        expected(stage, outcome),
        stage != Stage::Client,
    ensures
        !(step(profile, stage, outcome, true).event matches Some(ev) && terminal(ev)),
{
}

/// A test that goes well checks the connection, then measures latency, download
/// and upload, for the seconds of its profile, announcing each before it begins;
/// its result is made of what each of them has measured.
pub proof fn a_good_test_runs_through(
    profile: Profile,
    latency: LatencyStats,
    down: Rate,
    up: Rate,
)
    ensures
        ({
            let s1 = step(profile, Stage::Client, OutcomeView::ClientReady, false);
            let s2 = step(profile, s1.stage, OutcomeView::Connected, false);
            let s3 = step(profile, s2.stage, OutcomeView::Latency(latency), false);
            let s4 = step(profile, s3.stage, OutcomeView::Rate(down), false);
            let s5 = step(profile, s4.stage, OutcomeView::Rate(up), false);
            &&& s1.event == Some(TestEventView::Phase(Phase::Connect))
            &&& s1.action == EngineAction::CheckConnection
            &&& s2.event == Some(TestEventView::Phase(Phase::Latency))
            &&& s2.action == EngineAction::MeasureLatency
            &&& s3.event == Some(TestEventView::Phase(Phase::Download))
            &&& s3.action == EngineAction::MeasureDownload(profile.seconds().0)
            &&& s4.event == Some(TestEventView::Phase(Phase::Upload))
            &&& s4.action == EngineAction::MeasureUpload(profile.seconds().1)
            &&& s5.stage == Stage::Done && s5.action == EngineAction::Stop
            &&& s5.event matches Some(TestEventView::Finished(m)) && m.latency == latency && m.down
                == down && m.up == up
        }),
{
}

/// A failure is told in its own words, behind the name of what has failed; a
/// missing client in its own words alone, even where the test was cancelled.
pub proof fn failures_name_their_stage(
    profile: Profile,
    latency: LatencyStats,
    down: Rate,
    msg: Seq<char>,
    cancelled: bool,
)
    ensures
        ({
            let told = |stage: Stage|
                step(profile, stage, OutcomeView::Failed(msg), false).event;
            &&& told(Stage::Connect) == Some(
                TestEventView::Failed("connection check failed: "@ + msg),
            )
            &&& told(Stage::Latency) == Some(TestEventView::Failed("latency test failed: "@ + msg))
            &&& told(Stage::Download(latency)) == Some(
                TestEventView::Failed("download test failed: "@ + msg),
            )
            &&& told(Stage::Upload(latency, down)) == Some(
                TestEventView::Failed("upload test failed: "@ + msg),
            )
        }),
        step(profile, Stage::Client, OutcomeView::Failed(msg), cancelled).event == Some(
            TestEventView::Failed(msg),
        ),
{
}

/// Whatever a stage waits for is waited for by that stage alone, but for
/// failures, which every stage expects, and rates, which two do.
pub proof fn outcomes_belong_to_their_stage(a: Stage, b: Stage, outcome: OutcomeView)
    requires
        expected(a, outcome),
        expected(b, outcome),
        !(outcome is Failed),
    ensures
        rank(a) == rank(b) || (outcome is Rate && 3 <= rank(a) <= 4 && 3 <= rank(b) <= 4),
        !expected(Stage::Done, outcome),
{
}

} // verus!
