//! The latency monitor: incidents, windows and verdicts.

use speed_test::measure::{Moment, Quotient, Timestamp, SECOND};
use speed_test::monitor::{MonitorState, ProbeSample, TroubleKind};
use speed_test::style::Color;

const MS: u64 = 1_000_000;

fn at(secs: u64) -> Moment {
    Moment { ticks: secs * SECOND, wall: Timestamp { secs: secs as i64, nanos: 0 } }
}

fn feed(m: &mut MonitorState, rtts_ms: &[Option<u64>], secs: u64) {
    for r in rtts_ms {
        m.on_sample(ProbeSample { rtt_ns: r.map(|v| v * MS) }, at(secs));
    }
}

fn log(m: &MonitorState) -> Vec<(TroubleKind, String)> {
    m.incidents.iter().map(|i| (i.kind, i.detail.clone())).collect()
}

#[test]
fn losses_make_an_outage_and_an_answer_a_recovery() {
    let mut m = MonitorState::new(0);
    feed(&mut m, &[Some(20), None, None, None], 10);
    assert_eq!(
        log(&m),
        vec![
            (TroubleKind::Loss, "probe timed out".to_string()),
            (TroubleKind::Outage, "3 probes lost in a row".to_string()),
        ]
    );
    assert!(m.stats(at(24).ticks).in_trouble);
    assert!(!m.stats(at(25).ticks).in_trouble);
    feed(&mut m, &[Some(21)], 30);
    assert_eq!(m.incidents.last().unwrap().detail, "connection back (21 ms)");
    assert_eq!(m.incidents.last().unwrap().kind, TroubleKind::Recovered);
    assert_eq!(m.stats(at(40).ticks).stable_for_secs, 30);
}

#[test]
fn a_target_that_never_answers_is_reported() {
    let mut m = MonitorState::new(0);
    feed(&mut m, &[None; 20], 1);
    let kinds: Vec<&str> = m.incidents.iter().map(|i| i.kind.label()).collect();
    assert_eq!(kinds, vec!["LOSS", "OUTAGE", "UNREACHABLE", "UNREACHABLE", "UNREACHABLE"]);
    assert_eq!(
        m.incidents[2].detail,
        "target 'speed.cloudflare.com' is not responding — verify the host name or your connection"
    );
    assert_eq!(m.incidents[4].detail, "still unreachable (20 probes lost)");
    let st = m.stats(at(2).ticks);
    assert_eq!(st.verdict, ("TARGET UNREACHABLE", Color::Red));
    assert_eq!(st.loss_pct, Quotient { num: 2000, den: 20 });
    assert_eq!(st.received, 0);
}

#[test]
fn spikes_stand_out_from_the_baseline() {
    let mut m = MonitorState::new(0);
    feed(&mut m, &[Some(20); 10], 1);
    assert_eq!(m.baseline(), 20 * MS);
    feed(&mut m, &[Some(70)], 2);
    assert!(m.incidents.iter().all(|i| i.kind != TroubleKind::Spike));
    feed(&mut m, &[Some(90)], 3);
    let spike = m.incidents.iter().find(|i| i.kind == TroubleKind::Spike).unwrap();
    assert_eq!(spike.detail, "90 ms vs ~20 ms baseline");
    assert_eq!(spike.at.secs, 3);
}

#[test]
fn jitter_is_reported_at_most_once_in_45_seconds() {
    let mut m = MonitorState::new(0);
    feed(&mut m, &[Some(10), Some(30), Some(10), Some(30)], 100);
    feed(&mut m, &[Some(10), Some(30)], 144);
    let count = |m: &MonitorState| {
        m.incidents.iter().filter(|i| i.kind == TroubleKind::JitterBurst).count()
    };
    assert_eq!(count(&m), 1);
    assert_eq!(
        m.incidents.iter().find(|i| i.kind == TroubleKind::JitterBurst).unwrap().detail,
        "jitter 20.0 ms over last 12 probes"
    );
    feed(&mut m, &[Some(10)], 145);
    assert_eq!(count(&m), 2);
    assert_eq!(m.jitter_of_last(3), Some(Quotient { num: 40_000_000, den: 2 }));
    assert_eq!(m.jitter_of_last(2), None);
}

#[test]
fn windows_are_bounded() {
    let mut m = MonitorState::new(0);
    for i in 0..500u64 {
        feed(&mut m, &[Some(i)], 1);
        feed(&mut m, &[None], 1);
    }
    assert_eq!(m.rtt_window.len(), 240);
    assert_eq!(m.recent.len(), 240);
    assert_eq!(m.incidents.len(), 60);
    assert_eq!((m.sent, m.lost), (1000, 500));
}

#[test]
fn figures_are_exact() {
    let mut m = MonitorState::new(0);
    let st = m.stats(0);
    assert_eq!(st.verdict, ("NO DATA", Color::DarkGray));
    assert_eq!((st.cur, st.min, st.max), (None, 0, 0));
    feed(&mut m, &[Some(10), Some(20), Some(12)], 1);
    let st = m.stats(at(8).ticks);
    assert_eq!(st.cur, Some(12 * MS));
    assert_eq!((st.min, st.max), (10 * MS, 20 * MS));
    assert_eq!(st.avg, Quotient { num: 42 * MS as u128, den: 3 });
    assert_eq!(st.jitter, Quotient { num: 18 * MS as u128, den: 2 });
    assert_eq!(st.stability, Quotient { num: 300, den: 3 });
    assert_eq!(st.verdict, ("EXCELLENT", Color::LightGreen));
    assert_eq!(st.stable_for_secs, 8);
}

#[test]
fn verdicts_follow_the_mode() {
    let verdict = |gaming: bool, rtts: &[Option<u64>]| {
        let mut m = MonitorState::new(0);
        m.gaming = gaming;
        feed(&mut m, rtts, 1);
        m.stats(at(100).ticks).verdict.0
    };
    assert_eq!(verdict(false, &[Some(50); 20]), "EXCELLENT");
    assert_eq!(verdict(false, &[Some(90); 20]), "GOOD");
    assert_eq!(verdict(false, &[Some(200); 20]), "POOR");
    let mut lossy = vec![Some(50); 96];
    lossy.extend([None; 4]);
    assert_eq!(verdict(false, &lossy), "DEGRADED");
    assert_eq!(verdict(true, &[Some(40); 20]), "COMPETITIVE READY");
    assert_eq!(verdict(true, &[Some(55); 20]), "GREAT");
    assert_eq!(verdict(true, &[Some(61); 20]), "UNSTABLE");
    let mut mixed = vec![Some(50); 80];
    mixed.extend([Some(90); 20]);
    assert_eq!(verdict(true, &mixed), "PLAYABLE");
}

#[test]
fn a_cleared_session_starts_over() {
    let mut m = MonitorState::new(0);
    feed(&mut m, &[Some(10), None, None, None], 1);
    m.clear(at(9).ticks);
    assert_eq!((m.sent, m.lost), (0, 0));
    assert!(m.incidents.is_empty() && m.rtt_window.is_empty() && m.recent.is_empty());
    assert_eq!(m.stats(at(10).ticks).stable_for_secs, 1);
    assert!(!m.stats(at(10).ticks).in_trouble);
}

#[test]
fn colours_tell_incidents_apart() {
    assert_eq!(TroubleKind::Spike.color(), Color::LightYellow);
    assert_eq!(TroubleKind::Loss.color(), Color::LightRed);
    assert_eq!(TroubleKind::Outage.color(), Color::Red);
    assert_eq!(TroubleKind::Unreachable.color(), Color::Red);
    assert_eq!(TroubleKind::JitterBurst.color(), Color::Yellow);
    assert_eq!(TroubleKind::Recovered.color(), Color::Green);
}
