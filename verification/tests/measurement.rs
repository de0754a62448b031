//! Latency, throughput, the order of a test and the connection lookup.

use speed_test::engine::{EngineAction, FullTest, StageOutcome};
use speed_test::lookup::{
    after_meta, begin_lookup, merge_lookup, parse_trace, GeoConnection, GeoInfo, LookupStep,
};
use speed_test::measure::{LiveRate, Mean, Quotient, Rate, SECOND};
use speed_test::net::{
    describe_network_error, download_outcome, download_source, is_zero_data, latency_stats,
    next_probe_wait, next_upload_chunk, normalize_target, probe_request, upload_outcome,
    LatencyRun, LatencyStats, Metrics, Phase, PhaseError, Profile, RequestFailure, Retry, Sampler,
    SourceSearch, SourceStep, TestEvent,
};

const MS: u64 = 1_000_000;

#[test]
fn latency_figures_are_exact() {
    let st = latency_stats(&vec![10 * MS, 20 * MS, 15 * MS]).unwrap();
    assert_eq!(
        st,
        LatencyStats {
            min_ns: 10 * MS,
            avg: Mean { ns: 15 * MS, part: 0, of: 3 },
            max_ns: 20 * MS,
            jitter: Mean { ns: 7_500_000, part: 0, of: 2 },
        }
    );
    let one = latency_stats(&vec![5]).unwrap();
    assert_eq!((one.min_ns, one.avg.ns, one.max_ns, one.jitter), (5, 5, 5, Mean::zero()));
    let two = latency_stats(&vec![1, 2]).unwrap();
    assert_eq!(two.avg.time(), Quotient { num: 3, den: 2 });
    assert_eq!(two.jitter.time(), Quotient { num: 1, den: 1 });
    let far = latency_stats(&vec![u64::MAX, u64::MAX, u64::MAX - 1]).unwrap();
    assert_eq!(far.avg, Mean { ns: u64::MAX - 1, part: 2, of: 3 });
    assert!(latency_stats(&Vec::new()).is_none());
}

#[test]
fn blocked_probe_endpoints_are_left() {
    let mut run = LatencyRun::new(0);
    assert_eq!(run.probe_url(), "https://speed.cloudflare.com/__down?bytes=0");
    assert!(run.on_probe(false, 0).is_none());
    assert_eq!(run.probe_url(), "https://speed.cloudflare.com/cdn-cgi/trace");
    assert!(matches!(run.on_probe(true, 3 * MS), Some(TestEvent::PingSample(t)) if t == 3 * MS));
    assert_eq!(run.preferred, 1);
    assert!(run.wants_probe(false));
    assert!(!run.wants_probe(true));
    for _ in 0..10 {
        run.on_probe(true, 3 * MS);
    }
    assert!(!run.wants_probe(false));
    let (stats, event) = run.finish().unwrap();
    assert_eq!(stats.avg, Mean { ns: 3 * MS, part: 0, of: 11 });
    assert!(matches!(event, TestEvent::LatencyDone(st) if st == stats));
    assert_eq!(
        LatencyRun::new(1).finish().unwrap_err(),
        "no latency probe endpoint responded — the network may be blocking the test"
    );
}

#[test]
fn rates_are_bits_per_second() {
    let rate = |bytes: u64, ns: u64| Rate { bytes, ns };
    assert_eq!(
        rate(125_000_000, 10 * SECOND).bps(),
        Quotient { num: 1_000_000_000_000_000_000, den: 10_000_000_000 }
    );
    assert_eq!(rate(1, SECOND).billionths(), 8_000_000_000);
    assert_eq!(rate(1, 3 * SECOND).billionths(), 2_666_666_666);
    assert_eq!(rate(u64::MAX, 0).billionths(), u64::MAX as u128 * 8_000_000_000_000_000_000);
    assert!(rate(2, 3).exceeds(&rate(3, 5)) && !rate(4, 6).exceeds(&rate(2, 3)));
    assert_eq!(
        LiveRate::from_billionths(1_500_000_000),
        LiveRate { bps: 1, billionths: 500_000_000 }
    );
    assert_eq!(
        LiveRate::from_billionths(u128::MAX),
        LiveRate { bps: u64::MAX, billionths: 999_999_999 }
    );
    assert_eq!(Mean { ns: 2, part: 1, of: 3 }.in_grains(), 64_680);
}

#[test]
fn live_rates_are_smoothed() {
    let mut s = Sampler::new();
    match s.sample(1_250_000, SECOND / 10, SECOND / 10) {
        Some(TestEvent::Throughput { instant, avg }) => {
            assert_eq!(instant, LiveRate { bps: 100_000_000, billionths: 0 });
            assert_eq!(avg, Rate { bytes: 1_250_000, ns: SECOND / 10 });
        }
        other => panic!("{other:?}"),
    }
    match s.sample(1_250_000, SECOND / 10, SECOND / 5) {
        Some(TestEvent::Throughput { instant, avg }) => {
            assert_eq!(instant, LiveRate { bps: 60_000_000, billionths: 0 });
            assert_eq!(avg, Rate { bytes: 1_250_000, ns: SECOND / 5 });
        }
        other => panic!("{other:?}"),
    }
    assert!(s.sample(1_250_000, 0, SECOND / 5).is_none());
}

#[test]
fn phases_end_with_a_rate_or_a_reason() {
    assert_eq!(download_outcome(1_250_000, SECOND, false), Ok(Rate { bytes: 1_250_000, ns: SECOND }));
    assert_eq!(download_outcome(1_250_000, SECOND, true), Err(PhaseError::Interrupted));
    assert_eq!(download_outcome(0, SECOND, false), Err(PhaseError::ZeroData));
    assert_eq!(upload_outcome(9, SECOND / 5), Err(PhaseError::Interrupted));
    assert_eq!(upload_outcome(0, SECOND), Err(PhaseError::ZeroData));
    assert!(is_zero_data(PhaseError::ZeroData));
    assert!(!is_zero_data(PhaseError::Interrupted));
    assert_eq!(PhaseError::Cancelled.message(), "cancelled");
    assert_eq!(PhaseError::Interrupted.message(), "phase was interrupted before it could run");
    assert!(PhaseError::ZeroData.message().starts_with("every download source was blocked"));
}

#[test]
fn phases_without_data_are_retried_twice() {
    let mut r = Retry::new();
    assert_eq!(r.on_failure(PhaseError::ZeroData), Some(400));
    assert_eq!(r.on_failure(PhaseError::ZeroData), Some(1500));
    assert_eq!(r.on_failure(PhaseError::ZeroData), None);
    assert_eq!(Retry::new().on_failure(PhaseError::Interrupted), None);
}

#[test]
fn download_sources_are_tried_from_the_preferred_one() {
    let mut s = SourceSearch::new(2);
    let mut tried = Vec::new();
    loop {
        match s.next_step(false) {
            SourceStep::Try(idx) => {
                tried.push(idx);
                let err = if idx == 2 { PhaseError::ZeroData } else { PhaseError::Interrupted };
                assert_eq!(s.on_failure(err, false), None);
            }
            SourceStep::GiveUp(e) => {
                assert_eq!(e, PhaseError::ZeroData);
                break;
            }
        }
    }
    assert_eq!(tried, vec![2, 3, 0, 1]);
    let mut s = SourceSearch::new(3);
    assert_eq!(s.on_failure(PhaseError::ZeroData, false), None);
    assert_eq!(s.next_step(false), SourceStep::Try(0));
    assert_eq!(SourceSearch::new(s.on_success()).next_step(false), SourceStep::Try(0));
    let mut s = SourceSearch::new(0);
    assert_eq!(s.next_step(true), SourceStep::GiveUp(PhaseError::Cancelled));
    assert_eq!(s.on_failure(PhaseError::Interrupted, true), Some(PhaseError::Interrupted));
    assert_eq!(download_source(0), "https://speed.cloudflare.com/__down?bytes=25000000");
    assert_eq!(download_source(3), "https://speed.hetzner.de/100MB.bin");
}

#[test]
fn upload_requests_are_capped() {
    assert_eq!(next_upload_chunk(0, false, false), Some(65_536));
    assert_eq!(next_upload_chunk(512 * 1024 * 1024, false, false), None);
    assert_eq!(next_upload_chunk(0, true, false), None);
    assert_eq!(next_upload_chunk(0, false, true), None);
}

#[test]
fn monitor_targets_are_normalized() {
    assert_eq!(normalize_target("https://Example.com/"), "Example.com");
    assert_eq!(normalize_target(" / "), "speed.cloudflare.com");
    let own = probe_request("https://speed.cloudflare.com/");
    assert_eq!(own.url, "https://speed.cloudflare.com/__down?bytes=0");
    assert!(!own.head);
    let other = probe_request("10.255.255.1");
    assert_eq!(other.url, "https://10.255.255.1/");
    assert!(other.head);
}

#[test]
fn probes_wait_for_the_rest_of_the_interval() {
    assert_eq!(next_probe_wait(1000, 300 * MS), 700 * MS);
    assert_eq!(next_probe_wait(50, 0), 100 * MS);
    assert_eq!(next_probe_wait(500, SECOND), 0);
}

#[test]
fn network_errors_are_described() {
    let fail = |connect: bool, timeout: bool, decode: bool| {
        Some(RequestFailure { connect, timeout, decode, text: "boom".to_string() })
    };
    assert_eq!(
        describe_network_error(&fail(true, true, true), ""),
        "could not connect — check your internet connection or DNS"
    );
    assert_eq!(
        describe_network_error(&fail(false, true, true), ""),
        "the server did not respond in time"
    );
    assert_eq!(
        describe_network_error(&fail(false, false, true), ""),
        "received a malformed response from the server"
    );
    assert_eq!(describe_network_error(&fail(false, false, false), ""), "network error: boom");
    assert_eq!(describe_network_error(&None, "cancelled"), "cancelled");
}

fn latency() -> LatencyStats {
    LatencyStats {
        min_ns: 1,
        avg: Mean { ns: 2, part: 0, of: 1 },
        max_ns: 3,
        jitter: Mean { ns: 1, part: 0, of: 1 },
    }
}

#[test]
fn a_full_test_runs_in_order() {
    let mut t = FullTest::new(Profile::Quick);
    let (ev, act) = t.advance(StageOutcome::ClientReady, false);
    assert!(matches!(ev, Some(TestEvent::Phase(Phase::Connect))));
    assert_eq!(act, EngineAction::CheckConnection);
    let (ev, act) = t.advance(StageOutcome::Connected, false);
    assert!(matches!(ev, Some(TestEvent::Phase(Phase::Latency))));
    assert_eq!(act, EngineAction::MeasureLatency);
    let (ev, act) = t.advance(StageOutcome::Latency(latency()), false);
    assert!(matches!(ev, Some(TestEvent::Phase(Phase::Download))));
    assert_eq!(act, EngineAction::MeasureDownload(5));
    let (ev, act) = t.advance(StageOutcome::Rate(Rate { bytes: 7, ns: 1 }), false);
    assert!(matches!(ev, Some(TestEvent::Phase(Phase::Upload))));
    assert_eq!(act, EngineAction::MeasureUpload(5));
    let (ev, act) = t.advance(StageOutcome::Rate(Rate { bytes: 8, ns: 1 }), false);
    assert_eq!(act, EngineAction::Stop);
    match ev {
        Some(TestEvent::Finished(m)) => {
            let expected = Metrics {
                down: Rate { bytes: 7, ns: 1 },
                up: Rate { bytes: 8, ns: 1 },
                latency: latency(),
            };
            assert_eq!(m, expected);
        }
        other => panic!("{other:?}"),
    }
}

#[test]
fn failures_say_where_they_happened() {
    let fail = |stage: usize, cancelled: bool| {
        let mut t = FullTest::new(Profile::Max);
        if stage > 0 {
            t.advance(StageOutcome::ClientReady, false);
        }
        if stage > 1 {
            t.advance(StageOutcome::Connected, false);
        }
        if stage > 2 {
            t.advance(StageOutcome::Latency(latency()), false);
        }
        if stage > 3 {
            t.advance(StageOutcome::Rate(Rate { bytes: 7, ns: 1 }), false);
        }
        match t.advance(StageOutcome::Failed("boom".to_string()), cancelled) {
            (Some(TestEvent::Failed(msg)), EngineAction::Stop) => Some(msg),
            (None, EngineAction::Stop) => None,
            other => panic!("{other:?}"),
        }
    };
    assert_eq!(fail(0, true).as_deref(), Some("boom"));
    assert_eq!(fail(1, false).as_deref(), Some("connection check failed: boom"));
    assert_eq!(fail(2, false).as_deref(), Some("latency test failed: boom"));
    assert_eq!(fail(3, false).as_deref(), Some("download test failed: boom"));
    assert_eq!(fail(4, false).as_deref(), Some("upload test failed: boom"));
    assert_eq!(fail(4, true), None);
}

#[test]
fn profiles_cycle_in_order() {
    assert_eq!(Profile::Quick.next(), Profile::Standard);
    assert_eq!(Profile::Max.next(), Profile::Quick);
    assert_eq!(Profile::Quick.prev(), Profile::Max);
    assert_eq!(Profile::Max.name(), "Maximum");
    assert_eq!(Profile::Standard.phase_seconds(), (10, 10));
    assert_eq!(Profile::Max.index(), 2);
    assert_eq!(Phase::Upload.label(), "Upload test");
}

#[test]
fn a_trace_names_the_connection() {
    let t = parse_trace("fl=1\r\nip=1.2.3.4\nloc=DE=x \ncolo= FRA\nip=5.6.7.8\nnoise");
    assert_eq!(t.ip.as_deref(), Some("5.6.7.8"));
    assert_eq!(t.loc.as_deref(), Some("DE=x"));
    assert_eq!(t.colo.as_deref(), Some("FRA"));
}

fn geo(country: &str, connection: Option<GeoConnection>) -> GeoInfo {
    GeoInfo {
        ip: "9.9.9.9".to_string(),
        city: Some("Bonn".to_string()),
        country: Some(country.to_string()),
        connection,
    }
}

#[test]
fn both_lookups_are_merged() {
    let c = GeoConnection { asn: Some(7), org: None, isp: Some("Net".to_string()) };
    let info = merge_lookup(parse_trace("ip=1.2.3.4\nloc=DE"), Some(geo("", Some(c)))).unwrap();
    assert_eq!(info.client_ip, "1.2.3.4");
    assert_eq!(info.as_organization, "Net");
    assert_eq!(info.asn, Some(7));
    assert_eq!(info.country.as_deref(), Some("DE"));
    assert_eq!(info.city.as_deref(), Some("Bonn"));
    let info = merge_lookup(parse_trace(""), Some(geo("Germany", None))).unwrap();
    assert_eq!(info.client_ip, "9.9.9.9");
    assert_eq!(info.as_organization, "unknown");
    assert_eq!(info.country.as_deref(), Some("Germany"));
    assert_eq!(
        merge_lookup(parse_trace("colo=FRA"), None).err(),
        Some("could not determine connection info")
    );
}

#[test]
fn metadata_is_asked_for_first() {
    assert!(matches!(begin_lookup(), LookupStep::AskMeta));
    assert!(matches!(after_meta(None), LookupStep::AskTrace));
    let known = merge_lookup(parse_trace("ip=1.2.3.4\n"), None).unwrap();
    match after_meta(Some(known)) {
        LookupStep::Done(info) => assert_eq!(info.client_ip, "1.2.3.4"),
        other => panic!("{other:?}"),
    }
}

#[test]
fn samples_are_sent_in_order() {
    let mut run = LatencyRun::new(0);
    let mut sent = Vec::new();
    for probe in [Some(5), None, Some(3), Some(9)] {
        if let Some(TestEvent::PingSample(t)) = run.on_probe(probe.is_some(), probe.unwrap_or(0)) {
            sent.push(t);
        }
    }
    assert_eq!(sent, vec![5, 3, 9]);
    assert_eq!(run.rtts, sent);
}

#[test]
fn stages_wait_for_their_outcome() {
    let t = FullTest::new(Profile::Quick);
    assert!(t.expects(&StageOutcome::ClientReady));
    assert!(t.expects(&StageOutcome::Failed("no client".to_string())));
    assert!(!t.expects(&StageOutcome::Connected));
}
