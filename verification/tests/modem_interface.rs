//! The modem: replies, authentication, discovery and diagnostics.

use speed_test::dsl::{DslSnapshot, Severity};
use speed_test::measure::{Moment, Timestamp, SECOND};
use speed_test::modem::DslState;
use speed_test::net::RequestFailure;
use speed_test::poller::{
    next_slice, normalize_host, number_texts, pause_after_poll, split_host, Poller, Reply,
    SnapshotFetch,
};
use speed_test::route::{default_gateway, reported_gateway, Gateway};
use speed_test::soap::{
    authorization, crc_total_checked, describe_transport_error, find_crc_total, md5_hex,
    on_soap_response, respond_digest, soap_request, uri_path, xml_val, Query, SoapStep,
};
use speed_test::style::Color;

const SAMPLE_INFO: &str = "<?xml version=\"1.0\"?>\
    <s:Envelope><s:Body><u:GetInfoResponse>\
    <NewStatus>Connected</NewStatus>\
    <NewDownstreamMaxRate>118700</NewDownstreamMaxRate>\
    <NewUpstreamMaxRate>38500</NewUpstreamMaxRate>\
    <NewDownstreamCurrentRate>103200</NewDownstreamCurrentRate>\
    <NewUpstreamCurrentRate>32100</NewUpstreamCurrentRate>\
    <NewDownstreamNoiseMargin>87</NewDownstreamNoiseMargin>\
    <NewUpstreamNoiseMargin>62</NewUpstreamNoiseMargin>\
    <NewDownstreamAttenuation>213</NewDownstreamAttenuation>\
    <NewUpstreamAttenuation>121</NewUpstreamAttenuation>\
    </u:GetInfoResponse></s:Body></s:Envelope>";

const WALL: Timestamp = Timestamp { secs: 1_700_000_000, nanos: 0 };

fn now() -> Moment {
    Moment { ticks: 100 * SECOND, wall: WALL }
}

fn num_val(xml: &str, tag: &str) -> Option<f64> {
    xml_val(xml, tag)?.trim().parse::<f64>().ok()
}

#[test]
fn extracts_values_from_soap_response() {
    assert_eq!(xml_val(SAMPLE_INFO, "NewStatus").as_deref(), Some("Connected"));
    assert_eq!(num_val(SAMPLE_INFO, "NewDownstreamMaxRate"), Some(118700.0));
    // Tenths of dB -> 8.7 dB
    assert_eq!(num_val(SAMPLE_INFO, "NewDownstreamNoiseMargin"), Some(87.0));
    assert_eq!(xml_val(SAMPLE_INFO, "NewMissingTag"), None);
    assert_eq!(num_val(SAMPLE_INFO, "NotANumberTag"), None);
}

#[test]
fn crc_finder_sums_all_crc_tags() {
    let xml = "<A><NewDSLCRCErrorsTotal>12</NewDSLCRCErrorsTotal>\
               <Other>5</Other>\
               <NewUSLCCrcErrors>3</NewUSLCCrcErrors></A>";
    assert_eq!(find_crc_total(xml), Some(15));
    assert_eq!(find_crc_total("<Foo>1</Foo>"), None);
}

#[test]
fn digest_header_contains_required_fields() {
    let challenge = "Digest realm=\"fritzbox\", nonce=\"ABC123\", qop=\"auth\"";
    let header = respond_digest(
        challenge,
        "user",
        "secret",
        "POST",
        "/upnp/control/wandslifconfig1",
        1_700_000_000_000_000_000,
        4242,
    )
    .unwrap();
    assert!(header.starts_with("Digest "));
    assert!(header.contains("username=\"user\""));
    assert!(header.contains("realm=\"fritzbox\""));
    assert!(header.contains("nonce=\"ABC123\""));
    assert!(header.contains("response=\""));
    assert!(header.contains("qop=auth"));
}

#[test]
fn digest_response_is_the_md5_of_its_parts() {
    let header = respond_digest(
        "Digest realm=\"r\", nonce=\"n\", opaque=\"o\"",
        "u",
        "p",
        "POST",
        "/x",
        0x1234,
        0x0034,
    )
    .unwrap();
    let ha1 = md5_hex("u:r:p");
    let ha2 = md5_hex("POST:/x");
    let response = md5_hex(&format!("{ha1}:n:00000001:1200:auth:{ha2}"));
    assert_eq!(
        header,
        format!(
            "Digest username=\"u\", realm=\"r\", nonce=\"n\", uri=\"/x\", algorithm=MD5, \
             response=\"{response}\", qop=auth, nc=00000001, cnonce=\"1200\", opaque=\"o\""
        )
    );
}

#[test]
fn an_authorization_lists_its_fields() {
    assert_eq!(
        authorization("u", "r", "n", "/x", "0a1b", "ff", &None),
        "Digest username=\"u\", realm=\"r\", nonce=\"n\", uri=\"/x\", algorithm=MD5, \
         response=\"0a1b\", qop=auth, nc=00000001, cnonce=\"ff\""
    );
    assert!(authorization("u", "r", "n", "/x", "0a1b", "ff", &Some("o".to_string()))
        .ends_with(", cnonce=\"ff\", opaque=\"o\""));
}

#[test]
fn md5_is_written_in_hexadecimal() {
    assert_eq!(md5_hex(""), "d41d8cd98f00b204e9800998ecf8427e");
    assert_eq!(md5_hex("abc"), "900150983cd24fb0d6963f7d28e17f72");
}

#[test]
fn incomplete_challenges_are_refused() {
    let go = |ch: &str| respond_digest(ch, "u", "p", "POST", "/", 0, 0);
    assert_eq!(go("Digest nonce=\"n\""), Err("digest challenge missing realm"));
    assert_eq!(go("Digest realm=\"r\""), Err("digest challenge missing nonce"));
    assert_eq!(go("Digest realm=\"r"), Err("digest challenge missing realm"));
}

#[test]
fn a_modem_that_wants_authentication_is_asked_again() {
    let url = "http://fritz.box:4900/upnp/control/wandslifconfig1";
    assert!(matches!(on_soap_response(200, None, url, "u", "p", 0, 0), SoapStep::Read));
    assert!(matches!(on_soap_response(500, None, url, "u", "p", 0, 0), SoapStep::Read));
    assert!(matches!(
        on_soap_response(401, None, url, "u", "p", 0, 0),
        SoapStep::GiveUp("modem requires authentication")
    ));
    assert!(matches!(
        on_soap_response(401, Some("Basic realm=\"r\""), url, "u", "p", 0, 0),
        SoapStep::GiveUp("digest challenge missing nonce")
    ));
    match on_soap_response(401, Some("Digest realm=\"r\", nonce=\"n\""), url, "u", "p", 0, 0) {
        SoapStep::Authorize(h) => assert!(h.contains("uri=\"/upnp/control/wandslifconfig1\"")),
        other => panic!("{other:?}"),
    }
}

#[test]
fn requests_are_complete() {
    let r = soap_request("http://h:1", Query::OnlineMonitor, "", "x");
    assert_eq!(r.url, "http://h:1/upnp/control/wancommonifconfig1");
    assert_eq!(
        r.soap_action,
        "\"urn:dslforum-org:service:WANCommonInterfaceConfig:1#X_AVM-DE_GetOnlineMonitor\""
    );
    assert_eq!(
        r.envelope,
        "<?xml version=\"1.0\" encoding=\"utf-8\"?>\
         <s:Envelope xmlns:s=\"http://schemas.xmlsoap.org/soap/envelope/\" \
         s:encodingStyle=\"http://schemas.xmlsoap.org/soap/encoding/\"><s:Body>\
         <u:X_AVM-DE_GetOnlineMonitor xmlns:u=\"urn:dslforum-org:service:WANCommonInterfaceConfig:1\">\
         <s:NewSyncGroupIndex>0</s:NewSyncGroupIndex></u:X_AVM-DE_GetOnlineMonitor>\
         </s:Body></s:Envelope>"
    );
    assert!(r.basic_auth);
    assert!(!soap_request("http://h:1", Query::LineInfo, "", "").basic_auth);
}

#[test]
fn paths_follow_the_third_slash() {
    assert_eq!(uri_path("http://h:1/a/b"), "/a/b");
    assert_eq!(uri_path("http://h"), "/");
    assert_eq!(uri_path("x"), "/");
}

#[test]
fn crc_totals_of_fragments_add_up() {
    let a = "<Line><NearCRC>3</NearCRC></Line><crc/>";
    let b = "<FarCRC>4</FarCRC>";
    assert_eq!(find_crc_total(a), Some(3));
    assert_eq!(find_crc_total(b), Some(4));
    assert_eq!(find_crc_total(&format!("{a}{b}")), Some(7));
    assert_eq!(find_crc_total(&format!("{b}{a}")), Some(7));
    assert_eq!(find_crc_total(&format!("<A>{a}</A>")), Some(3));
    assert_eq!(find_crc_total("<A><b>1</b></A>"), None);
    // A counter that ends in what follows is no fragment of its own.
    assert_eq!(find_crc_total("<crc>1"), None);
    assert_eq!(find_crc_total("<crc>12</crc>"), Some(12));
}

#[test]
fn values_lose_all_white_space_around_them() {
    let xml = "<v>\u{a0}\t\u{2003}a b\u{3000}\u{85}</v>";
    assert_eq!(xml_val(xml, "v"), Some("a b".to_string()));
    assert_eq!(xml_val("<v>\u{200b}</v>", "v"), Some("\u{200b}".to_string()));
    assert_eq!(xml_val("<v>\u{1680}\u{2028}\u{2029}\u{202f}\u{205f}</v>", "v"), None);
}

#[test]
fn crc_counters_are_collected_with_care() {
    // Attributes, declarations and texts do not count; nested counters do.
    let xml = "<?crc 1?><Crc a=\"1\">5</Crc><Box><LineCRC> 7 </LineCRC><crc>x</crc></Box>";
    assert_eq!(find_crc_total(xml), Some(7));
    assert_eq!(find_crc_total("<crc>1</crc"), None);
    assert_eq!(find_crc_total("<CRC>0</CRC>"), Some(0));
    let max = u64::MAX;
    let two = format!("<crc>{max}</crc><crc>1</crc>");
    assert_eq!(crc_total_checked(&two), None);
    assert_eq!(crc_total_checked("<crc>4</crc>"), Some(Some(4)));
    assert_eq!(crc_total_checked("<a>4</a>"), Some(None));
}

#[test]
fn empty_elements_have_no_value() {
    assert_eq!(xml_val("<a>  </a>", "a"), None);
    assert_eq!(xml_val("<a> x y </a>", "a").as_deref(), Some("x y"));
    assert_eq!(xml_val("<a>x", "a"), None);
}

#[test]
fn transport_errors_get_short_reasons() {
    let fail = |timeout: bool, text: &str| {
        Some(RequestFailure { connect: false, timeout, decode: false, text: text.to_string() })
    };
    assert_eq!(
        describe_transport_error(&fail(true, "refused")),
        "no response from the modem (timeout)"
    );
    assert_eq!(
        describe_transport_error(&fail(false, "Connection REFUSED by http://h")),
        "nothing listening on the TR-064 port at that address"
    );
    assert_eq!(describe_transport_error(&fail(false, "DNS error")), "address could not be resolved");
    assert_eq!(
        describe_transport_error(&fail(false, "failed to resolve")),
        "address could not be resolved"
    );
    assert_eq!(describe_transport_error(&fail(false, "it timed out")), "connection timed out");
    assert_eq!(describe_transport_error(&fail(false, "odd")), "could not reach the modem");
    assert_eq!(describe_transport_error(&None), "could not reach the modem");
}

#[test]
fn hosts_are_normalized_and_split() {
    assert_eq!(normalize_host(" http://fritz.box/ "), "fritz.box");
    assert_eq!(normalize_host("https://10.0.0.1//"), "10.0.0.1");
    assert_eq!(split_host("10.0.0.1"), ("10.0.0.1".to_string(), 4900));
    assert_eq!(split_host("10.0.0.1:49000"), ("10.0.0.1".to_string(), 49000));
    assert_eq!(split_host("10.0.0.1:99999"), ("10.0.0.1:99999".to_string(), 4900));
    assert_eq!(split_host("h:x"), ("h:x".to_string(), 4900));
}

#[test]
fn candidates_are_tried_in_order_and_the_winner_is_remembered() {
    let mut p = Poller::new("http://192.168.0.1/", Some("10.0.0.138".to_string()));
    assert_eq!(p.candidates, vec!["192.168.0.1", "10.0.0.138", "192.168.1.1", "fritz.box"]);
    p.begin_round();
    assert_eq!(p.next_host(false).as_deref(), Some("192.168.0.1"));
    let mut no = DslSnapshot::default();
    no.unavailable_reason = Some("closed".to_string());
    assert!(p.on_answer(no).is_none());
    assert_eq!(p.next_host(false).as_deref(), Some("10.0.0.138"));
    assert_eq!(p.next_host(true), None);
    let mut yes = DslSnapshot::default();
    yes.available = true;
    assert!(p.on_answer(yes).is_some());
    p.begin_round();
    assert_eq!(p.next_host(true).as_deref(), Some("10.0.0.138"));
    assert!(p.on_answer(DslSnapshot::default()).is_some());
    assert_eq!(p.working_host.as_deref(), Some("10.0.0.138"));
}

#[test]
fn a_fruitless_round_says_what_was_tried() {
    let mut p = Poller::new("fritz.box", None);
    p.begin_round();
    let reasons = ["closed", "timeout", "closed"];
    for r in reasons {
        assert!(p.next_host(false).is_some());
        let mut s = DslSnapshot::default();
        s.unavailable_reason = Some(r.to_string());
        assert!(p.on_answer(s).is_none());
    }
    assert_eq!(p.next_host(false), None);
    let s = p.give_up(WALL);
    assert!(!s.available);
    assert_eq!(
        s.unavailable_reason.as_deref(),
        Some("tried fritz.box, 192.168.1.1, 192.168.0.1 - timeout")
    );
    assert_eq!(s.fetched_at, Some(WALL));
    p.begin_round();
    assert_eq!(p.give_up(WALL).unavailable_reason.as_deref(), Some("tried  - no answer"));
}

#[test]
fn polls_rest_longer_after_a_failure() {
    assert_eq!(pause_after_poll(true, SECOND / 2), 3 * SECOND / 2);
    assert_eq!(pause_after_poll(false, SECOND), 14 * SECOND);
    assert_eq!(pause_after_poll(true, 3 * SECOND), 0);
    assert_eq!(next_slice(SECOND, false), Some(100_000_000));
    assert_eq!(next_slice(5, false), Some(5));
    assert_eq!(next_slice(5, true), None);
    assert_eq!(next_slice(0, false), None);
}

/// The numbers of a reply in thousandths.
fn numbers(query: Query, xml: &str) -> Vec<Option<i128>> {
    number_texts(query, xml)
        .iter()
        .map(|t| t.as_ref().and_then(|t| t.parse::<f64>().ok()).map(|v| (v * 1000.0) as i128))
        .collect()
}

fn answer(query: Query, xml: &str) -> Reply {
    Reply::Answer { xml: xml.to_string(), numbers: numbers(query, xml) }
}

#[test]
fn replies_make_a_snapshot() {
    let mut f = SnapshotFetch::new("http://fritz.box:49000/", WALL);
    assert_eq!(f.base(), "http://fritz.box:49000");
    assert!(f.on_reply(answer(Query::LineInfo, SAMPLE_INFO)));
    assert_eq!(f.query, Some(Query::Session));
    let session = "<NewUptime>3600</NewUptime><NewConnectionStatus>Up</NewConnectionStatus>";
    assert!(f.on_reply(answer(Query::Session, session)));
    assert!(f.on_reply(Reply::Failure(None)));
    assert_eq!(f.query, Some(Query::OnlineMonitor));
    assert!(f.on_reply(answer(Query::OnlineMonitor, "<CRC>9</CRC>")));
    assert_eq!(f.query, None);
    let s = f.snap;
    assert!(s.available);
    assert_eq!(s.state.as_deref(), Some("Connected"));
    assert_eq!(s.mode, None);
    assert_eq!(s.max_rate_down_bps, Some(118_700_000));
    assert_eq!(s.rate_up_bps, Some(32_100_000));
    assert_eq!(s.snr_down_db, Some(87_000));
    assert_eq!(s.atten_up_db, Some(121_000));
    assert_eq!(s.power_down_dbm, None);
    assert_eq!(s.uptime_secs, Some(3600));
    assert_eq!(s.wireless_clients, None);
    assert_eq!(s.crc_errors, Some(9));
}

#[test]
fn a_missing_line_ends_the_poll() {
    let mut f = SnapshotFetch::new("10.0.0.1", WALL);
    assert!(f.on_reply(Reply::Failure(None)));
    assert_eq!(f.query, None);
    assert!(!f.snap.available);
    assert_eq!(
        f.snap.unavailable_reason.as_deref(),
        Some("no TR-064 answer from 10.0.0.1 (could not reach the modem)")
    );
}

#[test]
fn odd_figures_are_clamped() {
    let mut f = SnapshotFetch::new("h", WALL);
    let xml = "<NewUpstreamPower>-25</NewUpstreamPower><NewModulationType>VDSL</NewModulationType>";
    assert!(f.on_reply(answer(Query::LineInfo, xml)));
    assert_eq!(f.snap.power_up_dbm, Some(-25_000));
    assert_eq!(f.snap.mode.as_deref(), Some("VDSL"));
    assert!(f.on_reply(Reply::Answer { xml: String::new(), numbers: vec![Some(-5)] }));
    assert_eq!(f.snap.uptime_secs, Some(0));
    assert!(f.on_reply(Reply::Answer { xml: String::new(), numbers: vec![Some(i128::MAX)] }));
    assert_eq!(f.snap.wireless_clients, Some(u32::MAX));
    let max = u64::MAX;
    let overflow = format!("<crc>{max}</crc><crc>{max}</crc>");
    assert!(!f.on_reply(answer(Query::OnlineMonitor, &overflow)));
    assert_eq!(f.query, Some(Query::OnlineMonitor));
}

#[test]
fn the_default_gateway_is_read_from_the_route_table() {
    let table = "Iface\tDestination\tGateway\tFlags\n\
                 eth0\t0000FEA9\t00000000\t0001\n\
                 eth0\t00000000\t00000000\t0001\n\
                 eth0\t00000000\t0102A8C0\t0003\n";
    assert!(matches!(default_gateway(table), Gateway::Found(g) if g == "192.168.2.1"));
    assert!(matches!(default_gateway(""), Gateway::Absent));
    assert!(matches!(default_gateway("Iface\n"), Gateway::Absent));
    let bad = "h\ne\t00000000\tZZZZZZZZ\t1\ne\t00000000\t0102A8C0\t1\n";
    assert!(matches!(default_gateway(bad), Gateway::Absent));
    assert!(matches!(default_gateway("h\ne\t00000000\t0102\t1\n"), Gateway::Malformed));
    assert!(matches!(default_gateway("h\ne\t00000000\t0102A8C\u{e9}\t1\n"), Gateway::Malformed));
    // A cut that needs no character to be split is no number.
    assert!(matches!(default_gateway("h\ne\t00000000\té0000é\t1\n"), Gateway::Absent));
}

#[test]
fn a_reported_gateway_is_an_address() {
    assert_eq!(reported_gateway("192.168.1.254\r\n").as_deref(), Some("192.168.1.254"));
    assert_eq!(reported_gateway("0.0.0.0"), None);
    assert_eq!(reported_gateway(""), None);
    assert_eq!(reported_gateway("192.168.1"), None);
    assert_eq!(reported_gateway("192.168.1.256"), None);
    assert_eq!(reported_gateway("192.168.01.1"), None);
    assert_eq!(reported_gateway("192.168.+1.1"), None);
    assert_eq!(reported_gateway("fe80::1"), None);
}

fn snapshot() -> DslSnapshot {
    let mut s = DslSnapshot::default();
    s.available = true;
    s
}

#[test]
fn level_alerts_fire_once_and_recover_once() {
    let mut d = DslState::new();
    for level in [59_000, 55_000, 29_000, 20_000, 40_000, 60_000, 70_000] {
        let mut s = snapshot();
        s.snr_down_db = Some(level);
        d.on_snapshot(s, now());
    }
    let log: Vec<(Severity, &str)> =
        d.incidents.iter().map(|i| (i.severity, i.observed.as_str())).collect();
    assert_eq!(
        log,
        vec![
            (Severity::Warning, "5.9 dB"),
            (Severity::Critical, "2.9 dB"),
            (Severity::Info, "recovered to 6.0"),
        ]
    );
    assert_eq!(d.incidents[0].field, "SNR margin downstream");
    assert_eq!(d.incidents[0].expected, ">= 6 dB (critical below 3)");
}

#[test]
fn high_attenuation_is_reported() {
    let mut d = DslState::new();
    for level in [490_000, 491_000, 581_000, 490_000] {
        let mut s = snapshot();
        s.atten_up_db = Some(level);
        d.on_snapshot(s, now());
    }
    let log: Vec<&str> = d.incidents.iter().map(|i| i.severity.label()).collect();
    assert_eq!(log, vec!["WARN", "CRIT", "INFO"]);
    assert_eq!(d.incidents[1].severity.color(), Color::Red);
}

#[test]
fn a_collapsed_rate_is_reported_until_it_recovers() {
    let mut d = DslState::new();
    for rate in [40, 45, 60, 40, 70, 49] {
        let mut s = snapshot();
        s.rate_down_bps = Some(rate * 1_000_000);
        s.max_rate_down_bps = Some(100_000_000);
        d.on_snapshot(s, now());
    }
    let log: Vec<&str> = d.incidents.iter().map(|i| i.observed.as_str()).collect();
    assert_eq!(
        log,
        vec!["40.00 Mbps of 100.00 Mbps max", "49.00 Mbps of 100.00 Mbps max"]
    );
}

#[test]
fn reconnects_errors_and_clients_are_noticed() {
    let mut d = DslState::new();
    let feed = |d: &mut DslState, up: u64, crc: u64, w: u32| {
        let mut s = snapshot();
        s.uptime_secs = Some(up);
        s.crc_errors = Some(crc);
        s.wireless_clients = Some(w);
        d.on_snapshot(s, now());
    };
    feed(&mut d, 100, 0, 3);
    feed(&mut d, 102, 0, 3);
    assert!(d.incidents.is_empty());
    feed(&mut d, 10, 9, 4);
    feed(&mut d, 12, 19, 4);
    feed(&mut d, 14, 119, 4);
    let log: Vec<(&str, &str)> =
        d.incidents.iter().map(|i| (i.severity.label(), i.observed.as_str())).collect();
    assert_eq!(
        log,
        vec![
            ("WARN", "reconnected - reset to 10s after 102s"),
            ("INFO", "+9 in ~2s (total 9)"),
            ("INFO", "3 -> 4"),
            ("WARN", "+10 in ~2s (total 19)"),
            ("CRIT", "+100 in ~2s (total 119)"),
        ]
    );
}

#[test]
fn a_modem_without_values_reveals_nothing() {
    let mut d = DslState::new();
    let mut s = snapshot();
    s.available = false;
    s.snr_down_db = Some(0);
    d.on_snapshot(s, now());
    assert!(d.incidents.is_empty());
    assert!(d.current.is_some());
}

#[test]
fn the_modem_log_keeps_eighty_entries() {
    let mut d = DslState::new();
    for i in 0..100u64 {
        let mut s = snapshot();
        s.crc_errors = Some(i);
        d.on_snapshot(s, now());
    }
    assert_eq!(d.incidents.len(), 80);
    assert_eq!(d.incidents[79].observed, "+1 in ~2s (total 99)");
}
