//! SOAP requests to a modem, Digest authentication, and the reading of replies.

use crate::net::RequestFailure;
use crate::text::{
    chars_of, contains, decimal, decimal_numbers_are_read_back, digits_value, find, find_from,
    find_is_first, hex, hex_bytes, hex_text, holds, lowered, matches_at, parse_number, parse_u64, push_hex, string_of, trim, trim_bounds,
    trim_end, trim_start, white_space,
};
use vstd::prelude::*;

verus! {

// ---- reading replies ------------------------------------------------------

/// What stands between the first `<tag>` and the next `</tag>`.
pub open spec fn element(xml: Seq<char>, tag: Seq<char>) -> Option<Seq<char>> {
    let open = "<"@ + tag + ">"@;
    let close = "</"@ + tag + ">"@;
    match find(xml, open, 0) {
        Some(i) => match find(xml, close, i + open.len()) {
            Some(j) => Some(xml.subrange(i + open.len(), j)),
            None => None,
        },
        None => None,
    }
}

/// The trimmed contents of the first element `tag`, where there are any.
pub open spec fn element_value(xml: Seq<char>, tag: Seq<char>) -> Option<Seq<char>> {
    match element(xml, tag) {
        Some(s) => if trim(s).len() == 0 {
            None
        } else {
            Some(trim(s))
        },
        None => None,
    }
}

/// The characters of `<tag>`, or of `</tag>`.
fn tag_chars(lead: &str, tag: &str) -> (t: Vec<char>)
    ensures
        t@ == lead@ + tag@ + ">"@,
{
    let mut s: String = lead.to_owned();
    s.append(tag);
    s.append(">");
    chars_of(s.as_str())
}

/// The trimmed contents of the first element `tag`, where there are any.
pub fn xml_val(xml: &str, tag: &str) -> (value: Option<String>)
    ensures
        match value {
            Some(v) => element_value(xml@, tag@) == Some(v@),
            None => element_value(xml@, tag@) is None,
        },
{
    let chars = chars_of(xml);
    let open = tag_chars("<", tag);
    let close = tag_chars("</", tag);
    match find_from(&chars, &open, 0) {
        None => None,
        Some(i) => {
            assert(chars.len() <= usize::MAX);
            let start: usize = i + open.len();
            match find_from(&chars, &close, start) {
                None => None,
                Some(end) => {
                    let (a, b) = trim_bounds(&chars, start, end);
                    if a == b {
                        None
                    } else {
                        Some(string_of(&chars, a, b))
                    }
                },
            }
        },
    }
}

/// Whether an element is passed over when CRC counters are collected: closing
/// tags, declarations and elements with attributes are.
pub open spec fn passed_over(tag: Seq<char>) -> bool {
    (tag.len() > 0 && (tag[0] == '/' || tag[0] == '?')) || tag.contains(' ')
}

/// Whether an element is a CRC counter: its name holds "crc", in any letter
/// case.
pub open spec fn counts(tag: Seq<char>) -> bool {
    !passed_over(tag) && holds(lowered(tag), "crc"@)
}

/// The number in the element `tag` whose contents begin `after`, where there is
/// one that fits in 64 bits.
pub open spec fn counter_in(after: Seq<char>, tag: Seq<char>) -> Option<nat> {
    match find(after, "</"@ + tag + ">"@, 0) {
        Some(end) => match parse_number(trim(after.take(end)), 10) {
            Some(n) => if n <= u64::MAX {
                Some(n)
            } else {
                None
            },
            None => None,
        },
        None => None,
    }
}

/// The numbers in the CRC counters of `xml`.
pub open spec fn crc_values(xml: Seq<char>) -> Seq<nat>
    decreases xml.len(),
{
    match find(xml, "<"@, 0) {
        Some(lt) => match find(xml, ">"@, lt) {
            Some(gt) => if 0 <= lt < gt < xml.len() {
                let tag = trim(xml.subrange(lt + 1, gt));
                let after = xml.skip(gt + 1);
                let rest = crc_values(after);
                if counts(tag) {
                    match counter_in(after, tag) {
                        Some(n) => seq![n] + rest,
                        None => rest,
                    }
                } else {
                    rest
                }
            } else {
                seq![]
            },
            None => seq![],
        },
        None => seq![],
    }
}

/// The sum of a list of numbers.
pub open spec fn total(values: Seq<nat>) -> nat
    decreases values.len(),
{
    if values.len() == 0 {
        0
    } else {
        values[0] + total(values.drop_first())
    }
}

/// Whether `chars[from..to]` holds `c`.
fn has_char(chars: &Vec<char>, from: usize, to: usize, c: char) -> (yes: bool)
    requires
        from <= to <= chars@.len(),
    ensures
        yes == chars@.subrange(from as int, to as int).contains(c),
{
    let ghost s = chars@.subrange(from as int, to as int);
    let mut i: usize = from;
    while i < to
        invariant
            from <= i <= to <= chars@.len(),
            s == chars@.subrange(from as int, to as int),
            forall|j: int| 0 <= j < i - from ==> s[j] != c,
        decreases to - i,
    {
        if chars[i] == c {
            assert(s[i - from] == c);
            return true;
        }
        i = i + 1;
    }
    false
}

/// The number in the element `tag` whose contents begin at `from`.
fn read_counter(chars: &Vec<char>, from: usize, tag: &str) -> (n: Option<u64>)
    requires
        from <= chars@.len(),
    ensures
        match n {
            Some(n) => counter_in(chars@.skip(from as int), tag@) == Some(n as nat),
            None => counter_in(chars@.skip(from as int), tag@) is None,
        },
{
    let close = tag_chars("</", tag);
    let after = tail_chars(chars, from);
    match find_from(&after, &close, 0) {
        None => None,
        Some(end) => {
            let (a, b) = trim_bounds(&after, 0, end);
            assert(after@.subrange(0, end as int) =~= after@.take(end as int));
            parse_u64(&after, a, b, 10)
        },
    }
}

fn tail_chars(chars: &Vec<char>, from: usize) -> (out: Vec<char>)
    requires
        from <= chars@.len(),
    ensures
        out@ == chars@.skip(from as int),
{
    let mut out: Vec<char> = Vec::new();
    let mut i: usize = from;
    while i < chars.len()
        invariant
            from <= i <= chars@.len(),
            out@ == chars@.subrange(from as int, i as int),
        decreases chars@.len() - i,
    {
        out.push(chars[i]);
        i = i + 1;
        assert(out@ =~= chars@.subrange(from as int, i as int));
    }
    assert(out@ =~= chars@.skip(from as int));
    out
}

/// The position of `c` in `chars` from `from` on.
fn find_char(chars: &Vec<char>, c: char, from: usize) -> (at: Option<usize>)
    requires
        from <= chars@.len(),
    ensures
        match at {
            Some(i) => find(chars@, seq![c], from as int) == Some(i as int) && from <= i
                < chars@.len(),
            None => find(chars@, seq![c], from as int) is None,
        },
{
    let mut pat: Vec<char> = Vec::new();
    pat.push(c);
    assert(pat@ =~= seq![c]);
    find_from(chars, &pat, from)
}

/// Looking in the rest of a text finds what looking in the whole does.
proof fn find_in_rest(s: Seq<char>, pat: Seq<char>, cut: int, from: int)
    requires
        0 <= cut,
        0 <= from,
        cut + from <= s.len(),
    ensures
        match find(s, pat, cut + from) {
            Some(i) => find(s.skip(cut), pat, from) == Some(i - cut),
            None => find(s.skip(cut), pat, from) is None,
        },
    decreases s.len() - from - cut + 1,
{
    if cut + from + pat.len() <= s.len() {
        assert(s.skip(cut).subrange(from, from + pat.len()) =~= s.subrange(
            cut + from,
            cut + from + pat.len(),
        ));
        if !matches_at(s, pat, cut + from) {
            if cut + from + 1 <= s.len() {
                find_in_rest(s, pat, cut, from + 1);
            }
        }
    }
}

/// The CRC counters of a reply, in order.
fn read_crc_values(xml: &str) -> (values: Vec<u64>)
    ensures
        values@.map_values(|v: u64| v as nat) == crc_values(xml@),
{
    let chars = chars_of(xml);
    let mut values: Vec<u64> = Vec::new();
    let mut at: usize = 0;
    assert(chars@.skip(0) =~= xml@);
    proof {
        reveal_strlit("<");
        reveal_strlit(">");
        assert("<"@ =~= seq!['<']);
        assert(">"@ =~= seq!['>']);
        assert(chars.len() <= usize::MAX);
    }
    assert(crc_values(xml@) =~= values@.map_values(|v: u64| v as nat) + crc_values(
        chars@.skip(at as int),
    ));
    loop
        invariant
            at <= chars@.len() <= usize::MAX,
            "<"@ == seq!['<'],
            ">"@ == seq!['>'],
            crc_values(xml@) == values@.map_values(|v: u64| v as nat) + crc_values(
                chars@.skip(at as int),
            ),
        decreases chars@.len() - at,
    {
        let ghost rest = chars@.skip(at as int);
        proof {
            find_in_rest(chars@, seq!['<'], at as int, 0);
        }
        let lt: usize = match find_char(&chars, '<', at) {
            Some(i) => i,
            None => {
                assert(crc_values(rest) =~= seq![]);
                return values;
            },
        };
        proof {
            find_in_rest(chars@, seq!['>'], at as int, lt - at);
            find_is_first(chars@, seq!['<'], at as int);
            find_is_first(chars@, seq!['>'], lt as int);
        }
        let gt: usize = match find_char(&chars, '>', lt) {
            Some(i) => i,
            None => {
                assert(crc_values(rest) =~= seq![]);
                return values;
            },
        };
        proof {
            assert(chars@.subrange(lt as int, lt + 1)[0] == '<');
            assert(chars@.subrange(gt as int, gt + 1)[0] == '>');
            assert(lt < gt);
            assert(rest.subrange(lt - at + 1, gt - at) =~= chars@.subrange(lt + 1, gt as int));
            assert(rest.skip(gt - at + 1) =~= chars@.skip(gt + 1));
        }
        let (a, b) = trim_bounds(&chars, lt + 1, gt);
        let tag = string_of(&chars, a, b);
        assert(tag@ == trim(rest.subrange(lt - at + 1, gt - at)));
        let lead: bool = a < b && (chars[a] == '/' || chars[a] == '?');
        let skip: bool = lead || has_char(&chars, a, b, ' ');
        let ghost before = values@;
        if !skip {
            let name_lc = tag.as_str().to_lowercase();
            if contains(name_lc.as_str(), "crc") {
                if let Some(n) = read_counter(&chars, gt + 1, tag.as_str()) {
                    values.push(n);
                }
            }
        }
        at = gt + 1;
        assert(crc_values(xml@) =~= values@.map_values(|v: u64| v as nat) + crc_values(
            chars@.skip(at as int),
        ));
    }
}

/// The sum of `values`, where it fits in 64 bits.
fn checked_total(values: &Vec<u64>) -> (sum: Option<u64>)
    ensures
        match sum {
            Some(s) => s == total(values@.map_values(|v: u64| v as nat)),
            None => total(values@.map_values(|v: u64| v as nat)) > u64::MAX,
        },
{
    let mut sum: u64 = 0;
    let mut i: usize = 0;
    let ghost all = values@.map_values(|v: u64| v as nat);
    assert(all.skip(0) =~= all);
    while i < values.len()
        invariant
            i <= values@.len(),
            all == values@.map_values(|v: u64| v as nat),
            total(all) == sum + total(all.skip(i as int)),
        decreases values@.len() - i,
    {
        assert(all.skip(i as int).drop_first() =~= all.skip(i + 1));
        assert(all.skip(i as int)[0] == values@[i as int] as nat);
        let v: u64 = values[i];
        if v > u64::MAX - sum {
            return None;
        }
        sum = sum + v;
        i = i + 1;
    }
    Some(sum)
}

/// The sum of all CRC counters of a reply, where it has any. Vendor extensions
/// name these counters differently, so every element counts whose name holds
/// "crc".
pub fn find_crc_total(xml: &str) -> (sum: Option<u64>)
    requires
        total(crc_values(xml@)) <= u64::MAX,
    ensures
        match sum {
            Some(s) => crc_values(xml@).len() > 0 && s == total(crc_values(xml@)),
            None => crc_values(xml@).len() == 0,
        },
{
    let values = read_crc_values(xml);
    assert(values@.len() == crc_values(xml@).len());
    if values.len() == 0 {
        None
    } else {
        checked_total(&values)
    }
}

/// The sum of all CRC counters of a reply, as [`find_crc_total`] gives it, or
/// `None` where it does not fit in 64 bits.
pub fn crc_total_checked(xml: &str) -> (r: Option<Option<u64>>)
    ensures
        match r {
            Some(Some(s)) => crc_values(xml@).len() > 0 && s == total(crc_values(xml@)),
            Some(None) => crc_values(xml@).len() == 0,
            None => total(crc_values(xml@)) > u64::MAX,
        },
{
    let values = read_crc_values(xml);
    match checked_total(&values) {
        Some(_) => Some(find_crc_total(xml)),
        None => None,
    }
}

// ---- Digest authentication ------------------------------------------------

/// The MD5 digest of a string of bytes.
pub uninterp spec fn md5_digest(data: Seq<u8>) -> Seq<u8>;

/// `md5::compute`: the sixteen bytes of the MD5 digest.
#[verifier::external_body]
fn md5_compute(data: &[u8]) -> (digest: Vec<u8>)
    ensures
        digest@ == md5_digest(data@),
        digest@.len() == 16,
{
    md5::compute(data).0.to_vec()
}

/// The MD5 digest of a text, in lower-case hexadecimal notation.
pub open spec fn md5_text(s: Seq<char>) -> Seq<char> {
    hex_bytes(md5_digest(vstd::utf8::encode_utf8(s)))
}

/// The MD5 digest of a text, in lower-case hexadecimal notation.
pub fn md5_hex(input: &str) -> (out: String)
    ensures
        out@ == md5_text(input@),
        out@.len() == 32,
{
    let digest = md5_compute(input.as_bytes());
    hex_text(&digest)
}

/// The quoted value that follows `key=` in a challenge.
pub open spec fn challenge_value(challenge: Seq<char>, key: Seq<char>) -> Option<Seq<char>> {
    let needle = key + "=\""@;
    match find(challenge, needle, 0) {
        Some(i) => match find(challenge, "\""@, i + needle.len()) {
            Some(j) => Some(challenge.subrange(i + needle.len(), j)),
            None => None,
        },
        None => None,
    }
}

fn challenge_field(challenge: &Vec<char>, key: &str) -> (value: Option<String>)
    ensures
        match value {
            Some(v) => challenge_value(challenge@, key@) == Some(v@),
            None => challenge_value(challenge@, key@) is None,
        },
{
    let mut needle: String = key.to_owned();
    needle.append("=\"");
    let needle = chars_of(needle.as_str());
    let quote = chars_of("\"");
    match find_from(challenge, &needle, 0) {
        None => None,
        Some(i) => {
            assert(challenge.len() <= usize::MAX);
            let start: usize = i + needle.len();
            match find_from(challenge, &quote, start) {
                None => None,
                Some(end) => Some(string_of(challenge, start, end)),
            }
        },
    }
}

/// The client nonce: a clock reading mixed with a process number, in
/// hexadecimal notation.
pub open spec fn client_nonce(nanos: u128, pid: u32) -> Seq<char> {
    hex((nanos ^ (pid as u128)) as nat)
}

/// The `response` field of a Digest authorization.
pub open spec fn digest_response(
    user: Seq<char>,
    pass: Seq<char>,
    realm: Seq<char>,
    nonce: Seq<char>,
    method: Seq<char>,
    uri: Seq<char>,
    cnonce: Seq<char>,
) -> Seq<char> {
    let ha1 = md5_text(user + ":"@ + realm + ":"@ + pass);
    let ha2 = md5_text(method + ":"@ + uri);
    md5_text(ha1 + ":"@ + nonce + ":00000001:"@ + cnonce + ":auth:"@ + ha2)
}

/// A Digest `Authorization` header value.
pub open spec fn digest_header(
    user: Seq<char>,
    realm: Seq<char>,
    nonce: Seq<char>,
    uri: Seq<char>,
    response: Seq<char>,
    cnonce: Seq<char>,
    opaque: Option<Seq<char>>,
) -> Seq<char> {
    "Digest username=\""@ + user + "\", realm=\""@ + realm + "\", nonce=\""@ + nonce
        + "\", uri=\""@ + uri + "\", algorithm=MD5, response=\""@ + response
        + "\", qop=auth, nc=00000001, cnonce=\""@ + cnonce + "\""@ + (match opaque {
        Some(o) => ", opaque=\""@ + o + "\""@,
        None => Seq::empty(),
    })
}

/// Builds a Digest `Authorization` header value from a WWW-Authenticate
/// challenge (MD5 with qop="auth"). The client nonce is made of a clock reading
/// and the process number.
pub fn respond_digest(
    challenge: &str,
    user: &str,
    pass: &str,
    method: &str,
    uri: &str,
    nanos: u128,
    pid: u32,
) -> (r: Result<String, &'static str>)
    ensures
        ({
            let realm = challenge_value(challenge@, "realm"@);
            let nonce = challenge_value(challenge@, "nonce"@);
            let cnonce = client_nonce(nanos, pid);
            match r {
                Ok(header) => realm is Some && nonce is Some && header@ == digest_header(
                    user@,
                    realm->0,
                    nonce->0,
                    uri@,
                    digest_response(user@, pass@, realm->0, nonce->0, method@, uri@, cnonce),
                    cnonce,
                    challenge_value(challenge@, "opaque"@),
                ),
                Err(msg) => if realm is None {
                    msg@ == "digest challenge missing realm"@
                } else {
                    nonce is None && msg@ == "digest challenge missing nonce"@
                },
            }
        }),
{
    let chars = chars_of(challenge);
    let realm = match challenge_field(&chars, "realm") {
        Some(v) => v,
        None => return Err("digest challenge missing realm"),
    };
    let nonce = match challenge_field(&chars, "nonce") {
        Some(v) => v,
        None => return Err("digest challenge missing nonce"),
    };
    let opaque = challenge_field(&chars, "opaque");
    let mut cnonce: String = String::new();
    push_hex(&mut cnonce, nanos ^ (pid as u128));
    assert(cnonce@ =~= client_nonce(nanos, pid));

    let response = response_field(
        user,
        pass,
        realm.as_str(),
        nonce.as_str(),
        method,
        uri,
        cnonce.as_str(),
    );

    Ok(
        authorization(
            user,
            realm.as_str(),
            nonce.as_str(),
            uri,
            response.as_str(),
            cnonce.as_str(),
            &opaque,
        ),
    )
}

/// Builds a Digest `Authorization` header value from its fields.
pub fn authorization(
    user: &str,
    realm: &str,
    nonce: &str,
    uri: &str,
    response: &str,
    cnonce: &str,
    opaque: &Option<String>,
) -> (header: String)
    ensures
        header@ == digest_header(
            user@,
            realm@,
            nonce@,
            uri@,
            response@,
            cnonce@,
            match opaque {
                Some(o) => Some(o@),
                None => None,
            },
        ),
{
    let mut out: String = "Digest username=\"".to_owned();
    out.append(user);
    out.append("\", realm=\"");
    out.append(realm);
    out.append("\", nonce=\"");
    out.append(nonce);
    out.append("\", uri=\"");
    out.append(uri);
    out.append("\", algorithm=MD5, response=\"");
    out.append(response);
    out.append("\", qop=auth, nc=00000001, cnonce=\"");
    out.append(cnonce);
    out.append("\"");
    match opaque {
        Some(o) => {
            let mut field: String = ", opaque=\"".to_owned();
            field.append(o.as_str());
            field.append("\"");
            out.append(field.as_str());
        },
        None => {
            assert(out@ =~= out@ + Seq::<char>::empty());
        },
    }
    out
}

fn response_field(
    user: &str,
    pass: &str,
    realm: &str,
    nonce: &str,
    method: &str,
    uri: &str,
    cnonce: &str,
) -> (out: String)
    ensures
        out@ == digest_response(user@, pass@, realm@, nonce@, method@, uri@, cnonce@),
{
    let mut a1: String = user.to_owned();
    a1.append(":");
    a1.append(realm);
    a1.append(":");
    a1.append(pass);
    let ha1 = md5_hex(a1.as_str());
    let mut a2: String = method.to_owned();
    a2.append(":");
    a2.append(uri);
    let ha2 = md5_hex(a2.as_str());
    let mut all: String = ha1;
    all.append(":");
    all.append(nonce);
    all.append(":00000001:");
    all.append(cnonce);
    all.append(":auth:");
    all.append(ha2.as_str());
    md5_hex(all.as_str())
}

// ---- requests -------------------------------------------------------------

/// What is asked of a modem.
#[derive(Debug, Clone, Copy, PartialEq, Eq, Structural)]
pub enum Query {
    /// Rates, SNR, attenuation and power of the line.
    LineInfo,
    /// Uptime and status of the PPP session.
    Session,
    /// The number of wireless clients.
    Wireless,
    /// The vendor's online monitor, for CRC counters.
    OnlineMonitor,
}

impl Query {
    pub open spec fn service_name(self) -> Seq<char> {
        match self {
            Query::LineInfo => "urn:dslforum-org:service:WANDSLInterfaceConfig:1"@,
            Query::Session => "urn:dslforum-org:service:WANPPPConnection:1"@,
            Query::Wireless => "urn:dslforum-org:service:WLANConfiguration:1"@,
            Query::OnlineMonitor => "urn:dslforum-org:service:WANCommonInterfaceConfig:1"@,
        }
    }

    pub open spec fn path_name(self) -> Seq<char> {
        match self {
            Query::LineInfo => "wandslifconfig1"@,
            Query::Session => "wanpppconn1"@,
            Query::Wireless => "wlanconfig1"@,
            Query::OnlineMonitor => "wancommonifconfig1"@,
        }
    }

    pub open spec fn action_name(self) -> Seq<char> {
        match self {
            Query::LineInfo => "GetInfo"@,
            Query::Session => "GetInfo"@,
            Query::Wireless => "GetTotalAssociations"@,
            Query::OnlineMonitor => "X_AVM-DE_GetOnlineMonitor"@,
        }
    }

    pub open spec fn arguments(self) -> Seq<char> {
        match self {
            Query::OnlineMonitor => "<s:NewSyncGroupIndex>0</s:NewSyncGroupIndex>"@,
            _ => ""@,
        }
    }

    pub fn service(self) -> (s: &'static str)
        ensures
            s@ == self.service_name(),
    {
        match self {
            Query::LineInfo => "urn:dslforum-org:service:WANDSLInterfaceConfig:1",
            Query::Session => "urn:dslforum-org:service:WANPPPConnection:1",
            Query::Wireless => "urn:dslforum-org:service:WLANConfiguration:1",
            Query::OnlineMonitor => "urn:dslforum-org:service:WANCommonInterfaceConfig:1",
        }
    }

    pub fn control_path(self) -> (s: &'static str)
        ensures
            s@ == self.path_name(),
    {
        match self {
            Query::LineInfo => "wandslifconfig1",
            Query::Session => "wanpppconn1",
            Query::Wireless => "wlanconfig1",
            Query::OnlineMonitor => "wancommonifconfig1",
        }
    }

    pub fn action(self) -> (s: &'static str)
        ensures
            s@ == self.action_name(),
    {
        match self {
            Query::LineInfo => "GetInfo",
            Query::Session => "GetInfo",
            Query::Wireless => "GetTotalAssociations",
            Query::OnlineMonitor => "X_AVM-DE_GetOnlineMonitor",
        }
    }

    pub fn body_args(self) -> (s: &'static str)
        ensures
            s@ == self.arguments(),
    {
        match self {
            Query::OnlineMonitor => "<s:NewSyncGroupIndex>0</s:NewSyncGroupIndex>",
            _ => "",
        }
    }
}

/// A SOAP request, ready to be posted.
#[derive(Debug)]
pub struct SoapRequest {
    pub url: String,
    pub envelope: String,
    pub soap_action: String,
    /// Whether the first attempt carries Basic credentials.
    pub basic_auth: bool,
}

/// The envelope of a request.
pub open spec fn envelope_text(
    service: Seq<char>,
    action: Seq<char>,
    args: Seq<char>,
) -> Seq<char> {
    "<?xml version=\"1.0\" encoding=\"utf-8\"?><s:Envelope xmlns:s=\"http://schemas.xmlsoap.org/soap/envelope/\" s:encodingStyle=\"http://schemas.xmlsoap.org/soap/encoding/\"><s:Body><u:"@
        + action + " xmlns:u=\""@ + service + "\">"@ + args + "</u:"@ + action
        + "></s:Body></s:Envelope>"@
}

/// The address to which the request for `query` is posted.
pub open spec fn request_url(base: Seq<char>, query: Query) -> Seq<char> {
    base + "/upnp/control/"@ + query.path_name()
}

/// The header that names what is asked.
pub open spec fn action_header(query: Query) -> Seq<char> {
    "\""@ + query.service_name() + "#"@ + query.action_name() + "\""@
}

/// The request that asks a modem at `base` for `query`.
pub fn soap_request(base: &str, query: Query, user: &str, pass: &str) -> (r: SoapRequest)
    ensures
        r.url@ == base@ + "/upnp/control/"@ + query.path_name(),
        r.envelope@ == envelope_text(query.service_name(), query.action_name(), query.arguments()),
        r.soap_action@ == "\""@ + query.service_name() + "#"@ + query.action_name() + "\""@,
        r.basic_auth == (user@.len() > 0 || pass@.len() > 0),
        r.url@ == request_url(base@, query),
        r.soap_action@ == action_header(query),
{
    let mut url: String = base.to_owned();
    url.append("/upnp/control/");
    url.append(query.control_path());
    let mut envelope: String =
        "<?xml version=\"1.0\" encoding=\"utf-8\"?><s:Envelope xmlns:s=\"http://schemas.xmlsoap.org/soap/envelope/\" s:encodingStyle=\"http://schemas.xmlsoap.org/soap/encoding/\"><s:Body><u:".to_owned();
    envelope.append(query.action());
    envelope.append(" xmlns:u=\"");
    envelope.append(query.service());
    envelope.append("\">");
    envelope.append(query.body_args());
    envelope.append("</u:");
    envelope.append(query.action());
    envelope.append("></s:Body></s:Envelope>");
    let mut soap_action: String = "\"".to_owned();
    soap_action.append(query.service());
    soap_action.append("#");
    soap_action.append(query.action());
    soap_action.append("\"");
    SoapRequest { url, envelope, soap_action, basic_auth: !user.is_empty() || !pass.is_empty() }
}

/// What stands behind the `n`-th slash of an address; nothing where it has
/// fewer.
pub open spec fn behind_slashes(url: Seq<char>, n: nat) -> Seq<char>
    decreases n,
{
    if n == 0 {
        url
    } else {
        match find(url, seq!['/'], 0) {
            Some(i) => behind_slashes(url.skip(i + 1), (n - 1) as nat),
            None => seq![],
        }
    }
}

/// The path of an address, led by a slash.
pub open spec fn path_of(url: Seq<char>) -> Seq<char> {
    seq!['/'] + behind_slashes(url, 3)
}

/// The path of an address, led by a slash.
pub fn uri_path(url: &str) -> (path: String)
    ensures
        path@ == seq!['/'] + behind_slashes(url@, 3),
        path@ == path_of(url@),
{
    let chars = chars_of(url);
    let mut out: String = String::new();
    out.push('/');
    assert(out@ =~= seq!['/']);
    let mut at: usize = 0;
    let mut left: usize = 3;
    assert(chars@.skip(0) =~= url@);
    assert(chars.len() <= usize::MAX);
    while left > 0
        invariant
            at <= chars@.len() <= usize::MAX,
            left <= 3,
            out@ == seq!['/'],
            chars@ == url@,
            behind_slashes(url@, 3) == behind_slashes(chars@.skip(at as int), left as nat),
        decreases left,
    {
        proof {
            find_in_rest(chars@, seq!['/'], at as int, 0);
        }
        match find_char(&chars, '/', at) {
            None => {
                assert(out@ =~= seq!['/'] + behind_slashes(url@, 3));
                return out;
            },
            Some(i) => {
                assert(chars@.skip(at as int).skip(i - at + 1) =~= chars@.skip(i + 1));
                at = i + 1;
                left = left - 1;
            },
        }
    }
    let rest = string_of(&chars, at, chars.len());
    assert(rest@ =~= chars@.skip(at as int));
    out.append(rest.as_str());
    out
}

/// What to do with a modem's answer.
#[derive(Debug)]
pub enum SoapStep {
    /// Read it (an error status is an error).
    Read,
    /// Ask again with this `Authorization` header.
    Authorize(String),
    /// Give up with this message.
    GiveUp(&'static str),
}

/// What a [`SoapStep`] says.
pub enum SoapStepView {
    Read,
    Authorize(Seq<char>),
    GiveUp(Seq<char>),
}

impl View for SoapStep {
    type V = SoapStepView;

    open spec fn view(&self) -> SoapStepView {
        match *self {
            SoapStep::Read => SoapStepView::Read,
            SoapStep::Authorize(header) => SoapStepView::Authorize(header@),
            SoapStep::GiveUp(msg) => SoapStepView::GiveUp(msg@),
        }
    }
}

/// What is done with a modem's answer.
pub open spec fn soap_step(
    status: u16,
    challenge: Option<Seq<char>>,
    url: Seq<char>,
    user: Seq<char>,
    pass: Seq<char>,
    cnonce: Seq<char>,
) -> SoapStepView {
    if status != 401 {
        SoapStepView::Read
    } else {
        match challenge {
            None => SoapStepView::GiveUp("modem requires authentication"@),
            Some(ch) => match (challenge_value(ch, "realm"@), challenge_value(ch, "nonce"@)) {
                (None, _) => SoapStepView::GiveUp("digest challenge missing realm"@),
                (Some(_), None) => SoapStepView::GiveUp("digest challenge missing nonce"@),
                (Some(realm), Some(nonce)) => SoapStepView::Authorize(
                    digest_header(
                        user,
                        realm,
                        nonce,
                        path_of(url),
                        digest_response(user, pass, realm, nonce, "POST"@, path_of(url), cnonce),
                        cnonce,
                        challenge_value(ch, "opaque"@),
                    ),
                ),
            },
        }
    }
}

/// Decides on a modem's answer: one that asks for authentication (status 401)
/// is asked again with a Digest header made from its challenge.
pub fn on_soap_response(
    status: u16,
    challenge: Option<&str>,
    url: &str,
    user: &str,
    pass: &str,
    nanos: u128,
    pid: u32,
) -> (step: SoapStep)
    ensures
        match step {
            SoapStep::Read => status != 401,
            SoapStep::Authorize(header) => status == 401 && challenge is Some && ({
                let ch = challenge->0@;
                let uri = seq!['/'] + behind_slashes(url@, 3);
                let realm = challenge_value(ch, "realm"@);
                let nonce = challenge_value(ch, "nonce"@);
                let cnonce = client_nonce(nanos, pid);
                &&& realm is Some
                &&& nonce is Some
                &&& header@ == digest_header(
                    user@,
                    realm->0,
                    nonce->0,
                    uri,
                    digest_response(user@, pass@, realm->0, nonce->0, "POST"@, uri, cnonce),
                    cnonce,
                    challenge_value(ch, "opaque"@),
                )
            }),
            SoapStep::GiveUp(msg) => status == 401 && match challenge {
                None => msg@ == "modem requires authentication"@,
                Some(ch) => if challenge_value(ch@, "realm"@) is None {
                    msg@ == "digest challenge missing realm"@
                } else {
                    challenge_value(ch@, "nonce"@) is None && msg@
                        == "digest challenge missing nonce"@
                },
            },
        },
        step@ == soap_step(
            status,
            match challenge {
                Some(ch) => Some(ch@),
                None => None,
            },
            url@,
            user@,
            pass@,
            client_nonce(nanos, pid),
        ),
{
    if status != 401 {
        return SoapStep::Read;
    }
    match challenge {
        None => SoapStep::GiveUp("modem requires authentication"),
        Some(ch) => {
            let uri = uri_path(url);
            match respond_digest(ch, user, pass, "POST", uri.as_str(), nanos, pid) {
                Ok(header) => SoapStep::Authorize(header),
                Err(msg) => SoapStep::GiveUp(msg),
            }
        },
    }
}

/// A short reason for a failed call: `request` where a failed request is its
/// cause. It never quotes an address.
pub open spec fn transport_reason(request: Option<RequestFailure>) -> Seq<char> {
    match request {
        Some(r) => {
            let text = lowered(r.text@);
            if r.timeout {
                "no response from the modem (timeout)"@
            } else if holds(text, "refused"@) {
                "nothing listening on the TR-064 port at that address"@
            } else if holds(text, "dns"@) || holds(text, "resolve"@) {
                "address could not be resolved"@
            } else if holds(text, "timed out"@) {
                "connection timed out"@
            } else {
                "could not reach the modem"@
            }
        },
        None => "could not reach the modem"@,
    }
}

/// Turns a transport error into a short reason without leaking long URLs.
pub fn describe_transport_error(request: &Option<RequestFailure>) -> (reason: &'static str)
    ensures
        reason@ == transport_reason(*request),
{
    match request {
        Some(r) => {
            if r.timeout {
                return "no response from the modem (timeout)";
            }
            let text = r.text.as_str().to_lowercase();
            if contains(text.as_str(), "refused") {
                return "nothing listening on the TR-064 port at that address";
            }
            if contains(text.as_str(), "dns") || contains(text.as_str(), "resolve") {
                return "address could not be resolved";
            }
            if contains(text.as_str(), "timed out") {
                return "connection timed out";
            }
            "could not reach the modem"
        },
        None => "could not reach the modem",
    }
}

// ---- laws -----------------------------------------------------------------

/// Whether every tag of `xml` that is begun is ended in it.
pub open spec fn complete(xml: Seq<char>) -> bool {
    forall|i: int|
        0 <= i < xml.len() && #[trigger] xml[i] == '<' ==> exists|j: int|
            i < j < xml.len() && #[trigger] xml[j] == '>'
}

/// Whether the first tag of `xml` ends an element that was begun before it.
pub open spec fn begins_with_end_tag(xml: Seq<char>) -> bool {
    match find(xml, "<"@, 0) {
        Some(i) => i + 1 < xml.len() && xml[i + 1] == '/',
        None => false,
    }
}

/// Whether the first tag of `xml` ends a CRC counter that was begun before it.
spec fn ends_counter(xml: Seq<char>) -> bool {
    match find(xml, "<"@, 0) {
        Some(i) => exists|t: Seq<char>| #[trigger]
            counts(t) && matches_at(xml, "</"@ + t + ">"@, i),
        None => false,
    }
}

proof fn found_at(s: Seq<char>, pat: Seq<char>, from: int, i: int)
    requires
        0 <= from <= i,
        matches_at(s, pat, i),
        forall|j: int| from <= j < i ==> !#[trigger] matches_at(s, pat, j),
    ensures
        find(s, pat, from) == Some(i),
{
    find_is_first(s, pat, from);
}

proof fn one_char_matches(s: Seq<char>, c: char)
    ensures
        forall|i: int| #[trigger]
            matches_at(s, seq![c], i) <==> 0 <= i < s.len() && s[i] == c,
{
    assert forall|i: int| #[trigger]
        matches_at(s, seq![c], i) <==> 0 <= i < s.len() && s[i] == c by {
        if 0 <= i < s.len() {
            if s[i] == c {
                assert(s.subrange(i, i + 1) =~= seq![c]);
            } else {
                assert(s.subrange(i, i + 1)[0] != seq![c][0]);
            }
        }
    }
}

/// What stands in the front part of a text is found at the same place.
proof fn found_in_front(a: Seq<char>, b: Seq<char>, pat: Seq<char>, from: int)
    requires
        0 <= from,
        find(a, pat, from) is Some,
    ensures
        find(a + b, pat, from) == find(a, pat, from),
{
    find_is_first(a, pat, from);
    let i = find(a, pat, from)->0;
    assert forall|j: int| from <= j <= i implies #[trigger] matches_at(a + b, pat, j)
        == matches_at(a, pat, j) by {
        assert((a + b).subrange(j, j + pat.len()) =~= a.subrange(j, j + pat.len()));
    }
    found_at(a + b, pat, from, i);
}

proof fn trim_takes_no_text(s: Seq<char>, c: char)
    ensures
        trim(s).contains(c) ==> s.contains(c),
        s.contains(c) && !white_space(c) ==> trim(s).contains(c),
{
    trim_start_takes_no_text(s, c);
    trim_end_takes_no_text(trim_start(s), c);
}

proof fn trim_start_takes_no_text(s: Seq<char>, c: char)
    ensures
        trim_start(s).contains(c) ==> s.contains(c),
        s.contains(c) && !white_space(c) ==> trim_start(s).contains(c),
    decreases s.len(),
{
    if s.len() > 0 && white_space(s[0]) {
        let rest = s.drop_first();
        trim_start_takes_no_text(rest, c);
        if rest.contains(c) {
            let k = choose|k: int| 0 <= k < rest.len() && rest[k] == c;
            assert(s[k + 1] == c);
        }
        if s.contains(c) && !white_space(c) {
            let k = choose|k: int| 0 <= k < s.len() && s[k] == c;
            assert(rest[k - 1] == c);
        }
    }
}

proof fn trim_end_takes_no_text(s: Seq<char>, c: char)
    ensures
        trim_end(s).contains(c) ==> s.contains(c),
        s.contains(c) && !white_space(c) ==> trim_end(s).contains(c),
    decreases s.len(),
{
    if s.len() > 0 && white_space(s.last()) {
        let rest = s.drop_last();
        trim_end_takes_no_text(rest, c);
        if rest.contains(c) {
            let k = choose|k: int| 0 <= k < rest.len() && rest[k] == c;
            assert(s[k] == c);
        }
        if s.contains(c) && !white_space(c) {
            let k = choose|k: int| 0 <= k < s.len() && s[k] == c;
            assert(rest[k] == c);
        }
    }
}

proof fn no_digits_with_a_tag(s: Seq<char>)
    requires
        s.contains('<'),
    ensures
        digits_value(s, 10) is None,
    decreases s.len(),
{
    if s.last() != '<' {
        let k = choose|k: int| 0 <= k < s.len() && s[k] == '<';
        assert(s.drop_last()[k] == '<');
        no_digits_with_a_tag(s.drop_last());
    }
}

/// No number is read where a tag stands.
proof fn no_number_with_a_tag(s: Seq<char>)
    requires
        s.contains('<'),
    ensures
        parse_number(trim(s), 10) is None,
{
    trim_takes_no_text(s, '<');
    let t = trim(s);
    if t[0] == '+' {
        let k = choose|k: int| 0 <= k < t.len() && t[k] == '<';
        assert(t.drop_first()[k - 1] == '<');
        no_digits_with_a_tag(t.drop_first());
    } else {
        no_digits_with_a_tag(t);
    }
}

/// What follows a complete text does not change what is read from its counters.
proof fn counter_stays(after: Seq<char>, b: Seq<char>, tag: Seq<char>)
    requires
        complete(after),
        !tag.contains('>'),
        counts(tag),
        !ends_counter(b),
    ensures
        counter_in(after + b, tag) == counter_in(after, tag),
{
    reveal_strlit("<");
    reveal_strlit("</");
    reveal_strlit(">");
    assert("<"@ =~= seq!['<']);
    let close = "</"@ + tag + ">"@;
    let s = after + b;
    find_is_first(after, close, 0);
    find_is_first(s, close, 0);
    match find(after, close, 0) {
        Some(end) => {
            found_in_front(after, b, close, 0);
            assert(s.take(end) =~= after.take(end));
        },
        None => {
            if let Some(p) = find(s, close, 0) {
                assert forall|k: int| 0 <= k < close.len() implies s[p + k] == #[trigger] close[k] by {
                    assert(s.subrange(p, p + close.len())[k] == s[p + k]);
                }
                assert(close[0] == '<');
                assert(s[p + 0] == close[0]);
                if p + close.len() <= after.len() {
                    assert(after.subrange(p, p + close.len()) =~= s.subrange(p, p + close.len()));
                    assert(matches_at(after, close, p));
                } else if p < after.len() {
                    assert(after[p] == '<');
                    let j = choose|j: int| p < j < after.len() && #[trigger] after[j] == '>';
                    assert(s[p + (j - p)] == close[j - p]);
                    if j - p >= 2 {
                        assert(close[j - p] == tag[j - p - 2]);
                    }
                } else {
                    let q = p - after.len();
                    assert(b.subrange(q, q + close.len()) =~= s.subrange(p, p + close.len()));
                    assert(matches_at(b, close, q));
                    let content = s.take(p);
                    if content.contains('<') {
                        no_number_with_a_tag(content);
                    } else {
                        one_char_matches(b, '<');
                        assert forall|k: int| 0 <= k < q implies !#[trigger] matches_at(
                            b,
                            seq!['<'],
                            k,
                        ) by {
                            assert(content[after.len() + k] == b[k]);
                        }
                        assert(b[q] == s[p]);
                        found_at(b, seq!['<'], 0, q);
                    }
                }
            }
        },
    }
}

/// Text before the first tag does not change the counters.
proof fn text_does_not_count(a: Seq<char>, b: Seq<char>)
    requires
        !a.contains('<'),
    ensures
        crc_values(a + b) == crc_values(b),
{
    reveal_strlit("<");
    reveal_strlit(">");
    assert("<"@ =~= seq!['<']);
    assert(">"@ =~= seq!['>']);
    let s = a + b;
    let n = a.len() as int;
    assert(s.skip(n) =~= b);
    find_is_first(s, seq!['<'], 0);
    find_is_first(s, seq!['<'], n);
    one_char_matches(s, '<');
    assert forall|k: int| 0 <= k < n implies !#[trigger] matches_at(s, seq!['<'], k) by {
        assert(s[k] == a[k]);
    }
    find_in_rest(s, seq!['<'], n, 0);
    match find(s, seq!['<'], n) {
        Some(i) => {
            found_at(s, seq!['<'], 0, i);
            find_in_rest(s, seq!['>'], n, i - n);
            if let Some(gt) = find(s, seq!['>'], i) {
                find_is_first(s, seq!['>'], i);
                one_char_matches(s, '>');
                assert(s[i] == '<' && s[gt] == '>');
                assert(s.subrange(i + 1, gt) =~= b.subrange(i - n + 1, gt - n));
                assert(s.skip(gt + 1) =~= b.skip(gt - n + 1));
            }
        },
        None => {
            assert(find(s, seq!['<'], 0) is None);
        },
    }
}

/// The counters of a complete text and of what follows it come one after the
/// other, unless that ends one of them.
proof fn counters_follow(a: Seq<char>, b: Seq<char>)
    requires
        complete(a),
        !ends_counter(b),
    ensures
        crc_values(a + b) == crc_values(a) + crc_values(b),
    decreases a.len(),
{
    reveal_strlit("<");
    reveal_strlit(">");
    assert("<"@ =~= seq!['<']);
    assert(">"@ =~= seq!['>']);
    let s = a + b;
    find_is_first(a, seq!['<'], 0);
    one_char_matches(a, '<');
    one_char_matches(a, '>');
    match find(a, seq!['<'], 0) {
        None => {
            assert(!a.contains('<')) by {
                if a.contains('<') {
                    let k = choose|k: int| 0 <= k < a.len() && a[k] == '<';
                    assert(matches_at(a, seq!['<'], k));
                }
            }
            text_does_not_count(a, b);
            assert(crc_values(a) + crc_values(b) =~= crc_values(b));
        },
        Some(lt) => {
            assert(a[lt] == '<');
            find_is_first(a, seq!['>'], lt);
            let j = choose|j: int| lt < j < a.len() && #[trigger] a[j] == '>';
            assert(matches_at(a, seq!['>'], j));
            let gt = find(a, seq!['>'], lt)->0;
            assert(a[gt] == '>');
            found_in_front(a, b, seq!['<'], 0);
            found_in_front(a, b, seq!['>'], lt);
            let inner = a.subrange(lt + 1, gt);
            let tag = trim(inner);
            let after = a.skip(gt + 1);
            assert(s.subrange(lt + 1, gt) =~= inner);
            assert(s.skip(gt + 1) =~= after + b);
            assert(!inner.contains('>')) by {
                if inner.contains('>') {
                    let k = choose|k: int| 0 <= k < inner.len() && inner[k] == '>';
                    assert(a[lt + 1 + k] == '>');
                    assert(matches_at(a, seq!['>'], lt + 1 + k));
                }
            }
            trim_takes_no_text(inner, '>');
            assert(complete(after)) by {
                assert forall|i: int| 0 <= i < after.len() && #[trigger] after[i] == '<' implies exists|
                    j: int,
                | i < j < after.len() && #[trigger] after[j] == '>' by {
                    assert(a[gt + 1 + i] == '<');
                    let j = choose|j: int| gt + 1 + i < j < a.len() && #[trigger] a[j] == '>';
                    assert(after[j - gt - 1] == '>');
                }
            }
            counters_follow(after, b);
            if counts(tag) {
                counter_stays(after, b, tag);
            }
            assert(crc_values(s) =~= crc_values(a) + crc_values(b));
        },
    }
}

proof fn totals_follow(x: Seq<nat>, y: Seq<nat>)
    ensures
        total(x + y) == total(x) + total(y),
    decreases x.len(),
{
    if x.len() == 0 {
        assert(x + y =~= y);
    } else {
        assert((x + y).drop_first() =~= x.drop_first() + y);
        totals_follow(x.drop_first(), y);
    }
}

/// The CRC counters of adjoining fragments add up: those of both are found, in
/// order, the sum is that of both sums, and none is found only where neither
/// has one. The first fragment ends every tag that it begins, and the second
/// does not begin with an end tag; that is so of all well-formed fragments.
pub proof fn crc_totals_add_up(a: Seq<char>, b: Seq<char>)
    requires
        complete(a),
        !begins_with_end_tag(b),
    ensures
        crc_values(a + b) == crc_values(a) + crc_values(b),
        total(crc_values(a + b)) == total(crc_values(a)) + total(crc_values(b)),
        crc_values(a + b).len() == 0 <==> crc_values(a).len() == 0 && crc_values(b).len() == 0,
{
    assert(!ends_counter(b)) by {
        if ends_counter(b) {
            reveal_strlit("</");
            let i = find(b, "<"@, 0)->0;
            let t = choose|t: Seq<char>| #[trigger]
                counts(t) && matches_at(b, "</"@ + t + ">"@, i);
            let close = "</"@ + t + ">"@;
            reveal_strlit(">");
            assert(b.subrange(i, i + close.len())[1] == b[i + 1]);
            assert(close[1] == '/');
        }
    }
    counters_follow(a, b);
    totals_follow(crc_values(a), crc_values(b));
}

/// A container whose name does not hold "crc" does not change the counters: its
/// children still count. A name holds neither white space nor `>`.
pub proof fn containers_do_not_count(name: Seq<char>, a: Seq<char>)
    requires
        complete(a),
        forall|i: int| 0 <= i < name.len() ==> #[trigger] name[i] != '>' && !white_space(name[i]),
        !holds(lowered(name), "crc"@),
    ensures
        crc_values("<"@ + name + ">"@ + a + "</"@ + name + ">"@) == crc_values(a),
{
    reveal_strlit("<");
    reveal_strlit("</");
    reveal_strlit(">");
    assert("<"@ =~= seq!['<']);
    assert(">"@ =~= seq!['>']);
    let end = "</"@ + name + ">"@;
    let s = "<"@ + name + ">"@ + a + "</"@ + name + ">"@;
    let n = name.len() as int;

    // The end tag is passed over.
    one_char_matches(end, '<');
    one_char_matches(end, '>');
    assert(end[0] == '<');
    assert(end[n + 2] == '>');
    assert forall|k: int| 0 <= k < n + 2 implies #[trigger] end[k] != '>' by {
        if k >= 2 {
            assert(end[k] == name[k - 2]);
        }
    }
    found_at(end, seq!['<'], 0, 0);
    found_at(end, seq!['>'], 0, n + 2);
    let inner = end.subrange(1, n + 2);
    assert(inner[0] == '/');
    assert(!white_space(inner.last())) by {
        if n > 0 {
            assert(inner.last() == name[n - 1]);
        }
    }
    assert(trim(inner) == inner);
    assert(end.skip(n + 3) =~= Seq::empty());
    assert(crc_values(Seq::empty()) =~= Seq::empty());
    assert(crc_values(end) =~= Seq::empty());
    assert(!ends_counter(end)) by {
        if ends_counter(end) {
            let t = choose|t: Seq<char>| #[trigger]
                counts(t) && matches_at(end, "</"@ + t + ">"@, 0);
            let close = "</"@ + t + ">"@;
            assert(end.subrange(0, close.len() as int)[close.len() - 1] == end[close.len() - 1]);
            assert(close[close.len() - 1] == '>');
            assert(close.len() == n + 3);
            assert(end.subrange(0, n + 3) =~= end);
            assert forall|k: int| 0 <= k < n implies t[k] == #[trigger] name[k] by {
                assert(close[k + 2] == t[k]);
                assert(end[k + 2] == name[k]);
            }
            assert(t =~= name);
        }
    }
    counters_follow(a, end);
    assert(crc_values(a) + crc_values(end) =~= crc_values(a));

    // So is the start tag.
    one_char_matches(s, '<');
    one_char_matches(s, '>');
    assert(s[0] == '<');
    assert(s[n + 1] == '>');
    assert forall|k: int| 0 <= k < n + 1 implies #[trigger] s[k] != '>' by {
        if k >= 1 {
            assert(s[k] == name[k - 1]);
        }
    }
    found_at(s, seq!['<'], 0, 0);
    found_at(s, seq!['>'], 0, n + 1);
    assert(s.subrange(1, n + 1) =~= name);
    assert(trim(name) == name) by {
        if n > 0 {
            assert(!white_space(name[0]));
            assert(!white_space(name[n - 1]));
        }
    }
    assert(s.skip(n + 2) =~= a + end);
    assert(!counts(name));
}

/// Whether a text can be the name of an element: it is not empty and holds none
/// of the characters that make a tag.
pub open spec fn is_name(t: Seq<char>) -> bool {
    t.len() > 0 && forall|i: int|
        0 <= i < t.len() ==> #[trigger] t[i] != '<' && t[i] != '>' && t[i] != '/'
}

/// A reply with the element `tag` between two other parts of it.
pub open spec fn with_element(
    a: Seq<char>,
    tag: Seq<char>,
    v: Seq<char>,
    b: Seq<char>,
) -> Seq<char> {
    a + "<"@ + tag + ">"@ + v + "</"@ + tag + ">"@ + b
}

proof fn tag_marks()
    ensures
        "<"@ == seq!['<'],
        ">"@ == seq!['>'],
        "</"@ == seq!['<', '/'],
{
    reveal_strlit("<");
    reveal_strlit("</");
    reveal_strlit(">");
    assert("<"@ =~= seq!['<']);
    assert(">"@ =~= seq!['>']);
    assert("</"@ =~= seq!['<', '/']);
}

/// What `pat` says at `i` is what stands there.
proof fn stands_at(s: Seq<char>, pat: Seq<char>, i: int)
    requires
        matches_at(s, pat, i),
    ensures
        forall|k: int| 0 <= k < pat.len() ==> s[i + k] == #[trigger] pat[k],
{
    assert forall|k: int| 0 <= k < pat.len() implies s[i + k] == #[trigger] pat[k] by {
        assert(s.subrange(i, i + pat.len())[k] == s[i + k]);
    }
}

/// A part in which the start tag of an element does not begin does not matter to
/// the element.
proof fn element_in_rest(s: Seq<char>, c: Seq<char>, tag: Seq<char>)
    requires
        forall|j: int|
            0 <= j < s.len() ==> !#[trigger] matches_at(s + c, "<"@ + tag + ">"@, j),
    ensures
        element(s + c, tag) == element(c, tag),
{
    let x = s + c;
    let open = "<"@ + tag + ">"@;
    let close = "</"@ + tag + ">"@;
    let n = s.len() as int;
    assert(x.skip(n) =~= c);
    find_in_rest(x, open, n, 0);
    find_is_first(x, open, n);
    find_is_first(x, open, 0);
    match find(x, open, n) {
        Some(i) => {
            found_at(x, open, 0, i);
            find_in_rest(x, close, n, i - n + open.len());
            find_is_first(x, close, i + open.len());
            if let Some(j) = find(x, close, i + open.len()) {
                assert(x.subrange(i + open.len(), j) =~= c.subrange(i - n + open.len(), j - n));
            }
        },
        None => {
            if let Some(i) = find(x, open, 0) {
                assert(!matches_at(x, open, i));
            }
        },
    }
}

/// What is read of an element is what stands in it: between its start tag, the
/// first in the reply, and its end tag, without the space around it.
pub proof fn an_element_is_what_stands_in_it(
    a: Seq<char>,
    tag: Seq<char>,
    v: Seq<char>,
    b: Seq<char>,
)
    requires
        is_name(tag),
        !holds(a, "<"@ + tag + ">"@),
        !v.contains('<'),
    ensures
        element(with_element(a, tag, v, b), tag) == Some(v),
        trim(v).len() > 0 ==> element_value(with_element(a, tag, v, b), tag) == Some(trim(v)),
        trim(v).len() == 0 ==> element_value(with_element(a, tag, v, b), tag) is None,
{
    tag_marks();
    let open = "<"@ + tag + ">"@;
    let close = "</"@ + tag + ">"@;
    let x = with_element(a, tag, v, b);
    let (n, m, w) = (a.len() as int, tag.len() as int, v.len() as int);
    assert(x.subrange(n, n + m + 2) =~= open);
    assert(matches_at(x, open, n));
    find_is_first(a, open, 0);
    assert forall|j: int| 0 <= j < n implies !#[trigger] matches_at(x, open, j) by {
        if matches_at(x, open, j) {
            stands_at(x, open, j);
            if j + m + 2 <= n {
                assert(a.subrange(j, j + m + 2) =~= x.subrange(j, j + m + 2));
                assert(matches_at(a, open, j));
            } else {
                assert(x[n] == '<');
                assert(x[j + (n - j)] == open[n - j]);
                if n - j <= m {
                    assert(open[n - j] == tag[n - j - 1]);
                }
            }
        }
    }
    found_at(x, open, 0, n);
    let e = n + m + 2 + w;
    assert(x.subrange(e, e + m + 3) =~= close);
    assert forall|j: int| n + m + 2 <= j < e implies !#[trigger] matches_at(x, close, j) by {
        if matches_at(x, close, j) {
            stands_at(x, close, j);
            assert(x[j + 0] == close[0]);
            assert(x[j] == v[j - (n + m + 2)]);
        }
    }
    found_at(x, close, n + m + 2, e);
    assert(x.subrange(n + m + 2, e) =~= v);
}

/// What stands in one element does not change what is read of another that is
/// not round it: that is what it is before, or else after, the one element.
pub proof fn elements_stand_apart(
    a: Seq<char>,
    tag: Seq<char>,
    v: Seq<char>,
    b: Seq<char>,
    other: Seq<char>,
)
    requires
        is_name(tag),
        is_name(other),
        tag != other,
        !v.contains('<'),
        element(a, other) is Some || !holds(a, "<"@ + other + ">"@),
    ensures
        element(with_element(a, tag, v, b), other) == (if element(a, other) is Some {
            element(a, other)
        } else {
            element(b, other)
        }),
{
    tag_marks();
    let open = "<"@ + other + ">"@;
    let close = "</"@ + other + ">"@;
    let mid = "<"@ + tag + ">"@ + v + "</"@ + tag + ">"@;
    let x = with_element(a, tag, v, b);
    let (n, m, w, q) = (
        a.len() as int,
        tag.len() as int,
        v.len() as int,
        other.len() as int,
    );
    if element(a, other) is Some {
        let rest = mid + b;
        assert(x =~= a + rest);
        found_in_front(a, rest, open, 0);
        let i = find(a, open, 0)->0;
        find_is_first(a, open, 0);
        found_in_front(a, rest, close, i + open.len());
        let j = find(a, close, i + open.len())->0;
        find_is_first(a, close, i + open.len());
        assert(x.subrange(i + open.len(), j) =~= a.subrange(i + open.len(), j));
    } else {
        let s = a + mid;
        assert(x =~= s + b);
        find_is_first(a, open, 0);
        assert forall|j: int| 0 <= j < s.len() implies !#[trigger] matches_at(x, open, j) by {
            if matches_at(x, open, j) {
                stands_at(x, open, j);
                assert(x[j + 0] == open[0]);
                assert(x[j + 1] == open[1]);
                assert(open[1] == other[0]);
                assert(x[n] == '<');
                let e = n + m + 2 + w;
                if j < n {
                    if j + q + 2 <= n {
                        assert(a.subrange(j, j + q + 2) =~= x.subrange(j, j + q + 2));
                        assert(matches_at(a, open, j));
                    } else {
                        assert(x[j + (n - j)] == open[n - j]);
                        if n - j <= q {
                            assert(open[n - j] == other[n - j - 1]);
                        }
                    }
                } else if j == n {
                    assert(x[n + m + 1] == '>');
                    assert(x[j + (q + 1)] == open[q + 1]);
                    if q < m {
                        assert(x[n + 1 + q] == tag[q]);
                    } else if m < q {
                        assert(x[j + (m + 1)] == open[m + 1]);
                        assert(open[m + 1] == other[m]);
                    } else {
                        assert forall|k: int| 0 <= k < m implies #[trigger] tag[k] == other[k] by {
                            assert(x[j + (k + 1)] == open[k + 1]);
                            assert(x[n + 1 + k] == tag[k]);
                        }
                        assert(tag =~= other);
                    }
                } else if j < n + m + 2 {
                    if j < n + m + 1 {
                        assert(x[j] == tag[j - n - 1]);
                    }
                } else if j < e {
                    assert(x[j] == v[j - (n + m + 2)]);
                } else if j == e {
                    assert(x[e + 1] == '/');
                } else if j == e + 1 {
                } else if j < e + 2 + m {
                    assert(x[j] == tag[j - e - 2]);
                } else {
                    assert(x[j] == '>');
                }
            }
        }
        element_in_rest(s, b, other);
    }
}

/// A character that stands nowhere before is found where it stands.
proof fn slash_at(a: Seq<char>, b: Seq<char>)
    requires
        !a.contains('/'),
    ensures
        find(a + seq!['/'] + b, seq!['/'], 0) == Some(a.len() as int),
        (a + seq!['/'] + b).skip(a.len() as int + 1) == b,
        find(a, seq!['/'], 0) is None,
{
    let x = a + seq!['/'] + b;
    one_char_matches(x, '/');
    one_char_matches(a, '/');
    assert forall|j: int| 0 <= j < a.len() implies !#[trigger] matches_at(x, seq!['/'], j) by {
        assert(a.contains(a[j]));
    }
    assert(x[a.len() as int] == '/');
    assert(matches_at(x, seq!['/'], a.len() as int));
    found_at(x, seq!['/'], 0, a.len() as int);
    assert(x.skip(a.len() as int + 1) =~= b);
    find_is_first(a, seq!['/'], 0);
    if let Some(i) = find(a, seq!['/'], 0) {
        assert(a.contains(a[i]));
    }
}

/// The path of an address is what stands behind its host, with the slash; that of
/// one without a path is the slash alone.
pub proof fn a_path_stands_behind_the_host(scheme: Seq<char>, host: Seq<char>, path: Seq<char>)
    requires
        !scheme.contains('/'),
        !host.contains('/'),
    ensures
        path_of(scheme + seq!['/'] + (seq!['/'] + (host + (seq!['/'] + path)))) == seq!['/'] + path,
        path_of(scheme + seq!['/'] + (seq!['/'] + host)) == seq!['/'],
{
    let e = Seq::<char>::empty();
    let c = host + (seq!['/'] + path);
    let b = seq!['/'] + c;
    let a = scheme + seq!['/'] + b;
    slash_at(scheme, b);
    slash_at(e, c);
    assert(e + seq!['/'] + c =~= b);
    slash_at(host, path);
    assert(host + seq!['/'] + path =~= c);
    reveal_with_fuel(behind_slashes, 4);
    let b2 = seq!['/'] + host;
    slash_at(scheme, b2);
    slash_at(e, host);
    assert(e + seq!['/'] + host =~= b2);
    assert(path_of(scheme + seq!['/'] + b2) =~= seq!['/']);
}

/// Each of the four queries goes to a service of its own, at a path of its own,
/// and the header names that service and the action asked of it.
pub proof fn queries_have_their_own_services(base: Seq<char>, q: Query, r: Query)
    requires
        q != r,
    ensures
        q.service_name() != r.service_name(),
        q.path_name() != r.path_name(),
        request_url(base, q) != request_url(base, r),
        action_header(q) != action_header(r),
{
    reveal_strlit("urn:dslforum-org:service:WANDSLInterfaceConfig:1");
    reveal_strlit("urn:dslforum-org:service:WANPPPConnection:1");
    reveal_strlit("urn:dslforum-org:service:WLANConfiguration:1");
    reveal_strlit("urn:dslforum-org:service:WANCommonInterfaceConfig:1");
    reveal_strlit("wandslifconfig1");
    reveal_strlit("wanpppconn1");
    reveal_strlit("wlanconfig1");
    reveal_strlit("wancommonifconfig1");
    reveal_strlit("GetInfo");
    reveal_strlit("GetTotalAssociations");
    reveal_strlit("X_AVM-DE_GetOnlineMonitor");
    reveal_strlit("\"");
    reveal_strlit("#");
    // The services differ in their length.
    assert(Query::LineInfo.service_name().len() == 48);
    assert(Query::Session.service_name().len() == 43);
    assert(Query::Wireless.service_name().len() == 44);
    assert(Query::OnlineMonitor.service_name().len() == 51);
    // The paths differ in their length, or else in their second letter.
    assert(Query::Session.path_name()[1] == 'a' && Query::Wireless.path_name()[1] == 'l');
    assert(Query::LineInfo.path_name().len() == 15);
    assert(Query::Session.path_name().len() == 11);
    assert(Query::Wireless.path_name().len() == 11);
    assert(Query::OnlineMonitor.path_name().len() == 18);
    let p = base + "/upnp/control/"@;
    if request_url(base, q) == request_url(base, r) {
        assert(request_url(base, q).skip(p.len() as int) =~= q.path_name());
        assert(request_url(base, r).skip(p.len() as int) =~= r.path_name());
    }
    if action_header(q) == action_header(r) {
        assert(action_header(q).len() == q.service_name().len() + q.action_name().len() + 3);
        assert(action_header(r).len() == r.service_name().len() + r.action_name().len() + 3);
    }
}

/// The value of a field of a challenge is what stands in the quotes behind the
/// first `key=`.
pub proof fn a_challenge_quotes_its_fields(
    a: Seq<char>,
    key: Seq<char>,
    v: Seq<char>,
    b: Seq<char>,
)
    requires
        !key.contains('"'),
        !holds(a, key + "=\""@),
        !v.contains('"'),
    ensures
        challenge_value(a + key + "=\""@ + v + "\""@ + b, key) == Some(v),
{
    reveal_strlit("=\"");
    reveal_strlit("\"");
    assert("=\""@ =~= seq!['=', '"']);
    assert("\""@ =~= seq!['"']);
    let needle = key + "=\""@;
    let x = a + key + "=\""@ + v + "\""@ + b;
    let (n, m, w) = (a.len() as int, needle.len() as int, v.len() as int);
    assert(x.subrange(n, n + m) =~= needle);
    find_is_first(a, needle, 0);
    assert forall|j: int| 0 <= j < n implies !#[trigger] matches_at(x, needle, j) by {
        if matches_at(x, needle, j) {
            stands_at(x, needle, j);
            if j + m <= n {
                assert(a.subrange(j, j + m) =~= x.subrange(j, j + m));
                assert(matches_at(a, needle, j));
            } else {
                assert(x[j + (m - 1)] == needle[m - 1]);
                let k = j + m - 1 - n;
                if k < key.len() {
                    assert(x[n + k] == key[k]);
                } else {
                    assert(x[n + k] == '=');
                }
            }
        }
    }
    found_at(x, needle, 0, n);
    one_char_matches(x, '"');
    let e = n + m + w;
    assert(x[e] == '"');
    assert forall|j: int| n + m <= j < e implies !#[trigger] matches_at(x, seq!['"'], j) by {
        assert(x[j] == v[j - n - m]);
    }
    found_at(x, seq!['"'], n + m, e);
    assert(x.subrange(n + m, e) =~= v);
}

/// The end tag of an element counts nothing.
proof fn end_tags_do_not_count(name: Seq<char>)
    requires
        forall|i: int| 0 <= i < name.len() ==> #[trigger] name[i] != '>' && !white_space(name[i]),
    ensures
        crc_values("</"@ + name + ">"@) == Seq::<nat>::empty(),
{
    tag_marks();
    let end = "</"@ + name + ">"@;
    let n = name.len() as int;
    one_char_matches(end, '<');
    one_char_matches(end, '>');
    assert(end[0] == '<');
    assert(end[n + 2] == '>');
    assert forall|k: int| 0 <= k < n + 2 implies #[trigger] end[k] != '>' by {
        if k >= 2 {
            assert(end[k] == name[k - 2]);
        }
    }
    found_at(end, seq!['<'], 0, 0);
    found_at(end, seq!['>'], 0, n + 2);
    let inner = end.subrange(1, n + 2);
    assert(inner[0] == '/');
    assert(!white_space(inner.last())) by {
        if n > 0 {
            assert(inner.last() == name[n - 1]);
        }
    }
    assert(trim(inner) == inner);
    assert(end.skip(n + 3) =~= Seq::empty());
    assert(crc_values(Seq::empty()) =~= Seq::empty());
    assert(crc_values(end) =~= Seq::empty());
}

/// Every element whose name holds "crc", in any letter case, counts with the
/// number in it; no other element does. The name holds neither white space nor a
/// character that makes a tag, and does not begin as a declaration does.
pub proof fn a_counter_counts_its_number(name: Seq<char>, n: u64)
    requires
        is_name(name),
        name[0] != '?',
        forall|i: int| 0 <= i < name.len() ==> !white_space(#[trigger] name[i]),
    ensures
        holds(lowered(name), "crc"@) ==> crc_values(
            "<"@ + name + ">"@ + decimal(n as nat) + "</"@ + name + ">"@,
        ) == seq![n as nat],
        !holds(lowered(name), "crc"@) ==> crc_values(
            "<"@ + name + ">"@ + decimal(n as nat) + "</"@ + name + ">"@,
        ) == Seq::<nat>::empty(),
{
    tag_marks();
    let d = decimal(n as nat);
    let s = "<"@ + name + ">"@ + d + "</"@ + name + ">"@;
    let end = "</"@ + name + ">"@;
    let m = name.len() as int;
    decimal_numbers_are_read_back(n as nat);
    one_char_matches(s, '<');
    one_char_matches(s, '>');
    assert(s[0] == '<');
    assert(s[m + 1] == '>');
    assert forall|k: int| 0 <= k < m + 1 implies #[trigger] s[k] != '>' by {
        if k >= 1 {
            assert(s[k] == name[k - 1]);
        }
    }
    found_at(s, seq!['<'], 0, 0);
    found_at(s, seq!['>'], 0, m + 1);
    assert(s.subrange(1, m + 1) =~= name);
    assert(trim(name) == name) by {
        assert(!white_space(name[0]));
        assert(!white_space(name[m - 1]));
    }
    let after = s.skip(m + 2);
    assert(after =~= d + end);
    assert forall|i: int| 0 <= i < d.len() implies !white_space(#[trigger] d[i]) && d[i] != '<' by {
        assert('0' <= d[i] <= '9');
    }
    assert(!d.contains('<'));
    text_does_not_count(d, end);
    end_tags_do_not_count(name);
    assert(!passed_over(name)) by {
        if name.contains(' ') {
            let k = choose|k: int| 0 <= k < name.len() && name[k] == ' ';
            assert(!white_space(name[k]));
        }
    }
    // The number ends where the end tag begins.
    let e = d.len() as int;
    assert(after.subrange(e, e + end.len()) =~= end);
    assert forall|j: int| 0 <= j < e implies !#[trigger] matches_at(after, end, j) by {
        if matches_at(after, end, j) {
            stands_at(after, end, j);
            assert(after[j + 0] == end[0]);
            assert(after[j] == d[j]);
        }
    }
    found_at(after, end, 0, e);
    assert(after.take(e) =~= d);
    assert(trim(d) == d) by {
        assert(!white_space(d[0]));
        assert(!white_space(d[e - 1]));
    }
    assert(seq![n as nat] + Seq::<nat>::empty() =~= seq![n as nat]);
}

/// What is told of a failed call: a timeout goes before a refusal, that before an
/// address that cannot be resolved, that before a connection that timed out;
/// anything else is told without its own words.
pub proof fn transport_failures_are_told_by_their_nature(r: RequestFailure)
    ensures
        ({
            let text = lowered(r.text@);
            let told = transport_reason(Some(r));
            let refused = holds(text, "refused"@);
            let unresolved = holds(text, "dns"@) || holds(text, "resolve"@);
            let late = holds(text, "timed out"@);
            &&& r.timeout ==> told == "no response from the modem (timeout)"@
            &&& !r.timeout && refused ==> told
                == "nothing listening on the TR-064 port at that address"@
            &&& !r.timeout && !refused && unresolved ==> told == "address could not be resolved"@
            &&& !r.timeout && !refused && !unresolved && late ==> told == "connection timed out"@
            &&& !r.timeout && !refused && !unresolved && !late ==> told
                == transport_reason(None)
        }),
        transport_reason(None) == "could not reach the modem"@,
{
}

/// Only an answer with status 401 is asked again, and exactly where its challenge
/// has a realm and a nonce; then with the user, both of them and the path that was
/// asked, and with the password only in what is hashed.
pub proof fn only_challenges_are_answered(
    status: u16,
    challenge: Option<Seq<char>>,
    url: Seq<char>,
    user: Seq<char>,
    pass: Seq<char>,
    cnonce: Seq<char>,
)
    ensures
        ({
            let step = soap_step(status, challenge, url, user, pass, cnonce);
            &&& step is Read <==> status != 401
            &&& step is Authorize <==> status == 401 && challenge is Some && challenge_value(
                challenge->0,
                "realm"@,
            ) is Some && challenge_value(challenge->0, "nonce"@) is Some
            &&& step matches SoapStepView::Authorize(header) ==> exists|response: Seq<char>|
                header == #[trigger] digest_header(
                    user,
                    challenge_value(challenge->0, "realm"@)->0,
                    challenge_value(challenge->0, "nonce"@)->0,
                    path_of(url),
                    response,
                    cnonce,
                    challenge_value(challenge->0, "opaque"@),
                )
        }),
{
}

/// An element that is not begun, or begun and not ended, has no value.
pub proof fn an_element_needs_both_tags(a: Seq<char>, tag: Seq<char>, v: Seq<char>)
    requires
        is_name(tag),
        !holds(a, "<"@ + tag + ">"@),
    ensures
        element_value(a, tag) is None,
        !holds(v, "</"@ + tag + ">"@) ==> element_value(a + "<"@ + tag + ">"@ + v, tag) is None,
{
    tag_marks();
    let open = "<"@ + tag + ">"@;
    let close = "</"@ + tag + ">"@;
    let x = a + "<"@ + tag + ">"@ + v;
    let (n, m) = (a.len() as int, tag.len() as int);
    find_is_first(a, open, 0);
    assert(x.subrange(n, n + m + 2) =~= open);
    assert forall|j: int| 0 <= j < n implies !#[trigger] matches_at(x, open, j) by {
        if matches_at(x, open, j) {
            stands_at(x, open, j);
            if j + m + 2 <= n {
                assert(a.subrange(j, j + m + 2) =~= x.subrange(j, j + m + 2));
                assert(matches_at(a, open, j));
            } else {
                assert(x[n] == '<');
                assert(x[j + (n - j)] == open[n - j]);
                if n - j <= m {
                    assert(open[n - j] == tag[n - j - 1]);
                }
            }
        }
    }
    found_at(x, open, 0, n);
    assert(x.skip(n + m + 2) =~= v);
    find_in_rest(x, close, n + m + 2, 0);
}

} // verus!
