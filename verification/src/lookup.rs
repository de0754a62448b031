//! Connection information from the trace endpoint and a geolocation service.

use crate::net::{ConnectionInfo, ConnectionView};
use crate::text::{
    chars_of, find, find_is_first, matches_at, opt_text, same_text, string_of, trim, trim_bounds,
};
use vstd::prelude::*;

verus! {

/// The lines of a text: what stands between line feeds, without a carriage
/// return right before the line feed; an empty rest is no line.
pub open spec fn lines(s: Seq<char>) -> Seq<Seq<char>>
    decreases s.len(),
{
    if s.len() == 0 {
        seq![]
    } else {
        match find(s, seq!['\n'], 0) {
            Some(i) => if 0 <= i < s.len() {
                seq![line_body(s.take(i))] + lines(s.skip(i + 1))
            } else {
                seq![s]
            },
            None => seq![s],
        }
    }
}

/// A line without the carriage return at its end.
pub open spec fn line_body(s: Seq<char>) -> Seq<char> {
    if s.len() > 0 && s.last() == '\r' {
        s.drop_last()
    } else {
        s
    }
}

/// The bounds of the line that begins at `from`, and where the next one begins.
pub(crate) fn next_line(chars: &Vec<char>, from: usize) -> (r: (usize, usize))
    requires
        from < chars@.len(),
    ensures
        from <= r.0 <= chars@.len(),
        from < r.1 <= chars@.len(),
        lines(chars@.skip(from as int)) == seq![chars@.subrange(from as int, r.0 as int)] + lines(
            chars@.skip(r.1 as int),
        ),
{
    let ghost rest = chars@.skip(from as int);
    let mut i: usize = from;
    while i < chars.len() && chars[i] != '\n'
        invariant
            from <= i <= chars@.len(),
            rest == chars@.skip(from as int),
            forall|j: int| from <= j < i ==> chars@[j] != '\n',
        decreases chars@.len() - i,
    {
        i = i + 1;
    }
    proof {
        crate::text::find_is_first(rest, seq!['\n'], 0);
        if i < chars@.len() {
            assert(rest.subrange(i - from, i - from + 1) =~= seq!['\n']);
            assert(crate::text::matches_at(rest, seq!['\n'], i - from));
            let at = find(rest, seq!['\n'], 0)->0;
            assert(rest.subrange(at, at + 1)[0] == '\n');
            assert(at == i - from);
            assert(rest.take(at) =~= chars@.subrange(from as int, i as int));
            assert(rest.skip(at + 1) =~= chars@.skip(i + 1));
        } else {
            if find(rest, seq!['\n'], 0) is Some {
                let at = find(rest, seq!['\n'], 0)->0;
                assert(rest.subrange(at, at + 1)[0] == '\n');
                assert(chars@[from + at] == '\n');
            }
            assert(rest =~= chars@.subrange(from as int, i as int));
            assert(chars@.skip(i as int) =~= Seq::empty());
        }
    }
    if i == chars.len() {
        assert(lines(rest) =~= seq![chars@.subrange(from as int, i as int)] + lines(
            chars@.skip(i as int),
        ));
        return (i, i);
    }
    let end: usize = if i > from && chars[i - 1] == '\r' {
        i - 1
    } else {
        i
    };
    assert(chars@.subrange(from as int, end as int) =~= line_body(
        chars@.subrange(from as int, i as int),
    ));
    (end, i + 1)
}

/// What a trace response tells of the connection.
#[derive(Debug)]
pub struct Trace {
    pub ip: Option<String>,
    pub colo: Option<String>,
    pub loc: Option<String>,
}

/// The contents of a [`Trace`].
#[verifier::ext_equal]
pub struct TraceView {
    pub ip: Option<Seq<char>>,
    pub colo: Option<Seq<char>>,
    pub loc: Option<Seq<char>>,
}

impl View for Trace {
    type V = TraceView;

    open spec fn view(&self) -> TraceView {
        TraceView { ip: opt_text(self.ip), colo: opt_text(self.colo), loc: opt_text(self.loc) }
    }
}

/// What stands before the first `=` of a line, or all of it.
pub open spec fn line_key(line: Seq<char>) -> Seq<char> {
    match find(line, seq!['='], 0) {
        Some(i) => line.take(i),
        None => line,
    }
}

/// What stands behind the first `=` of a line, trimmed.
pub open spec fn line_value(line: Seq<char>) -> Seq<char> {
    match find(line, seq!['='], 0) {
        Some(i) => trim(line.skip(i + 1)),
        None => trim(Seq::empty()),
    }
}

impl TraceView {
    pub open spec fn blank() -> Self {
        TraceView { ip: None, colo: None, loc: None }
    }

    /// With what one more line tells.
    pub open spec fn with_line(self, line: Seq<char>) -> Self {
        let key = line_key(line);
        let value = line_value(line);
        if key == "ip"@ {
            TraceView { ip: Some(value), ..self }
        } else if key == "colo"@ {
            TraceView { colo: Some(value), ..self }
        } else if key == "loc"@ {
            TraceView { loc: Some(value), ..self }
        } else {
            self
        }
    }

    /// With what every line of a list tells, one after the other.
    pub open spec fn with_lines(self, ls: Seq<Seq<char>>) -> Self
        decreases ls.len(),
    {
        if ls.len() == 0 {
            self
        } else {
            self.with_line(ls[0]).with_lines(ls.drop_first())
        }
    }
}

/// The key and the value of the line `chars[from..to]`.
fn key_and_value(chars: &Vec<char>, from: usize, to: usize) -> (r: (String, String))
    requires
        from <= to <= chars@.len(),
    ensures
        r.0@ == line_key(chars@.subrange(from as int, to as int)),
        r.1@ == line_value(chars@.subrange(from as int, to as int)),
{
    let ghost line = chars@.subrange(from as int, to as int);
    let mut i: usize = from;
    while i < to && chars[i] != '='
        invariant
            from <= i <= to <= chars@.len(),
            forall|j: int| from <= j < i ==> chars@[j] != '=',
        decreases to - i,
    {
        i = i + 1;
    }
    proof {
        crate::text::find_is_first(line, seq!['='], 0);
        if i < to {
            assert(line.subrange(i - from, i - from + 1) =~= seq!['=']);
            assert(crate::text::matches_at(line, seq!['='], i - from));
            let at = find(line, seq!['='], 0)->0;
            assert(line.subrange(at, at + 1)[0] == '=');
            assert(at == i - from);
            assert(line.take(at) =~= chars@.subrange(from as int, i as int));
            assert(line.skip(at + 1) =~= chars@.subrange(i + 1, to as int));
        } else {
            if find(line, seq!['='], 0) is Some {
                let at = find(line, seq!['='], 0)->0;
                assert(line.subrange(at, at + 1)[0] == '=');
                assert(chars@[from + at] == '=');
            }
            assert(line =~= chars@.subrange(from as int, i as int));
        }
    }
    let key = string_of(chars, from, i);
    let start: usize = if i < to {
        i + 1
    } else {
        to
    };
    let (a, b) = trim_bounds(chars, start, to);
    assert(i == to ==> chars@.subrange(start as int, to as int) =~= Seq::empty());
    (key, string_of(chars, a, b))
}

/// Reads a trace response: the last `ip`, `colo` and `loc` line count.
pub fn parse_trace(text: &str) -> (t: Trace)
    ensures
        t@ == TraceView::blank().with_lines(lines(text@)),
{
    let chars = chars_of(text);
    let mut t = Trace { ip: None, colo: None, loc: None };
    let mut at: usize = 0;
    assert(chars@.skip(0) =~= text@);
    while at < chars.len()
        invariant
            at <= chars@.len(),
            chars@ == text@,
            TraceView::blank().with_lines(lines(text@)) == t@.with_lines(
                lines(chars@.skip(at as int)),
            ),
        decreases chars@.len() - at,
    {
        let (end, next) = next_line(&chars, at);
        let ghost ls = lines(chars@.skip(at as int));
        assert(ls[0] == chars@.subrange(at as int, end as int));
        assert(ls.drop_first() =~= lines(chars@.skip(next as int)));
        let (key, value) = key_and_value(&chars, at, end);
        if same_text(key.as_str(), "ip") {
            t.ip = Some(value);
        } else if same_text(key.as_str(), "colo") {
            t.colo = Some(value);
        } else if same_text(key.as_str(), "loc") {
            t.loc = Some(value);
        }
        at = next;
    }
    assert(chars@.skip(at as int) =~= Seq::empty());
    t
}

/// What a geolocation service tells of the network.
#[derive(Debug)]
pub struct GeoConnection {
    pub asn: Option<i64>,
    pub org: Option<String>,
    pub isp: Option<String>,
}

/// What a geolocation service tells of the connection.
#[derive(Debug)]
pub struct GeoInfo {
    pub ip: String,
    pub city: Option<String>,
    pub country: Option<String>,
    pub connection: Option<GeoConnection>,
}

/// The organization: the one named, else the provider, else unknown.
pub open spec fn organization(geo: Option<GeoInfo>) -> Seq<char> {
    match geo {
        Some(g) => match g.connection {
            Some(c) => match (c.org, c.isp) {
                (Some(org), _) => org@,
                (None, Some(isp)) => isp@,
                (None, None) => "unknown"@,
            },
            None => "unknown"@,
        },
        None => "unknown"@,
    }
}

/// The country: the one that the geolocation names, where it names one, else
/// the location of the trace.
pub open spec fn country_of(trace: TraceView, geo: Option<GeoInfo>) -> Option<Seq<char>> {
    match geo {
        Some(g) => match g.country {
            Some(c) => if c@.len() > 0 {
                Some(c@)
            } else {
                trace.loc
            },
            None => trace.loc,
        },
        None => trace.loc,
    }
}

/// The connection information that trace and geolocation give together; none
/// where neither knows the address.
pub open spec fn merged(trace: TraceView, geo: Option<GeoInfo>) -> Option<ConnectionView> {
    let ip = match (trace.ip, geo) {
        (Some(ip), _) => Some(ip),
        (None, Some(g)) => Some(g.ip@),
        (None, None) => None,
    };
    match ip {
        Some(ip) => Some(
            ConnectionView {
                client_ip: ip,
                as_organization: organization(geo),
                asn: match geo {
                    Some(g) => match g.connection {
                        Some(c) => c.asn,
                        None => None,
                    },
                    None => None,
                },
                city: match geo {
                    Some(g) => opt_text(g.city),
                    None => None,
                },
                country: country_of(trace, geo),
                colo: trace.colo,
            },
        ),
        None => None,
    }
}

/// Merges trace and geolocation; an error where neither knows the address.
pub fn merge_lookup(trace: Trace, geo: Option<GeoInfo>) -> (r: Result<
    ConnectionInfo,
    &'static str,
>)
    ensures
        match r {
            Ok(info) => merged(trace@, geo) == Some(info@),
            Err(msg) => merged(trace@, geo) is None && msg@
                == "could not determine connection info"@,
        },
{
    match geo {
        None => match trace.ip {
            Some(ip) => Ok(
                ConnectionInfo {
                    client_ip: ip,
                    as_organization: "unknown".to_owned(),
                    asn: None,
                    city: None,
                    country: trace.loc,
                    colo: trace.colo,
                },
            ),
            None => Err("could not determine connection info"),
        },
        Some(g) => {
            let (asn, org): (Option<i64>, String) = match g.connection {
                Some(c) => (
                    c.asn,
                    match c.org {
                        Some(org) => org,
                        None => match c.isp {
                            Some(isp) => isp,
                            None => "unknown".to_owned(),
                        },
                    },
                ),
                None => (None, "unknown".to_owned()),
            };
            let country = match g.country {
                Some(c) => if c.as_str().is_empty() {
                    trace.loc
                } else {
                    Some(c)
                },
                None => trace.loc,
            };
            let ip = match trace.ip {
                Some(ip) => ip,
                None => g.ip,
            };
            Ok(
                ConnectionInfo {
                    client_ip: ip,
                    as_organization: org,
                    asn,
                    city: g.city,
                    country,
                    colo: trace.colo,
                },
            )
        },
    }
}

// ---- order ----------------------------------------------------------------

/// What a lookup of the connection does next.
#[derive(Debug)]
pub enum LookupStep {
    /// Ask for the metadata of the connection.
    AskMeta,
    /// Ask for the trace, and complete it with [`merge_lookup`].
    AskTrace,
    /// Nothing: this is the answer.
    Done(ConnectionInfo),
}

/// A lookup begins with the metadata.
pub fn begin_lookup() -> (step: LookupStep)
    ensures
        step == LookupStep::AskMeta,
{
    LookupStep::AskMeta
}

/// What follows the answer to the request for metadata: an answer ends the
/// lookup, and where there is none the trace is asked for.
pub fn after_meta(meta: Option<ConnectionInfo>) -> (step: LookupStep)
    ensures
        step == (match meta {
            Some(info) => LookupStep::Done(info),
            None => LookupStep::AskTrace,
        }),
{
    match meta {
        Some(info) => LookupStep::Done(info),
        None => LookupStep::AskTrace,
    }
}

// ---- laws -----------------------------------------------------------------

/// A character that does not stand in front of its place is found there.
proof fn char_found(s: Seq<char>, c: char, i: int)
    requires
        0 <= i < s.len(),
        s[i] == c,
        forall|j: int| 0 <= j < i ==> #[trigger] s[j] != c,
    ensures
        find(s, seq![c], 0) == Some(i),
{
    find_is_first(s, seq![c], 0);
    assert(s.subrange(i, i + 1) =~= seq![c]);
    assert(matches_at(s, seq![c], i));
    let at = find(s, seq![c], 0)->0;
    assert(s.subrange(at, at + 1)[0] == c);
    assert(s[at] == c);
}

proof fn char_missing(s: Seq<char>, c: char)
    requires
        !s.contains(c),
    ensures
        find(s, seq![c], 0) is None,
{
    find_is_first(s, seq![c], 0);
    if let Some(at) = find(s, seq![c], 0) {
        assert(s.subrange(at, at + 1)[0] == c);
        assert(s[at] == c);
    }
}

/// A text is its first line and then the lines of what stands behind the line
/// feed, of which a carriage return may stand before it; a text without line feed
/// is one line.
pub proof fn a_text_is_line_after_line(a: Seq<char>, b: Seq<char>)
    requires
        !a.contains('\n'),
    ensures
        a.len() == 0 || a.last() != '\r' ==> lines(a + seq!['\n'] + b) == seq![a] + lines(b),
        lines(a + seq!['\r', '\n'] + b) == seq![a] + lines(b),
        a.len() > 0 ==> lines(a) == seq![a],
        lines(Seq::empty()) == Seq::<Seq<char>>::empty(),
{
    let n = a.len() as int;
    let x = a + seq!['\n'] + b;
    assert forall|j: int| 0 <= j < n implies #[trigger] x[j] != '\n' by {
        assert(a.contains(a[j]));
    }
    char_found(x, '\n', n);
    assert(x.take(n) =~= a);
    assert(x.skip(n + 1) =~= b);
    let y = a + seq!['\r', '\n'] + b;
    assert forall|j: int| 0 <= j < n + 1 implies #[trigger] y[j] != '\n' by {
        if j < n {
            assert(a.contains(a[j]));
        }
    }
    char_found(y, '\n', n + 1);
    assert(y.take(n + 1) =~= a.push('\r'));
    assert(a.push('\r').drop_last() =~= a);
    assert(y.skip(n + 2) =~= b);
    char_missing(a, '\n');
}

proof fn key_of_line(key: Seq<char>, v: Seq<char>)
    requires
        !key.contains('='),
    ensures
        line_key(key + seq!['='] + v) == key,
        line_value(key + seq!['='] + v) == trim(v),
{
    let x = key + seq!['='] + v;
    let n = key.len() as int;
    assert forall|j: int| 0 <= j < n implies #[trigger] x[j] != '=' by {
        assert(key.contains(key[j]));
    }
    char_found(x, '=', n);
    assert(x.take(n) =~= key);
    assert(x.skip(n + 1) =~= v);
}

/// A line `key=value` tells what stands behind the first `=`, without the space
/// around it, and of its key alone: `ip`, `colo` or `loc`; a line with any other
/// key tells nothing.
pub proof fn a_trace_line_tells_one_thing(t: TraceView, key: Seq<char>, v: Seq<char>)
    requires
        !key.contains('='),
    ensures
        ({
            let u = t.with_line(key + seq!['='] + v);
            &&& key == "ip"@ ==> u == (TraceView { ip: Some(trim(v)), ..t })
            &&& key == "colo"@ ==> u == (TraceView { colo: Some(trim(v)), ..t })
            &&& key == "loc"@ ==> u == (TraceView { loc: Some(trim(v)), ..t })
            &&& key != "ip"@ && key != "colo"@ && key != "loc"@ ==> u == t
        }),
{
    key_of_line(key, v);
    reveal_strlit("ip");
    reveal_strlit("colo");
    reveal_strlit("loc");
    assert("ip"@.len() == 2 && "colo"@.len() == 4 && "loc"@.len() == 3);
}

/// Lines are read one after the other: what a later one tells stands.
pub proof fn the_last_trace_line_counts(t: TraceView, ls: Seq<Seq<char>>, line: Seq<char>)
    ensures
        t.with_lines(ls.push(line)) == t.with_lines(ls).with_line(line),
        t.with_lines(Seq::empty()) == t,
    decreases ls.len(),
{
    let all = ls.push(line);
    if ls.len() == 0 {
        assert(all.drop_first() =~= Seq::empty());
        assert(all[0] == line);
        let u = t.with_line(line);
        assert(u.with_lines(Seq::empty()) == u);
    } else {
        assert(all.drop_first() =~= ls.drop_first().push(line));
        assert(all[0] == ls[0]);
        the_last_trace_line_counts(t.with_line(ls[0]), ls.drop_first(), line);
    }
}

/// The connection is known exactly where the trace or the geolocation knows the
/// address; the trace's address, place and data centre go before, and nothing
/// else is taken from the wrong one.
pub proof fn lookups_complete_each_other(trace: TraceView, geo: Option<GeoInfo>)
    ensures
        merged(trace, geo) is Some <==> trace.ip is Some || geo is Some,
        merged(trace, geo) matches Some(c) ==> {
            &&& c.client_ip == (if trace.ip is Some {
                trace.ip->0
            } else {
                geo->0.ip@
            })
            &&& c.colo == trace.colo
            &&& geo is None ==> c.asn is None && c.city is None && c.country == trace.loc
                && c.as_organization == "unknown"@
            &&& geo matches Some(g) ==> {
                &&& c.city == opt_text(g.city)
                &&& g.country is None || g.country->0@.len() == 0 ==> c.country == trace.loc
                &&& g.country is Some && g.country->0@.len() > 0 ==> c.country == Some(
                    g.country->0@,
                )
                &&& g.connection is None ==> c.asn is None && c.as_organization == "unknown"@
                &&& g.connection matches Some(n) ==> {
                    &&& c.asn == n.asn
                    &&& n.org is Some ==> c.as_organization == n.org->0@
                    &&& n.org is None && n.isp is Some ==> c.as_organization == n.isp->0@
                    &&& n.org is None && n.isp is None ==> c.as_organization == "unknown"@
                }
            }
        },
{
}

} // verus!
