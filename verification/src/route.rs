//! The default gateway: the router that owns the line.

use crate::lookup::{lines, next_line};
use crate::text::{
    bytes_are_two_digits_each, chars_of, decimal, decimal_numbers_are_read_back, digits_value,
    hex_bytes, splitting_goes_part_by_part, parse_number, parse_u64, push_decimal, same_text, split,
    split_text, string_of, texts, trim, trim_bounds,
};
use vstd::prelude::*;

verus! {

// ---- byte positions -------------------------------------------------------

/// The length of a character in UTF-8.
pub open spec fn utf8_len(c: char) -> int {
    if (c as u32) < 0x80 {
        1
    } else if (c as u32) < 0x800 {
        2
    } else if (c as u32) < 0x1_0000 {
        3
    } else {
        4
    }
}

/// The position of the character that begins at byte `k`, or the length of the
/// text where it ends there; nothing where `k` falls inside a character or
/// behind the end.
pub open spec fn char_at_byte(s: Seq<char>, k: int) -> Option<int>
    decreases s.len(),
{
    if k == 0 {
        Some(0)
    } else if s.len() == 0 || k < utf8_len(s[0]) {
        None
    } else {
        match char_at_byte(s.drop_first(), k - utf8_len(s[0])) {
            Some(i) => Some(i + 1),
            None => None,
        }
    }
}

fn char_index(chars: &Vec<char>, k: usize) -> (at: Option<usize>)
    requires
        k <= 8,
    ensures
        match at {
            Some(i) => char_at_byte(chars@, k as int) == Some(i as int) && i <= chars@.len(),
            None => char_at_byte(chars@, k as int) is None,
        },
{
    let mut i: usize = 0;
    let mut left: usize = k;
    assert(chars@.skip(0) =~= chars@);
    while left > 0
        invariant
            i <= chars@.len(),
            left <= k <= 8,
            match char_at_byte(chars@.skip(i as int), left as int) {
                Some(j) => char_at_byte(chars@, k as int) == Some(i + j),
                None => char_at_byte(chars@, k as int) is None,
            },
        decreases left,
    {
        if i == chars.len() {
            return None;
        }
        assert(chars@.skip(i as int).drop_first() =~= chars@.skip(i + 1));
        let c: u32 = chars[i] as u32;
        let n: usize = if c < 0x80 {
            1
        } else if c < 0x800 {
            2
        } else if c < 0x1_0000 {
            3
        } else {
            4
        };
        if left < n {
            return None;
        }
        left = left - n;
        i = i + 1;
    }
    Some(i)
}

// ---- the route table ------------------------------------------------------

/// One octet of a gateway column.
#[derive(Debug, Clone, Copy, PartialEq, Eq, Structural)]
pub enum Octet {
    Value(u8),
    /// The two bytes are no hexadecimal number.
    NoNumber,
    /// The column has no two bytes there, or they cut a character.
    Malformed,
}

/// The octet that bytes `k` and `k + 1` of a gateway column spell.
pub open spec fn octet_at(column: Seq<char>, k: int) -> Octet {
    match (char_at_byte(column, k), char_at_byte(column, k + 2)) {
        (Some(a), Some(b)) => match parse_number(column.subrange(a, b), 16) {
            Some(n) => if n <= u8::MAX {
                Octet::Value(n as u8)
            } else {
                Octet::NoNumber
            },
            None => Octet::NoNumber,
        },
        _ => Octet::Malformed,
    }
}

proof fn byte_positions_grow(s: Seq<char>, a: int, b: int)
    requires
        0 <= a <= b,
    ensures
        match (char_at_byte(s, a), char_at_byte(s, b)) {
            (Some(i), Some(j)) => 0 <= i <= j <= s.len(),
            _ => true,
        },
    decreases s.len(),
{
    if a > 0 && s.len() > 0 && a >= utf8_len(s[0]) {
        byte_positions_grow(s.drop_first(), a - utf8_len(s[0]), b - utf8_len(s[0]));
    } else if a == 0 && b > 0 && s.len() > 0 && b >= utf8_len(s[0]) {
        byte_positions_grow(s.drop_first(), 0, b - utf8_len(s[0]));
    }
}

fn read_octet(column: &Vec<char>, k: usize) -> (o: Octet)
    requires
        k <= 6,
    ensures
        o == octet_at(column@, k as int),
{
    let (a, b) = match (char_index(column, k), char_index(column, k + 2)) {
        (Some(a), Some(b)) => (a, b),
        _ => return Octet::Malformed,
    };
    proof {
        byte_positions_grow(column@, k as int, k + 2);
    }
    match parse_u64(column, a, b, 16) {
        Some(n) => {
            if n <= 255 {
                Octet::Value(n as u8)
            } else {
                Octet::NoNumber
            }
        },
        None => Octet::NoNumber,
    }
}

/// What a gateway column says.
#[derive(Debug, Clone, Copy, PartialEq, Eq, Structural)]
pub enum Address {
    V4(u8, u8, u8, u8),
    NoNumber,
    Malformed,
}

/// The address in a gateway column: four octets, the last one first.
pub open spec fn address_in(column: Seq<char>) -> Address {
    match octet_at(column, 6) {
        Octet::Malformed => Address::Malformed,
        Octet::NoNumber => Address::NoNumber,
        Octet::Value(a) => match octet_at(column, 4) {
            Octet::Malformed => Address::Malformed,
            Octet::NoNumber => Address::NoNumber,
            Octet::Value(b) => match octet_at(column, 2) {
                Octet::Malformed => Address::Malformed,
                Octet::NoNumber => Address::NoNumber,
                Octet::Value(c) => match octet_at(column, 0) {
                    Octet::Malformed => Address::Malformed,
                    Octet::NoNumber => Address::NoNumber,
                    Octet::Value(d) => Address::V4(a, b, c, d),
                },
            },
        },
    }
}

fn read_address(column: &Vec<char>) -> (r: Address)
    ensures
        r == address_in(column@),
{
    let a: u8 = match read_octet(column, 6) {
        Octet::Value(v) => v,
        Octet::NoNumber => return Address::NoNumber,
        Octet::Malformed => return Address::Malformed,
    };
    let b: u8 = match read_octet(column, 4) {
        Octet::Value(v) => v,
        Octet::NoNumber => return Address::NoNumber,
        Octet::Malformed => return Address::Malformed,
    };
    let c: u8 = match read_octet(column, 2) {
        Octet::Value(v) => v,
        Octet::NoNumber => return Address::NoNumber,
        Octet::Malformed => return Address::Malformed,
    };
    match read_octet(column, 0) {
        Octet::Value(d) => Address::V4(a, b, c, d),
        Octet::NoNumber => Address::NoNumber,
        Octet::Malformed => Address::Malformed,
    }
}

/// An IPv4 address in dotted notation.
pub open spec fn dotted(a: u8, b: u8, c: u8, d: u8) -> Seq<char> {
    decimal(a as nat) + "."@ + decimal(b as nat) + "."@ + decimal(c as nat) + "."@ + decimal(
        d as nat,
    )
}

fn dotted_text(a: u8, b: u8, c: u8, d: u8) -> (out: String)
    ensures
        out@ == dotted(a, b, c, d),
{
    let mut out: String = String::new();
    push_decimal(&mut out, a as u128);
    out.append(".");
    push_decimal(&mut out, b as u128);
    out.append(".");
    push_decimal(&mut out, c as u128);
    out.append(".");
    push_decimal(&mut out, d as u128);
    assert(out@ =~= dotted(a, b, c, d));
    out
}

/// What a route table says of the default gateway.
#[derive(Debug)]
pub enum Gateway {
    Found(String),
    Absent,
    /// A default route has a gateway column that cannot be cut into octets.
    Malformed,
}

/// What a [`Gateway`] says.
pub enum GatewayView {
    Found(Seq<char>),
    Absent,
    Malformed,
}

impl View for Gateway {
    type V = GatewayView;

    open spec fn view(&self) -> GatewayView {
        match *self {
            Gateway::Found(s) => GatewayView::Found(s@),
            Gateway::Absent => GatewayView::Absent,
            Gateway::Malformed => GatewayView::Malformed,
        }
    }
}

/// The gateway of the first default route among `rows` that has one. A gateway
/// that is no number ends the search.
pub open spec fn gateway_in(rows: Seq<Seq<char>>) -> GatewayView
    decreases rows.len(),
{
    if rows.len() == 0 {
        GatewayView::Absent
    } else {
        let columns = split(rows[0], '\t');
        if columns.len() > 3 && columns[1] == "00000000"@ {
            match address_in(columns[2]) {
                Address::Malformed => GatewayView::Malformed,
                Address::NoNumber => GatewayView::Absent,
                Address::V4(a, b, c, d) => if a == 0 && b == 0 && c == 0 && d == 0 {
                    gateway_in(rows.drop_first())
                } else {
                    GatewayView::Found(dotted(a, b, c, d))
                },
            }
        } else {
            gateway_in(rows.drop_first())
        }
    }
}

/// What one row of a route table says: nothing where it is no default route or
/// has no gateway.
fn read_row(chars: &Vec<char>, from: usize, to: usize) -> (g: Option<Gateway>)
    requires
        from <= to <= chars@.len(),
    ensures
        forall|rest: Seq<Seq<char>>|
            #[trigger] gateway_in(
                seq![chars@.subrange(from as int, to as int)] + rest,
            ) == (match g {
                Some(g) => g@,
                None => gateway_in(rest),
            }),
{
    let ghost row = chars@.subrange(from as int, to as int);
    assert forall|rest: Seq<Seq<char>>| (#[trigger] (seq![row] + rest)).drop_first() == rest by {
        assert((seq![row] + rest).drop_first() =~= rest);
    }
    let columns = split_text(chars, from, to, '\t');
    assert(texts(columns@).len() == columns@.len());
    if columns.len() <= 3 {
        return None;
    }
    assert(texts(columns@)[1] == columns@[1]@ && texts(columns@)[2] == columns@[2]@);
    if !same_text(columns[1].as_str(), "00000000") {
        return None;
    }
    let column = chars_of(columns[2].as_str());
    match read_address(&column) {
        Address::Malformed => Some(Gateway::Malformed),
        Address::NoNumber => Some(Gateway::Absent),
        Address::V4(a, b, c, d) => {
            if a == 0 && b == 0 && c == 0 && d == 0 {
                None
            } else {
                Some(Gateway::Found(dotted_text(a, b, c, d)))
            }
        },
    }
}

/// The default gateway in a route table, whose first line is a heading.
pub open spec fn gateway_of(table: Seq<char>) -> GatewayView {
    if lines(table).len() == 0 {
        GatewayView::Absent
    } else {
        gateway_in(lines(table).drop_first())
    }
}

/// The default gateway in a route table, whose first line is a heading.
pub fn default_gateway(table: &str) -> (g: Gateway)
    ensures
        g@ == (if lines(table@).len() == 0 {
            GatewayView::Absent
        } else {
            gateway_in(lines(table@).drop_first())
        }),
        g@ == gateway_of(table@),
{
    let chars = chars_of(table);
    if chars.len() == 0 {
        return Gateway::Absent;
    }
    assert(chars@.skip(0) =~= table@);
    let (end, next) = next_line(&chars, 0);
    assert(lines(table@).drop_first() =~= lines(chars@.skip(next as int)));
    let mut at: usize = next;
    while at < chars.len()
        invariant
            at <= chars@.len(),
            lines(table@).len() > 0,
            gateway_in(lines(table@).drop_first()) == gateway_in(lines(chars@.skip(at as int))),
        decreases chars@.len() - at,
    {
        let (end, next) = next_line(&chars, at);
        match read_row(&chars, at, end) {
            Some(g) => {
                return g;
            },
            None => {},
        }
        at = next;
    }
    assert(chars@.skip(at as int).len() == 0);
    Gateway::Absent
}

// ---- dotted addresses -----------------------------------------------------

/// Whether `s` is one number of a dotted address: one to three digits, at most
/// 255, no leading zero.
pub open spec fn octet_text(s: Seq<char>) -> bool {
    &&& 1 <= s.len() <= 3
    &&& (s.len() > 1 ==> s[0] != '0')
    &&& match digits_value(s, 10) {
        Some(n) => n <= 255,
        None => false,
    }
}

/// Whether `s` is an IPv4 address in dotted notation.
pub open spec fn ipv4_text(s: Seq<char>) -> bool {
    let parts = split(s, '.');
    parts.len() == 4 && forall|i: int| 0 <= i < 4 ==> octet_text(#[trigger] parts[i])
}

fn is_octet(s: &str) -> (yes: bool)
    ensures
        yes == octet_text(s@),
{
    let chars = chars_of(s);
    let n: usize = chars.len();
    if n == 0 || n > 3 || chars[0] == '+' {
        proof {
            if n > 0 && chars@[0] == '+' {
                assert(digits_value(s@, 10) is None) by {
                    digits_need_digits(s@, 0);
                }
            }
        }
        return false;
    }
    if n > 1 && chars[0] == '0' {
        return false;
    }
    assert(chars@.subrange(0, n as int) =~= s@);
    match parse_u64(&chars, 0, n, 10) {
        Some(v) => v <= 255,
        None => false,
    }
}

proof fn digits_need_digits(s: Seq<char>, i: int)
    requires
        0 <= i < s.len(),
        crate::text::digit_value(s[i], 10) is None,
    ensures
        digits_value(s, 10) is None,
    decreases s.len(),
{
    if i < s.len() - 1 {
        digits_need_digits(s.drop_last(), i);
    }
}

/// Whether an address that the operating system reports can be a gateway.
pub open spec fn acceptable_gateway(value: Seq<char>) -> bool {
    value.len() > 0 && !crate::text::matches_at(value, "0."@, 0) && ipv4_text(value)
}

/// The gateway in a reply of the operating system: the reply without
/// surrounding space, where it is an IPv4 address outside 0.0.0.0/8.
pub fn reported_gateway(reply: &str) -> (g: Option<String>)
    ensures
        ({
            let value = trim(reply@);
            let accepted = value.len() > 0 && !crate::text::matches_at(value, "0."@, 0)
                && ipv4_text(value);
            match g {
                Some(g) => accepted && g@ == value,
                None => !accepted,
            }
        }),
        match g {
            Some(g) => acceptable_gateway(trim(reply@)) && g@ == trim(reply@),
            None => !acceptable_gateway(trim(reply@)),
        },
{
    let chars = chars_of(reply);
    let (a, b) = trim_bounds(&chars, 0, chars.len());
    assert(chars@.subrange(0, chars@.len() as int) =~= reply@);
    let value = string_of(&chars, a, b);
    let whole = chars_of(value.as_str());
    if whole.len() == 0 || crate::text::stands_at(&whole, &chars_of("0."), 0) {
        return None;
    }
    let parts = split_text(&whole, 0, whole.len(), '.');
    assert(whole@.subrange(0, whole@.len() as int) =~= whole@);
    assert(texts(parts@).len() == parts@.len());
    if parts.len() != 4 {
        return None;
    }
    let mut i: usize = 0;
    while i < 4
        invariant
            i <= 4,
            parts@.len() == 4,
            value@ == trim(reply@),
            texts(parts@) == split(value@, '.'),
            forall|j: int| 0 <= j < i ==> octet_text(#[trigger] texts(parts@)[j]),
        decreases 4 - i,
    {
        assert(texts(parts@)[i as int] == parts@[i as int]@);
        if !is_octet(parts[i].as_str()) {
            assert(!octet_text(split(value@, '.')[i as int]));
            return None;
        }
        i = i + 1;
    }
    Some(value)
}

// ---- laws -----------------------------------------------------------------

/// In ASCII text every character is one byte.
proof fn ascii_positions(s: Seq<char>, k: int)
    requires
        0 <= k <= s.len(),
        forall|i: int| 0 <= i < s.len() ==> (#[trigger] s[i] as u32) < 0x80,
    ensures
        char_at_byte(s, k) == Some(k),
    decreases k,
{
    if k > 0 {
        let rest = s.drop_first();
        assert(s[0] as u32 <= 0x7f);
        assert forall|i: int| 0 <= i < rest.len() implies (#[trigger] rest[i] as u32) < 0x80 by {
            assert(rest[i] == s[i + 1]);
        }
        ascii_positions(rest, k - 1);
    }
}

proof fn hex_bytes_are_ascii(bytes: Seq<u8>)
    ensures
        hex_bytes(bytes).len() == 2 * bytes.len(),
        forall|i: int|
            0 <= i < hex_bytes(bytes).len() ==> (#[trigger] hex_bytes(bytes)[i] as u32) < 0x80
                && hex_bytes(bytes)[i] != '+' && hex_bytes(bytes)[i] != '\t',
    decreases bytes.len(),
{
    if bytes.len() > 0 {
        let before = hex_bytes(bytes.drop_last());
        hex_bytes_are_ascii(bytes.drop_last());
        let t = hex_bytes(bytes);
        assert forall|i: int| 0 <= i < t.len() implies (#[trigger] t[i] as u32) < 0x80 && t[i]
            != '+' && t[i] != '\t' by {
            if i < before.len() {
                assert(t[i] == before[i]);
            }
        }
    }
}

/// A gateway column of eight hexadecimal digits is an address with its last byte
/// written first.
pub proof fn gateways_are_written_backwards(a: u8, b: u8, c: u8, d: u8)
    ensures
        address_in(hex_bytes(seq![d, c, b, a])) == Address::V4(a, b, c, d),
{
    let bytes = seq![d, c, b, a];
    let t = hex_bytes(bytes);
    hex_bytes_are_ascii(bytes);
    ascii_positions(t, 0);
    ascii_positions(t, 2);
    ascii_positions(t, 4);
    ascii_positions(t, 6);
    ascii_positions(t, 8);
    bytes_are_two_digits_each(bytes, 0);
    bytes_are_two_digits_each(bytes, 1);
    bytes_are_two_digits_each(bytes, 2);
    bytes_are_two_digits_each(bytes, 3);
    assert(t.subrange(0, 2)[0] == t[0]);
    assert(t.subrange(2, 4)[0] == t[2]);
    assert(t.subrange(4, 6)[0] == t[4]);
    assert(t.subrange(6, 8)[0] == t[6]);
}

/// A route row: the interface, the destination, the gateway and the rest.
pub open spec fn route_row(
    iface: Seq<char>,
    dest: Seq<char>,
    gateway: Seq<char>,
    rest: Seq<char>,
) -> Seq<char> {
    iface + seq!['\t'] + (dest + seq!['\t'] + (gateway + seq!['\t'] + rest))
}

proof fn row_columns(iface: Seq<char>, dest: Seq<char>, gateway: Seq<char>, rest: Seq<char>)
    requires
        !iface.contains('\t'),
        !dest.contains('\t'),
        !gateway.contains('\t'),
    ensures
        ({
            let columns = split(route_row(iface, dest, gateway, rest), '\t');
            columns.len() > 3 && columns[1] == dest && columns[2] == gateway
        }),
{
    let c = gateway + seq!['\t'] + rest;
    let b = dest + seq!['\t'] + c;
    splitting_goes_part_by_part(iface, b, '\t');
    splitting_goes_part_by_part(dest, c, '\t');
    splitting_goes_part_by_part(gateway, rest, '\t');
    crate::text::joining_undoes_splitting(rest, '\t');
}

/// The gateway of a table is that of its first default route which has one: rows
/// for other destinations are passed over, and so are default routes by 0.0.0.0.
pub proof fn the_first_default_route_counts(
    iface: Seq<char>,
    dest: Seq<char>,
    rest: Seq<char>,
    rows: Seq<Seq<char>>,
    a: u8,
    b: u8,
    c: u8,
    d: u8,
)
    requires
        !iface.contains('\t'),
        !dest.contains('\t'),
    ensures
        ({
            let row = route_row(iface, dest, hex_bytes(seq![d, c, b, a]), rest);
            gateway_in(seq![row] + rows) == (if dest == "00000000"@ && (a != 0 || b != 0 || c != 0
                || d != 0) {
                GatewayView::Found(dotted(a, b, c, d))
            } else {
                gateway_in(rows)
            })
        }),
        gateway_in(Seq::empty()) == GatewayView::Absent,
{
    let gw = hex_bytes(seq![d, c, b, a]);
    hex_bytes_are_ascii(seq![d, c, b, a]);
    assert(!gw.contains('\t'));
    row_columns(iface, dest, gw, rest);
    gateways_are_written_backwards(a, b, c, d);
    let all = seq![route_row(iface, dest, gw, rest)] + rows;
    assert(all.drop_first() =~= rows);
}

/// The first line of a table is its heading and no route.
pub proof fn the_heading_is_no_route(heading: Seq<char>, rows: Seq<char>)
    requires
        !heading.contains('\n'),
    ensures
        gateway_of(heading + seq!['\r', '\n'] + rows) == gateway_in(lines(rows)),
        heading.len() == 0 || heading.last() != '\r' ==> gateway_of(
            heading + seq!['\n'] + rows,
        ) == gateway_in(lines(rows)),
        gateway_of(heading) == GatewayView::Absent,
{
    crate::lookup::a_text_is_line_after_line(heading, rows);
    assert((seq![heading] + lines(rows)).drop_first() =~= lines(rows));
    assert(seq![heading].drop_first() =~= Seq::<Seq<char>>::empty());
    if heading.len() == 0 {
        assert(heading =~= Seq::empty());
    }
}

proof fn octets_are_octets(n: u8)
    ensures
        octet_text(decimal(n as nat)),
        !decimal(n as nat).contains('.'),
        n != 0 ==> decimal(n as nat)[0] != '0',
        n == 0 ==> decimal(n as nat) == seq!['0'],
{
    let t = decimal(n as nat);
    decimal_numbers_are_read_back(n as nat);
    assert(t.len() <= 3) by {
        reveal_with_fuel(decimal, 4);
    }
    if t.contains('.') {
        let k = choose|k: int| 0 <= k < t.len() && t[k] == '.';
        assert('0' <= t[k] <= '9');
    }
    if n == 0 {
        assert(t =~= seq!['0']);
    }
}

/// Every address in dotted notation is taken for one, and is accepted as a
/// gateway unless its first number is zero.
pub proof fn dotted_addresses_are_accepted(a: u8, b: u8, c: u8, d: u8)
    ensures
        ipv4_text(dotted(a, b, c, d)),
        acceptable_gateway(dotted(a, b, c, d)) <==> a != 0,
{
    reveal_strlit(".");
    reveal_strlit("0.");
    let (ta, tb, tc, td) = (
        decimal(a as nat),
        decimal(b as nat),
        decimal(c as nat),
        decimal(d as nat),
    );
    octets_are_octets(a);
    octets_are_octets(b);
    octets_are_octets(c);
    octets_are_octets(d);
    let z = tc + seq!['.'] + td;
    let y = tb + seq!['.'] + z;
    let x = dotted(a, b, c, d);
    assert("."@ =~= seq!['.']);
    assert(x =~= ta + seq!['.'] + y);
    splitting_goes_part_by_part(ta, y, '.');
    splitting_goes_part_by_part(tb, z, '.');
    splitting_goes_part_by_part(tc, td, '.');
    splitting_goes_part_by_part(td, td, '.');
    assert(split(x, '.') =~= seq![ta, tb, tc, td]);
    assert(x[0] == ta[0]);
    if a == 0 {
        assert(x.subrange(0, 2) =~= "0."@);
    } else if crate::text::matches_at(x, "0."@, 0) {
        assert(x.subrange(0, 2)[0] == '0');
    }
}

proof fn utf8_len_is_right(c: char)
    ensures
        vstd::utf8::encode_scalar(c as u32).len() == utf8_len(c),
{
}

/// A character that begins at a byte has just so many bytes of UTF-8 before it.
pub proof fn byte_positions_count_utf8(s: Seq<char>, k: int)
    requires
        k >= 0,
    ensures
        char_at_byte(s, k) matches Some(i) ==> 0 <= i <= s.len() && vstd::utf8::encode_utf8(
            s.take(i),
        ).len() == k,
    decreases s.len(),
{
    if k == 0 {
        assert(s.take(0) =~= Seq::empty());
    } else if s.len() > 0 && k >= utf8_len(s[0]) {
        let rest = s.drop_first();
        byte_positions_count_utf8(rest, k - utf8_len(s[0]));
        if let Some(i) = char_at_byte(rest, k - utf8_len(s[0])) {
            let t = s.take(i + 1);
            assert(t[0] == s[0]);
            assert(t.drop_first() =~= rest.take(i));
            utf8_len_is_right(s[0]);
            assert(vstd::utf8::encode_utf8(t) =~= vstd::utf8::encode_scalar(s[0] as u32)
                + vstd::utf8::encode_utf8(rest.take(i)));
        }
    }
}

} // verus!
