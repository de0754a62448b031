//! Character-level text: searching, trimming, parsing and formatting.
//!
//! Every function works on characters, so an index is the position of a
//! character and never falls inside one.

use vstd::prelude::*;

verus! {

// ---- conversions ----------------------------------------------------------

/// `String::push` appends one character.
pub assume_specification[ String::push ](s: &mut String, c: char)
    ensures
        final(s)@ == old(s)@.push(c),
;

/// `String::pop` removes the last character and returns it, or returns `None`
/// on an empty string and leaves it as it is.
pub assume_specification[ String::pop ](s: &mut String) -> (last: Option<char>)
    ensures
        old(s)@.len() == 0 ==> last is None && final(s)@ == old(s)@,
        old(s)@.len() > 0 ==> last == Some(old(s)@.last()) && final(s)@ == old(s)@.drop_last(),
;

/// The characters of `s`, in order.
pub fn chars_of(s: &str) -> (out: Vec<char>)
    ensures
        out@ == s@,
{
    let mut out: Vec<char> = Vec::new();
    for c in it: s.chars()
        invariant
            out@ == it.seq().take(it.index() as int),
            it.seq() == s@,
    {
        out.push(c);
    }
    out
}

/// The string whose characters are `chars[from..to]`.
pub fn string_of(chars: &Vec<char>, from: usize, to: usize) -> (out: String)
    requires
        from <= to <= chars@.len(),
    ensures
        out@ == chars@.subrange(from as int, to as int),
{
    let mut out: String = String::new();
    let mut i: usize = from;
    while i < to
        invariant
            from <= i <= to <= chars@.len(),
            out@ == chars@.subrange(from as int, i as int),
        decreases to - i,
    {
        out.push(chars[i]);
        assert(chars@.subrange(from as int, i as int + 1) =~= chars@.subrange(
            from as int,
            i as int,
        ).push(chars@[i as int]));
        i = i + 1;
    }
    out
}

/// A new string that holds the concatenation of `a` and `b`.
pub fn concat(a: &str, b: &str) -> (out: String)
    ensures
        out@ == a@ + b@,
{
    let mut out: String = a.to_owned();
    out.append(b);
    out
}

/// Whether two texts hold the same characters.
pub fn same_text(a: &str, b: &str) -> (same: bool)
    ensures
        same == (a@ == b@),
{
    let x: String = a.to_owned();
    let y: String = b.to_owned();
    x == y
}

/// Whether `list` holds a string with the characters of `s`.
pub fn list_has(list: &Vec<String>, s: &str) -> (found: bool)
    ensures
        found == texts(list@).contains(s@),
{
    let mut i: usize = 0;
    while i < list.len()
        invariant
            i <= list@.len(),
            forall|j: int| 0 <= j < i ==> #[trigger] texts(list@)[j] != s@,
        decreases list@.len() - i,
    {
        if same_text(list[i].as_str(), s) {
            assert(texts(list@)[i as int] == s@);
            return true;
        }
        i = i + 1;
    }
    false
}

/// The characters of every string of a list.
pub open spec fn texts(list: Seq<String>) -> Seq<Seq<char>> {
    list.map_values(|s: String| s@)
}

/// The characters of an optional string.
pub open spec fn opt_text(s: Option<String>) -> Option<Seq<char>> {
    match s {
        Some(s) => Some(s@),
        None => None,
    }
}

// ---- input fields ---------------------------------------------------------

/// The characters that an input field takes at most.
pub const INPUT_LIMIT: usize = 128;

/// `s` without its last character, where it has one.
pub open spec fn without_last(s: Seq<char>) -> Seq<char> {
    if s.len() > 0 {
        s.drop_last()
    } else {
        s
    }
}

/// An input field with one more character, where there is room.
pub open spec fn with_char(s: Seq<char>, c: char) -> Seq<char> {
    if s.len() < INPUT_LIMIT {
        s.push(c)
    } else {
        s
    }
}

/// Appends a character to an input field, where there is room.
pub fn push_limited(s: &mut String, c: char)
    ensures
        final(s)@ == with_char(old(s)@, c),
{
    if s.as_str().unicode_len() < INPUT_LIMIT {
        s.push(c);
    }
}

// ---- searching ------------------------------------------------------------

/// Whether `pat` stands in `s` at position `i`.
pub open spec fn matches_at(s: Seq<char>, pat: Seq<char>, i: int) -> bool {
    0 <= i && i + pat.len() <= s.len() && s.subrange(i, i + pat.len()) == pat
}

/// The first position at or after `from` at which `pat` stands in `s`.
pub open spec fn find(s: Seq<char>, pat: Seq<char>, from: int) -> Option<int>
    decreases s.len() - from + 1,
{
    if from < 0 || from + pat.len() > s.len() {
        None
    } else if matches_at(s, pat, from) {
        Some(from)
    } else {
        find(s, pat, from + 1)
    }
}

/// Whether `pat` stands anywhere in `s`.
pub open spec fn holds(s: Seq<char>, pat: Seq<char>) -> bool {
    find(s, pat, 0) is Some
}

/// `find` returns a position at which the pattern stands, and no earlier one
/// qualifies; it returns nothing only where no position qualifies.
pub proof fn find_is_first(s: Seq<char>, pat: Seq<char>, from: int)
    requires
        0 <= from,
    ensures
        match find(s, pat, from) {
            Some(i) => from <= i && matches_at(s, pat, i) && forall|j: int|
                from <= j < i ==> !#[trigger] matches_at(s, pat, j),
            None => forall|j: int| from <= j ==> !#[trigger] matches_at(s, pat, j),
        },
    decreases s.len() - from + 1,
{
    if from + pat.len() <= s.len() && !matches_at(s, pat, from) {
        find_is_first(s, pat, from + 1);
    }
}

/// Whether `pat` stands in `s` at position `i`.
pub fn stands_at(s: &Vec<char>, pat: &Vec<char>, i: usize) -> (yes: bool)
    requires
        i <= s@.len(),
    ensures
        yes == matches_at(s@, pat@, i as int),
{
    if s.len() - i < pat.len() {
        return false;
    }
    let mut k: usize = 0;
    while k < pat.len()
        invariant
            k <= pat@.len(),
            i + pat@.len() <= s@.len() <= usize::MAX,
            forall|j: int| 0 <= j < k ==> s@[i + j] == pat@[j],
        decreases pat@.len() - k,
    {
        if s[i + k] != pat[k] {
            assert(s@.subrange(i as int, i + pat@.len())[k as int] != pat@[k as int]);
            return false;
        }
        k = k + 1;
    }
    assert(s@.subrange(i as int, i + pat@.len()) =~= pat@);
    true
}

/// The first position at or after `from` at which `pat` stands in `s`.
pub fn find_from(s: &Vec<char>, pat: &Vec<char>, from: usize) -> (at: Option<usize>)
    requires
        from <= s@.len(),
    ensures
        match at {
            Some(i) => find(s@, pat@, from as int) == Some(i as int) && from <= i && i + pat@.len()
                <= s@.len(),
            None => find(s@, pat@, from as int) is None,
        },
{
    let mut i: usize = from;
    while s.len() - i >= pat.len() && i < s.len()
        invariant
            from <= i <= s@.len(),
            find(s@, pat@, from as int) == find(s@, pat@, i as int),
        decreases s@.len() - i,
    {
        if stands_at(s, pat, i) {
            return Some(i);
        }
        i = i + 1;
    }
    if i == s.len() && pat.len() == 0 {
        assert(s@.subrange(i as int, i as int) =~= pat@);
        assert(matches_at(s@, pat@, i as int));
        return Some(i);
    }
    None
}

/// Whether `pat` stands anywhere in `s`.
pub fn contains(s: &str, pat: &str) -> (yes: bool)
    ensures
        yes == holds(s@, pat@),
{
    let s = chars_of(s);
    let pat = chars_of(pat);
    find_from(&s, &pat, 0).is_some()
}

// ---- splitting and joining ------------------------------------------------

/// The pieces of `s` between the characters `c`; one more than there are of
/// those.
pub open spec fn split(s: Seq<char>, c: char) -> Seq<Seq<char>>
    decreases s.len(),
{
    if s.len() == 0 {
        seq![Seq::empty()]
    } else {
        let rest = split(s.drop_last(), c);
        if s.last() == c {
            rest.push(Seq::empty())
        } else {
            rest.drop_last().push(rest.last().push(s.last()))
        }
    }
}

/// The pieces of `chars[from..to]` between the characters `c`.
pub fn split_text(chars: &Vec<char>, from: usize, to: usize, c: char) -> (out: Vec<String>)
    requires
        from <= to <= chars@.len(),
    ensures
        texts(out@) == split(chars@.subrange(from as int, to as int), c),
        out@.len() > 0,
{
    let mut out: Vec<String> = Vec::new();
    let mut piece: String = String::new();
    let mut i: usize = from;
    let ghost whole = chars@.subrange(from as int, to as int);
    assert(whole.take(0) =~= Seq::empty());
    assert(texts(out@).push(piece@) =~= split(whole.take(0), c));
    while i < to
        invariant
            from <= i <= to <= chars@.len(),
            whole == chars@.subrange(from as int, to as int),
            texts(out@).push(piece@) == split(whole.take(i - from), c),
        decreases to - i,
    {
        let ghost before = texts(out@);
        let ghost had = piece@;
        assert(whole.take(i - from + 1).drop_last() =~= whole.take(i - from));
        assert(before.push(had).drop_last() =~= before);
        if chars[i] == c {
            out.push(piece);
            piece = String::new();
            assert(texts(out@) =~= before.push(had));
        } else {
            piece.push(chars[i]);
        }
        i = i + 1;
        assert(texts(out@).push(piece@) =~= split(whole.take(i - from), c));
    }
    assert(whole.take(i - from) =~= whole);
    let ghost before = texts(out@);
    let ghost had = piece@;
    out.push(piece);
    assert(texts(out@) =~= before.push(had));
    out
}

/// The texts of a list with `sep` between neighbours.
pub open spec fn join(list: Seq<Seq<char>>, sep: Seq<char>) -> Seq<char>
    decreases list.len(),
{
    if list.len() == 0 {
        Seq::empty()
    } else if list.len() == 1 {
        list[0]
    } else {
        join(list.drop_last(), sep) + sep + list.last()
    }
}

/// The first `n` texts of a list with `sep` between neighbours.
pub fn joined(list: &Vec<String>, n: usize, sep: &str) -> (out: String)
    requires
        n <= list@.len(),
    ensures
        out@ == join(texts(list@).take(n as int), sep@),
{
    let mut out: String = String::new();
    let mut i: usize = 0;
    assert(texts(list@).take(0) =~= Seq::empty());
    assert(out@ =~= Seq::empty());
    while i < n
        invariant
            i <= n <= list@.len(),
            out@ == join(texts(list@).take(i as int), sep@),
        decreases n - i,
    {
        let ghost next = texts(list@).take(i + 1);
        assert(next.drop_last() =~= texts(list@).take(i as int));
        assert(next.last() == list@[i as int]@);
        if i > 0 {
            out.append(sep);
        }
        out.append(list[i].as_str());
        i = i + 1;
        assert(out@ =~= join(next, sep@));
    }
    out
}

// ---- trimming -------------------------------------------------------------

/// Whether `c` has the Unicode White_Space property.
pub open spec fn white_space(c: char) -> bool {
    let n = c as u32;
    ||| 0x09 <= n <= 0x0d
    ||| n == 0x20
    ||| n == 0x85
    ||| n == 0xa0
    ||| n == 0x1680
    ||| 0x2000 <= n <= 0x200a
    ||| n == 0x2028
    ||| n == 0x2029
    ||| n == 0x202f
    ||| n == 0x205f
    ||| n == 0x3000
}

/// `char::is_whitespace` tells whether a character has the Unicode White_Space
/// property: whether it is one of the 25 characters that PropList.txt of the
/// Unicode Character Database lists under it.
pub assume_specification[ char::is_whitespace ](c: char) -> (yes: bool)
    ensures
        yes == white_space(c),
;

/// `s` without the white space at its end.
pub open spec fn trim_end(s: Seq<char>) -> Seq<char>
    decreases s.len(),
{
    if s.len() > 0 && white_space(s.last()) {
        trim_end(s.drop_last())
    } else {
        s
    }
}

/// `s` without the white space at its front.
pub open spec fn trim_start(s: Seq<char>) -> Seq<char>
    decreases s.len(),
{
    if s.len() > 0 && white_space(s[0]) {
        trim_start(s.drop_first())
    } else {
        s
    }
}

/// `s` without the white space at both ends.
pub open spec fn trim(s: Seq<char>) -> Seq<char> {
    trim_end(trim_start(s))
}

/// The bounds of `chars[from..to]` without the white space at both ends.
pub fn trim_bounds(chars: &Vec<char>, from: usize, to: usize) -> (bounds: (usize, usize))
    requires
        from <= to <= chars@.len(),
    ensures
        from <= bounds.0 <= bounds.1 <= to,
        chars@.subrange(bounds.0 as int, bounds.1 as int) == trim(
            chars@.subrange(from as int, to as int),
        ),
{
    let mut a: usize = from;
    let mut going: bool = true;
    while going && a < to
        invariant
            from <= a <= to <= chars@.len(),
            trim_start(chars@.subrange(from as int, to as int)) == trim_start(
                chars@.subrange(a as int, to as int),
            ),
            !going ==> trim_start(chars@.subrange(a as int, to as int)) == chars@.subrange(
                a as int,
                to as int,
            ),
        decreases to - a, going as int,
    {
        if chars[a].is_whitespace() {
            assert(chars@.subrange(a as int, to as int).drop_first() =~= chars@.subrange(
                a as int + 1,
                to as int,
            ));
            a = a + 1;
        } else {
            going = false;
        }
    }
    let ghost front = chars@.subrange(a as int, to as int);
    assert(trim_start(front) == front);
    let mut b: usize = to;
    going = true;
    while going && a < b
        invariant
            from <= a <= b <= to <= chars@.len(),
            trim_end(front) == trim_end(chars@.subrange(a as int, b as int)),
            !going ==> trim_end(chars@.subrange(a as int, b as int)) == chars@.subrange(
                a as int,
                b as int,
            ),
        decreases b - a, going as int,
    {
        if chars[b - 1].is_whitespace() {
            assert(chars@.subrange(a as int, b as int).drop_last() =~= chars@.subrange(
                a as int,
                b as int - 1,
            ));
            b = b - 1;
        } else {
            going = false;
        }
    }
    (a, b)
}

/// `s` without the white space at both ends.
pub fn trimmed(s: &str) -> (out: String)
    ensures
        out@ == trim(s@),
{
    let chars = chars_of(s);
    let (a, b) = trim_bounds(&chars, 0, chars.len());
    assert(chars@.subrange(0, chars@.len() as int) =~= s@);
    string_of(&chars, a, b)
}

/// `s` with every `pat` at its front taken off.
pub open spec fn trim_start_matches(s: Seq<char>, pat: Seq<char>) -> Seq<char>
    decreases s.len(),
{
    if pat.len() > 0 && matches_at(s, pat, 0) {
        trim_start_matches(s.subrange(pat.len() as int, s.len() as int), pat)
    } else {
        s
    }
}

/// `s` with every `c` at its end taken off.
pub open spec fn trim_end_char(s: Seq<char>, c: char) -> Seq<char>
    decreases s.len(),
{
    if s.len() > 0 && s.last() == c {
        trim_end_char(s.drop_last(), c)
    } else {
        s
    }
}

/// The position in `chars` behind every `pat` that stands from `from` on.
pub fn skip_matches(chars: &Vec<char>, pat: &Vec<char>, from: usize, to: usize) -> (at: usize)
    requires
        from <= to <= chars@.len(),
        pat@.len() > 0,
    ensures
        from <= at <= to,
        chars@.subrange(at as int, to as int) == trim_start_matches(
            chars@.subrange(from as int, to as int),
            pat@,
        ),
{
    let mut a: usize = from;
    let mut going: bool = true;
    let ghost whole = chars@.subrange(from as int, to as int);
    while going
        invariant
            from <= a <= to <= chars@.len(),
            pat@.len() > 0,
            whole == chars@.subrange(from as int, to as int),
            trim_start_matches(whole, pat@) == trim_start_matches(
                chars@.subrange(a as int, to as int),
                pat@,
            ),
            !going ==> trim_start_matches(chars@.subrange(a as int, to as int), pat@)
                == chars@.subrange(a as int, to as int),
        decreases to - a, going as int,
    {
        let ghost rest = chars@.subrange(a as int, to as int);
        if to - a >= pat.len() && stands_at(chars, pat, a) {
            assert(rest.subrange(0, pat@.len() as int) =~= chars@.subrange(
                a as int,
                a + pat@.len(),
            ));
            assert(rest.subrange(pat@.len() as int, rest.len() as int) =~= chars@.subrange(
                a + pat@.len(),
                to as int,
            ));
            a = a + pat.len();
        } else {
            assert(!matches_at(rest, pat@, 0)) by {
                if matches_at(rest, pat@, 0) {
                    assert(rest.subrange(0, pat@.len() as int) =~= chars@.subrange(
                        a as int,
                        a + pat@.len(),
                    ));
                }
            }
            going = false;
        }
    }
    a
}

/// The end of `chars[from..to]` once every `c` at its end is taken off.
pub fn drop_trailing(chars: &Vec<char>, from: usize, to: usize, c: char) -> (end: usize)
    requires
        from <= to <= chars@.len(),
    ensures
        from <= end <= to,
        chars@.subrange(from as int, end as int) == trim_end_char(
            chars@.subrange(from as int, to as int),
            c,
        ),
{
    let mut b: usize = to;
    let ghost whole = chars@.subrange(from as int, to as int);
    while from < b && chars[b - 1] == c
        invariant
            from <= b <= to <= chars@.len(),
            trim_end_char(whole, c) == trim_end_char(chars@.subrange(from as int, b as int), c),
        decreases b - from,
    {
        assert(chars@.subrange(from as int, b as int).drop_last() =~= chars@.subrange(
            from as int,
            b as int - 1,
        ));
        b = b - 1;
    }
    b
}

// ---- letter case ----------------------------------------------------------

/// The lower-case form of an ASCII letter; any other character as it is.
pub open spec fn ascii_lower(c: char) -> char {
    if 'A' <= c <= 'Z' {
        (c as u32 + 32) as char
    } else {
        c
    }
}

/// `s` with its ASCII letters in lower case.
pub open spec fn ascii_lower_text(s: Seq<char>) -> Seq<char> {
    s.map_values(|c: char| ascii_lower(c))
}

/// Whether `s` holds ASCII characters only.
pub open spec fn all_ascii(s: Seq<char>) -> bool {
    forall|i: int| 0 <= i < s.len() ==> (#[trigger] s[i] as u32) < 128
}

/// The lower-case form of an ASCII letter; any other character as it is.
pub fn lower_ascii_char(c: char) -> (out: char)
    ensures
        out == ascii_lower(c),
{
    if 'A' <= c && c <= 'Z' {
        ((c as u8) + 32) as char
    } else {
        c
    }
}

/// `chars[from..to]` with its ASCII letters in lower case.
pub fn lower_ascii(chars: &Vec<char>, from: usize, to: usize) -> (out: String)
    requires
        from <= to <= chars@.len(),
    ensures
        out@ == ascii_lower_text(chars@.subrange(from as int, to as int)),
{
    let mut out: String = String::new();
    let mut i: usize = from;
    while i < to
        invariant
            from <= i <= to <= chars@.len(),
            out@ == ascii_lower_text(chars@.subrange(from as int, i as int)),
        decreases to - i,
    {
        out.push(lower_ascii_char(chars[i]));
        i = i + 1;
        assert(out@ =~= ascii_lower_text(chars@.subrange(from as int, i as int)));
    }
    out
}

/// The first character of the Unicode lower-case form of a character.
pub uninterp spec fn lower_char(c: char) -> char;

/// The first character that `char::to_lowercase` yields, or `c` itself. A
/// character without a lower-case mapping is yielded unchanged, which is so of
/// the small Cyrillic letters U+0430 to U+044F; an ASCII letter yields its
/// small form, and so does a capital Cyrillic letter U+0410 to U+042F, which
/// stands 32 places before it.
#[verifier::external_body]
pub(crate) fn to_lower_char(c: char) -> (out: char)
    ensures
        out == lower_char(c),
        (c as u32) < 128 ==> out == ascii_lower(c),
        0x410 <= c as u32 <= 0x42f ==> out as u32 == c as u32 + 32,
        0x430 <= c as u32 <= 0x44f ==> out == c,
{
    c.to_lowercase().next().unwrap_or(c)
}

/// The small form of a character: of an ASCII or Russian letter its small
/// letter, else the first character of the Unicode lower-case form.
pub open spec fn lowered_char(c: char) -> char {
    if (c as u32) < 128 {
        ascii_lower(c)
    } else if 0x410 <= c as u32 <= 0x42f {
        (c as u32 + 32) as char
    } else if 0x430 <= c as u32 <= 0x44f {
        c
    } else {
        lower_char(c)
    }
}

/// The Unicode lower-case form of a text.
pub uninterp spec fn lower_text(s: Seq<char>) -> Seq<char>;

/// `str::to_lowercase` gives the Unicode lower-case form of a text; a text of
/// ASCII characters only is mapped letter by letter.
pub assume_specification[ str::to_lowercase ](s: &str) -> (out: String)
    ensures
        out@ == lower_text(s@),
        all_ascii(s@) ==> out@ == ascii_lower_text(s@),
;

/// `s` in lower case: letter by letter where it is ASCII, else its Unicode
/// lower-case form.
pub open spec fn lowered(s: Seq<char>) -> Seq<char> {
    if all_ascii(s) {
        ascii_lower_text(s)
    } else {
        lower_text(s)
    }
}

// ---- numbers --------------------------------------------------------------

/// The character of a decimal or hexadecimal digit.
pub open spec fn digit_char(d: nat) -> char {
    if d < 10 {
        (48 + d) as char
    } else {
        (87 + d) as char
    }
}

/// `n` in decimal notation.
pub open spec fn decimal(n: nat) -> Seq<char>
    decreases n,
{
    if n < 10 {
        seq![digit_char(n)]
    } else {
        decimal(n / 10).push(digit_char(n % 10))
    }
}

/// `n` in lower-case hexadecimal notation.
pub open spec fn hex(n: nat) -> Seq<char>
    decreases n,
{
    if n < 16 {
        seq![digit_char(n)]
    } else {
        hex(n / 16).push(digit_char(n % 16))
    }
}

fn digit(d: u8) -> (c: char)
    requires
        d < 16,
    ensures
        c == digit_char(d as nat),
{
    if d < 10 {
        (48 + d) as char
    } else {
        (87 + d) as char
    }
}

/// Appends `n` in decimal notation.
pub fn push_decimal(out: &mut String, n: u128)
    ensures
        final(out)@ == old(out)@ + decimal(n as nat),
    decreases n,
{
    if n >= 10 {
        push_decimal(out, n / 10);
    }
    out.push(digit((n % 10) as u8));
    assert(out@ =~= old(out)@ + decimal(n as nat));
}

/// `n` in decimal notation.
pub fn decimal_text(n: u128) -> (out: String)
    ensures
        out@ == decimal(n as nat),
{
    let mut out: String = String::new();
    push_decimal(&mut out, n);
    assert(out@ =~= decimal(n as nat));
    out
}

/// Appends `n` in lower-case hexadecimal notation.
pub fn push_hex(out: &mut String, n: u128)
    ensures
        final(out)@ == old(out)@ + hex(n as nat),
    decreases n,
{
    if n >= 16 {
        push_hex(out, n / 16);
    }
    out.push(digit((n % 16) as u8));
    assert(out@ =~= old(out)@ + hex(n as nat));
}

/// The two lower-case hexadecimal digits of each byte.
pub open spec fn hex_bytes(bytes: Seq<u8>) -> Seq<char>
    decreases bytes.len(),
{
    if bytes.len() == 0 {
        seq![]
    } else {
        hex_bytes(bytes.drop_last()) + seq![
            digit_char((bytes.last() / 16) as nat),
            digit_char((bytes.last() % 16) as nat),
        ]
    }
}

/// The two lower-case hexadecimal digits of each byte.
pub fn hex_text(bytes: &Vec<u8>) -> (out: String)
    ensures
        out@ == hex_bytes(bytes@),
        out@.len() == 2 * bytes@.len(),
{
    let mut out: String = String::new();
    let mut i: usize = 0;
    while i < bytes.len()
        invariant
            i <= bytes@.len(),
            out@ == hex_bytes(bytes@.take(i as int)),
            out@.len() == 2 * i,
        decreases bytes@.len() - i,
    {
        let b: u8 = bytes[i];
        out.push(digit(b / 16));
        out.push(digit(b % 16));
        i = i + 1;
        assert(bytes@.take(i as int).drop_last() =~= bytes@.take(i - 1));
        assert(out@ =~= hex_bytes(bytes@.take(i as int)));
    }
    assert(bytes@.take(i as int) =~= bytes@);
    out
}

/// The value of `c` as a digit of base `radix`.
pub open spec fn digit_value(c: char, radix: nat) -> Option<nat> {
    let v: int = if '0' <= c <= '9' {
        c as int - 48
    } else if 'a' <= c <= 'z' {
        c as int - 87
    } else if 'A' <= c <= 'Z' {
        c as int - 55
    } else {
        -1
    };
    if 0 <= v < radix {
        Some(v as nat)
    } else {
        None
    }
}

/// The value of a run of digits of base `radix`; nothing where one of the
/// characters is not such a digit.
pub open spec fn digits_value(s: Seq<char>, radix: nat) -> Option<nat>
    decreases s.len(),
{
    if s.len() == 0 {
        Some(0)
    } else {
        match (digits_value(s.drop_last(), radix), digit_value(s.last(), radix)) {
            (Some(v), Some(d)) => Some(v * radix + d),
            _ => None,
        }
    }
}

/// The unsigned number that `s` spells: an optional `+`, then digits only, at
/// least one.
pub open spec fn parse_number(s: Seq<char>, radix: nat) -> Option<nat> {
    let digits = if s.len() > 0 && s[0] == '+' {
        s.drop_first()
    } else {
        s
    };
    if digits.len() == 0 {
        None
    } else {
        digits_value(digits, radix)
    }
}

fn value_of_digit(c: char, radix: u8) -> (v: Option<u8>)
    requires
        radix <= 36,
    ensures
        match v {
            Some(v) => digit_value(c, radix as nat) == Some(v as nat) && v < radix,
            None => digit_value(c, radix as nat) is None,
        },
{
    let v: u8 = if '0' <= c && c <= '9' {
        c as u8 - 48
    } else if 'a' <= c && c <= 'z' {
        c as u8 - 87
    } else if 'A' <= c && c <= 'Z' {
        c as u8 - 55
    } else {
        255
    };
    if v < radix {
        Some(v)
    } else {
        None
    }
}

proof fn digits_value_prefix(s: Seq<char>, radix: nat, k: int)
    requires
        0 <= k <= s.len(),
        radix >= 1,
    ensures
        digits_value(s, radix) is Some ==> digits_value(s.take(k), radix) is Some && digits_value(
            s.take(k),
            radix,
        )->0 <= digits_value(s, radix)->0,
    decreases s.len(),
{
    if k == s.len() {
        assert(s.take(k) =~= s);
    } else {
        digits_value_prefix(s.drop_last(), radix, k);
        assert(s.drop_last().take(k) =~= s.take(k));
        if digits_value(s, radix) is Some {
            let v = digits_value(s.drop_last(), radix)->0;
            assert(v <= v * radix) by (nonlinear_arith)
                requires
                    radix >= 1,
            ;
        }
    }
}

/// The number below `2^64` that `chars[from..to]` spells in base `radix`.
pub fn parse_u64(chars: &Vec<char>, from: usize, to: usize, radix: u8) -> (value: Option<u64>)
    requires
        from <= to <= chars@.len(),
        2 <= radix <= 36,
    ensures
        match value {
            Some(v) => parse_number(chars@.subrange(from as int, to as int), radix as nat) == Some(
                v as nat,
            ),
            None => match parse_number(chars@.subrange(from as int, to as int), radix as nat) {
                Some(n) => n > u64::MAX,
                None => true,
            },
        },
{
    let ghost s = chars@.subrange(from as int, to as int);
    let mut i: usize = from;
    if i < to && chars[i] == '+' {
        i = i + 1;
    }
    let start: usize = i;
    let ghost digits = chars@.subrange(start as int, to as int);
    assert(start > from ==> s.drop_first() =~= digits);
    assert(start == from ==> s =~= digits);
    if i == to {
        return None;
    }
    let mut total: u64 = 0;
    while i < to
        invariant
            start <= i <= to <= chars@.len(),
            2 <= radix <= 36,
            digits == chars@.subrange(start as int, to as int),
            parse_number(chars@.subrange(from as int, to as int), radix as nat) == digits_value(
                digits,
                radix as nat,
            ),
            digits_value(digits.take(i - start), radix as nat) == Some(total as nat),
        decreases to - i,
    {
        let ghost next = digits.take(i - start + 1);
        assert(next.drop_last() =~= digits.take(i - start));
        assert(next.last() == chars@[i as int]);
        proof {
            digits_value_prefix(digits, radix as nat, i - start + 1);
        }
        match value_of_digit(chars[i], radix) {
            None => {
                return None;
            },
            Some(d) => {
                assert(0 <= total * radix <= u64::MAX * 36) by (nonlinear_arith)
                    requires
                        0 <= total <= u64::MAX,
                        2 <= radix <= 36,
                ;
                let wide: u128 = total as u128 * radix as u128 + d as u128;
                if wide > u64::MAX as u128 {
                    return None;
                }
                total = wide as u64;
            },
        }
        i = i + 1;
    }
    assert(digits.take(to - start) =~= digits);
    Some(total)
}

// ---- fixed-point formatting -----------------------------------------------

/// `num / den` rounded to the nearest whole number, ties to the even one.
pub open spec fn round_half_even(num: int, den: int) -> int {
    let q = num / den;
    let r = num % den;
    if 2 * r > den || (2 * r == den && q % 2 == 1) {
        q + 1
    } else {
        q
    }
}

/// Ten to the power of a number of decimals (at most two).
pub open spec fn scale(decimals: nat) -> nat {
    if decimals == 0 {
        1
    } else if decimals == 1 {
        10
    } else {
        100
    }
}

/// Two to the power of `k`.
pub open spec fn two_to(k: nat) -> nat
    decreases k,
{
    if k == 0 {
        1
    } else {
        2 * two_to((k - 1) as nat)
    }
}

/// How often `num` is doubled until `num / den` has 53 binary digits before the
/// point.
pub open spec fn doublings(num: nat, den: nat) -> nat
    decreases 0x20_0000_0000_0000 * den - num,
{
    if num == 0 || num >= 0x10_0000_0000_0000 * den {
        0
    } else {
        1 + doublings(2 * num, den)
    }
}

/// How often `den` is doubled until `num / den` has no more than 53 binary
/// digits before the point.
pub open spec fn halvings(num: nat, den: nat) -> nat
    decreases num - den,
{
    if den == 0 || num < 0x20_0000_0000_0000 * den {
        0
    } else {
        1 + halvings(num, 2 * den)
    }
}

/// The number of 53 significant binary digits that is nearest to `num / den`,
/// ties to the even one, as a numerator and a denominator. Figures are shown as
/// a binary floating-point number of double precision is.
pub open spec fn nearest_binary(num: nat, den: nat) -> (nat, nat) {
    if num >= 0x20_0000_0000_0000 * den {
        let unit = two_to(halvings(num, den));
        ((round_half_even(num as int, (den * unit) as int) * unit) as nat, 1)
    } else {
        let unit = two_to(doublings(num, den));
        (round_half_even((num * unit) as int, den as int) as nat, unit)
    }
}

/// `num / den` with a fixed number of decimals (at most two): its nearest
/// binary number, rounded half to even.
pub open spec fn fixed(num: nat, den: nat, decimals: nat) -> Seq<char> {
    let (n, d) = nearest_binary(num, den);
    let q = round_half_even((n * scale(decimals)) as int, d as int) as nat;
    let whole = decimal(q / scale(decimals));
    if decimals == 0 {
        whole
    } else if decimals == 1 {
        whole + seq!['.', digit_char(q % 10)]
    } else {
        whole + seq!['.', digit_char(q / 10 % 10), digit_char(q % 10)]
    }
}

proof fn two_to_grows(k: nat)
    ensures
        two_to(k) >= 1,
        two_to(k + 1) == 2 * two_to(k),
    decreases k,
{
    if k > 0 {
        two_to_grows((k - 1) as nat);
    }
}

proof fn two_to_is_monotone(a: nat, b: nat)
    requires
        a <= b,
    ensures
        two_to(a) <= two_to(b),
    decreases b,
{
    if a < b {
        two_to_grows((b - 1) as nat);
        two_to_is_monotone(a, (b - 1) as nat);
    }
}

proof fn two_to_the_word()
    ensures
        two_to(63) == 0x8000_0000_0000_0000,
        two_to(64) == 0x1_0000_0000_0000_0000,
{
    reveal_with_fuel(two_to, 65);
}

/// One more doubling of a number that is still too small.
proof fn one_doubling(num: nat, k: nat, q: nat, r: nat, den: nat)
    requires
        0 < num,
        num * two_to(k) == q * den + r,
        r < den,
        q < 0x10_0000_0000_0000,
        doublings(num, den) == k + doublings(num * two_to(k), den),
    ensures
        num * two_to(k) < 0x10_0000_0000_0000 * den,
        num * two_to(k + 1) == 2 * (num * two_to(k)),
        num * two_to(k + 1) == (2 * q) * den + 2 * r,
        num * two_to(k + 1) == (2 * q + 1) * den + (2 * r - den),
        num * two_to(k) > 0,
        doublings(num, den) == k + 1 + doublings(num * two_to(k + 1), den),
{
    let x = num * two_to(k);
    two_to_grows(k);
    assert(num * (2 * two_to(k)) == 2 * (num * two_to(k))) by (nonlinear_arith);
    assert(2 * (q * den + r) == (2 * q + 1) * den + (2 * r - den)) by (nonlinear_arith);
    assert(2 * (q * den + r) == (2 * q) * den + 2 * r) by (nonlinear_arith);
    assert(x > 0) by (nonlinear_arith)
        requires
            x == num * two_to(k),
            num > 0,
            two_to(k) >= 1,
    ;
    assert(x < 0x10_0000_0000_0000 * den) by (nonlinear_arith)
        requires
            x == q * den + r,
            r < den,
            q < 0x10_0000_0000_0000,
    ;
}

/// A quotient and a remainder are those of the number that they make.
proof fn parts_of(x: int, q: int, r: int, den: int)
    requires
        0 <= r < den,
        x == q * den + r,
    ensures
        x / den == q,
        x % den == r,
{
    vstd::arithmetic::div_mod::lemma_fundamental_div_mod_converse(x, den, q, r);
}

/// `q` or the next number, whichever is nearest to `q + r / den`.
fn nearest_of(q: u128, r: u128, den: u128) -> (n: u128)
    requires
        r < den,
        q < u128::MAX,
    ensures
        n == (if 2 * r > den || (2 * r == den && q % 2 == 1) {
            q + 1
        } else {
            q as int
        }),
{
    if r > den - r || (r == den - r && q % 2 == 1) {
        q + 1
    } else {
        q
    }
}

/// A quotient of more than 53 binary digits before the point, rounded to 53.
fn long_binary(num: u128, den: u128) -> (n: u128)
    requires
        0 < den,
        0x20_0000_0000_0000 * den <= num <= u128::MAX / 2,
    ensures
        (n as nat, 1nat) == nearest_binary(num as nat, den as nat),
{
    let mut d: u128 = den;
    let mut unit: u128 = 1;
    let ghost mut k: nat = 0;
    assert(den * 1 == den);
    while num / d >= 0x20_0000_0000_0000
        invariant
            0 < den,
            0 < d,
            0x10_0000_0000_0000 * d <= num <= u128::MAX / 2,
            unit == two_to(k),
            d == den * unit,
            0 < unit <= d,
            halvings(num as nat, den as nat) == k + halvings(num as nat, d as nat),
        decreases num - d,
    {
        assert(num >= 0x20_0000_0000_0000 * d) by (nonlinear_arith)
            requires
                num / d >= 0x20_0000_0000_0000,
                d > 0,
        ;
        proof {
            two_to_grows(k);
            assert(den * (2 * unit) == 2 * (den * unit)) by (nonlinear_arith);
        }
        d = 2 * d;
        unit = 2 * unit;
        proof {
            k = k + 1;
        }
    }
    assert(num < 0x20_0000_0000_0000 * d) by (nonlinear_arith)
        requires
            num / d < 0x20_0000_0000_0000,
            d > 0,
    ;
    let m: u128 = nearest_of(num / d, num % d, d);
    assert(m == round_half_even(num as int, d as int));
    assert(m * unit <= 2 * num) by (nonlinear_arith)
        requires
            m <= num / d + 1,
            d <= num,
            0 < unit <= d,
    ;
    m * unit
}

/// A quotient of at most 53 binary digits before the point, in units of which
/// `scale_by` make one, rounded to one of them.
fn short_binary(num: u128, den: u128, scale_by: u128) -> (q: u128)
    requires
        0 < den <= u128::MAX / 2,
        num < 0x20_0000_0000_0000 * den,
        1 <= scale_by <= 100,
    ensures
        ({
            let (n, d) = nearest_binary(num as nat, den as nat);
            q == round_half_even((n * scale_by) as int, d as int)
        }),
        q <= 100 * 0x20_0000_0000_0000,
{
    if num == 0 {
        proof {
            parts_of(0, 0, 0, den as int);
            parts_of(0, 0, 0, 1);
            assert(two_to(0) == 1);
            assert(nearest_binary(0, den as nat) == (0nat, 1nat));
            assert(0 * scale_by == 0);
        }
        return 0;
    }
    let (m, near, unit, Ghost(k)) = significant_digits(num, den);
    let ghost d = two_to(k);
    assert(m * scale_by <= 100 * 0x20_0000_0000_0000) by (nonlinear_arith)
        requires
            m <= 0x20_0000_0000_0000,
            scale_by <= 100,
    ;
    let scaled: u128 = m * scale_by;
    if near > 63 {
        proof {
            two_to_is_monotone(64, k);
            two_to_the_word();
            parts_of(scaled as int, 0, scaled as int, d as int);
        }
        return 0;
    }
    proof {
        two_to_grows(k);
        assert(scaled / unit <= scaled) by (nonlinear_arith)
            requires
                unit >= 1,
        ;
        assert(unit >= 2 ==> 2 * (scaled / unit) <= scaled) by (nonlinear_arith);
        assert(unit == 1 ==> scaled % unit == 0);
    }
    nearest_of(scaled / unit, scaled % unit, unit)
}

/// The 53 significant binary digits of a quotient, how often it was doubled for
/// them (as far as 64 times) and two to the power of that.
fn significant_digits(num: u128, den: u128) -> (r: (u128, u32, u128, Ghost<nat>))
    requires
        0 < den <= u128::MAX / 2,
        0 < num < 0x20_0000_0000_0000 * den,
    ensures
        nearest_binary(num as nat, den as nat) == (r.0 as nat, two_to(r.3@)),
        r.0 <= 0x20_0000_0000_0000,
        r.1 == (if r.3@ < 64 {
            r.3@
        } else {
            64
        }),
        r.2 == two_to(r.1 as nat),
{
    let mut q: u128 = num / den;
    let mut r: u128 = num % den;
    let mut near: u32 = 0;
    let mut unit: u128 = 1;
    let ghost mut k: nat = 0;
    proof {
        vstd::arithmetic::div_mod::lemma_fundamental_div_mod(num as int, den as int);
        assert(den * (num / den) == (num / den) * den) by (nonlinear_arith);
        assert(q < 0x20_0000_0000_0000) by (nonlinear_arith)
            requires
                q == num / den,
                num < 0x20_0000_0000_0000 * den,
                den > 0,
        ;
        assert(two_to(0) == 1);
        assert(num * 1 == num);
    }
    while q < 0x10_0000_0000_0000
        invariant
            0 < den <= u128::MAX / 2,
            0 < num,
            num * two_to(k) == q * den + r,
            r < den,
            q < 0x20_0000_0000_0000,
            near == (if k < 64 {
                k
            } else {
                64
            }),
            unit == two_to(near as nat),
            num * two_to(k) < 0x20_0000_0000_0000 * den,
            doublings(num as nat, den as nat) == k + doublings(num as nat * two_to(k), den as nat),
        decreases 0x20_0000_0000_0000 * den - num * two_to(k),
    {
        proof {
            one_doubling(num as nat, k, q as nat, r as nat, den as nat);
        }
        let twice: u128 = 2 * r;
        if twice >= den {
            q = 2 * q + 1;
            r = twice - den;
        } else {
            q = 2 * q;
            r = twice;
        }
        if near < 64 {
            proof {
                two_to_is_monotone(near as nat, 63);
                two_to_the_word();
                two_to_grows(near as nat);
            }
            unit = 2 * unit;
            near = near + 1;
        }
        proof {
            k = k + 1;
        }
    }
    let ghost x = num * two_to(k);
    assert(x >= 0x10_0000_0000_0000 * den) by (nonlinear_arith)
        requires
            x == q * den + r,
            r >= 0,
            q >= 0x10_0000_0000_0000,
    ;
    proof {
        parts_of(x, q as int, r as int, den as int);
    }
    (nearest_of(q, r, den), near, unit, Ghost(k))
}

/// Appends `num / den` with a fixed number of decimals.
pub fn push_fixed(out: &mut String, num: u128, den: u128, decimals: u8)
    requires
        0 < den <= u128::MAX / 2,
        num <= u128::MAX / 2,
        decimals <= 2,
    ensures
        final(out)@ == old(out)@ + fixed(num as nat, den as nat, decimals as nat),
{
    let unit: u128 = if decimals == 0 {
        1
    } else if decimals == 1 {
        10
    } else {
        100
    };
    if num / den >= 0x20_0000_0000_0000 {
        assert(num >= 0x20_0000_0000_0000 * den) by (nonlinear_arith)
            requires
                num / den >= 0x20_0000_0000_0000,
                den > 0,
        ;
        let n: u128 = long_binary(num, den);
        push_decimal(out, n);
        if decimals > 0 {
            out.push('.');
            if decimals > 1 {
                out.push('0');
            }
            out.push('0');
        }
        proof {
            let q: int = n * unit;
            parts_of(q, q, 0, 1);
            assert(decimals == 0 ==> q == n);
            assert(decimals == 1 ==> q / 10 == n && q % 10 == 0);
            assert(decimals == 2 ==> q / 100 == n && q % 10 == 0 && q / 10 % 10 == 0);
        }
    } else {
        assert(num < 0x20_0000_0000_0000 * den) by (nonlinear_arith)
            requires
                num / den < 0x20_0000_0000_0000,
                den > 0,
        ;
        let q: u128 = short_binary(num, den, unit);
        push_decimal(out, q / unit);
        if decimals > 0 {
            out.push('.');
            if decimals > 1 {
                out.push(digit((q / 10 % 10) as u8));
            }
            out.push(digit((q % 10) as u8));
        }
    }
    assert(out@ =~= old(out)@ + fixed(num as nat, den as nat, decimals as nat));
}

/// `num / den` with a fixed number of decimals.
pub fn fixed_text(num: u128, den: u128, decimals: u8) -> (out: String)
    requires
        0 < den <= u128::MAX / 2,
        num <= u128::MAX / 2,
        decimals <= 2,
    ensures
        out@ == fixed(num as nat, den as nat, decimals as nat),
{
    let mut out: String = String::new();
    push_fixed(&mut out, num, den, decimals);
    assert(out@ =~= fixed(num as nat, den as nat, decimals as nat));
    out
}

/// The absolute value of `n`.
pub open spec fn magnitude(n: int) -> nat {
    if n < 0 {
        (-n) as nat
    } else {
        n as nat
    }
}

/// The decimal notation of an integer.
pub open spec fn integer(n: int) -> Seq<char> {
    if n < 0 {
        seq!['-'] + decimal(magnitude(n))
    } else {
        decimal(n as nat)
    }
}

/// Appends an integer in decimal notation.
pub fn push_integer(out: &mut String, n: i64)
    ensures
        final(out)@ == old(out)@ + integer(n as int),
{
    if n < 0 {
        out.push('-');
        push_decimal(out, (-(n as i128)) as u128);
    } else {
        push_decimal(out, n as u128);
    }
    assert(out@ =~= old(out)@ + integer(n as int));
}

/// `num / den` with a fixed number of decimals, led by `-` where `num` is
/// negative.
pub open spec fn signed_fixed(num: int, den: nat, decimals: nat) -> Seq<char> {
    (if num < 0 {
        seq!['-']
    } else {
        seq![]
    }) + fixed(magnitude(num), den, decimals)
}

/// Appends `num / den` with a fixed number of decimals, led by `-` where `num`
/// is negative.
pub fn push_signed_fixed(out: &mut String, num: i64, den: u128, decimals: u8)
    requires
        0 < den <= u64::MAX,
        decimals <= 2,
    ensures
        final(out)@ == old(out)@ + signed_fixed(num as int, den as nat, decimals as nat),
{
    let mag: u128 = if num < 0 {
        (-(num as i128)) as u128
    } else {
        num as u128
    };
    if num < 0 {
        out.push('-');
    }
    push_fixed(out, mag, den, decimals);
    assert(out@ =~= old(out)@ + signed_fixed(num as int, den as nat, decimals as nat));
}

// ---- padding --------------------------------------------------------------

/// A run of spaces.
pub open spec fn spaces(n: int) -> Seq<char> {
    Seq::new(
        if n < 0 {
            0
        } else {
            n as nat
        },
        |i: int| ' ',
    )
}

/// `s` followed by spaces up to `width` characters.
pub open spec fn pad_right(s: Seq<char>, width: nat) -> Seq<char> {
    s + spaces(width - s.len())
}

/// `s` led by spaces up to `width` characters.
pub open spec fn pad_left(s: Seq<char>, width: nat) -> Seq<char> {
    spaces(width - s.len()) + s
}

/// Appends `n` spaces.
pub fn push_spaces(out: &mut String, n: usize)
    ensures
        final(out)@ == old(out)@ + spaces(n as int),
{
    let ghost before = out@;
    let mut i: usize = 0;
    assert(out@ =~= before + spaces(0));
    while i < n
        invariant
            i <= n,
            out@ == before + spaces(i as int),
        decreases n - i,
    {
        out.push(' ');
        i = i + 1;
        assert(out@ =~= before + spaces(i as int));
    }
}

/// `s` followed by spaces up to `width` characters.
pub fn padded_right(s: &str, width: usize) -> (out: String)
    ensures
        out@ == pad_right(s@, width as nat),
{
    let len: usize = s.unicode_len();
    let mut out: String = s.to_owned();
    if len < width {
        push_spaces(&mut out, width - len);
    }
    assert(out@ =~= pad_right(s@, width as nat));
    out
}

/// `s` led by spaces up to `width` characters.
pub fn padded_left(s: &str, width: usize) -> (out: String)
    ensures
        out@ == pad_left(s@, width as nat),
{
    let len: usize = s.unicode_len();
    let mut out: String = String::new();
    if len < width {
        push_spaces(&mut out, width - len);
    }
    out.append(s);
    assert(out@ =~= pad_left(s@, width as nat));
    out
}

// ---- laws -----------------------------------------------------------------

/// Only white space is trimmed, at both ends, and all of it.
pub proof fn trimming_takes_white_space_only(s: Seq<char>)
    ensures
        exists|i: int, j: int|
            0 <= i <= j <= s.len() && trim(s) == #[trigger] s.subrange(i, j) && (forall|k: int|
                0 <= k < i || j <= k < s.len() ==> white_space(#[trigger] s[k])),
        trim(s).len() > 0 ==> !white_space(trim(s)[0]) && !white_space(trim(s).last()),
{
    let i = front_trimmed(s);
    let t = trim_start(s);
    let n = end_trimmed(t);
    let j = i + n;
    assert(trim(s) =~= s.subrange(i, j));
    assert forall|k: int| 0 <= k < i || j <= k < s.len() implies white_space(#[trigger] s[k]) by {
        if k >= j {
            assert(t[k - i] == s[k]);
        }
    }
}

proof fn front_trimmed(s: Seq<char>) -> (i: int)
    ensures
        0 <= i <= s.len(),
        trim_start(s) == s.skip(i),
        forall|k: int| 0 <= k < i ==> white_space(#[trigger] s[k]),
        i < s.len() ==> !white_space(s[i]),
    decreases s.len(),
{
    if s.len() > 0 && white_space(s[0]) {
        let i = front_trimmed(s.drop_first());
        assert(s.drop_first().skip(i) =~= s.skip(i + 1));
        assert forall|k: int| 0 <= k < i + 1 implies white_space(#[trigger] s[k]) by {
            if k > 0 {
                assert(s.drop_first()[k - 1] == s[k]);
            }
        }
        i + 1
    } else {
        assert(s.skip(0) =~= s);
        0
    }
}

proof fn end_trimmed(s: Seq<char>) -> (n: int)
    ensures
        0 <= n <= s.len(),
        trim_end(s) == s.take(n),
        forall|k: int| n <= k < s.len() ==> white_space(#[trigger] s[k]),
        n > 0 ==> !white_space(s[n - 1]),
    decreases s.len(),
{
    if s.len() > 0 && white_space(s.last()) {
        let n = end_trimmed(s.drop_last());
        assert(s.drop_last().take(n) =~= s.take(n));
        assert forall|k: int| n <= k < s.len() implies white_space(#[trigger] s[k]) by {
            if k < s.len() - 1 {
                assert(s.drop_last()[k] == s[k]);
            }
        }
        n
    } else {
        assert(s.take(s.len() as int) =~= s);
        s.len() as int
    }
}

/// A text without space at its ends is trimmed to itself, and so is one with any
/// space around it.
pub proof fn space_around_a_text_is_trimmed(a: Seq<char>, s: Seq<char>, b: Seq<char>)
    requires
        s.len() > 0,
        !white_space(s[0]),
        !white_space(s.last()),
        forall|k: int| 0 <= k < a.len() ==> white_space(#[trigger] a[k]),
        forall|k: int| 0 <= k < b.len() ==> white_space(#[trigger] b[k]),
    ensures
        trim(a + s + b) == s,
        trim(s) == s,
    decreases a.len() + b.len(),
{
    if a.len() > 0 {
        let x = a + s + b;
        assert(x[0] == a[0]);
        assert(x.drop_first() =~= a.drop_first() + s + b);
        assert forall|k: int| 0 <= k < a.drop_first().len() implies white_space(
            #[trigger] a.drop_first()[k],
        ) by {
            assert(a[k + 1] == a.drop_first()[k]);
        }
        space_around_a_text_is_trimmed(a.drop_first(), s, b);
    } else if b.len() > 0 {
        let x = a + s + b;
        assert(x =~= s + b);
        assert(x[0] == s[0]);
        assert(trim_start(x) == x);
        assert(x.last() == b.last());
        let y = s + b.drop_last();
        assert(x.drop_last() =~= y);
        assert(y[0] == s[0]);
        assert(trim_start(y) == y);
        assert forall|k: int| 0 <= k < b.drop_last().len() implies white_space(
            #[trigger] b.drop_last()[k],
        ) by {
            assert(b[k] == b.drop_last()[k]);
        }
        assert(a + s + b.drop_last() =~= y);
        space_around_a_text_is_trimmed(a, s, b.drop_last());
    } else {
        assert(a + s + b =~= s);
    }
}

/// The pieces of a text, joined again by the character at which it was split, are
/// the text, and none of them holds that character.
pub proof fn joining_undoes_splitting(s: Seq<char>, c: char)
    ensures
        split(s, c).len() > 0,
        join(split(s, c), seq![c]) == s,
        forall|i: int| 0 <= i < split(s, c).len() ==> !(#[trigger] split(s, c)[i]).contains(c),
    decreases s.len(),
{
    let sep = seq![c];
    let out = split(s, c);
    if s.len() > 0 {
        let rest = split(s.drop_last(), c);
        joining_undoes_splitting(s.drop_last(), c);
        assert(s =~= s.drop_last().push(s.last()));
        if s.last() == c {
            assert(out.drop_last() =~= rest);
            assert(join(out, sep) =~= s);
        } else {
            let piece = rest.last().push(s.last());
            assert(out.drop_last() =~= rest.drop_last());
            if rest.len() > 1 {
                assert(join(rest, sep) =~= join(rest.drop_last(), sep) + sep + rest.last());
            }
            assert(join(out, sep) =~= s);
            assert forall|i: int| 0 <= i < out.len() implies !(#[trigger] out[i]).contains(c) by {
                if i < out.len() - 1 {
                    assert(out[i] == rest[i]);
                } else if piece.contains(c) {
                    let k = choose|k: int| 0 <= k < piece.len() && piece[k] == c;
                    assert(rest[rest.len() - 1][k] == c);
                    assert(rest[rest.len() - 1].contains(c));
                }
            }
        }
    }
}

/// One more pattern at the front, or character at the end, changes nothing of
/// what is left when all are taken off; a text without is left as it is.
pub proof fn repeated_ends_are_taken_off(s: Seq<char>, pat: Seq<char>, c: char)
    requires
        pat.len() > 0,
    ensures
        trim_start_matches(pat + s, pat) == trim_start_matches(s, pat),
        !matches_at(s, pat, 0) ==> trim_start_matches(s, pat) == s,
        trim_end_char(s.push(c), c) == trim_end_char(s, c),
        s.len() == 0 || s.last() != c ==> trim_end_char(s, c) == s,
{
    let x = pat + s;
    assert(x.subrange(0, pat.len() as int) =~= pat);
    assert(x.subrange(pat.len() as int, x.len() as int) =~= s);
    assert(s.push(c).drop_last() =~= s);
}

/// The character of a digit is read as that digit.
pub proof fn digits_are_read_back(d: nat, radix: nat)
    requires
        d < radix <= 16,
    ensures
        digit_value(digit_char(d), radix) == Some(d),
        d < 10 <==> '0' <= digit_char(d) <= '9',
        d >= 10 <==> 'a' <= digit_char(d) <= 'f',
{
}

/// A number in decimal notation is read back as the number, has only decimal
/// digits and, but for zero itself, does not begin with a zero.
pub proof fn decimal_numbers_are_read_back(n: nat)
    ensures
        parse_number(decimal(n), 10) == Some(n),
        digits_value(decimal(n), 10) == Some(n),
        decimal(n).len() > 0,
        forall|i: int| 0 <= i < decimal(n).len() ==> '0' <= #[trigger] decimal(n)[i] <= '9',
        n > 0 ==> decimal(n)[0] != '0',
    decreases n,
{
    let t = decimal(n);
    if n < 10 {
        digits_are_read_back(n, 10);
        assert(t.drop_last() =~= Seq::empty());
        assert(digits_value(Seq::<char>::empty(), 10) == Some(0nat));
        assert(t.last() == digit_char(n));
    } else {
        decimal_numbers_are_read_back(n / 10);
        digits_are_read_back(n % 10, 10);
        assert(t.drop_last() =~= decimal(n / 10));
        assert(t.last() == digit_char(n % 10));
        assert(t[0] == decimal(n / 10)[0]);
        assert forall|i: int| 0 <= i < t.len() implies '0' <= #[trigger] t[i] <= '9' by {
            if i < t.len() - 1 {
                assert(t[i] == decimal(n / 10)[i]);
            }
        }
    }
    assert('0' <= t[0] <= '9');
}

/// A number in hexadecimal notation is read back as the number and does not begin
/// with a zero, but for zero itself.
pub proof fn hexadecimal_numbers_are_read_back(n: nat)
    ensures
        parse_number(hex(n), 16) == Some(n),
        digits_value(hex(n), 16) == Some(n),
        hex(n).len() > 0,
        forall|i: int|
            0 <= i < hex(n).len() ==> '0' <= #[trigger] hex(n)[i] <= '9' || 'a' <= hex(n)[i] <= 'f',
        n > 0 ==> hex(n)[0] != '0',
    decreases n,
{
    let t = hex(n);
    if n < 16 {
        digits_are_read_back(n, 16);
        assert(t.drop_last() =~= Seq::empty());
        assert(digits_value(Seq::<char>::empty(), 16) == Some(0nat));
        assert(t.last() == digit_char(n));
    } else {
        hexadecimal_numbers_are_read_back(n / 16);
        digits_are_read_back(n % 16, 16);
        assert(t.drop_last() =~= hex(n / 16));
        assert(t.last() == digit_char(n % 16));
        assert(t[0] == hex(n / 16)[0]);
        assert forall|i: int| 0 <= i < t.len() implies '0' <= #[trigger] t[i] <= '9' || 'a' <= t[i]
            <= 'f' by {
            if i < t.len() - 1 {
                assert(t[i] == hex(n / 16)[i]);
            }
        }
    }
    assert('0' <= t[0] <= '9' || 'a' <= t[0] <= 'f');
}

/// Each byte is two hexadecimal digits, the higher one first, in order.
pub proof fn bytes_are_two_digits_each(bytes: Seq<u8>, i: int)
    requires
        0 <= i < bytes.len(),
    ensures
        hex_bytes(bytes).len() == 2 * bytes.len(),
        digits_value(hex_bytes(bytes).subrange(2 * i, 2 * i + 2), 16) == Some(bytes[i] as nat),
    decreases bytes.len(),
{
    hex_bytes_len(bytes.drop_last());
    let t = hex_bytes(bytes);
    if i < bytes.len() - 1 {
        bytes_are_two_digits_each(bytes.drop_last(), i);
        assert(t.subrange(2 * i, 2 * i + 2) =~= hex_bytes(bytes.drop_last()).subrange(
            2 * i,
            2 * i + 2,
        ));
    } else {
        let b = bytes.last();
        let two = t.subrange(2 * i, 2 * i + 2);
        digits_are_read_back((b / 16) as nat, 16);
        digits_are_read_back((b % 16) as nat, 16);
        let one = two.drop_last();
        assert(one =~= seq![digit_char((b / 16) as nat)]);
        assert(one.drop_last() =~= Seq::empty());
        assert(digits_value(Seq::<char>::empty(), 16) == Some(0nat));
        assert(digits_value(one, 16) == Some((b / 16) as nat));
        assert(two.last() == digit_char((b % 16) as nat));
    }
}

proof fn hex_bytes_len(bytes: Seq<u8>)
    ensures
        hex_bytes(bytes).len() == 2 * bytes.len(),
    decreases bytes.len(),
{
    if bytes.len() > 0 {
        hex_bytes_len(bytes.drop_last());
    }
}

/// A number is read digit by digit, each worth its base more than the next; a `+`
/// before it changes nothing, and nothing else but digits is read.
pub proof fn numbers_are_read_digit_by_digit(s: Seq<char>, c: char, radix: nat)
    requires
        2 <= radix <= 16,
        s.len() > 0,
        s[0] != '+',
    ensures
        parse_number(seq!['+'] + s, radix) == parse_number(s, radix),
        parse_number(s, radix) is Some && digit_value(c, radix) is Some ==> parse_number(
            s.push(c),
            radix,
        ) == Some(parse_number(s, radix)->0 * radix + digit_value(c, radix)->0),
        parse_number(s, radix) is None || digit_value(c, radix) is None ==> parse_number(
            s.push(c),
            radix,
        ) is None,
        parse_number(Seq::empty(), radix) is None,
        parse_number(seq!['+'], radix) is None,
        digit_value('-', radix) is None,
        digit_value('+', radix) is None,
        digit_value('.', radix) is None,
        digit_value(' ', radix) is None,
{
    assert((seq!['+'] + s).drop_first() =~= s);
    assert(s.push(c).drop_last() =~= s);
    assert(s.push(c)[0] == s[0]);
    assert(seq!['+'].drop_first() =~= Seq::<char>::empty());
}

/// A quotient is rounded to the nearest whole number, and to the even one of two
/// that are as near.
pub proof fn rounding_goes_to_the_nearest(num: int, den: int)
    requires
        den > 0,
    ensures
        ({
            let r = round_half_even(num, den);
            &&& -den <= 2 * (r * den - num) <= den
            &&& 2 * (r * den - num) == den || 2 * (num - r * den) == den ==> r % 2 == 0
            &&& num % den == 0 ==> r * den == num
        }),
{
    let (q, m) = (num / den, num % den);
    vstd::arithmetic::div_mod::lemma_fundamental_div_mod(num, den);
    assert(den * q == q * den) by (nonlinear_arith);
    assert((q + 1) * den == q * den + den) by (nonlinear_arith);
    assert(0 <= m < den) by (nonlinear_arith)
        requires
            den > 0,
            m == num % den,
    ;
}

proof fn doubled_enough(num: nat, den: nat)
    requires
        num > 0,
        den > 0,
        num < 0x20_0000_0000_0000 * den,
    ensures
        num * two_to(doublings(num, den)) >= 0x10_0000_0000_0000 * den,
        two_to(doublings(num, den)) >= 1,
    decreases 0x20_0000_0000_0000 * den - num,
{
    two_to_grows(doublings(num, den));
    if num >= 0x10_0000_0000_0000 * den {
        assert(two_to(0) == 1);
    } else {
        doubled_enough(2 * num, den);
        let k = doublings(2 * num, den);
        assert(two_to((1 + k) as nat) == 2 * two_to(k));
        assert(num * (2 * two_to(k)) == (2 * num) * two_to(k)) by (nonlinear_arith);
    }
}

proof fn halved_enough(num: nat, den: nat)
    requires
        den > 0,
        num >= 0x10_0000_0000_0000 * den,
    ensures
        num >= 0x10_0000_0000_0000 * (den * two_to(halvings(num, den))),
        two_to(halvings(num, den)) >= 1,
    decreases num - den,
{
    two_to_grows(halvings(num, den));
    if num < 0x20_0000_0000_0000 * den {
        assert(two_to(0) == 1);
    } else {
        halved_enough(num, 2 * den);
        let k = halvings(num, 2 * den);
        assert(two_to((1 + k) as nat) == 2 * two_to(k));
        assert(den * (2 * two_to(k)) == (2 * den) * two_to(k)) by (nonlinear_arith);
    }
}

/// A number of double precision is off by at most one part in 2^53.
pub proof fn binary_numbers_are_near(num: nat, den: nat)
    requires
        den > 0,
    ensures
        ({
            let (n, d) = nearest_binary(num, den);
            &&& d > 0
            &&& -(num * d) <= 0x20_0000_0000_0000 * (n * den - num * d) <= num * d
        }),
{
    let (n, d) = nearest_binary(num, den);
    if num >= 0x20_0000_0000_0000 * den {
        let unit = two_to(halvings(num, den));
        halved_enough(num, den);
        let r = round_half_even(num as int, (den * unit) as int);
        assert(den * unit > 0) by (nonlinear_arith)
            requires
                den > 0,
                unit >= 1,
        ;
        rounding_goes_to_the_nearest(num as int, (den * unit) as int);
        assert(r >= 0) by (nonlinear_arith)
            requires
                r == num as int / (den * unit) as int || r == num as int / (den * unit) as int + 1,
                den * unit > 0,
        ;
        assert(r * unit >= 0) by (nonlinear_arith)
            requires
                r >= 0,
                unit >= 1,
        ;
        assert((r * unit) * den == r * (den * unit)) by (nonlinear_arith);
        assert(num * 1 == num);
    } else {
        let unit = two_to(doublings(num, den));
        two_to_grows(doublings(num, den));
        let r = round_half_even((num * unit) as int, den as int);
        rounding_goes_to_the_nearest((num * unit) as int, den as int);
        assert(num * unit >= 0) by (nonlinear_arith)
            requires
                num >= 0,
                unit >= 1,
        ;
        assert(r >= 0) by (nonlinear_arith)
            requires
                r == (num * unit) as int / den as int || r == (num * unit) as int / den as int + 1,
                num * unit >= 0,
                den > 0,
        ;
        if num > 0 {
            doubled_enough(num, den);
        } else {
            assert(num * unit == 0) by (nonlinear_arith)
                requires
                    num == 0,
            ;
            assert(r == 0) by {
                assert(0int / den as int == 0) by (nonlinear_arith)
                    requires
                        den > 0,
                ;
                assert(0int % den as int == 0) by (nonlinear_arith)
                    requires
                        den > 0,
                ;
            }
            assert(r * den == 0) by (nonlinear_arith)
                requires
                    r == 0,
            ;
        }
    }
}

/// Whether a text with so many decimals shows `q`, counted in the last of them.
pub open spec fn shows(t: Seq<char>, decimals: nat, q: nat) -> bool {
    if decimals == 0 {
        t.len() > 0 && digits_value(t, 10) == Some(q)
    } else {
        &&& t.len() >= decimals + 2
        &&& t[t.len() - decimals - 1] == '.'
        &&& digits_value(t.remove(t.len() - decimals - 1), 10) == Some(q)
    }
}

/// Whether `q` is `num / den` to the nearest whole, up to the one part in 2^53 by
/// which a number of double precision may be off.
pub open spec fn nearest(q: nat, num: nat, den: nat) -> bool {
    let off = q * den - num;
    &&& 0x20_0000_0000_0000 * (2 * off) <= 0x20_0000_0000_0000 * den + 2 * num
    &&& 0x20_0000_0000_0000 * (2 * -off) <= 0x20_0000_0000_0000 * den + 2 * num
}

/// A figure is shown rounded to the nearest of what its decimals can show, up to
/// the one part in 2^53 by which a number of double precision may be off.
pub proof fn figures_are_shown_to_the_nearest(num: nat, den: nat, decimals: nat)
    requires
        den > 0,
        decimals <= 2,
    ensures
        exists|q: nat| #[trigger]
            shows(fixed(num, den, decimals), decimals, q) && nearest(
                q,
                if decimals == 0 {
                    num
                } else if decimals == 1 {
                    10 * num
                } else {
                    100 * num
                },
                den,
            ),
{
    let (n, d) = nearest_binary(num, den);
    let sc = scale(decimals);
    binary_numbers_are_near(num, den);
    rounding_goes_to_the_nearest((n * sc) as int, d as int);
    let r = round_half_even((n * sc) as int, d as int);
    assert(n * sc >= 0) by (nonlinear_arith)
        requires
            n >= 0,
            sc >= 1,
    ;
    assert(r >= 0) by (nonlinear_arith)
        requires
            r == (n * sc) as int / d as int || r == (n * sc) as int / d as int + 1,
            n * sc >= 0,
            d > 0,
    ;
    let q = r as nat;
    let t = fixed(num, den, decimals);
    assert(shows(t, decimals, q)) by {
        if decimals == 0 {
            assert(q / 1 == q);
            decimal_numbers_are_read_back(q);
        } else if decimals == 1 {
            one_decimal(q);
        } else {
            two_decimals(q);
        }
    }
    let parts = num * sc;
    let big: int = 0x20_0000_0000_0000;
    let (e1, e2) = (q * d - n * sc, n * den - num * d);
    // The two errors, on a common denominator, add up.
    assert((q * den - parts) * d == e1 * den + sc * e2) by (nonlinear_arith)
        requires
            e1 == q * d - n * sc,
            e2 == n * den - num * d,
            parts == num * sc,
    ;
    assert(-(d * den) <= 2 * (e1 * den) <= d * den) by (nonlinear_arith)
        requires
            -d <= 2 * e1 <= d,
            den > 0,
    ;
    assert(-(parts * d) <= big * (sc * e2) <= parts * d) by (nonlinear_arith)
        requires
            -(num * d) <= big * e2 <= num * d,
            sc >= 1,
            parts == num * sc,
    ;
    let x = q * den - parts;
    assert(big * (2 * x) <= big * den + 2 * parts) by (nonlinear_arith)
        requires
            x * d == e1 * den + sc * e2,
            2 * (e1 * den) <= d * den,
            big * (sc * e2) <= parts * d,
            d > 0,
            big > 0,
    {
        assert((big * (2 * x)) * d == big * (2 * (x * d)));
        assert(big * (2 * (x * d)) <= big * (d * den) + 2 * (parts * d));
        assert(big * (d * den) + 2 * (parts * d) == (big * den + 2 * parts) * d);
    }
    assert(big * (2 * -x) <= big * den + 2 * parts) by (nonlinear_arith)
        requires
            x * d == e1 * den + sc * e2,
            -(d * den) <= 2 * (e1 * den),
            -(parts * d) <= big * (sc * e2),
            d > 0,
            big > 0,
    {
        assert((big * (2 * -x)) * d == big * (2 * -(x * d)));
        assert(big * (2 * -(x * d)) <= big * (d * den) + 2 * (parts * d));
        assert(big * (d * den) + 2 * (parts * d) == (big * den + 2 * parts) * d);
    }
}

proof fn one_decimal(q: nat)
    ensures
        shows(decimal(q / 10) + seq!['.', digit_char(q % 10)], 1, q),
{
    let w = decimal(q / 10);
    decimal_numbers_are_read_back(q / 10);
    digits_are_read_back(q % 10, 10);
    let t = w + seq!['.', digit_char(q % 10)];
    let all = w.push(digit_char(q % 10));
    assert(t.remove(t.len() - 2) =~= all);
    assert(all.drop_last() =~= w);
    assert(all.last() == digit_char(q % 10));
    assert(digits_value(all, 10) == Some((q / 10) * 10 + q % 10));
}

proof fn two_decimals(q: nat)
    ensures
        shows(
            decimal(q / 100) + seq!['.', digit_char(q / 10 % 10), digit_char(q % 10)],
            2,
            q,
        ),
{
    let w = decimal(q / 100);
    let (d, e) = (q / 10 % 10, q % 10);
    decimal_numbers_are_read_back(q / 100);
    digits_are_read_back(d, 10);
    digits_are_read_back(e, 10);
    let t = w + seq!['.', digit_char(d), digit_char(e)];
    let some = w.push(digit_char(d));
    let all = some.push(digit_char(e));
    assert(t.remove(t.len() - 3) =~= all);
    assert(some.drop_last() =~= w);
    assert(some.last() == digit_char(d));
    assert(digits_value(some, 10) == Some((q / 100) * 10 + d));
    assert(all.drop_last() =~= some);
    assert(all.last() == digit_char(e));
    assert(digits_value(all, 10) == Some(((q / 100) * 10 + d) * 10 + e));
    assert(((q / 100) * 10 + d) * 10 + e == q);
}

/// A figure below nothing is shown as its opposite with a minus sign before it.
pub proof fn negative_figures_have_a_sign(n: nat, den: nat, decimals: nat)
    requires
        n > 0,
    ensures
        signed_fixed(-(n as int), den, decimals) == seq!['-'] + signed_fixed(
            n as int,
            den,
            decimals,
        ),
        signed_fixed(n as int, den, decimals) == fixed(n, den, decimals),
        integer(-(n as int)) == seq!['-'] + integer(n as int),
        integer(n as int) == decimal(n),
{
    assert(seq![] + fixed(n, den, decimals) =~= fixed(n, den, decimals));
}

/// Padding adds spaces only, up to the width, on its own side.
pub proof fn padding_adds_spaces_only(s: Seq<char>, width: nat)
    ensures
        pad_right(s, width).len() == (if s.len() < width {
            width
        } else {
            s.len()
        }),
        pad_left(s, width).len() == pad_right(s, width).len(),
        pad_right(s, width).take(s.len() as int) == s,
        pad_left(s, width).skip(pad_left(s, width).len() - s.len()) == s,
        forall|i: int| s.len() <= i < width ==> #[trigger] pad_right(s, width)[i] == ' ',
        forall|i: int| 0 <= i < width - s.len() ==> #[trigger] pad_left(s, width)[i] == ' ',
{
    assert(pad_right(s, width).take(s.len() as int) =~= s);
    assert(pad_left(s, width).skip(pad_left(s, width).len() - s.len()) =~= s);
}

/// Letter case changes nothing but capital letters, and those to the small
/// letters, which stand 32 places behind.
pub proof fn letter_case_changes_capitals_only(c: char)
    ensures
        'A' <= c <= 'Z' ==> ascii_lower(c) as u32 == c as u32 + 32 && 'a' <= ascii_lower(c) <= 'z',
        !('A' <= c <= 'Z') ==> ascii_lower(c) == c,
        ascii_lower(ascii_lower(c)) == ascii_lower(c),
        (c as u32) < 128 ==> lowered_char(c) == ascii_lower(c),
        0x410 <= c as u32 <= 0x42f ==> lowered_char(c) as u32 == c as u32 + 32,
        0x430 <= c as u32 <= 0x44f ==> lowered_char(c) == c,
{
}

/// What an input field takes: one more character at its end, where it holds fewer
/// than 128; what it gives up: the last one.
pub proof fn input_fields_are_bounded(s: Seq<char>, c: char)
    ensures
        s.len() < 128 ==> with_char(s, c) == s + seq![c] && without_last(with_char(s, c)) == s,
        s.len() >= 128 ==> with_char(s, c) == s,
        s.len() > 0 ==> without_last(s) + seq![s.last()] == s,
        without_last(Seq::empty()) == Seq::<char>::empty(),
{
    assert(s.push(c) =~= s + seq![c]);
    assert(s.push(c).drop_last() =~= s);
    if s.len() > 0 {
        assert(s.drop_last() + seq![s.last()] =~= s);
    }
}

/// A text with a separator in it has the pieces of what stands before it, and then
/// those of what stands behind; one without is one piece.
pub proof fn splitting_goes_part_by_part(a: Seq<char>, b: Seq<char>, c: char)
    ensures
        split(a + seq![c] + b, c) == split(a, c) + split(b, c),
        !a.contains(c) ==> split(a, c) == seq![a],
    decreases a.len() + b.len(),
{
    let x = a + seq![c] + b;
    joining_undoes_splitting(b, c);
    if b.len() == 0 {
        assert(x.drop_last() =~= a);
        assert(split(x, c) =~= split(a, c) + split(b, c));
    } else {
        splitting_goes_part_by_part(a, b.drop_last(), c);
        joining_undoes_splitting(b.drop_last(), c);
        assert(x.drop_last() =~= a + seq![c] + b.drop_last());
        assert(x.last() == b.last());
        assert(split(x, c) =~= split(a, c) + split(b, c));
    }
    if !a.contains(c) {
        one_piece(a, c);
    }
}

proof fn one_piece(a: Seq<char>, c: char)
    requires
        !a.contains(c),
    ensures
        split(a, c) == seq![a],
    decreases a.len(),
{
    if a.len() > 0 {
        assert(a.contains(a.last()));
        assert forall|k: int| 0 <= k < a.drop_last().len() implies a.drop_last()[k] != c by {
            assert(a.contains(a[k]));
        }
        one_piece(a.drop_last(), c);
        assert(split(a, c) =~= seq![a.drop_last().push(a.last())]);
        assert(a.drop_last().push(a.last()) =~= a);
    } else {
        assert(a =~= Seq::empty());
    }
}

} // verus!
