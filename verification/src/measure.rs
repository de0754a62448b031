//! Time, exact quotients and bounded windows.
//!
//! Durations and instants are whole nanoseconds, and average times and data
//! rates are kept as exact quotients, so every threshold is
//! decided without rounding.

use vstd::prelude::*;

verus! {

/// Nanoseconds in a second.
pub const SECOND: u64 = 1_000_000_000;

/// Nanoseconds in a millisecond.
pub const MILLISECOND: u64 = 1_000_000;

/// Bits per second in a megabit per second.
pub const MEGABIT: u64 = 1_000_000;

/// A point in calendar time: seconds since the Unix epoch and the nanoseconds
/// past them.
#[derive(Debug, Clone, Copy, PartialEq, Eq, Structural)]
pub struct Timestamp {
    pub secs: i64,
    pub nanos: u32,
}

/// The two clock readings that belong to one step of the program.
#[derive(Debug, Clone, Copy, PartialEq, Eq, Structural)]
pub struct Moment {
    /// Monotonic clock, in nanoseconds.
    pub ticks: u64,
    /// Calendar clock.
    pub wall: Timestamp,
}

impl Moment {
    /// The monotonic clock leaves room for the longest deadline that is ever
    /// set from it (thirty seconds ahead).
    pub open spec fn valid(self) -> bool {
        self.ticks + 30 * SECOND <= u64::MAX
    }
}

/// The nanoseconds from `since` to `now`; zero where `since` lies ahead.
pub open spec fn elapsed(now: u64, since: u64) -> u64 {
    if now >= since {
        (now - since) as u64
    } else {
        0
    }
}

/// The nanoseconds from `since` to `now`; zero where `since` lies ahead.
pub fn elapsed_since(now: u64, since: u64) -> (gone: u64)
    ensures
        gone == elapsed(now, since),
{
    if now >= since {
        now - since
    } else {
        0
    }
}

/// An exact non-negative quotient.
#[derive(Debug, Clone, Copy, PartialEq, Eq, Structural)]
pub struct Quotient {
    pub num: u128,
    pub den: u128,
}

impl Quotient {
    /// Whether the quotient is at most `bound / 10`.
    pub open spec fn le_tenths(self, bound: int) -> bool {
        10 * self.num <= bound * self.den
    }

    /// Whether the quotient is less than `bound / 10`.
    pub open spec fn lt_tenths(self, bound: int) -> bool {
        10 * self.num < bound * self.den
    }

    /// The quotient lies in the range in which its comparisons are exact in
    /// 128 bits.
    pub open spec fn small(self) -> bool {
        0 < self.den <= u64::MAX && self.num <= u64::MAX * 0x1_0000_0000_0000
    }

    /// Whether the quotient is at most `bound / 10`.
    pub fn at_most_tenths(&self, bound: u64) -> (yes: bool)
        requires
            self.small(),
        ensures
            yes == self.le_tenths(bound as int),
    {
        assert(bound * self.den <= u64::MAX * u64::MAX) by (nonlinear_arith)
            requires
                0 <= bound <= u64::MAX,
                0 <= self.den <= u64::MAX,
        ;
        10 * self.num <= bound as u128 * self.den
    }

    /// Whether the quotient is less than `bound / 10`.
    pub fn below_tenths(&self, bound: u64) -> (yes: bool)
        requires
            self.small(),
        ensures
            yes == self.lt_tenths(bound as int),
    {
        assert(bound * self.den <= u64::MAX * u64::MAX) by (nonlinear_arith)
            requires
                0 <= bound <= u64::MAX,
                0 <= self.den <= u64::MAX,
        ;
        10 * self.num < bound as u128 * self.den
    }

    /// Whether the quotient is at least `bound`.
    pub open spec fn reaches(self, bound: int) -> bool {
        self.num >= bound * self.den
    }

    /// Whether the quotient is at least `bound`.
    pub fn at_least(&self, bound: u64) -> (yes: bool)
        requires
            self.small(),
        ensures
            yes == self.reaches(bound as int),
    {
        assert(bound * self.den <= u64::MAX * u64::MAX) by (nonlinear_arith)
            requires
                0 <= bound <= u64::MAX,
                0 <= self.den <= u64::MAX,
        ;
        self.num >= bound as u128 * self.den
    }
}

/// A data rate: so many bytes in so many nanoseconds (at least one).
#[derive(Debug, Clone, Copy, PartialEq, Eq, Structural)]
pub struct Rate {
    pub bytes: u64,
    pub ns: u64,
}

/// `n`, but at least one.
#[verifier::allow_in_spec]
pub fn at_least_one(n: u64) -> (m: u64)
    returns
        (if n == 0 {
            1u64
        } else {
            n
        }),
{
    if n == 0 {
        1
    } else {
        n
    }
}

impl Rate {
    /// No data.
    #[verifier::allow_in_spec]
    pub fn zero() -> (r: Self)
        returns
            (Rate { bytes: 0, ns: 1 }),
    {
        Rate { bytes: 0, ns: 1 }
    }

    /// The rate in bits per second.
    pub open spec fn bits(self) -> Quotient {
        Quotient {
            num: (self.bytes * 8_000_000_000) as u128,
            den: at_least_one(self.ns) as u128,
        }
    }

    /// The rate in bits per second.
    pub fn bps(&self) -> (q: Quotient)
        ensures
            q == self.bits(),
            q.num == self.bytes * 8_000_000_000,
            q.small(),
    {
        Quotient {
            num: self.bytes as u128 * 8_000_000_000,
            den: at_least_one(self.ns) as u128,
        }
    }

    /// The rate in billionths of a bit per second, rounded down.
    pub open spec fn fine(self) -> nat {
        (self.bytes * 8_000_000_000_000_000_000 / at_least_one(self.ns) as int) as nat
    }

    /// The rate in billionths of a bit per second, rounded down.
    pub fn billionths(&self) -> (n: u128)
        ensures
            n == self.fine(),
    {
        self.bytes as u128 * 8_000_000_000_000_000_000 / at_least_one(self.ns) as u128
    }

    /// Whether this rate is higher than another.
    pub open spec fn above(self, other: Rate) -> bool {
        self.bytes * at_least_one(other.ns) > other.bytes * at_least_one(self.ns)
    }

    /// Whether this rate is higher than another.
    pub fn exceeds(&self, other: &Rate) -> (yes: bool)
        ensures
            yes == self.above(*other),
    {
        let (a, b) = (at_least_one(other.ns), at_least_one(self.ns));
        assert(self.bytes * a <= u64::MAX * u64::MAX) by (nonlinear_arith)
            requires
                self.bytes <= u64::MAX,
                a <= u64::MAX,
        ;
        assert(other.bytes * b <= u64::MAX * u64::MAX) by (nonlinear_arith)
            requires
                other.bytes <= u64::MAX,
                b <= u64::MAX,
        ;
        self.bytes as u128 * a as u128 > other.bytes as u128 * b as u128
    }
}

/// A smoothed data rate: whole bits per second and billionths of one.
#[derive(Debug, Clone, Copy, PartialEq, Eq, Structural)]
pub struct LiveRate {
    pub bps: u64,
    pub billionths: u32,
}

impl LiveRate {
    /// No data.
    #[verifier::allow_in_spec]
    pub fn zero() -> (r: Self)
        returns
            (LiveRate { bps: 0, billionths: 0 }),
    {
        LiveRate { bps: 0, billionths: 0 }
    }

    /// The rate in billionths of a bit per second.
    pub open spec fn fine(self) -> nat {
        (self.bps * 1_000_000_000 + self.billionths) as nat
    }

    /// The rate in billionths of a bit per second.
    pub fn total(&self) -> (n: u128)
        ensures
            n == self.fine(),
            n <= u64::MAX * 1_000_000_000 + u32::MAX,
    {
        self.bps as u128 * 1_000_000_000 + self.billionths as u128
    }

    /// The rate of so many billionths of a bit per second, at most the highest
    /// one that can be held.
    pub open spec fn of(fine: nat) -> Self {
        let whole = fine / 1_000_000_000;
        if whole > u64::MAX {
            LiveRate { bps: u64::MAX, billionths: 999_999_999 }
        } else {
            LiveRate { bps: whole as u64, billionths: (fine % 1_000_000_000) as u32 }
        }
    }

    /// The rate of so many billionths of a bit per second, at most the highest
    /// one that can be held.
    pub fn from_billionths(fine: u128) -> (r: Self)
        ensures
            r == LiveRate::of(fine as nat),
    {
        let whole: u128 = fine / 1_000_000_000;
        if whole > u64::MAX as u128 {
            LiveRate { bps: u64::MAX, billionths: 999_999_999 }
        } else {
            LiveRate { bps: whole as u64, billionths: (fine % 1_000_000_000) as u32 }
        }
    }

    /// The rate in bits per second.
    pub open spec fn bits(self) -> Quotient {
        Quotient { num: self.fine() as u128, den: 1_000_000_000 }
    }

    /// The rate in bits per second.
    pub fn rate(&self) -> (q: Quotient)
        ensures
            q == self.bits(),
            q.small(),
    {
        Quotient { num: self.total(), den: 1_000_000_000 }
    }
}

/// An average time: whole nanoseconds and a fraction of one, whose denominator
/// is at least one.
#[derive(Debug, Clone, Copy, PartialEq, Eq, Structural)]
pub struct Mean {
    pub ns: u64,
    pub part: u32,
    pub of: u32,
}

/// The parts into which a nanosecond is divided where averages are added up:
/// every average of up to twelve times is a whole number of them.
pub const GRAIN: u64 = 27_720;

impl Mean {
    /// No time.
    #[verifier::allow_in_spec]
    pub fn zero() -> (m: Self)
        returns
            (Mean { ns: 0, part: 0, of: 1 }),
    {
        Mean { ns: 0, part: 0, of: 1 }
    }

    /// The average of `n` times that add up to `total`.
    pub open spec fn among(total: nat, n: nat) -> Self {
        Mean { ns: (total / n) as u64, part: (total % n) as u32, of: n as u32 }
    }

    /// The average of `n` times that add up to `total`.
    pub fn of_total(total: u128, n: u32) -> (m: Self)
        requires
            n > 0,
            total <= n * u64::MAX,
        ensures
            m == Mean::among(total as nat, n as nat),
            m.nanos().num == total,
            m.nanos().den == n,
    {
        assert(total / n as u128 <= u64::MAX) by (nonlinear_arith)
            requires
                n > 0,
                total <= n * u64::MAX,
        ;
        let m = Mean {
            ns: (total / n as u128) as u64,
            part: (total % n as u128) as u32,
            of: n,
        };
        proof {
            vstd::arithmetic::div_mod::lemma_fundamental_div_mod(total as int, n as int);
            assert(n as int * (total as int / n as int) == (total as int / n as int) * n as int)
                by (nonlinear_arith);
            assert(m.ns * m.of + m.part == total);
        }
        m
    }

    /// The time in nanoseconds.
    pub open spec fn nanos(self) -> Quotient {
        let of = at_least_one(self.of as u64);
        Quotient { num: (self.ns * of + self.part) as u128, den: of as u128 }
    }

    /// The time in nanoseconds.
    pub fn time(&self) -> (q: Quotient)
        ensures
            q == self.nanos(),
            q.num == self.ns * q.den + self.part,
            q.small(),
    {
        let of: u64 = at_least_one(self.of as u64);
        assert(self.ns * of <= u64::MAX * u32::MAX) by (nonlinear_arith)
            requires
                self.ns <= u64::MAX,
                of <= u32::MAX,
        ;
        Quotient { num: self.ns as u128 * of as u128 + self.part as u128, den: of as u128 }
    }

    /// The time in grains, rounded down.
    pub open spec fn grains(self) -> nat {
        (self.nanos().num * GRAIN / self.nanos().den as int) as nat
    }

    /// The time in grains, rounded down.
    pub fn in_grains(&self) -> (n: u128)
        ensures
            n == self.grains(),
    {
        let q = self.time();
        assert(q.num * GRAIN == q.num * 27_720);
        q.num * 27_720 / q.den
    }
}

/// An average of up to twelve times is a whole number of grains: no part of it
/// is lost where averages are added up.
pub proof fn averages_are_whole_grains(total: nat, n: nat)
    requires
        1 <= n <= 12,
        total <= n * u64::MAX,
    ensures
        Mean::among(total, n).grains() * n == total * GRAIN,
{
    let m = Mean::among(total, n);
    assert(total / n <= u64::MAX) by (nonlinear_arith)
        requires
            n > 0,
            total <= n * u64::MAX,
    ;
    vstd::arithmetic::div_mod::lemma_fundamental_div_mod(total as int, n as int);
    assert(n * (total / n) == (total / n) * n) by (nonlinear_arith);
    assert(m.nanos().num == total && m.nanos().den == n);
    assert(total * GRAIN == total * 27_720);
    let x: int = total as int * 27_720;
    // How many grains each of `n` parts of a nanosecond has.
    let c: int = if n == 1 {
        27_720
    } else if n == 2 {
        13_860
    } else if n == 3 {
        9_240
    } else if n == 4 {
        6_930
    } else if n == 5 {
        5_544
    } else if n == 6 {
        4_620
    } else if n == 7 {
        3_960
    } else if n == 8 {
        3_465
    } else if n == 9 {
        3_080
    } else if n == 10 {
        2_772
    } else if n == 11 {
        2_520
    } else {
        2_310
    };
    assert(c * n == 27_720);
    assert(x == (total * c) * n) by (nonlinear_arith)
        requires
            x == total as int * 27_720,
            c * n == 27_720,
    ;
    vstd::arithmetic::div_mod::lemma_fundamental_div_mod_converse(x, n as int, total * c, 0);
}

/// The highest sum that is kept of the results of a session.
pub const SUM_LIMIT: u128 = 0x4000_0000_0000_0000_0000_0000_0000_0000;

/// A sum with one more result, up to the limit.
pub open spec fn added(sum: u128, x: nat) -> u128 {
    if sum + x > SUM_LIMIT {
        SUM_LIMIT
    } else {
        (sum + x) as u128
    }
}

/// A sum with one more result, up to the limit.
pub fn added_to(sum: u128, x: u128) -> (total: u128)
    ensures
        total == added(sum, x as nat),
        total <= SUM_LIMIT,
{
    if sum >= SUM_LIMIT || x > SUM_LIMIT - sum {
        SUM_LIMIT
    } else {
        sum + x
    }
}

/// `s` with `x` appended and, where that makes it longer than `cap`, its first
/// item dropped.
pub open spec fn pushed<T>(s: Seq<T>, x: T, cap: nat) -> Seq<T> {
    if s.push(x).len() > cap {
        s.push(x).drop_first()
    } else {
        s.push(x)
    }
}

/// The last `n` items of `s`, or all of it where it has fewer.
pub open spec fn tail<T>(s: Seq<T>, n: nat) -> Seq<T> {
    if s.len() > n {
        s.subrange(s.len() - n, s.len() as int)
    } else {
        s
    }
}

/// The sum of `s`.
pub open spec fn sum(s: Seq<u64>) -> nat
    decreases s.len(),
{
    if s.len() == 0 {
        0
    } else {
        sum(s.drop_last()) + s.last() as nat
    }
}

/// The distance between two numbers.
pub open spec fn distance(a: u64, b: u64) -> nat {
    if a >= b {
        (a - b) as nat
    } else {
        (b - a) as nat
    }
}

/// The sum of the distances between neighbours in `s`.
pub open spec fn variation(s: Seq<u64>) -> nat
    decreases s.len(),
{
    if s.len() < 2 {
        0
    } else {
        variation(s.drop_last()) + distance(s[s.len() - 2], s.last())
    }
}

/// The smallest number in `s`, zero where it is empty.
pub open spec fn least(s: Seq<u64>) -> u64
    decreases s.len(),
{
    if s.len() == 0 {
        0
    } else if s.len() == 1 {
        s[0]
    } else if s.last() < least(s.drop_last()) {
        s.last()
    } else {
        least(s.drop_last())
    }
}

/// The largest number in `s`, zero where it is empty.
pub open spec fn greatest(s: Seq<u64>) -> u64
    decreases s.len(),
{
    if s.len() == 0 {
        0
    } else if s.last() > greatest(s.drop_last()) {
        s.last()
    } else {
        greatest(s.drop_last())
    }
}

/// The middle item of `s` in ascending order (the upper one of two), zero
/// where `s` is empty.
pub open spec fn median(s: Seq<u64>) -> u64 {
    if s.len() == 0 {
        0
    } else {
        s.sort_by(|a: u64, b: u64| a <= b)[(s.len() / 2) as int]
    }
}

/// The least and the greatest number of a sequence are items of it, and bound
/// every item.
pub proof fn extremes_bound(s: Seq<u64>)
    requires
        s.len() > 0,
    ensures
        s.contains(least(s)),
        s.contains(greatest(s)),
        forall|i: int| 0 <= i < s.len() ==> least(s) <= #[trigger] s[i] <= greatest(s),
    decreases s.len(),
{
    if s.len() == 1 {
        assert(s.drop_last().len() == 0);
        assert(s[0] == s.last());
        assert(greatest(s.drop_last()) == 0);
    } else {
        let t = s.drop_last();
        extremes_bound(t);
        let a = choose|i: int| 0 <= i < t.len() && t[i] == least(t);
        let b = choose|i: int| 0 <= i < t.len() && t[i] == greatest(t);
        assert(s[a] == least(t) && s[b] == greatest(t));
        assert(s[s.len() - 1] == s.last());
        assert forall|i: int| 0 <= i < s.len() implies least(s) <= #[trigger] s[i]
            <= greatest(s) by {
            if i < t.len() {
                assert(t[i] == s[i]);
            }
        }
    }
}

/// The sum of a sequence lies between its length times its least and its
/// length times its greatest number.
pub proof fn sum_between_extremes(s: Seq<u64>, lo: u64, hi: u64)
    requires
        forall|i: int| 0 <= i < s.len() ==> lo <= #[trigger] s[i] <= hi,
    ensures
        lo * s.len() <= sum(s) <= hi * s.len(),
    decreases s.len(),
{
    if s.len() > 0 {
        let t = s.drop_last();
        assert forall|i: int| 0 <= i < t.len() implies lo <= #[trigger] t[i] <= hi by {
            assert(t[i] == s[i]);
        }
        sum_between_extremes(t, lo, hi);
        assert(s[s.len() - 1] == s.last());
        assert(lo * s.len() == lo * t.len() + lo) by (nonlinear_arith)
            requires
                s.len() == t.len() + 1,
        ;
        assert(hi * s.len() == hi * t.len() + hi) by (nonlinear_arith)
            requires
                s.len() == t.len() + 1,
        ;
    }
}

/// The middle item of `s` in ascending order (the upper one of two), zero
/// where `s` is empty.
pub fn median_of(mut items: Vec<u64>) -> (m: u64)
    ensures
        m == median(items@),
{
    let ghost input = items@;
    let n: usize = items.len();
    if n == 0 {
        return 0;
    }
    let mut i: usize = 1;
    while i < n
        invariant
            n == items@.len(),
            1 <= i <= n,
            items@.to_multiset() == input.to_multiset(),
            forall|a: int, b: int| 0 <= a <= b < i ==> items@[a] <= items@[b],
        decreases n - i,
    {
        let mut j: usize = i;
        while j > 0 && items[j] < items[j - 1]
            invariant
                n == items@.len(),
                j <= i < n,
                items@.to_multiset() == input.to_multiset(),
                forall|a: int, b: int|
                    0 <= a <= b <= i && a != j && b != j ==> items@[a] <= items@[b],
                forall|b: int| j < b <= i ==> items@[j as int] <= items@[b],
            decreases j,
        {
            let ghost before = items@;
            let x: u64 = items[j];
            let y: u64 = items[j - 1];
            items.set(j, y);
            items.set(j - 1, x);
            proof {
                broadcast use {
                    vstd::multiset::group_multiset_axioms,
                    vstd::seq_lib::group_to_multiset_ensures,
                };

                let mid = before.update(j as int, y);
                assert(before[j as int] == x && before[j - 1] == y);
                assert(before.to_multiset().count(x) > 0);
                assert(before.to_multiset().count(y) > 0);
                vstd::seq_lib::to_multiset_update(before, j as int, y);
                vstd::seq_lib::to_multiset_update(mid, j - 1, x);
                assert(mid[j - 1] == y);
                assert(items@ == mid.update(j - 1, x));
                assert(items@.to_multiset() =~= before.to_multiset());
            }
            j = j - 1;
        }
        i = i + 1;
    }
    proof {
        let leq = |a: u64, b: u64| a <= b;
        assert(vstd::relations::sorted_by(items@, leq));
        input.lemma_sort_by_ensures(leq);
        vstd::seq_lib::lemma_sorted_unique(items@, input.sort_by(leq), leq);
    }
    items[n / 2]
}

/// The sum of `items`.
pub fn sum_of(items: &Vec<u64>) -> (total: u128)
    ensures
        total == sum(items@),
        total <= items@.len() * u64::MAX,
{
    let mut total: u128 = 0;
    let mut i: usize = 0;
    assert(items.len() <= usize::MAX);
    while i < items.len()
        invariant
            i <= items@.len() <= usize::MAX,
            total == sum(items@.take(i as int)),
            total <= i * u64::MAX,
        decreases items@.len() - i,
    {
        assert(items@.take(i + 1).drop_last() =~= items@.take(i as int));
        total = total + items[i] as u128;
        i = i + 1;
    }
    assert(items@.take(i as int) =~= items@);
    total
}

/// The sum of the distances between neighbours in `items`.
pub fn variation_of(items: &Vec<u64>) -> (total: u128)
    ensures
        total == variation(items@),
        total <= items@.len() * u64::MAX,
{
    let mut total: u128 = 0;
    let mut i: usize = 1;
    if items.len() == 0 {
        return 0;
    }
    assert(items@.take(1).len() == 1);
    while i < items.len()
        invariant
            1 <= i <= items@.len() <= usize::MAX,
            total == variation(items@.take(i as int)),
            total <= i * u64::MAX,
        decreases items@.len() - i,
    {
        assert(items@.take(i + 1).drop_last() =~= items@.take(i as int));
        let a: u64 = items[i - 1];
        let b: u64 = items[i];
        let d: u64 = if a >= b {
            a - b
        } else {
            b - a
        };
        total = total + d as u128;
        i = i + 1;
    }
    assert(items@.take(i as int) =~= items@);
    total
}

/// The smallest of `items`, zero where there are none.
pub fn least_of(items: &Vec<u64>) -> (m: u64)
    ensures
        m == least(items@),
{
    if items.len() == 0 {
        return 0;
    }
    let mut m: u64 = items[0];
    let mut i: usize = 1;
    assert(items@.take(1)[0] == items@[0]);
    while i < items.len()
        invariant
            1 <= i <= items@.len(),
            m == least(items@.take(i as int)),
        decreases items@.len() - i,
    {
        assert(items@.take(i + 1).drop_last() =~= items@.take(i as int));
        if items[i] < m {
            m = items[i];
        }
        i = i + 1;
    }
    assert(items@.take(i as int) =~= items@);
    m
}

/// The largest of `items`, zero where there are none.
pub fn greatest_of(items: &Vec<u64>) -> (m: u64)
    ensures
        m == greatest(items@),
{
    let mut m: u64 = 0;
    let mut i: usize = 0;
    while i < items.len()
        invariant
            i <= items@.len(),
            m == greatest(items@.take(i as int)),
        decreases items@.len() - i,
    {
        assert(items@.take(i + 1).drop_last() =~= items@.take(i as int));
        if items[i] > m {
            m = items[i];
        }
        i = i + 1;
    }
    assert(items@.take(i as int) =~= items@);
    m
}

// ---- laws -----------------------------------------------------------------

/// What is taken out of a list leaves the rest of its matching items.
proof fn matches_without(t: Seq<u64>, i: int, p: spec_fn(u64) -> bool)
    requires
        0 <= i < t.len(),
    ensures
        t.filter(p).len() == t.remove(i).filter(p).len() + (if p(t[i]) {
            1int
        } else {
            0
        }),
{
    let (a, b) = (t.take(i), t.skip(i + 1));
    let one = Seq::<u64>::empty().push(t[i]);
    assert(t =~= (a + one) + b);
    assert(t.remove(i) =~= a + b);
    Seq::filter_distributes_over_add(a + one, b, p);
    Seq::filter_distributes_over_add(a, one, p);
    Seq::filter_distributes_over_add(a, b, p);
    Seq::<u64>::empty().lemma_filter_len_push(p, t[i]);
    reveal(Seq::filter);
}

/// Two lists of the same items have as many matching ones.
proof fn same_items_match_alike(s: Seq<u64>, t: Seq<u64>, p: spec_fn(u64) -> bool)
    requires
        s.to_multiset() == t.to_multiset(),
    ensures
        s.filter(p).len() == t.filter(p).len(),
    decreases s.len(),
{
    broadcast use vstd::seq_lib::group_to_multiset_ensures;

    assert(s.len() == s.to_multiset().len());
    assert(t.len() == t.to_multiset().len());
    if s.len() == 0 {
        assert(s =~= t);
    } else {
        let last = s.len() - 1;
        let x = s[last];
        assert(s.to_multiset().count(x) > 0);
        assert(t.contains(x));
        let i = choose|i: int| 0 <= i < t.len() && t[i] == x;
        assert(s.remove(last).to_multiset() =~= t.remove(i).to_multiset());
        same_items_match_alike(s.remove(last), t.remove(i), p);
        matches_without(s, last, p);
        matches_without(t, i, p);
    }
}

/// The median is an item of the list; at most half of the items lie below it,
/// and fewer than half (rounded up) above it.
pub proof fn the_median_is_in_the_middle(s: Seq<u64>)
    requires
        s.len() > 0,
    ensures
        s.contains(median(s)),
        s.filter(|x: u64| x < median(s)).len() <= s.len() / 2,
        s.filter(|x: u64| x > median(s)).len() < s.len() - s.len() / 2,
{
    let leq = |a: u64, b: u64| a <= b;
    let t = s.sort_by(leq);
    s.lemma_sort_by_ensures(leq);
    broadcast use vstd::seq_lib::group_to_multiset_ensures;

    assert(t.len() == t.to_multiset().len());
    assert(s.len() == s.to_multiset().len());
    let k = (s.len() / 2) as int;
    let m = t[k];
    assert(m == median(s));
    assert(t.contains(m));
    let (below, above) = (|x: u64| x < median(s), |x: u64| x > median(s));
    same_items_match_alike(s, t, below);
    same_items_match_alike(s, t, above);
    assert(t =~= t.take(k) + t.skip(k));
    assert(t =~= t.take(k + 1) + t.skip(k + 1));
    Seq::filter_distributes_over_add(t.take(k), t.skip(k), below);
    Seq::filter_distributes_over_add(t.take(k + 1), t.skip(k + 1), above);
    assert forall|x: u64| t.skip(k).contains(x) implies !#[trigger] below(x) by {
        let end = t.skip(k);
        let j = choose|j: int| 0 <= j < end.len() && end[j] == x;
        assert(t[k + j] == x);
        assert(leq(t[k], t[k + j]));
    }
    assert forall|x: u64| t.take(k + 1).contains(x) implies !#[trigger] above(x) by {
        let head = t.take(k + 1);
        let j = choose|j: int| 0 <= j < head.len() && head[j] == x;
        assert(t[j] == x);
        assert(leq(t[j], t[k]));
    }
    nothing_matches(t.skip(k), below);
    nothing_matches(t.take(k + 1), above);
    t.take(k).lemma_filter_len(below);
    t.skip(k + 1).lemma_filter_len(above);
}

proof fn nothing_matches(s: Seq<u64>, p: spec_fn(u64) -> bool)
    requires
        forall|x: u64| s.contains(x) ==> !#[trigger] p(x),
    ensures
        s.filter(p).len() == 0,
    decreases s.len(),
{
    reveal(Seq::filter);
    if s.len() > 0 {
        assert forall|x: u64| s.drop_last().contains(x) implies !#[trigger] p(x) by {
            let j = choose|j: int| 0 <= j < s.drop_last().len() && s.drop_last()[j] == x;
            assert(s[j] == x);
        }
        nothing_matches(s.drop_last(), p);
        assert(s[s.len() - 1] == s.last());
        assert(s.contains(s.last()));
    }
}

/// The tail of a list is its end: as many items as asked for, as far as it has
/// them, and counted from the end the same ones. So a further item is always in
/// a tail that is not empty.
pub proof fn the_tail_is_the_newest<T>(s: Seq<T>, n: nat, x: T)
    ensures
        tail(s, n).len() == (if n < s.len() {
            n
        } else {
            s.len()
        }),
        forall|i: int|
            0 <= i < tail(s, n).len() ==> #[trigger] tail(s, n)[i] == s[s.len() - tail(s, n).len()
                + i],
        exists|front: Seq<T>| s == #[trigger] (front + tail(s, n)),
        n > 0 ==> tail(s.push(x), n).last() == x,
{
    let front = s.take(s.len() - tail(s, n).len());
    assert(s =~= front + tail(s, n));
}

/// A bounded list takes every item in at its end and lets go of the oldest only:
/// it holds the newest items, as many as its bound allows.
pub proof fn a_bounded_list_keeps_the_newest<T>(s: Seq<T>, x: T, cap: nat)
    requires
        0 < cap,
        s.len() <= cap,
    ensures
        pushed(s, x, cap).last() == x,
        pushed(s, x, cap).len() == (if s.len() == cap {
            cap
        } else {
            s.len() + 1
        }),
        forall|i: int|
            0 <= i < pushed(s, x, cap).len() - 1 ==> #[trigger] pushed(s, x, cap)[i] == s[s.len()
                - pushed(s, x, cap).len() + 1 + i],
{
}

/// The sum of two lists together is the sum of both; that of one item is the
/// item.
pub proof fn sums_add_up(a: Seq<u64>, b: Seq<u64>, x: u64)
    ensures
        sum(a + b) == sum(a) + sum(b),
        sum(seq![x]) == x,
        sum(Seq::empty()) == 0,
    decreases b.len(),
{
    assert(seq![x].drop_last() =~= Seq::<u64>::empty());
    assert(sum(Seq::<u64>::empty()) == 0);
    if b.len() == 0 {
        assert(a + b =~= a);
    } else {
        assert((a + b).drop_last() =~= a + b.drop_last());
        sums_add_up(a, b.drop_last(), x);
    }
}

/// A further item adds its distance from the last one to the variation, which
/// is never less than the distance between the ends, and nothing where all
/// items are equal.
pub proof fn variation_grows_by_distance(s: Seq<u64>, x: u64)
    requires
        s.len() > 0,
    ensures
        x >= s.last() ==> variation(s.push(x)) == variation(s) + (x - s.last()),
        x < s.last() ==> variation(s.push(x)) == variation(s) + (s.last() - x),
        variation(seq![x]) == 0,
        s.last() - s[0] <= variation(s),
        s[0] - s.last() <= variation(s),
    decreases s.len(),
{
    assert(s.push(x).drop_last() =~= s);
    if s.len() > 1 {
        variation_grows_by_distance(s.drop_last(), x);
        assert(s.drop_last().last() == s[s.len() - 2]);
    }
}

/// The time that has passed since a moment, added to it, gives the present one.
pub proof fn elapsed_time_adds_up(now: u64, since: u64)
    ensures
        since <= now ==> since + elapsed(now, since) == now,
        now < since ==> elapsed(now, since) == 0,
{
}

/// A rate of eight billion bits in a second per byte and nanosecond: a rate
/// times its time is the number of bits, and the billionths of a bit fall short
/// of it by less than one.
pub proof fn a_rate_times_its_time_is_its_data(r: Rate)
    requires
        r.ns > 0,
    ensures
        r.bits().num * r.ns == (r.bytes * 8 * 1_000_000_000) * r.bits().den,
        r.fine() * r.ns <= r.bytes * 8 * 1_000_000_000 * 1_000_000_000,
        r.bytes * 8 * 1_000_000_000 * 1_000_000_000 < (r.fine() + 1) * r.ns,
{
    let x: int = r.bytes * 8_000_000_000_000_000_000;
    let n = r.ns as int;
    assert(r.bits().num == r.bytes * 8_000_000_000);
    assert(x / n * n <= x < (x / n + 1) * n) by (nonlinear_arith)
        requires
            n > 0,
    ;
    assert(x / n >= 0) by (nonlinear_arith)
        requires
            n > 0,
            x >= 0,
    ;
}

/// Of two rates over the same time that with more data is higher, of two with
/// the same data that over the shorter time; no rate is above itself, and of
/// two different ones at most one is.
pub proof fn more_data_is_a_higher_rate(a: Rate, b: Rate, c: Rate)
    requires
        a.ns > 0,
        b.ns > 0,
        c.ns > 0,
    ensures
        a.ns == b.ns ==> (a.above(b) <==> a.bytes > b.bytes),
        a.bytes == b.bytes && a.bytes > 0 ==> (a.above(b) <==> a.ns < b.ns),
        !a.above(a),
        a.above(b) ==> !b.above(a),
        a.above(b) && b.above(c) ==> a.above(c),
{
    let (x, p, y, q, z, r) = (
        a.bytes as int,
        a.ns as int,
        b.bytes as int,
        b.ns as int,
        c.bytes as int,
        c.ns as int,
    );
    if a.ns == b.ns {
        assert(x * p > y * p <==> x > y) by (nonlinear_arith)
            requires
                p > 0,
        ;
    }
    if a.bytes == b.bytes && x > 0 {
        assert(x * q > x * p <==> p < q) by (nonlinear_arith)
            requires
                x > 0,
        ;
    }
    if a.above(b) && b.above(c) {
        assert(x * r > z * p) by (nonlinear_arith)
            requires
                x * q > y * p,
                y * r > z * q,
                p > 0,
                q > 0,
                r > 0,
                z >= 0,
        {
            assert((x * q) * r > (y * p) * r);
            assert((y * r) * p > (z * q) * p);
            assert((x * r) * q > (z * p) * q);
        }
    }
}

/// A live rate holds what it is made of, as far as it fits.
pub proof fn a_live_rate_holds_its_figure(fine: nat, r: LiveRate)
    requires
        r.billionths < 1_000_000_000,
    ensures
        fine < 0x1_0000_0000_0000_0000 * 1_000_000_000 ==> LiveRate::of(fine).fine() == fine,
        LiveRate::of(fine).fine() <= fine,
        LiveRate::of(r.fine()) == r,
        r.bits().num == r.bps * 1_000_000_000 + r.billionths,
        r.bits().den == 1_000_000_000,
{
}

/// An average times the number of its parts is their sum.
pub proof fn an_average_times_its_count_is_the_total(total: nat, n: nat)
    requires
        0 < n <= u32::MAX,
        total <= n * u64::MAX,
    ensures
        Mean::among(total, n).nanos().num * n == total * Mean::among(total, n).nanos().den,
        Mean::among(total, n).nanos().den > 0,
{
    let m = Mean::among(total, n);
    assert(total / n <= u64::MAX) by (nonlinear_arith)
        requires
            n > 0,
            total <= n * u64::MAX,
    ;
    vstd::arithmetic::div_mod::lemma_fundamental_div_mod(total as int, n as int);
    assert(n * (total / n) == (total / n) * n) by (nonlinear_arith);
    assert(m.nanos().num == total && m.nanos().den == n);
}

/// A sum grows by every result, until it has reached its limit.
pub proof fn results_are_added(sum: u128, x: nat)
    ensures
        sum + x <= 0x4000_0000_0000_0000_0000_0000_0000_0000 ==> added(sum, x) == sum + x,
        sum <= 0x4000_0000_0000_0000_0000_0000_0000_0000 ==> added(sum, x) >= sum,
{
}

/// Comparing a quotient with a number is comparing its numerator with that many
/// times its denominator; the three comparisons agree with each other.
pub proof fn quotients_are_compared_exactly(q: Quotient, n: int)
    requires
        q.den > 0,
    ensures
        q.reaches(n) <==> q.num >= n * q.den,
        q.lt_tenths(10 * n) <==> !q.reaches(n),
        q.le_tenths(10 * n) <==> !q.reaches(n) || q.num == n * q.den,
        q.lt_tenths(n) ==> q.le_tenths(n),
        q.le_tenths(n) ==> q.lt_tenths(n + 1),
{
    assert((10 * n) * q.den == 10 * (n * q.den)) by (nonlinear_arith);
    assert((n + 1) * q.den == n * q.den + q.den) by (nonlinear_arith);
}

/// Where every item of one kind is of another, there are as many of that.
pub proof fn narrower_matches_are_fewer<T>(
    s: Seq<T>,
    p: spec_fn(T) -> bool,
    q: spec_fn(T) -> bool,
)
    requires
        forall|i: int| 0 <= i < s.len() && p(#[trigger] s[i]) ==> q(s[i]),
    ensures
        s.filter(p).len() <= s.filter(q).len(),
    decreases s.len(),
{
    reveal(Seq::filter);
    if s.len() > 0 {
        assert forall|i: int| 0 <= i < s.drop_last().len() && p(
            #[trigger] s.drop_last()[i],
        ) implies q(s.drop_last()[i]) by {
            assert(s.drop_last()[i] == s[i]);
        }
        narrower_matches_are_fewer(s.drop_last(), p, q);
        assert(s[s.len() - 1] == s.last());
    }
}

/// What most items of a list have in common with every smaller number, its
/// median has; and what half of them have in common with every larger one.
pub proof fn the_median_goes_with_the_majority(s: Seq<u64>, p: spec_fn(u64) -> bool)
    requires
        s.len() > 0,
    ensures
        (forall|a: u64, b: u64| a <= b && #[trigger] p(b) ==> #[trigger] p(a)) && s.filter(p).len()
            > s.len() / 2 ==> p(median(s)),
        (forall|a: u64, b: u64| a <= b && #[trigger] p(a) ==> #[trigger] p(b)) && s.filter(p).len()
            >= s.len() - s.len() / 2 ==> p(median(s)),
{
    let m = median(s);
    the_median_is_in_the_middle(s);
    if !p(m) {
        if forall|a: u64, b: u64| a <= b && #[trigger] p(b) ==> #[trigger] p(a) {
            narrower_matches_are_fewer(s, p, |x: u64| x < median(s));
        }
        if forall|a: u64, b: u64| a <= b && #[trigger] p(a) ==> #[trigger] p(b) {
            narrower_matches_are_fewer(s, p, |x: u64| x > median(s));
        }
    }
}

} // verus!
