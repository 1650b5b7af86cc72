//! Decimal numbers, held exactly.
//!
//! The notation is that of floating-point literals: an optional sign, digits
//! with at most one point, and an optional power of ten; or the words for an
//! infinity or for no number at all.
use crate::text::{
    chars_of, dec, digit_value, digits_value, first_index, is_digit, lemma_dec_digits,
    lemma_first_index_is, small, to_small,
};
use vstd::arithmetic::div_mod::{lemma_div_denominator, lemma_hoist_over_denominator};
use vstd::prelude::*;

verus! {

/// The largest power of ten that is told apart from larger ones.
pub const EXPONENT_LIMIT: u64 = 1_000_000_000_000_000_000;

/// A number: its decimal digits times a power of ten.
#[derive(Debug)]
pub enum Decimal {
    NotANumber,
    Infinite { negative: bool },
    Finite { negative: bool, digits: Vec<char>, exponent: i128 },
}

/// What a decimal denotes.
pub enum Number {
    NotANumber,
    Infinite { negative: bool },
    Finite { negative: bool, digits: Seq<char>, exponent: int },
}

impl View for Decimal {
    type V = Number;

    open spec fn view(&self) -> Number {
        match *self {
            Decimal::NotANumber => Number::NotANumber,
            Decimal::Infinite { negative } => Number::Infinite { negative },
            Decimal::Finite { negative, digits, exponent } => Number::Finite {
                negative,
                digits: digits@,
                exponent: exponent as int,
            },
        }
    }
}

// ---------------------------------------------------------------------------
// Notation
// ---------------------------------------------------------------------------

/// Whether `s` is a run of decimal digits, which may be empty.
pub open spec fn digit_run(s: Seq<char>) -> bool {
    forall|i: int| 0 <= i < s.len() ==> is_digit(#[trigger] s[i])
}

/// Whether `s` is the word `w`, in letters of either case.
pub open spec fn is_word(s: Seq<char>, w: Seq<char>) -> bool {
    s.len() == w.len() && forall|i: int| 0 <= i < s.len() ==> small(#[trigger] s[i]) == w[i]
}

/// Where the mark of a power of ten stands, or the length.
pub open spec fn mark_index(s: Seq<char>) -> nat
    decreases s.len(),
{
    if s.len() == 0 || s[0] == 'e' || s[0] == 'E' {
        0
    } else {
        1 + mark_index(s.skip(1))
    }
}

/// The power of ten behind its mark; one beyond the limit counts as the limit.
pub open spec fn exponent_of(s: Seq<char>) -> Option<int> {
    let negative = s.len() > 0 && s[0] == '-';
    let digits = if s.len() > 0 && (s[0] == '-' || s[0] == '+') {
        s.skip(1)
    } else {
        s
    };
    if digits.len() > 0 && digit_run(digits) {
        let n = if digits_value(digits) > EXPONENT_LIMIT {
            EXPONENT_LIMIT as int
        } else {
            digits_value(digits) as int
        };
        Some(
            if negative {
                -n
            } else {
                n
            },
        )
    } else {
        None
    }
}

/// The number that an unsigned text denotes.
pub open spec fn unsigned_number(s: Seq<char>, negative: bool) -> Option<Number> {
    let m = mark_index(s) as int;
    let mantissa = s.take(m);
    let p = first_index(mantissa, '.') as int;
    let whole = mantissa.take(p);
    let fraction = if p < mantissa.len() {
        mantissa.skip(p + 1)
    } else {
        Seq::empty()
    };
    let exponent = if m < s.len() {
        exponent_of(s.skip(m + 1))
    } else {
        Some(0int)
    };
    match exponent {
        Some(e) => if digit_run(whole) && digit_run(fraction) && whole.len() + fraction.len() > 0 {
            Some(
                Number::Finite { negative, digits: whole + fraction, exponent: e - fraction.len() },
            )
        } else {
            None
        },
        None => None,
    }
}

/// The number that a text denotes.
pub open spec fn number_of(s: Seq<char>) -> Option<Number> {
    let negative = s.len() > 0 && s[0] == '-';
    let body = if s.len() > 0 && (s[0] == '-' || s[0] == '+') {
        s.skip(1)
    } else {
        s
    };
    if is_word(body, seq!['i', 'n', 'f']) || is_word(
        body,
        seq!['i', 'n', 'f', 'i', 'n', 'i', 't', 'y'],
    ) {
        Some(Number::Infinite { negative })
    } else if is_word(body, seq!['n', 'a', 'n']) {
        Some(Number::NotANumber)
    } else {
        unsigned_number(body, negative)
    }
}

// ---------------------------------------------------------------------------
// Multiples
// ---------------------------------------------------------------------------

/// Ten to the power of `n`.
pub open spec fn pow10(n: nat) -> nat
    decreases n,
{
    if n == 0 {
        1
    } else {
        10 * pow10((n - 1) as nat)
    }
}

/// The whole part of `d` times ten to the power of `exponent`.
pub open spec fn whole_part(d: nat, exponent: int) -> nat {
    if exponent >= 0 {
        d * pow10(exponent as nat)
    } else {
        d / pow10((-exponent) as nat)
    }
}

/// The 64-bit number nearest to the whole part of `factor` times `n`, moved
/// `shift` decimal places to the right; zero for no number.
pub open spec fn whole_multiple(n: Number, factor: nat, shift: nat) -> nat {
    match n {
        Number::NotANumber => 0,
        Number::Infinite { negative } => if negative || factor == 0 {
            0
        } else {
            u64::MAX as nat
        },
        Number::Finite { negative, digits, exponent } => {
            let w = whole_part(digits_value(digits) * factor, exponent - shift);
            if negative {
                0
            } else if w > u64::MAX {
                u64::MAX as nat
            } else {
                w
            }
        },
    }
}

proof fn lemma_pow10_pos(n: nat)
    ensures
        pow10(n) > 0,
    decreases n,
{
    if n > 0 {
        lemma_pow10_pos((n - 1) as nat);
    }
}

proof fn lemma_pow10_mono(a: nat, b: nat)
    requires
        a <= b,
    ensures
        pow10(a) <= pow10(b),
    decreases b,
{
    if a < b {
        lemma_pow10_mono(a, (b - 1) as nat);
        lemma_pow10_pos((b - 1) as nat);
    }
}

proof fn lemma_digits_split(s: Seq<char>, i: int)
    requires
        0 <= i <= s.len(),
    ensures
        digits_value(s) == digits_value(s.take(i)) * pow10((s.len() - i) as nat) + digits_value(
            s.skip(i),
        ),
    decreases s.len() - i,
{
    if i == s.len() {
        assert(s.take(i) =~= s);
        assert(s.skip(i) =~= Seq::<char>::empty());
        assert(pow10(0) == 1);
        assert(digits_value(s) * 1 == digits_value(s)) by (nonlinear_arith);
    } else {
        let front = s.drop_last();
        lemma_digits_split(front, i);
        assert(front.take(i) =~= s.take(i));
        assert(s.skip(i).drop_last() =~= front.skip(i));
        assert(s.skip(i).last() == s.last());
        let a = digits_value(s.take(i));
        let p = pow10((front.len() - i) as nat);
        assert(10 * (a * p) == a * (10 * p)) by (nonlinear_arith);
    }
}

spec fn capped(n: int) -> int {
    if n > u64::MAX {
        u64::MAX as int
    } else {
        n
    }
}

proof fn lemma_capped_step(n: int, d: int)
    requires
        0 <= n,
        0 <= d,
    ensures
        capped(10 * n + d) == capped(10 * capped(n) + d),
{
}

/// The digits from `0` to `to` times `factor`, up to the largest 64-bit number.
fn digits_times(digits: &Vec<char>, to: usize, factor: u64) -> (r: u64)
    requires
        to <= digits@.len(),
        digit_run(digits@),
    ensures
        r == capped(digits_value(digits@.take(to as int)) * factor),
{
    let mut acc: u64 = 0;
    let mut i: usize = 0;
    assert(digits_value(digits@.take(0)) == 0);
    assert(0 * factor == 0) by (nonlinear_arith);
    while i < to
        invariant
            i <= to <= digits@.len(),
            digit_run(digits@),
            acc == capped(digits_value(digits@.take(i as int)) * factor),
        decreases to - i,
    {
        assert(is_digit(digits@[i as int]));
        let d: u64 = (digits[i] as u32 - '0' as u32) as u64;
        let ghost v = digits_value(digits@.take(i as int)) as int;
        proof {
            assert(digits@.take(i + 1).drop_last() =~= digits@.take(i as int));
            assert((10 * v + d) * factor == 10 * (v * factor) + d * factor) by (nonlinear_arith);
            assert(0 <= v * factor) by (nonlinear_arith)
                requires
                    0 <= v,
                    0 <= factor,
            ;
            assert(0 <= d * factor <= 9 * 0xffff_ffff_ffff_ffff) by (nonlinear_arith)
                requires
                    0 <= d <= 9,
                    0 <= factor <= 0xffff_ffff_ffff_ffff,
            ;
            lemma_capped_step(v * factor, d * factor);
        }
        let t: u128 = 10 * (acc as u128) + (d as u128) * (factor as u128);
        acc = if t > u64::MAX as u128 {
            u64::MAX
        } else {
            t as u64
        };
        i = i + 1;
    }
    acc
}

/// The whole part of the digits from `from` on, read behind a point, times
/// `factor`.
fn fraction_times(digits: &Vec<char>, from: usize, factor: u64) -> (r: u64)
    requires
        from <= digits@.len(),
        digit_run(digits@),
    ensures
        r == digits_value(digits@.skip(from as int)) * factor / pow10(
            (digits@.len() - from) as nat,
        ) as int,
{
    let mut x: u64 = 0;
    let mut i: usize = digits.len();
    assert(digits@.skip(i as int) =~= Seq::<char>::empty());
    assert(0 * factor == 0) by (nonlinear_arith);
    while i > from
        invariant
            from <= i <= digits@.len(),
            digit_run(digits@),
            x == digits_value(digits@.skip(i as int)) * factor / pow10(
                (digits@.len() - i) as nat,
            ) as int,
            x <= factor,
        decreases i,
    {
        let ghost j = (digits@.len() - i) as nat;
        let ghost tail = digits@.skip(i as int);
        let ghost next = digits@.skip(i - 1);
        i = i - 1;
        assert(is_digit(digits@[i as int]));
        let d: u64 = (digits[i] as u32 - '0' as u32) as u64;
        proof {
            lemma_digits_split(next, 1);
            assert(next.take(1).drop_last() =~= Seq::<char>::empty());
            assert(next.skip(1) =~= tail);
            assert(next.take(1).last() == digits@[i as int]);
            assert(digits_value(next.take(1)) == 10 * digits_value(next.take(1).drop_last())
                + digit_value(next.take(1).last()));
            assert(digits_value(Seq::<char>::empty()) == 0);
            assert(digits_value(next.take(1)) == d);
            lemma_pow10_pos(j);
            let p = pow10(j) as int;
            let v = digits_value(tail) as int;
            assert(digits_value(next) == d * p + v);
            assert((d * p + v) * factor == v * factor + (d * factor) * p) by (nonlinear_arith);
            assert(0 <= v * factor) by (nonlinear_arith)
                requires
                    0 <= v,
                    0 <= factor,
            ;
            assert(0 <= d * factor <= 9 * 0xffff_ffff_ffff_ffff) by (nonlinear_arith)
                requires
                    0 <= d <= 9,
                    0 <= factor <= 0xffff_ffff_ffff_ffff,
            ;
            assert(d * factor <= 9 * factor) by (nonlinear_arith)
                requires
                    0 <= d <= 9,
                    0 <= factor,
            ;
            lemma_hoist_over_denominator(v * factor, d * factor, p as nat);
            assert(0 <= (d * factor) * p) by (nonlinear_arith)
                requires
                    0 <= d * factor,
                    0 < p,
            ;
            lemma_div_denominator(v * factor + (d * factor) * p, p, 10);
            assert(p * 10 == pow10(j + 1));
        }
        let t: u128 = (d as u128) * (factor as u128) + x as u128;
        x = (t / 10) as u64;
    }
    x
}

/// `x` moved `n` decimal places to the right, rounded down.
fn shifted_right(x: u64, n: u128) -> (r: u64)
    ensures
        r == x as nat / pow10(n as nat),
{
    let mut y: u64 = x;
    let mut j: u128 = 0;
    assert(pow10(0) == 1);
    while j < n && y > 0
        invariant
            j <= n,
            y == x as nat / pow10(j as nat),
        decreases n - j,
    {
        proof {
            lemma_pow10_pos(j as nat);
            lemma_div_denominator(x as int, pow10(j as nat) as int, 10);
        }
        y = y / 10;
        j = j + 1;
        assert(pow10(j as nat) == pow10((j - 1) as nat) * 10);
    }
    proof {
        lemma_pow10_pos(j as nat);
        lemma_pow10_pos(n as nat);
        if j < n {
            lemma_pow10_mono(j as nat, n as nat);
            assert(x < pow10(j as nat)) by (nonlinear_arith)
                requires
                    x as nat / pow10(j as nat) == 0,
                    pow10(j as nat) > 0,
            ;
            vstd::arithmetic::div_mod::lemma_basic_div(x as int, pow10(n as nat) as int);
        }
    }
    y
}

/// `x` moved `n` decimal places to the left, up to the largest 64-bit number.
fn shifted_left(x: u64, n: u128) -> (r: u64)
    ensures
        r == capped(x * pow10(n as nat)),
{
    let mut y: u64 = x;
    let mut j: u128 = 0;
    assert(pow10(0) == 1);
    assert(x * 1 == x) by (nonlinear_arith);
    while j < n && y > 0 && y < u64::MAX
        invariant
            j <= n,
            y == capped(x * pow10(j as nat)),
        decreases n - j,
    {
        let ghost p = pow10(j as nat) as int;
        proof {
            assert(x * (10 * p) == 10 * (x * p)) by (nonlinear_arith);
            lemma_pow10_pos(j as nat);
            assert(x * p >= 0) by (nonlinear_arith)
                requires
                    x >= 0,
                    p > 0,
            ;
            lemma_capped_step(x * p, 0);
        }
        let t: u128 = 10 * (y as u128);
        y = if t > u64::MAX as u128 {
            u64::MAX
        } else {
            t as u64
        };
        j = j + 1;
    }
    proof {
        if j < n {
            let p = pow10(j as nat) as int;
            let q = pow10(n as nat) as int;
            lemma_pow10_pos(j as nat);
            lemma_pow10_mono(j as nat, n as nat);
            if y == 0 {
                assert(x == 0) by (nonlinear_arith)
                    requires
                        x * p == 0,
                        p > 0,
                ;
                assert(x * q == 0) by (nonlinear_arith)
                    requires
                        x == 0,
                ;
            } else {
                assert(x * p <= x * q) by (nonlinear_arith)
                    requires
                        p <= q,
                        x >= 0,
                ;
            }
        }
    }
    y
}

/// The whole part of the digits times `factor` times a power of ten, up to the
/// largest 64-bit number.
fn whole_times(digits: &Vec<char>, exponent: i128, factor: u64) -> (r: u64)
    requires
        digit_run(digits@),
        exponent > i128::MIN,
    ensures
        r == capped(whole_part(digits_value(digits@) * factor as nat, exponent as int) as int),
{
    let len: usize = digits.len();
    let ghost v = digits_value(digits@) as int;
    assert(digits@.take(len as int) =~= digits@);
    assert(v * factor >= 0) by (nonlinear_arith)
        requires
            v >= 0,
            factor >= 0,
    ;
    if exponent >= 0 {
        let m: u64 = digits_times(digits, len, factor);
        let r: u64 = shifted_left(m, exponent as u128);
        proof {
            let p = pow10(exponent as nat) as int;
            lemma_pow10_pos(exponent as nat);
            if v * factor > u64::MAX {
                assert(m * p >= m) by (nonlinear_arith)
                    requires
                        p >= 1,
                        m >= 0,
                ;
                assert(v * factor * p >= v * factor) by (nonlinear_arith)
                    requires
                        p >= 1,
                        v * factor >= 0,
                ;
            }
        }
        return r;
    }
    let k: u128 = (-exponent) as u128;
    if k > len as u128 {
        let x: u64 = fraction_times(digits, 0, factor);
        assert(digits@.skip(0) =~= digits@);
        let r: u64 = shifted_right(x, k - len as u128);
        proof {
            let a = pow10(len as nat) as int;
            let b = pow10((k - len) as nat) as int;
            lemma_pow10_pos(len as nat);
            lemma_pow10_pos((k - len) as nat);
            lemma_div_denominator(v * factor, a, b);
            lemma_pow10_adds(len as nat, (k - len) as nat);
        }
        return r;
    }
    let split: usize = len - k as usize;
    let whole: u64 = digits_times(digits, split, factor);
    let x: u64 = fraction_times(digits, split, factor);
    proof {
        lemma_digits_split(digits@, split as int);
        let p = pow10(k as nat) as int;
        lemma_pow10_pos(k as nat);
        let i = digits_value(digits@.take(split as int)) as int;
        let f = digits_value(digits@.skip(split as int)) as int;
        assert((i * p + f) * factor == f * factor + (i * factor) * p) by (nonlinear_arith);
        assert(i * factor >= 0) by (nonlinear_arith)
            requires
                i >= 0,
                factor >= 0,
        ;
        assert(f * factor >= 0) by (nonlinear_arith)
            requires
                f >= 0,
                factor >= 0,
        ;
        lemma_hoist_over_denominator(f * factor, i * factor, p as nat);
    }
    let t: u128 = whole as u128 + x as u128;
    if t > u64::MAX as u128 {
        u64::MAX
    } else {
        t as u64
    }
}

proof fn lemma_pow10_adds(a: nat, b: nat)
    ensures
        pow10(a) * pow10(b) == pow10(a + b),
    decreases b,
{
    if b > 0 {
        lemma_pow10_adds(a, (b - 1) as nat);
        let p = pow10(a);
        let q = pow10((b - 1) as nat);
        assert(p * (10 * q) == 10 * (p * q)) by (nonlinear_arith);
    } else {
        assert(pow10(a) * 1 == pow10(a)) by (nonlinear_arith);
    }
}

impl Decimal {
    /// Whether the digits are digits and the power of ten is far from the
    /// limits of its type.
    pub open spec fn wf(self) -> bool {
        match self {
            Decimal::Finite { negative: _, digits, exponent } => digit_run(digits@)
                && -0x1000_0000_0000_0000_0000_0000 <= exponent
                <= 0x1000_0000_0000_0000_0000_0000,
            _ => true,
        }
    }

    /// The whole part of `factor` times the number, moved `shift` decimal
    /// places to the right, as far as 64 bits hold it.
    pub fn times(&self, factor: u64, shift: u32) -> (r: u64)
        requires
            self.wf(),
        ensures
            r == whole_multiple(self@, factor as nat, shift as nat),
    {
        match self {
            Decimal::NotANumber => 0,
            Decimal::Infinite { negative } => if *negative || factor == 0 {
                0
            } else {
                u64::MAX
            },
            Decimal::Finite { negative, digits, exponent } => if *negative {
                0
            } else {
                whole_times(digits, *exponent - shift as i128, factor)
            },
        }
    }
}

// ---------------------------------------------------------------------------
// Parsing
// ---------------------------------------------------------------------------

fn same_word(v: &Vec<char>, from: usize, w: &Vec<char>) -> (r: bool)
    requires
        from <= v@.len(),
    ensures
        r == is_word(v@.skip(from as int), w@),
{
    let ghost s = v@.skip(from as int);
    if v.len() - from != w.len() {
        return false;
    }
    let mut i: usize = 0;
    while i < w.len()
        invariant
            i <= w@.len() == v@.len() - from,
            v@.len() <= usize::MAX,
            s == v@.skip(from as int),
            forall|k: int| 0 <= k < i ==> small(#[trigger] s[k]) == w@[k],
        decreases w@.len() - i,
    {
        assert(s[i as int] == v@[from + i]);
        if to_small(v[from + i]) != w[i] {
            return false;
        }
        i = i + 1;
    }
    true
}

fn run_of_digits(v: &Vec<char>, from: usize, to: usize) -> (r: bool)
    requires
        from <= to <= v@.len(),
    ensures
        r == digit_run(v@.subrange(from as int, to as int)),
{
    let ghost s = v@.subrange(from as int, to as int);
    let mut i: usize = from;
    while i < to
        invariant
            from <= i <= to <= v@.len(),
            s == v@.subrange(from as int, to as int),
            forall|k: int| 0 <= k < i - from ==> is_digit(#[trigger] s[k]),
        decreases to - i,
    {
        assert(s[i - from] == v@[i as int]);
        if !('0' <= v[i] && v[i] <= '9') {
            return false;
        }
        i = i + 1;
    }
    true
}

fn parse_exponent(v: &Vec<char>, from: usize) -> (r: Option<i128>)
    requires
        from <= v@.len(),
    ensures
        match r {
            Some(e) => exponent_of(v@.skip(from as int)) == Some(e as int),
            None => exponent_of(v@.skip(from as int)) is None,
        },
        r matches Some(e) ==> -EXPONENT_LIMIT <= e <= EXPONENT_LIMIT,
{
    let ghost s = v@.skip(from as int);
    let mut negative = false;
    let mut start: usize = from;
    if from < v.len() && (v[from] == '-' || v[from] == '+') {
        negative = v[from] == '-';
        start = from + 1;
        assert(s[0] == v@[from as int]);
        assert(s.skip(1) =~= v@.skip(start as int));
    }
    let ghost t = v@.skip(start as int);
    proof {
        if from < v@.len() {
            assert(s[0] == v@[from as int]);
        }
        assert(t =~= v@.subrange(start as int, v@.len() as int));
    }
    if start == v.len() || !run_of_digits(v, start, v.len()) {
        return None;
    }
    let mut acc: u64 = 0;
    let mut i: usize = start;
    while i < v.len()
        invariant
            start <= i <= v@.len(),
            t == v@.skip(start as int),
            digit_run(t),
            acc == if digits_value(t.take(i - start)) > EXPONENT_LIMIT {
                EXPONENT_LIMIT as int
            } else {
                digits_value(t.take(i - start)) as int
            },
        decreases v@.len() - i,
    {
        assert(is_digit(t[i - start]));
        assert(t[i - start] == v@[i as int]);
        assert(t.take(i - start + 1).drop_last() =~= t.take(i - start));
        let d: u64 = (v[i] as u32 - '0' as u32) as u64;
        let n: u64 = 10 * acc + d;
        acc = if n > EXPONENT_LIMIT {
            EXPONENT_LIMIT
        } else {
            n
        };
        i = i + 1;
    }
    assert(t.take(i - start) =~= t);
    if negative {
        Some(-(acc as i128))
    } else {
        Some(acc as i128)
    }
}

fn find_mark(v: &Vec<char>, from: usize) -> (r: usize)
    requires
        from <= v@.len(),
    ensures
        from <= r <= v@.len(),
        r - from == mark_index(v@.skip(from as int)),
{
    let mut i: usize = from;
    while i < v.len() && v[i] != 'e' && v[i] != 'E'
        invariant
            from <= i <= v@.len(),
            mark_index(v@.skip(from as int)) == i - from + mark_index(v@.skip(i as int)),
        decreases v@.len() - i,
    {
        assert(v@.skip(i as int)[0] == v@[i as int]);
        assert(v@.skip(i as int).skip(1) =~= v@.skip(i + 1));
        i = i + 1;
    }
    proof {
        if i < v@.len() {
            assert(v@.skip(i as int)[0] == v@[i as int]);
        }
    }
    i
}

fn find_point(v: &Vec<char>, from: usize, to: usize) -> (r: usize)
    requires
        from <= to <= v@.len(),
    ensures
        from <= r <= to,
        r - from == first_index(v@.subrange(from as int, to as int), '.'),
{
    let mut i: usize = from;
    while i < to && v[i] != '.'
        invariant
            from <= i <= to <= v@.len(),
            first_index(v@.subrange(from as int, to as int), '.') == i - from + first_index(
                v@.subrange(i as int, to as int),
                '.',
            ),
        decreases to - i,
    {
        assert(v@.subrange(i as int, to as int)[0] == v@[i as int]);
        assert(v@.subrange(i as int, to as int).skip(1) =~= v@.subrange(i + 1, to as int));
        i = i + 1;
    }
    proof {
        if i < to {
            assert(v@.subrange(i as int, to as int)[0] == v@[i as int]);
        }
    }
    i
}

fn parse_unsigned(v: &Vec<char>, from: usize, negative: bool) -> (r: Option<Decimal>)
    requires
        from <= v@.len(),
    ensures
        match r {
            Some(d) => unsigned_number(v@.skip(from as int), negative) == Some(d@) && d.wf(),
            None => unsigned_number(v@.skip(from as int), negative) is None,
        },
{
    let ghost s = v@.skip(from as int);
    let mark: usize = find_mark(v, from);
    let point: usize = find_point(v, from, mark);
    let ghost mantissa = s.take(mark - from);
    assert(mantissa =~= v@.subrange(from as int, mark as int));
    let ghost whole = mantissa.take(point - from);
    assert(whole =~= v@.subrange(from as int, point as int));
    let start: usize = if point < mark {
        point + 1
    } else {
        point
    };
    let ghost fraction = if point < mark {
        mantissa.skip(point - from + 1)
    } else {
        Seq::empty()
    };
    assert(fraction =~= v@.subrange(start as int, mark as int));
    let exponent: i128 = if mark < v.len() {
        assert(s.skip(mark - from + 1) =~= v@.skip(mark + 1));
        match parse_exponent(v, mark + 1) {
            Some(e) => e,
            None => {
                return None;
            },
        }
    } else {
        0
    };
    if !run_of_digits(v, from, point) || !run_of_digits(v, start, mark) || (point == from && start
        == mark) {
        return None;
    }
    let mut digits: Vec<char> = Vec::new();
    let mut i: usize = from;
    while i < point
        invariant
            from <= i <= point <= v@.len(),
            digits@ == v@.subrange(from as int, i as int),
        decreases point - i,
    {
        digits.push(v[i]);
        i = i + 1;
        assert(digits@ =~= v@.subrange(from as int, i as int));
    }
    let mut k: usize = start;
    assert(digits@ =~= whole + v@.subrange(start as int, start as int));
    while k < mark
        invariant
            start <= k <= mark <= v@.len(),
            digits@ == whole + v@.subrange(start as int, k as int),
        decreases mark - k,
    {
        digits.push(v[k]);
        k = k + 1;
        assert(digits@ =~= whole + v@.subrange(start as int, k as int));
    }
    assert(digits@ =~= whole + fraction);
    assert(digit_run(digits@)) by {
        assert forall|j: int| 0 <= j < digits@.len() implies is_digit(#[trigger] digits@[j]) by {
            if j < whole.len() {
                assert(digits@[j] == whole[j]);
            } else {
                assert(digits@[j] == fraction[j - whole.len()]);
            }
        }
    }
    Some(Decimal::Finite { negative, digits, exponent: exponent - (mark - start) as i128 })
}

/// Parses a decimal number.
pub fn parse_decimal(s: &str) -> (r: Option<Decimal>)
    ensures
        match r {
            Some(d) => number_of(s@) == Some(d@) && d.wf(),
            None => number_of(s@) is None,
        },
{
    let v = chars_of(s);
    let mut negative = false;
    let mut from: usize = 0;
    if v.len() > 0 && (v[0] == '-' || v[0] == '+') {
        negative = v[0] == '-';
        from = 1;
    }
    assert(v@.skip(0) =~= v@);
    let inf: Vec<char> = vec!['i', 'n', 'f'];
    assert(inf@ =~= seq!['i', 'n', 'f']);
    let infinity: Vec<char> = vec!['i', 'n', 'f', 'i', 'n', 'i', 't', 'y'];
    assert(infinity@ =~= seq!['i', 'n', 'f', 'i', 'n', 'i', 't', 'y']);
    let nan: Vec<char> = vec!['n', 'a', 'n'];
    assert(nan@ =~= seq!['n', 'a', 'n']);
    if same_word(&v, from, &inf) || same_word(&v, from, &infinity) {
        return Some(Decimal::Infinite { negative });
    }
    if same_word(&v, from, &nan) {
        return Some(Decimal::NotANumber);
    }
    parse_unsigned(&v, from, negative)
}

proof fn lemma_no_mark(s: Seq<char>)
    requires
        digit_run(s),
    ensures
        mark_index(s) == s.len(),
        first_index(s, '.') == s.len(),
    decreases s.len(),
{
    if s.len() > 0 {
        assert(is_digit(s[0]));
        assert forall|i: int| 0 <= i < s.skip(1).len() implies is_digit(#[trigger] s.skip(1)[i]) by {
            assert(s.skip(1)[i] == s[i + 1]);
        }
        lemma_no_mark(s.skip(1));
    }
}

/// The decimal notation of a natural number denotes it: as a number, and as
/// multiples and parts of it.
pub proof fn law_natural_numbers_are_read(n: nat, factor: nat)
    ensures
        number_of(dec(n)) matches Some(x) && {
            &&& whole_multiple(x, factor, 0) == if n * factor <= u64::MAX {
                n * factor
            } else {
                u64::MAX as nat
            }
            &&& whole_multiple(x, factor, 2) == if n * factor / 100 <= u64::MAX {
                n * factor / 100
            } else {
                u64::MAX as nat
            }
        },
{
    lemma_dec_digits(n);
    let s = dec(n);
    assert(is_digit(s[0]));
    assert(small(s[0]) == s[0]);
    lemma_no_mark(s);
    assert(s.take(s.len() as int) =~= s);
    assert(s + Seq::<char>::empty() =~= s);
    assert(number_of(s) == Some(
        Number::Finite { negative: false, digits: s, exponent: 0 },
    ));
    assert(pow10(0) == 1);
    assert(pow10(1) == 10 * pow10(0));
    assert(pow10(2) == 10 * pow10(1));
    assert((n * factor) * 1 == n * factor) by (nonlinear_arith);
}

/// A number with a point is its digits, with as many of them behind the point
/// as are written there; a sign before it makes it negative.
pub proof fn law_points_shift_the_digits(whole: Seq<char>, fraction: Seq<char>)
    requires
        digit_run(whole),
        digit_run(fraction),
        whole.len() > 0,
    ensures
        number_of(whole + seq!['.'] + fraction) == Some(
            Number::Finite {
                negative: false,
                digits: whole + fraction,
                exponent: -(fraction.len() as int),
            },
        ),
        number_of(seq!['-'] + whole) == Some(
            Number::Finite { negative: true, digits: whole, exponent: 0 },
        ),
{
    let s = whole + seq!['.'] + fraction;
    let k = whole.len() as int;
    assert(is_digit(whole[0]));
    assert forall|i: int| 0 <= i < s.len() implies s[i] != 'e' && s[i] != 'E' by {
        if i < k {
            assert(is_digit(whole[i]));
        } else if i > k {
            assert(s[i] == fraction[i - k - 1]);
            assert(is_digit(fraction[i - k - 1]));
        }
    }
    lemma_unmarked(s);
    assert(s.take(s.len() as int) =~= s);
    assert forall|i: int| 0 <= i < k implies s[i] != '.' by {
        assert(is_digit(whole[i]));
    }
    assert(s[k] == '.');
    lemma_first_index_is(s, '.', k);
    assert(s.take(k) =~= whole);
    assert(s.skip(k + 1) =~= fraction);
    assert(s[0] == whole[0]);
    lemma_digits_are_no_word(s);
    let m = seq!['-'] + whole;
    assert(m.skip(1) =~= whole);
    assert forall|i: int| 0 <= i < k implies whole[i] != 'e' && whole[i] != 'E' && whole[i]
        != '.' by {
        assert(is_digit(whole[i]));
    }
    lemma_unmarked(whole);
    assert(whole.take(k) =~= whole);
    lemma_first_index_is(whole, '.', k);
    lemma_digits_are_no_word(whole);
    assert(whole + Seq::<char>::empty() =~= whole);
}

proof fn lemma_unmarked(s: Seq<char>)
    requires
        forall|i: int| 0 <= i < s.len() ==> s[i] != 'e' && s[i] != 'E',
    ensures
        mark_index(s) == s.len(),
    decreases s.len(),
{
    if s.len() > 0 {
        assert forall|i: int| 0 <= i < s.skip(1).len() implies s.skip(1)[i] != 'e' && s.skip(1)[i]
            != 'E' by {
            assert(s.skip(1)[i] == s[i + 1]);
        }
        lemma_unmarked(s.skip(1));
    }
}

proof fn lemma_digits_are_no_word(s: Seq<char>)
    requires
        s.len() > 0,
        is_digit(s[0]),
    ensures
        !is_word(s, seq!['i', 'n', 'f']),
        !is_word(s, seq!['i', 'n', 'f', 'i', 'n', 'i', 't', 'y']),
        !is_word(s, seq!['n', 'a', 'n']),
{
    assert(small(s[0]) == s[0]);
}

/// A multiple of a number with a fraction is rounded down, and is zero where
/// the number is negative.
pub proof fn law_fractions_are_rounded_down(
    digits: Seq<char>,
    places: nat,
    factor: nat,
)
    requires
        digits_value(digits) * factor <= u64::MAX,
    ensures
        whole_multiple(
            Number::Finite { negative: false, digits, exponent: -(places as int) },
            factor,
            0,
        ) == digits_value(digits) * factor / pow10(places),
        whole_multiple(
            Number::Finite { negative: true, digits, exponent: -(places as int) },
            factor,
            0,
        ) == 0,
        pow10(0) == 1,
        pow10(places + 1) == 10 * pow10(places),
{
    lemma_pow10_pos(places);
    let x = digits_value(digits) * factor;
    let p = pow10(places);
    assert(x / p <= x) by (nonlinear_arith)
        requires
            p >= 1,
            x >= 0,
    ;
    if places == 0 {
        assert(x * p == x && x / p == x) by (nonlinear_arith)
            requires
                p == 1,
        ;
    } else {
        assert((-(-(places as int) - 0)) as nat == places);
    }
}

/// An exponent moves the point by as many places as it says.
pub proof fn law_exponents_shift_the_digits(whole: Seq<char>, places: Seq<char>)
    requires
        digit_run(whole),
        digit_run(places),
        whole.len() > 0,
        places.len() > 0,
        digits_value(places) <= EXPONENT_LIMIT,
    ensures
        number_of(whole + seq!['e'] + places) == Some(
            Number::Finite {
                negative: false,
                digits: whole,
                exponent: digits_value(places) as int,
            },
        ),
{
    let s = whole + seq!['e'] + places;
    let k = whole.len() as int;
    assert(is_digit(whole[0]));
    assert(is_digit(places[0]));
    lemma_marked(whole, places);
    assert(s.take(k) =~= whole);
    assert(s.skip(k + 1) =~= places);
    assert forall|i: int| 0 <= i < k implies whole[i] != '.' by {
        assert(is_digit(whole[i]));
    }
    lemma_first_index_is(whole, '.', k);
    assert(whole.take(k) =~= whole);
    assert(s[0] == whole[0]);
    lemma_digits_are_no_word(s);
    assert(whole + Seq::<char>::empty() =~= whole);
}

proof fn lemma_marked(whole: Seq<char>, rest: Seq<char>)
    requires
        digit_run(whole),
    ensures
        mark_index(whole + seq!['e'] + rest) == whole.len(),
    decreases whole.len(),
{
    let s = whole + seq!['e'] + rest;
    if whole.len() > 0 {
        assert(is_digit(whole[0]));
        assert(s[0] == whole[0]);
        assert(s.skip(1) =~= whole.skip(1) + seq!['e'] + rest);
        assert forall|i: int| 0 <= i < whole.skip(1).len() implies is_digit(
            #[trigger] whole.skip(1)[i],
        ) by {
            assert(whole.skip(1)[i] == whole[i + 1]);
        }
        lemma_marked(whole.skip(1), rest);
    } else {
        assert(s[0] == 'e');
    }
}

} // verus!
