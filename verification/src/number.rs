//! Number literals, read exactly.
use vstd::prelude::*;
use crate::text::{all_digits, chars_of, digits_value, is_digit};

verus! {

// ---------------------------------------------------------------------------
// What a literal stands for

/// The parts of a number literal: a sign, the digits before and after the point
/// in one run, how many of them follow the point, and the power of ten.
pub struct Literal {
    pub negative: bool,
    pub digits: Seq<char>,
    pub fraction: nat,
    pub exponent: int,
}

/// Where the run of digits that starts at `i` ends.
pub open spec fn digits_end(s: Seq<char>, i: int) -> int
    decreases s.len() - i,
{
    if 0 <= i < s.len() && is_digit(s[i]) {
        digits_end(s, i + 1)
    } else {
        i
    }
}

/// The power of ten that the rest of a literal, from `i` on, gives: none is zero,
/// and otherwise there is an `e`, perhaps a sign, and digits to the end.
pub open spec fn exponent_from(s: Seq<char>, i: int) -> Option<int> {
    if i == s.len() {
        Some(0)
    } else if s[i] == 'e' || s[i] == 'E' {
        let signed = i + 1 < s.len() && (s[i + 1] == '+' || s[i + 1] == '-');
        let from = if signed {
            i + 2
        } else {
            i + 1
        };
        if from < s.len() && digits_end(s, from) == s.len() {
            let value = digits_value(s.subrange(from, s.len() as int));
            Some(
                if s[i + 1] == '-' {
                    -value
                } else {
                    value as int
                },
            )
        } else {
            None
        }
    } else {
        None
    }
}

/// The parts of a literal; nothing if the text is no number.
pub open spec fn literal(s: Seq<char>) -> Option<Literal> {
    let start: int = if s.len() > 0 && s[0] == '-' {
        1
    } else {
        0
    };
    let dot = digits_end(s, start);
    let pointed = dot < s.len() && s[dot] == '.';
    let end = if pointed {
        digits_end(s, dot + 1)
    } else {
        dot
    };
    if dot == start || (pointed && end == dot + 1) {
        None
    } else {
        match exponent_from(s, end) {
            None => None,
            Some(exponent) => Some(
                Literal {
                    negative: start == 1,
                    digits: if pointed {
                        s.subrange(start, dot) + s.subrange(dot + 1, end)
                    } else {
                        s.subrange(start, dot)
                    },
                    fraction: if pointed {
                        (end - dot - 1) as nat
                    } else {
                        0
                    },
                    exponent,
                },
            ),
        }
    }
}

/// The power of ten.
pub open spec fn ten_to(n: nat) -> nat
    decreases n,
{
    if n == 0 {
        1
    } else {
        10 * ten_to((n - 1) as nat)
    }
}

impl Literal {
    /// Whether the number lies between zero and one, both included.
    pub open spec fn in_unit_interval(self) -> bool {
        let mantissa = digits_value(self.digits);
        let power = self.exponent - self.fraction;
        mantissa == 0 || (!self.negative && if power >= 0 {
            mantissa * ten_to(power as nat) <= 1
        } else {
            mantissa <= ten_to((-power) as nat)
        })
    }
}

/// Whether a text is the literal of a number between zero and one.
pub open spec fn is_unit_literal(s: Seq<char>) -> bool {
    match literal(s) {
        Some(l) => l.in_unit_interval(),
        None => false,
    }
}

// ---------------------------------------------------------------------------
// Digits and powers of ten

proof fn lemma_ten_to_grows(a: nat, b: nat)
    requires
        a <= b,
    ensures
        0 < ten_to(a) <= ten_to(b),
    decreases b,
{
    if a < b {
        lemma_ten_to_grows(a, (b - 1) as nat);
    } else if a > 0 {
        lemma_ten_to_grows((a - 1) as nat, (a - 1) as nat);
    }
}

proof fn lemma_digits_end(s: Seq<char>, i: int)
    requires
        0 <= i <= s.len(),
    ensures
        i <= digits_end(s, i) <= s.len(),
        forall|k: int| i <= k < digits_end(s, i) ==> is_digit(#[trigger] s[k]),
    decreases s.len() - i,
{
    if i < s.len() && is_digit(s[i]) {
        lemma_digits_end(s, i + 1);
    }
}

/// A number of `d` digits, the first of them not zero, has `d` digits: it lies
/// between two powers of ten, and is the lower one just if it is a one and zeros.
proof fn lemma_magnitude(s: Seq<char>)
    requires
        s.len() > 0,
        forall|k: int| 0 <= k < s.len() ==> is_digit(#[trigger] s[k]),
        s[0] != '0',
    ensures
        ten_to((s.len() - 1) as nat) <= digits_value(s) < ten_to(s.len()),
        digits_value(s) == ten_to((s.len() - 1) as nat) <==> s[0] == '1' && (forall|k: int|
            1 <= k < s.len() ==> #[trigger] s[k] == '0'),
    decreases s.len(),
{
    let head = s.drop_last();
    reveal_with_fuel(ten_to, 2);
    reveal_with_fuel(digits_value, 2);
    if head.len() > 0 {
        assert forall|k: int| 0 <= k < head.len() implies is_digit(#[trigger] head[k]) by {
            assert(head[k] == s[k]);
        }
        lemma_magnitude(head);
        let low = ten_to((head.len() - 1) as nat);
        assert(ten_to(head.len()) == 10 * low);
        if digits_value(s) == ten_to(head.len()) {
            assert(digits_value(head) == low);
            assert forall|k: int| 1 <= k < s.len() implies #[trigger] s[k] == '0' by {
                if k < head.len() {
                    assert(head[k] == '0');
                }
            }
        }
        if s[0] == '1' && (forall|k: int| 1 <= k < s.len() ==> #[trigger] s[k] == '0') {
            assert forall|k: int| 1 <= k < head.len() implies #[trigger] head[k] == '0' by {
                assert(s[k] == '0');
            }
        }
    } else {
        assert(s.drop_last() =~= Seq::<char>::empty());
        assert(is_digit(s[0]));
    }
}

/// Leading zeros do not count.
proof fn lemma_leading_zero(s: Seq<char>)
    requires
        s.len() > 0,
        s[0] == '0',
    ensures
        digits_value(s) == digits_value(s.skip(1)),
    decreases s.len(),
{
    reveal_with_fuel(digits_value, 2);
    if s.len() > 1 {
        lemma_leading_zero(s.drop_last());
        assert(s.drop_last().skip(1) =~= s.skip(1).drop_last());
    } else {
        assert(s.drop_last() =~= Seq::<char>::empty());
    }
}

/// Comparison with one comes down to counting digits.
proof fn lemma_unit_by_count(s: Seq<char>, power: int)
    requires
        s.len() > 0,
        forall|k: int| 0 <= k < s.len() ==> is_digit(#[trigger] s[k]),
        s[0] != '0',
    ensures
        (if power >= 0 {
            digits_value(s) * ten_to(power as nat) <= 1
        } else {
            digits_value(s) <= ten_to((-power) as nat)
        }) <==> (s.len() <= -power || (s.len() == 1 - power && s[0] == '1' && (forall|k: int|
            1 <= k < s.len() ==> #[trigger] s[k] == '0'))),
{
    lemma_magnitude(s);
    let m = digits_value(s);
    lemma_ten_to_grows(0, (s.len() - 1) as nat);
    if power >= 0 {
        lemma_ten_to_grows(0, power as nat);
        if power > 0 {
            lemma_ten_to_grows(1, power as nat);
            reveal_with_fuel(ten_to, 2);
            assert(m * ten_to(power as nat) >= 10) by (nonlinear_arith)
                requires
                    m >= 1,
                    ten_to(power as nat) >= 10,
            ;
        } else {
            assert(m * ten_to(0) == m);
            if s.len() > 1 {
                lemma_ten_to_grows(1, (s.len() - 1) as nat);
                reveal_with_fuel(ten_to, 2);
            }
        }
    } else {
        let n = (-power) as nat;
        if s.len() <= n {
            lemma_ten_to_grows(s.len(), n);
        } else if s.len() > n + 1 {
            lemma_ten_to_grows(n + 1, (s.len() - 1) as nat);
            lemma_ten_to_grows(n, n);
        }
    }
}

/// Whether the number that digits stand for, times a power of ten, is at most one.
spec fn at_most_one(s: Seq<char>, power: int) -> bool {
    digits_value(s) == 0 || if power >= 0 {
        digits_value(s) * ten_to(power as nat) <= 1
    } else {
        digits_value(s) <= ten_to((-power) as nat)
    }
}

// ---------------------------------------------------------------------------
// The test

/// Finds where the run of digits that starts at `i` ends.
fn run_end(v: &Vec<char>, i: usize) -> (end: usize)
    requires
        i <= v@.len(),
    ensures
        end == digits_end(v@, i as int),
        i <= end <= v@.len(),
{
    let mut end: usize = i;
    while end < v.len() && '0' <= v[end] && v[end] <= '9'
        invariant
            i <= end <= v@.len(),
            digits_end(v@, i as int) == digits_end(v@, end as int),
        decreases v@.len() - end,
    {
        end = end + 1;
    }
    end
}

/// A bound on powers of ten past which their exact value no longer matters: no
/// literal has that many digits.
const CAP: i128 = 0x1_0000_0000_0000_0000_0000;

/// Reads the digits from `from` to the end, up to `CAP`.
fn capped_value(v: &Vec<char>, from: usize) -> (value: i128)
    requires
        from <= v@.len(),
        forall|k: int| from <= k < v@.len() ==> is_digit(#[trigger] v@[k]),
    ensures
        0 <= value <= CAP,
        value < CAP ==> value == digits_value(v@.subrange(from as int, v@.len() as int)),
        value == CAP ==> CAP <= digits_value(v@.subrange(from as int, v@.len() as int)),
{
    let mut value: i128 = 0;
    let mut i: usize = from;
    assert(v@.subrange(from as int, from as int) =~= Seq::<char>::empty());
    while i < v.len()
        invariant
            from <= i <= v@.len(),
            forall|k: int| from <= k < v@.len() ==> is_digit(#[trigger] v@[k]),
            0 <= value <= CAP,
            value < CAP ==> value == digits_value(v@.subrange(from as int, i as int)),
            value == CAP ==> CAP <= digits_value(v@.subrange(from as int, i as int)),
        decreases v@.len() - i,
    {
        proof {
            assert(is_digit(v@[i as int]));
            assert(v@.subrange(from as int, i + 1).drop_last() =~= v@.subrange(
                from as int,
                i as int,
            ));
        }
        if value < CAP {
            let next: i128 = value * 10 + (v[i] as i128 - 48);
            value = if next < CAP {
                next
            } else {
                CAP
            };
        }
        i = i + 1;
    }
    value
}

/// Reads the power of ten from `i` on. Magnitudes are cut off at `CAP`.
fn read_exponent(v: &Vec<char>, i: usize) -> (power: Option<i128>)
    requires
        i <= v@.len(),
    ensures
        power is Some <==> exponent_from(v@, i as int) is Some,
        power matches Some(p) ==> {
            let true_power = exponent_from(v@, i as int)->0;
            &&& -CAP <= p <= CAP
            &&& -CAP < p < CAP ==> p == true_power
            &&& p == CAP ==> CAP <= true_power
            &&& p == -CAP ==> true_power <= -CAP
        },
{
    if i == v.len() {
        return Some(0);
    }
    if v[i] != 'e' && v[i] != 'E' {
        return None;
    }
    let n: usize = v.len();
    let signed = i + 1 < n && (v[i + 1] == '+' || v[i + 1] == '-');
    let from: usize = if signed {
        i + 2
    } else {
        i + 1
    };
    if from >= n || run_end(v, from) != n {
        return None;
    }
    proof {
        lemma_digits_end(v@, from as int);
    }
    let value: i128 = capped_value(v, from);
    if v[i + 1] == '-' {
        Some(-value)
    } else {
        Some(value)
    }
}

/// Tells whether the number that digits stand for is at most ten to the `bound`.
fn at_most_power(digits: &Vec<char>, bound: i128) -> (yes: bool)
    requires
        forall|k: int| 0 <= k < digits@.len() ==> is_digit(#[trigger] digits@[k]),
        -3 * CAP <= bound <= 3 * CAP,
    ensures
        yes == at_most_one(digits@, -bound),
{
    let n: usize = digits.len();
    let mut lead: usize = 0;
    assert(digits@.skip(0) =~= digits@);
    while lead < n && digits[lead] == '0'
        invariant
            n == digits@.len(),
            lead <= n,
            digits_value(digits@) == digits_value(digits@.skip(lead as int)),
        decreases n - lead,
    {
        proof {
            lemma_leading_zero(digits@.skip(lead as int));
            assert(digits@.skip(lead as int).skip(1) =~= digits@.skip(lead + 1));
        }
        lead = lead + 1;
    }
    let ghost s = digits@.skip(lead as int);
    if lead == n {
        return true;
    }
    proof {
        assert forall|k: int| 0 <= k < s.len() implies is_digit(#[trigger] s[k]) by {
            assert(s[k] == digits@[lead + k]);
        }
        assert(s[0] == digits@[lead as int]);
        lemma_unit_by_count(s, -bound);
        lemma_magnitude(s);
        lemma_ten_to_grows(0, (s.len() - 1) as nat);
    }
    let count: i128 = (n - lead) as i128;
    if count <= bound {
        return true;
    }
    if count != 1 + bound || digits[lead] != '1' {
        return false;
    }
    assert(at_most_one(digits@, -bound) <==> forall|j: int|
        1 <= j < s.len() ==> #[trigger] s[j] == '0');
    let mut k: usize = lead + 1;
    while k < n
        invariant
            at_most_one(digits@, -bound) <==> forall|j: int|
                1 <= j < s.len() ==> #[trigger] s[j] == '0',
            n == digits@.len(),
            lead + 1 <= k <= n,
            s == digits@.skip(lead as int),
            forall|j: int| 1 <= j < k - lead ==> #[trigger] s[j] == '0',
        decreases n - k,
    {
        assert(digits@[k as int] == s[k - lead]);
        if digits[k] != '0' {
            return false;
        }
        k = k + 1;
    }
    true
}

/// Copies a run of characters to the end of another.
fn extend(out: &mut Vec<char>, v: &Vec<char>, from: usize, to: usize)
    requires
        from <= to <= v@.len(),
    ensures
        final(out)@ == old(out)@ + v@.subrange(from as int, to as int),
{
    let ghost before = out@;
    let mut i: usize = from;
    assert(before + v@.subrange(from as int, from as int) =~= before);
    while i < to
        invariant
            from <= i <= to <= v@.len(),
            out@ == before + v@.subrange(from as int, i as int),
        decreases to - i,
    {
        out.push(v[i]);
        i = i + 1;
        assert(out@ =~= before + v@.subrange(from as int, i as int));
    }
}

/// Tells whether a text is the literal of a number between zero and one.
pub fn unit_literal(text: &str) -> (yes: bool)
    ensures
        yes == is_unit_literal(text@),
{
    let v = chars_of(text);
    let n: usize = v.len();
    let start: usize = if n > 0 && v[0] == '-' {
        1
    } else {
        0
    };
    let dot: usize = run_end(&v, start);
    let pointed = dot < n && v[dot] == '.';
    let end: usize = if pointed {
        run_end(&v, dot + 1)
    } else {
        dot
    };
    if dot == start || (pointed && end == dot + 1) {
        return false;
    }
    let power: i128 = match read_exponent(&v, end) {
        Some(p) => p,
        None => {
            return false;
        },
    };
    let mut digits: Vec<char> = Vec::new();
    extend(&mut digits, &v, start, dot);
    let mut fraction: i128 = 0;
    proof {
        lemma_digits_end(v@, start as int);
        assert(digits@ =~= v@.subrange(start as int, dot as int));
    }
    if pointed {
        extend(&mut digits, &v, dot + 1, end);
        fraction = (end - dot - 1) as i128;
        proof {
            lemma_digits_end(v@, dot + 1);
        }
    }
    let ghost l = literal(text@)->0;
    assert(digits@ == l.digits);
    assert(fraction == l.fraction);
    proof {
        assert forall|k: int| 0 <= k < digits@.len() implies is_digit(#[trigger] digits@[k]) by {
            let whole = v@.subrange(start as int, dot as int);
            if k < whole.len() {
                assert(digits@[k] == v@[start + k]);
            } else {
                assert(digits@[k] == v@[dot + 1 + (k - whole.len())]);
            }
        }
    }
    let bound: i128 = fraction - power;
    let small = at_most_power(&digits, bound);
    proof {
        lemma_capped(digits@, fraction as int, power as int, l.exponent);
    }
    if start == 1 {
        let zero = at_most_power(&digits, -CAP);
        proof {
            lemma_far_below(digits@);
        }
        zero
    } else {
        small
    }
}

/// No whole number but zero stays below one after that many multiplications by ten.
proof fn lemma_far_below(s: Seq<char>)
    ensures
        digits_value(s) * ten_to(CAP as nat) <= 1 <==> digits_value(s) == 0,
{
    lemma_ten_to_grows(1, CAP as nat);
    reveal_with_fuel(ten_to, 2);
    let m = digits_value(s);
    if m > 0 {
        assert(m * ten_to(CAP as nat) >= 10) by (nonlinear_arith)
            requires
                m >= 1,
                ten_to(CAP as nat) >= 10,
        ;
    } else {
        assert(0 * ten_to(CAP as nat) == 0);
    }
}

/// Cutting the power of ten off at `CAP` does not change the comparison with one.
proof fn lemma_capped(s: Seq<char>, fraction: int, power: int, true_power: int)
    requires
        s.len() <= usize::MAX,
        forall|k: int| 0 <= k < s.len() ==> is_digit(#[trigger] s[k]),
        0 <= fraction <= usize::MAX,
        -CAP <= power <= CAP,
        -CAP < power < CAP ==> power == true_power,
        power == CAP ==> CAP <= true_power,
        power == -CAP ==> true_power <= -CAP,
    ensures
        at_most_one(s, true_power - fraction) == at_most_one(s, power - fraction),
{
    lemma_few_digits(s, true_power - fraction);
    lemma_few_digits(s, power - fraction);
}

/// A power of ten far above one takes every number but zero past one; one far
/// below brings every number of few digits under one.
proof fn lemma_few_digits(s: Seq<char>, power: int)
    requires
        s.len() <= usize::MAX,
        forall|k: int| 0 <= k < s.len() ==> is_digit(#[trigger] s[k]),
    ensures
        power > 0 ==> (at_most_one(s, power) <==> digits_value(s) == 0),
        power <= -(usize::MAX as int) ==> at_most_one(s, power),
{
    let m = digits_value(s);
    if power > 0 && m > 0 {
        lemma_ten_to_grows(1, power as nat);
        reveal_with_fuel(ten_to, 2);
        assert(m * ten_to(power as nat) >= 10) by (nonlinear_arith)
            requires
                m >= 1,
                ten_to(power as nat) >= 10,
        ;
    }
    if power <= -(usize::MAX as int) {
        lemma_below_power(s);
        lemma_ten_to_grows(s.len(), (-power) as nat);
    }
}

/// A number of `d` digits is below ten to the `d`.
proof fn lemma_below_power(s: Seq<char>)
    requires
        forall|k: int| 0 <= k < s.len() ==> is_digit(#[trigger] s[k]),
    ensures
        digits_value(s) < ten_to(s.len()),
    decreases s.len(),
{
    if s.len() > 0 {
        let head = s.drop_last();
        assert forall|k: int| 0 <= k < head.len() implies is_digit(#[trigger] head[k]) by {
            assert(head[k] == s[k]);
        }
        assert(is_digit(s[s.len() - 1]));
        lemma_below_power(head);
    }
}

// ---------------------------------------------------------------------------
// Laws

/// Each power of ten is ten times the one before.
pub proof fn law_powers_of_ten(n: nat)
    ensures
        ten_to(0) == 1,
        ten_to(n + 1) == 10 * ten_to(n),
{
}

proof fn lemma_run_ends(s: Seq<char>, i: int, end: int)
    requires
        0 <= i <= end <= s.len(),
        forall|k: int| i <= k < end ==> is_digit(#[trigger] s[k]),
        end < s.len() ==> !is_digit(s[end]),
    ensures
        digits_end(s, i) == end,
    decreases end - i,
{
    if i < end {
        assert(is_digit(s[i]));
        lemma_run_ends(s, i + 1, end);
    }
}

/// A whole number lies between zero and one if it is zero or one; with a minus sign
/// only if it is zero.
pub proof fn law_unit_whole(d: Seq<char>)
    requires
        d.len() > 0,
        all_digits(d),
    ensures
        is_unit_literal(d) <==> digits_value(d) <= 1,
        is_unit_literal(seq!['-'] + d) <==> digits_value(d) == 0,
{
    assert(is_digit(d[0]));
    lemma_run_ends(d, 0, d.len() as int);
    assert(d.subrange(0, d.len() as int) =~= d);
    let minus = seq!['-'] + d;
    assert forall|k: int| 1 <= k < minus.len() implies is_digit(#[trigger] minus[k]) by {
        assert(minus[k] == d[k - 1]);
    }
    lemma_run_ends(minus, 1, minus.len() as int);
    assert(minus.subrange(1, minus.len() as int) =~= d);
    let m = digits_value(d);
    assert(ten_to(0) == 1);
    assert(m * ten_to(0) == m) by (nonlinear_arith)
        requires
            ten_to(0) == 1,
    ;
}

/// A number with digits behind the point lies between zero and one if its digits, read
/// without the point, are no more than the power of ten that the point stands for.
pub proof fn law_unit_fraction(d: Seq<char>, f: Seq<char>)
    requires
        d.len() > 0,
        all_digits(d),
        f.len() > 0,
        all_digits(f),
    ensures
        is_unit_literal(d + seq!['.'] + f) <==> digits_value(d + f) <= ten_to(f.len()),
{
    let s = d + seq!['.'] + f;
    let dot = d.len() as int;
    assert(s[0] == d[0] && is_digit(d[0]));
    assert forall|k: int| 0 <= k < dot implies is_digit(#[trigger] s[k]) by {
        assert(s[k] == d[k]);
    }
    assert(s[dot] == '.');
    lemma_run_ends(s, 0, dot);
    assert forall|k: int| dot + 1 <= k < s.len() implies is_digit(#[trigger] s[k]) by {
        assert(s[k] == f[k - dot - 1]);
    }
    lemma_run_ends(s, dot + 1, s.len() as int);
    assert(s.subrange(0, dot) =~= d);
    assert(s.subrange(dot + 1, s.len() as int) =~= f);
    lemma_ten_to_grows(0, f.len());
}

/// An exponent multiplies by a power of ten, or divides by one if it has a minus sign.
pub proof fn law_unit_exponent(d: Seq<char>, k: Seq<char>)
    requires
        d.len() > 0,
        all_digits(d),
        k.len() > 0,
        all_digits(k),
    ensures
        is_unit_literal(d + seq!['e', '-'] + k) <==> digits_value(d) <= ten_to(digits_value(k)),
        is_unit_literal(d + seq!['E', '-'] + k) <==> digits_value(d) <= ten_to(digits_value(k)),
        is_unit_literal(d + seq!['e'] + k) <==> digits_value(d) * ten_to(digits_value(k)) <= 1,
        is_unit_literal(d + seq!['e', '+'] + k) <==> digits_value(d) * ten_to(digits_value(k)) <= 1,
{
    lemma_exponent(d, seq!['e', '-'], k);
    lemma_exponent(d, seq!['E', '-'], k);
    lemma_exponent(d, seq!['e'], k);
    lemma_exponent(d, seq!['e', '+'], k);
    lemma_ten_to_grows(0, digits_value(k));
    let m = digits_value(d);
    assert(ten_to(0) == 1);
    assert(m * ten_to(0) == m) by (nonlinear_arith)
        requires
            ten_to(0) == 1,
    ;
    if digits_value(d) == 0 {
        assert(0 * ten_to(digits_value(k)) == 0);
    }
}

proof fn lemma_exponent(d: Seq<char>, mark: Seq<char>, k: Seq<char>)
    requires
        d.len() > 0,
        all_digits(d),
        k.len() > 0,
        all_digits(k),
        1 <= mark.len() <= 2,
        mark[0] == 'e' || mark[0] == 'E',
        mark.len() == 2 ==> mark[1] == '-' || mark[1] == '+',
    ensures
        literal(d + mark + k) == Some(
            Literal {
                negative: false,
                digits: d,
                fraction: 0,
                exponent: if mark.len() == 2 && mark[1] == '-' {
                    -(digits_value(k) as int)
                } else {
                    digits_value(k) as int
                },
            },
        ),
{
    let s = d + mark + k;
    let end = d.len() as int;
    let from = end + mark.len();
    assert(s[0] == d[0] && is_digit(d[0]));
    assert forall|i: int| 0 <= i < end implies is_digit(#[trigger] s[i]) by {
        assert(s[i] == d[i]);
    }
    assert(s[end] == mark[0]);
    lemma_run_ends(s, 0, end);
    assert forall|i: int| from <= i < s.len() implies is_digit(#[trigger] s[i]) by {
        assert(s[i] == k[i - from]);
    }
    assert(is_digit(k[0]));
    if mark.len() == 2 {
        assert(s[end + 1] == mark[1]);
    } else {
        assert(s[end + 1] == k[0]);
    }
    lemma_run_ends(s, from, s.len() as int);
    assert(s.subrange(0, end) =~= d);
    assert(s.subrange(from, s.len() as int) =~= k);
}

/// A number starts with a digit, or with a minus sign and a digit.
pub proof fn law_numbers_start_with_digits(s: Seq<char>)
    requires
        is_unit_literal(s),
    ensures
        s.len() > 0,
        is_digit(s[0]) || (s[0] == '-' && s.len() > 1 && is_digit(s[1])),
{
}

/// A sign, digits before and after the point, and an exponent together: the number lies
/// between zero and one if its digits are all zero, or if there is no minus sign and the
/// digits, moved by the point and the exponent, come to one at most.
pub proof fn law_unit_in_full(
    minus: bool,
    d: Seq<char>,
    f: Seq<char>,
    divides: bool,
    k: Seq<char>,
)
    requires
        d.len() > 0,
        all_digits(d),
        f.len() > 0,
        all_digits(f),
        k.len() > 0,
        all_digits(k),
    ensures
        ({
            let sign = if minus {
                seq!['-']
            } else {
                Seq::empty()
            };
            let mark = if divides {
                seq!['e', '-']
            } else {
                seq!['e']
            };
            let m = digits_value(d + f);
            let power = if divides {
                -(digits_value(k) as int)
            } else {
                digits_value(k) as int
            } - f.len();
            is_unit_literal(sign + d + seq!['.'] + f + mark + k) <==> m == 0 || (!minus && if power
                >= 0 {
                m * ten_to(power as nat) <= 1
            } else {
                m <= ten_to((-power) as nat)
            })
        }),
{
    let sign = if minus {
        seq!['-']
    } else {
        Seq::empty()
    };
    let mark = if divides {
        seq!['e', '-']
    } else {
        seq!['e']
    };
    let s = sign + d + seq!['.'] + f + mark + k;
    let start = sign.len() as int;
    let dot = start + d.len();
    let end = dot + 1 + f.len();
    let from = end + mark.len();
    assert(is_digit(d[0]) && is_digit(k[0]));
    assert forall|i: int| start <= i < dot implies is_digit(#[trigger] s[i]) by {
        assert(s[i] == d[i - start]);
    }
    assert(s[start] == d[0]);
    if minus {
        assert(s[0] == '-');
    }
    assert(s[dot] == '.');
    lemma_run_ends(s, start, dot);
    assert forall|i: int| dot + 1 <= i < end implies is_digit(#[trigger] s[i]) by {
        assert(s[i] == f[i - dot - 1]);
    }
    assert(s[end] == mark[0]);
    lemma_run_ends(s, dot + 1, end);
    assert forall|i: int| from <= i < s.len() implies is_digit(#[trigger] s[i]) by {
        assert(s[i] == k[i - from]);
    }
    if divides {
        assert(s[end + 1] == mark[1]);
    } else {
        assert(s[end + 1] == k[0]);
    }
    lemma_run_ends(s, from, s.len() as int);
    assert(s.subrange(start, dot) =~= d);
    assert(s.subrange(dot + 1, end) =~= f);
    assert(s.subrange(from, s.len() as int) =~= k);
}

} // verus!
