use vstd::prelude::*;
use vstd::string::StrSliceExecFns;

verus! {

/// Most digits before the point that an amount may have.
pub const MAX_INT_DIGITS: usize = 16;

/// Most digits after the point that an amount may have: amounts are read
/// exactly, in units of ten to the minus this many.
pub const MAX_FRACTION_DIGITS: usize = 18;

/// Most digits that a quantity may have.
pub const MAX_QUANTITY_DIGITS: usize = 19;

pub open spec fn is_digit(c: char) -> bool {
    '0' <= c && c <= '9'
}

pub open spec fn digit_value(c: char) -> nat {
    (c as int - '0' as int) as nat
}

pub open spec fn all_digits(s: Seq<char>) -> bool {
    forall|i: int| 0 <= i < s.len() ==> is_digit(#[trigger] s[i])
}

/// The number that a run of decimal digits spells.
pub open spec fn digits_value(s: Seq<char>) -> nat
    decreases s.len(),
{
    if s.len() == 0 {
        0
    } else {
        digits_value(s.drop_last()) * 10 + digit_value(s.last())
    }
}

/// How many decimal digits a text starts with.
pub open spec fn leading_digits(s: Seq<char>) -> nat
    decreases s.len(),
{
    if s.len() > 0 && is_digit(s[0]) {
        1 + leading_digits(s.drop_first())
    } else {
        0
    }
}

pub open spec fn pow10(n: nat) -> nat
    decreases n,
{
    if n == 0 {
        1
    } else {
        10 * pow10((n - 1) as nat)
    }
}

/// A text without its leading minus sign, if it has one.
pub open spec fn unsigned_part(s: Seq<char>) -> Seq<char> {
    if s.len() > 0 && s[0] == '-' {
        s.drop_first()
    } else {
        s
    }
}

/// The digits after the point of a text that starts with digits; empty where
/// there is no point.
pub open spec fn fraction_part(u: Seq<char>) -> Seq<char> {
    let k = leading_digits(u) as int;
    if k < u.len() {
        u.subrange(k + 1, u.len() as int)
    } else {
        Seq::empty()
    }
}

/// Whether a text is an amount: an optional minus sign, one to
/// `MAX_INT_DIGITS` digits, and optionally a point followed by one to
/// `MAX_FRACTION_DIGITS` digits.
pub open spec fn is_amount(s: Seq<char>) -> bool {
    let u = unsigned_part(s);
    let k = leading_digits(u) as int;
    let f = fraction_part(u);
    &&& 1 <= k <= MAX_INT_DIGITS
    &&& (k == u.len() || (u[k] == '.' && 1 <= f.len() <= MAX_FRACTION_DIGITS && all_digits(f)))
}

/// The exact size of an amount, in units of ten to the minus
/// `MAX_FRACTION_DIGITS`.
pub open spec fn amount_magnitude(s: Seq<char>) -> nat {
    let u = unsigned_part(s);
    let k = leading_digits(u) as int;
    let f = fraction_part(u);
    digits_value(u.subrange(0, k)) * pow10(18) + digits_value(f) * pow10((18 - f.len()) as nat)
}

/// The exact value of an amount, in units of ten to the minus
/// `MAX_FRACTION_DIGITS`; a text that is no amount counts as zero.
pub open spec fn scaled_of(s: Seq<char>) -> int {
    if !is_amount(s) {
        0
    } else if s.len() > 0 && s[0] == '-' {
        -(amount_magnitude(s) as int)
    } else {
        amount_magnitude(s) as int
    }
}

/// A value in units of ten to the minus `MAX_FRACTION_DIGITS`, rounded to
/// cents, half away from zero.
pub open spec fn round_cents(x: int) -> int {
    if x < 0 {
        -((-x + 5000000000000000) / 10000000000000000)
    } else {
        (x + 5000000000000000) / 10000000000000000
    }
}

/// The value of an amount in cents, rounded half away from zero; a text that
/// is no amount counts as zero.
pub open spec fn cents_of(s: Seq<char>) -> int {
    round_cents(scaled_of(s))
}

/// The quantity that a text spells: one to `MAX_QUANTITY_DIGITS` digits;
/// any other text counts as zero.
pub open spec fn quantity_of(s: Seq<char>) -> nat {
    if 1 <= s.len() <= MAX_QUANTITY_DIGITS && all_digits(s) {
        digits_value(s)
    } else {
        0
    }
}

pub open spec fn digit_char(d: nat) -> char {
    ((d + 48) as u8) as char
}

/// The decimal digits of a number, without leading zeros.
pub open spec fn digits_of(n: nat) -> Seq<char>
    decreases n,
{
    if n < 10 {
        seq![digit_char(n)]
    } else {
        digits_of(n / 10).push(digit_char(n % 10))
    }
}

/// An amount of cents written with exactly two digits after the point.
pub open spec fn cents_text(c: int) -> Seq<char> {
    let m = if c < 0 { -c } else { c } as nat;
    let sign = if c < 0 { seq!['-'] } else { Seq::<char>::empty() };
    sign + digits_of(m / 100) + seq!['.', digit_char((m % 100) / 10), digit_char(m % 10)]
}

proof fn lemma_pow10_le(a: nat, b: nat)
    requires
        a <= b,
    ensures
        pow10(a) <= pow10(b),
    decreases b - a,
{
    if a < b {
        lemma_pow10_le(a, (b - 1) as nat);
    }
}

proof fn lemma_leading_digits(s: Seq<char>, m: int)
    requires
        0 <= m <= s.len(),
        all_digits(s.subrange(0, m)),
        m == s.len() || !is_digit(s[m]),
    ensures
        leading_digits(s) == m,
    decreases m,
{
    if m > 0 {
        assert(is_digit(s.subrange(0, m)[0]));
        let t = s.drop_first();
        assert forall|i: int| 0 <= i < m - 1 implies is_digit(#[trigger] t.subrange(0, m - 1)[i]) by {
            assert(s.subrange(0, m)[i + 1] == t.subrange(0, m - 1)[i]);
        }
        lemma_leading_digits(t, m - 1);
    }
}

/// Counts the digits of `s` from position `from` on, up to the first other
/// character or the end.
fn scan_digits(s: &str, n: usize, from: usize) -> (r: usize)
    requires
        n == s@.len(),
        from <= n,
    ensures
        from <= r <= n,
        leading_digits(s@.subrange(from as int, n as int)) == r - from,
        all_digits(s@.subrange(from as int, r as int)),
        r < n ==> !is_digit(s@[r as int]),
{
    let mut i: usize = from;
    while i < n && is_digit_char(s.get_char(i))
        invariant
            from <= i <= n,
            n == s@.len(),
            forall|j: int| from <= j < i ==> is_digit(#[trigger] s@[j]),
        decreases n - i,
    {
        i += 1;
    }
    proof {
        let t = s@.subrange(from as int, n as int);
        assert(t.subrange(0, i - from) =~= s@.subrange(from as int, i as int));
        assert forall|j: int| 0 <= j < i - from implies is_digit(#[trigger] t.subrange(0, i - from)[j]) by {
            assert(s@[from + j] == t.subrange(0, i - from)[j]);
        }
        if i < n {
            assert(t[i - from] == s@[i as int]);
        }
        lemma_leading_digits(t, i - from);
        assert forall|j: int| 0 <= j < i - from implies is_digit(#[trigger] s@.subrange(from as int, i as int)[j]) by {
            assert(s@[from + j] == s@.subrange(from as int, i as int)[j]);
        }
    }
    i
}

fn is_digit_char(c: char) -> (r: bool)
    ensures
        r == is_digit(c),
{
    '0' <= c && c <= '9'
}

/// The number that the digits of `s` between `from` and `to` spell.
fn digits_number(s: &str, from: usize, to: usize) -> (r: u64)
    requires
        from <= to <= s@.len(),
        to - from <= MAX_QUANTITY_DIGITS,
        all_digits(s@.subrange(from as int, to as int)),
    ensures
        r == digits_value(s@.subrange(from as int, to as int)),
        r < pow10((to - from) as nat),
{
    let mut acc: u64 = 0;
    let mut i: usize = from;
    while i < to
        invariant
            from <= i <= to <= s@.len(),
            to - from <= MAX_QUANTITY_DIGITS,
            all_digits(s@.subrange(from as int, to as int)),
            acc == digits_value(s@.subrange(from as int, i as int)),
            acc < pow10((i - from) as nat),
        decreases to - i,
    {
        let c = s.get_char(i);
        assert(s@.subrange(from as int, to as int)[i - from] == c);
        let d = (c as u32 - '0' as u32) as u64;
        proof {
            lemma_pow10_le((i + 1 - from) as nat, MAX_QUANTITY_DIGITS as nat);
            reveal_with_fuel(pow10, 20);
            assert(pow10(19) == 10000000000000000000nat);
            let t = s@.subrange(from as int, i + 1);
            assert(t.drop_last() =~= s@.subrange(from as int, i as int));
        }
        acc = acc * 10 + d;
        i += 1;
    }
    acc
}

proof fn lemma_pow10_add(a: nat, b: nat)
    ensures
        pow10(a + b) == pow10(a) * pow10(b),
    decreases a,
{
    if a > 0 {
        lemma_pow10_add((a - 1) as nat, b);
        assert(pow10(a + b) == 10 * pow10((a - 1 + b) as nat));
        assert(pow10(a) == 10 * pow10((a - 1) as nat));
        assert(10 * (pow10((a - 1) as nat) * pow10(b)) == (10 * pow10((a - 1) as nat)) * pow10(b))
            by (nonlinear_arith);
    } else {
        assert(pow10(0) == 1);
        assert(pow10(a + b) == pow10(b));
    }
}

fn pow10_u64(n: usize) -> (r: u64)
    requires
        n <= 19,
    ensures
        r == pow10(n as nat),
{
    let mut r: u64 = 1;
    let mut i: usize = 0;
    while i < n
        invariant
            i <= n <= 19,
            r == pow10(i as nat),
        decreases n - i,
    {
        proof {
            lemma_pow10_le((i + 1) as nat, 19);
            reveal_with_fuel(pow10, 20);
            assert(pow10(19) == 10000000000000000000nat);
        }
        r = r * 10;
        i += 1;
    }
    r
}

/// The exact value of an amount, in units of ten to the minus
/// `MAX_FRACTION_DIGITS`; zero where the text is no amount.
pub fn amount_scaled(s: &str) -> (r: i128)
    ensures
        r == scaled_of(s@),
        -10000000000000000000000000000000000 <= r <= 10000000000000000000000000000000000,
{
    let n = s.unicode_len();
    let neg = n > 0 && s.get_char(0) == '-';
    let start: usize = if neg { 1 } else { 0 };
    let ghost u = unsigned_part(s@);
    assert(u =~= s@.subrange(start as int, n as int));
    let k_end = scan_digits(s, n, start);
    let ghost k = k_end - start;
    if k_end == start || k_end - start > MAX_INT_DIGITS {
        return 0;
    }
    let mut frac: u64 = 0;
    let mut f: usize = 0;
    if k_end < n {
        assert(u[k] == s@[k_end as int]);
        if s.get_char(k_end) != '.' || k_end + 1 >= n {
            return 0;
        }
        let f_end = scan_digits(s, n, k_end + 1);
        assert(fraction_part(u) =~= s@.subrange(k_end + 1, n as int));
        if f_end != n {
            assert(s@.subrange(k_end + 1, n as int)[f_end - k_end - 1] == s@[f_end as int]);
            return 0;
        }
        if n - (k_end + 1) > MAX_FRACTION_DIGITS {
            return 0;
        }
        frac = digits_number(s, k_end + 1, n);
        f = n - (k_end + 1);
    } else {
        assert(fraction_part(u) =~= Seq::<char>::empty());
    }
    assert(is_amount(s@));
    assert(digits_value(fraction_part(u)) == frac);
    assert(fraction_part(u).len() == f);
    assert(frac < pow10(f as nat));
    assert(u.subrange(0, k) =~= s@.subrange(start as int, k_end as int));
    let whole = digits_number(s, start, k_end);
    let p = pow10_u64(MAX_FRACTION_DIGITS - f);
    proof {
        lemma_pow10_le(k as nat, MAX_INT_DIGITS as nat);
        lemma_pow10_add(f as nat, (18 - f) as nat);
        reveal_with_fuel(pow10, 20);
        assert(pow10(16) == 10000000000000000nat);
        assert(pow10(18) == 1000000000000000000nat);
    }
    let whole_part: i128 = whole as i128 * 1000000000000000000;
    assert(frac * p < 1000000000000000000) by (nonlinear_arith)
        requires
            frac < pow10(f as nat),
            p == pow10((18 - f) as nat),
            pow10(f as nat) * pow10((18 - f) as nat) == 1000000000000000000,
    ;
    let frac_part: i128 = frac as i128 * p as i128;
    let magnitude = whole_part + frac_part;
    if neg {
        -magnitude
    } else {
        magnitude
    }
}

/// A value in units of ten to the minus `MAX_FRACTION_DIGITS`, rounded to
/// cents, half away from zero.
pub fn round_to_cents(x: i128) -> (r: i64)
    requires
        -20000000000000000000000000000000000 <= x <= 20000000000000000000000000000000000,
    ensures
        r == round_cents(x as int),
{
    if x < 0 {
        -((-x + 5000000000000000) / 10000000000000000) as i64
    } else {
        ((x + 5000000000000000) / 10000000000000000) as i64
    }
}

/// The value in cents of an amount, rounded half away from zero; zero where
/// the text is no amount.
pub fn amount_cents(s: &str) -> (r: i64)
    ensures
        r == cents_of(s@),
{
    round_to_cents(amount_scaled(s))
}

/// The quantity that a text spells; zero where it is not one to
/// `MAX_QUANTITY_DIGITS` digits.
pub fn quantity_from_text(s: &str) -> (r: u64)
    ensures
        r == quantity_of(s@),
{
    let n = s.unicode_len();
    if n < 1 || n > MAX_QUANTITY_DIGITS {
        return 0;
    }
    let e = scan_digits(s, n, 0);
    assert(s@.subrange(0, n as int) =~= s@);
    if e != n {
        assert(!is_digit(s@[e as int]));
        return 0;
    }
    digits_number(s, 0, n)
}

fn digit_to_char(d: u64) -> (r: char)
    requires
        d < 10,
    ensures
        r == digit_char(d as nat),
{
    ((d + 48) as u8) as char
}

/// Appends the decimal digits of `n`.
fn push_digits(n: u64, out: &mut Vec<char>)
    ensures
        final(out)@ == old(out)@ + digits_of(n as nat),
    decreases n,
{
    if n >= 10 {
        push_digits(n / 10, out);
    }
    out.push(digit_to_char(n % 10));
    assert(out@ =~= old(out)@ + digits_of(n as nat));
}

/// Relies on std's `FromIterator<&char>` for `String`: the text of the
/// characters in order.
#[verifier::external_body]
fn string_from_chars(cs: &Vec<char>) -> (r: String)
    ensures
        r@ == cs@,
{
    cs.iter().collect()
}

/// An amount of cents written with exactly two digits after the point.
pub fn cents_to_text(c: i64) -> (r: String)
    ensures
        r@ == cents_text(c as int),
{
    let m: u64 = if c < 0 { (0i128 - c as i128) as u64 } else { c as u64 };
    let mut out: Vec<char> = Vec::new();
    if c < 0 {
        out.push('-');
    }
    push_digits(m / 100, &mut out);
    out.push('.');
    out.push(digit_to_char((m % 100) / 10));
    out.push(digit_to_char(m % 10));
    assert(out@ =~= cents_text(c as int));
    string_from_chars(&out)
}

} // verus!
