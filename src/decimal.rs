use vstd::prelude::*;

verus! {

pub open spec fn is_digit(c: char) -> bool {
    '0' <= c <= '9'
}

pub open spec fn digit_value(c: char) -> int {
    c as int - '0' as int
}

pub open spec fn all_digits(s: Seq<char>) -> bool {
    forall|i: int| 0 <= i < s.len() ==> is_digit(#[trigger] s[i])
}

/// The number that a string of decimal digits writes.
pub open spec fn digits_value(s: Seq<char>) -> int
    decreases s.len(),
{
    if s.len() == 0 {
        0
    } else {
        10 * digits_value(s.drop_last()) + digit_value(s.last())
    }
}

pub open spec fn pow10(k: nat) -> int
    decreases k,
{
    if k == 0 {
        1
    } else {
        10 * pow10((k - 1) as nat)
    }
}

/// Length of the sign that opens `s`: one for a leading `-` or `+`, else zero.
pub open spec fn sign_len(s: Seq<char>) -> int {
    if s.len() > 0 && (s[0] == '-' || s[0] == '+') {
        1
    } else {
        0
    }
}

/// Where the run of digits of `s` that starts at `from` ends.
pub open spec fn digits_end(s: Seq<char>, from: int) -> int
    decreases s.len() - from,
{
    if 0 <= from < s.len() && is_digit(s[from]) {
        digits_end(s, from + 1)
    } else {
        from
    }
}

/// Where the integer digits of `s` end.
pub open spec fn whole_end(s: Seq<char>) -> int {
    digits_end(s, sign_len(s))
}

/// Where the fractional digits of `s` start: after the point that follows the
/// integer digits, or where those end when no point follows.
pub open spec fn frac_start(s: Seq<char>) -> int {
    let e = whole_end(s);
    if e < s.len() && s[e] == '.' {
        e + 1
    } else {
        e
    }
}

/// Where the mantissa of `s` (sign, integer digits, point and fractional
/// digits) ends.
pub open spec fn mantissa_end(s: Seq<char>) -> int {
    digits_end(s, frac_start(s))
}

/// The digits of the mantissa of `s`, integer and fractional, without the point.
pub open spec fn mantissa_digits(s: Seq<char>) -> Seq<char> {
    s.subrange(sign_len(s), whole_end(s)) + s.subrange(frac_start(s), mantissa_end(s))
}

/// How many fractional digits the mantissa of `s` has.
pub open spec fn fraction_len(s: Seq<char>) -> int {
    mantissa_end(s) - frac_start(s)
}

pub open spec fn is_exponent_mark(c: char) -> bool {
    c == 'e' || c == 'E'
}

/// Where the digits of the exponent of `s` start, after its mark and sign.
pub open spec fn exponent_digits_start(s: Seq<char>) -> int {
    let m = mantissa_end(s);
    if m + 1 < s.len() && (s[m + 1] == '-' || s[m + 1] == '+') {
        m + 2
    } else {
        m + 1
    }
}

/// The exponent of `s`: zero when the mantissa ends the text, else an `e` or
/// `E`, an optional sign and at least one digit, ending the text.
pub open spec fn exponent(s: Seq<char>) -> Option<int> {
    let m = mantissa_end(s);
    if m == s.len() {
        Some(0)
    } else if is_exponent_mark(s[m]) {
        let q = exponent_digits_start(s);
        let d = s.subrange(q, s.len() as int);
        if q < s.len() && all_digits(d) {
            if q == m + 2 && s[m + 1] == '-' {
                Some(-digits_value(d))
            } else {
                Some(digits_value(d))
            }
        } else {
            None
        }
    } else {
        None
    }
}

/// The number that the digits `d` write, times `10^t`, truncated toward zero:
/// for a negative `t` the last `-t` digits are dropped.
pub open spec fn scaled_digits(d: Seq<char>, t: int) -> int {
    if t >= 0 {
        digits_value(d) * pow10(t as nat)
    } else if -t >= d.len() {
        0
    } else {
        digits_value(d.take(d.len() + t))
    }
}

/// The number that `s` writes, in units of `10^-k`, truncated toward zero.
///
/// `s` is an optional sign (`-` or `+`), integer digits, optionally a `.`
/// followed by fractional digits, with at least one digit in all, and
/// optionally an exponent: `e` or `E`, an optional sign and digits. Anything
/// else (other characters, a second point, surrounding space) writes no number.
pub open spec fn decimal_units(s: Seq<char>, k: nat) -> Option<int> {
    match exponent(s) {
        Some(e) => if mantissa_digits(s).len() > 0 {
            let magnitude = scaled_digits(mantissa_digits(s), e - fraction_len(s) + k);
            if s[0] == '-' {
                Some(-magnitude)
            } else {
                Some(magnitude)
            }
        } else {
            None
        },
        None => None,
    }
}

/// The value of `s` in units of `10^-k`, where `s` writes a number whose
/// magnitude is at most `limit`.
pub open spec fn bounded_units(s: Seq<char>, k: nat, limit: int) -> Option<int> {
    match decimal_units(s, k) {
        Some(v) => if -limit <= v <= limit {
            Some(v)
        } else {
            None
        },
        None => None,
    }
}

/// The unsigned integer that `s` writes: an optional `+` and at least one digit.
pub open spec fn natural_value(s: Seq<char>) -> Option<int> {
    let body = if s.len() > 0 && s[0] == '+' {
        s.drop_first()
    } else {
        s
    };
    if body.len() > 0 && all_digits(body) {
        Some(digits_value(body))
    } else {
        None
    }
}

/// A prefix of a string of digits writes a number no larger than the whole.
proof fn lemma_digits_prefix(s: Seq<char>, j: int)
    requires
        all_digits(s),
        0 <= j <= s.len(),
    ensures
        0 <= digits_value(s.take(j)) <= digits_value(s),
    decreases s.len(),
{
    if j == s.len() {
        assert(s.take(j) =~= s);
        if s.len() > 0 {
            lemma_digits_prefix(s.drop_last(), 0);
            assert(s.drop_last().take(0) =~= Seq::<char>::empty());
            assert(is_digit(s[s.len() - 1]));
        }
    } else {
        let t = s.drop_last();
        assert(all_digits(t)) by {
            assert forall|i: int| 0 <= i < t.len() implies is_digit(#[trigger] t[i]) by {
                assert(t[i] == s[i]);
            }
        }
        lemma_digits_prefix(t, j);
        lemma_digits_prefix(t, t.len() as int);
        assert(t.take(j) =~= s.take(j));
        assert(t.take(t.len() as int) =~= t);
        assert(is_digit(s[s.len() - 1]));
    }
}

/// Appending a digit multiplies by ten and adds it.
proof fn lemma_digits_push(s: Seq<char>, start: int, i: int)
    requires
        0 <= start <= i < s.len(),
    ensures
        digits_value(s.subrange(start, i + 1)) == 10 * digits_value(s.subrange(start, i))
            + digit_value(s[i]),
{
    assert(s.subrange(start, i + 1).drop_last() =~= s.subrange(start, i));
}

/// The run of digits from `from` ends at the end of `s` or before a non-digit.
proof fn lemma_digits_end(s: Seq<char>, from: int)
    requires
        0 <= from <= s.len(),
    ensures
        from <= digits_end(s, from) <= s.len(),
        all_digits(s.subrange(from, digits_end(s, from))),
        digits_end(s, from) == s.len() || !is_digit(s[digits_end(s, from)]),
    decreases s.len() - from,
{
    if from < s.len() && is_digit(s[from]) {
        lemma_digits_end(s, from + 1);
        let e = digits_end(s, from);
        assert forall|i: int| 0 <= i < e - from implies is_digit(
            #[trigger] s.subrange(from, e)[i],
        ) by {
            if i > 0 {
                assert(s.subrange(from, e)[i] == s.subrange(from + 1, e)[i - 1]);
            }
        }
    }
}

/// A scan that stopped at `i` after digits only found where the run ends.
proof fn lemma_digits_end_at(s: Seq<char>, from: int, i: int)
    requires
        0 <= from <= i <= s.len(),
        all_digits(s.subrange(from, i)),
        i == s.len() || !is_digit(s[i]),
    ensures
        digits_end(s, from) == i,
{
    lemma_digits_end(s, from);
    let e = digits_end(s, from);
    if e < i {
        assert(is_digit(s.subrange(from, i)[e - from]));
    }
    if i < e {
        assert(is_digit(s.subrange(from, e)[i - from]));
    }
}

proof fn lemma_pow10_bound(k: nat)
    requires
        k <= 18,
    ensures
        1 <= pow10(k) <= 1_000_000_000_000_000_000,
    decreases k,
{
    if k > 0 {
        lemma_pow10_bound((k - 1) as nat);
        if k == 18 {
            reveal_with_fuel(pow10, 19);
        } else {
            lemma_pow10_le((k - 1) as nat);
        }
    }
}

proof fn lemma_pow10_le(k: nat)
    requires
        k < 17,
    ensures
        10 * pow10(k) <= 1_000_000_000_000_000_000,
    decreases 17 - k,
{
    if k < 16 {
        lemma_pow10_le(k + 1);
    } else {
        reveal_with_fuel(pow10, 18);
    }
}

/// `10^k` for `k` up to 18.
fn pow10_exec(k: u32) -> (r: u64)
    requires
        k <= 18,
    ensures
        r == pow10(k as nat),
{
    let mut r: u64 = 1;
    let mut i: u32 = 0;
    while i < k
        invariant
            i <= k <= 18,
            r == pow10(i as nat),
        decreases k - i,
    {
        proof {
            lemma_pow10_bound((i + 1) as nat);
        }
        r = r * 10;
        i = i + 1;
    }
    r
}

/// Scans the digits of `s` from `start` while their value stays within
/// `limit`. Returns where the scan stopped, and the value of the digits
/// scanned, or `None` when those digits already exceed `limit`.
fn scan_digits(s: &str, start: usize, limit: u128) -> (r: (usize, Option<u128>))
    requires
        start <= s@.len(),
        limit <= 0x3_ffff_ffff_ffff_ffff,
    ensures
        start <= r.0 <= s@.len(),
        all_digits(s@.subrange(start as int, r.0 as int)),
        match r.1 {
            Some(v) => {
                &&& v == digits_value(s@.subrange(start as int, r.0 as int))
                &&& v <= limit
                &&& (r.0 == s@.len() || !is_digit(s@[r.0 as int]))
            },
            None => digits_value(s@.subrange(start as int, r.0 as int)) > limit,
        },
{
    let n = s.unicode_len();
    let mut i = start;
    let mut acc: u128 = 0;
    assert(s@.subrange(start as int, start as int) =~= Seq::<char>::empty());
    while i < n
        invariant
            n == s@.len(),
            start <= i <= n,
            all_digits(s@.subrange(start as int, i as int)),
            acc == digits_value(s@.subrange(start as int, i as int)),
            acc <= limit,
            limit <= 0x3_ffff_ffff_ffff_ffff,
        decreases n - i,
    {
        let c = s.get_char(i);
        if !('0' <= c && c <= '9') {
            return (i, Some(acc));
        }
        proof {
            lemma_digits_push(s@, start as int, i as int);
            assert forall|j: int| 0 <= j < i + 1 - start implies is_digit(
                #[trigger] s@.subrange(start as int, i + 1)[j],
            ) by {
                if j < i - start {
                    assert(s@.subrange(start as int, i + 1)[j] == s@.subrange(
                        start as int,
                        i as int,
                    )[j]);
                }
            }
        }
        acc = acc * 10 + (c as u32 - '0' as u32) as u128;
        i = i + 1;
        if acc > limit {
            return (i, None);
        }
    }
    (i, Some(acc))
}

/// `s` writes a number (see `decimal_units`); whether it does depends on the
/// text alone, not on the digits kept.
pub open spec fn writes_number(s: Seq<char>) -> bool {
    decimal_units(s, 0) is Some
}

/// Where the run of digits of `s` that starts at `start` ends.
fn digits_run(s: &str, start: usize) -> (r: usize)
    requires
        start <= s@.len(),
    ensures
        r == digits_end(s@, start as int),
{
    let n = s.unicode_len();
    let mut i = start;
    assert(s@.subrange(start as int, start as int) =~= Seq::<char>::empty());
    while i < n
        invariant
            n == s@.len(),
            start <= i <= n,
            all_digits(s@.subrange(start as int, i as int)),
        decreases n - i,
    {
        let c = s.get_char(i);
        if !('0' <= c && c <= '9') {
            proof {
                lemma_digits_end_at(s@, start as int, i as int);
            }
            return i;
        }
        proof {
            assert forall|j: int| 0 <= j < i + 1 - start implies is_digit(
                #[trigger] s@.subrange(start as int, i + 1)[j],
            ) by {
                if j < i - start {
                    assert(s@.subrange(start as int, i + 1)[j] == s@.subrange(
                        start as int,
                        i as int,
                    )[j]);
                }
            }
        }
        i = i + 1;
    }
    proof {
        lemma_digits_end_at(s@, start as int, i as int);
    }
    i
}

/// The exponent of a number as a scan finds it.
enum ExponentPart {
    /// Not a valid exponent: the text writes no number.
    Invalid,
    /// An exponent of this sign (negative when `true`) and magnitude.
    Known(bool, u128),
    /// An exponent of this sign whose magnitude exceeds the text's length
    /// by more than 40.
    Huge(bool),
}

/// Scans the exponent of `s`, whose mantissa ends at `end`.
fn exponent_part(s: &str, end: usize) -> (r: ExponentPart)
    requires
        end == mantissa_end(s@),
        end <= s@.len(),
    ensures
        match r {
            ExponentPart::Invalid => exponent(s@) is None,
            ExponentPart::Known(negative, v) => exponent(s@) == Some(
                if negative {
                    -v
                } else {
                    v as int
                },
            ) && v <= s@.len() + 40,
            ExponentPart::Huge(negative) => exponent(s@) matches Some(e) && if negative {
                e < -(s@.len() + 40)
            } else {
                e > s@.len() + 40
            },
        },
{
    let n = s.unicode_len();
    if end == n {
        return ExponentPart::Known(false, 0);
    }
    let c = s.get_char(end);
    if c != 'e' && c != 'E' {
        return ExponentPart::Invalid;
    }
    let mut q = end + 1;
    let mut negative = false;
    if q < n {
        let c2 = s.get_char(q);
        if c2 == '-' {
            negative = true;
            q = q + 1;
        } else if c2 == '+' {
            q = q + 1;
        }
    }
    assert(q == exponent_digits_start(s@));
    let cap = n as u128 + 40;
    let (stop, value) = scan_digits(s, q, cap);
    match value {
        Some(v) => {
            if stop == n && stop > q {
                assert(s@.subrange(q as int, n as int) =~= s@.subrange(q as int, stop as int));
                ExponentPart::Known(negative, v)
            } else {
                if stop < n {
                    assert(!is_digit(s@.subrange(q as int, n as int)[stop - q]));
                }
                ExponentPart::Invalid
            }
        },
        None => {
            let rest = digits_run(s, stop);
            proof {
                lemma_digits_end(s@, stop as int);
            }
            if rest != n {
                assert(!is_digit(s@.subrange(q as int, n as int)[rest - q]));
                return ExponentPart::Invalid;
            }
            proof {
                let d = s@.subrange(q as int, n as int);
                assert forall|i: int| 0 <= i < d.len() implies is_digit(#[trigger] d[i]) by {
                    if i < stop - q {
                        assert(d[i] == s@.subrange(q as int, stop as int)[i]);
                    } else {
                        assert(d[i] == s@.subrange(stop as int, n as int)[i - (stop - q)]);
                    }
                }
                lemma_digits_prefix(d, stop - q);
                assert(d.take(stop - q) =~= s@.subrange(q as int, stop as int));
            }
            ExponentPart::Huge(negative)
        },
    }
}

/// The number that the first `m` digits of `d` write, where it is at most
/// `limit`; `None` when it exceeds `limit`.
fn prefix_value(d: &Vec<char>, m: usize, limit: u128) -> (r: Option<u128>)
    requires
        all_digits(d@),
        m <= d@.len(),
        limit <= u64::MAX,
    ensures
        match r {
            Some(v) => v == digits_value(d@.take(m as int)) && v <= limit,
            None => digits_value(d@.take(m as int)) > limit,
        },
{
    let mut acc: u128 = 0;
    let mut i: usize = 0;
    assert(d@.take(0) =~= Seq::<char>::empty());
    while i < m
        invariant
            m <= d@.len(),
            i <= m,
            all_digits(d@),
            acc == digits_value(d@.take(i as int)),
            acc <= limit,
            limit <= u64::MAX,
        decreases m - i,
    {
        let c = d[i];
        proof {
            assert(is_digit(d@[i as int]));
            assert(d@.take(i + 1).drop_last() =~= d@.take(i as int));
        }
        acc = acc * 10 + (c as u32 - '0' as u32) as u128;
        i = i + 1;
        if acc > limit {
            proof {
                let t = d@.take(m as int);
                assert(all_digits(t)) by {
                    assert forall|j: int| 0 <= j < t.len() implies is_digit(#[trigger] t[j]) by {
                        assert(t[j] == d@[j]);
                    }
                }
                lemma_digits_prefix(t, i as int);
                assert(t.take(i as int) =~= d@.take(i as int));
            }
            return None;
        }
    }
    Some(acc)
}

proof fn lemma_times_at_least_one(a: int, b: int)
    requires
        a >= 1,
        b >= 0,
    ensures
        a * b >= b,
{
    assert(a * b >= b) by (nonlinear_arith)
        requires
            a >= 1,
            b >= 0,
    ;
}

proof fn lemma_pow10_at_least(t: nat)
    requires
        t >= 19,
    ensures
        pow10(t) >= 10_000_000_000_000_000_000,
    decreases t,
{
    if t == 19 {
        reveal_with_fuel(pow10, 20);
    } else {
        lemma_pow10_at_least((t - 1) as nat);
    }
}

/// The parts of the mantissa of `s`: where its sign ends, where the integer
/// digits end, where the fractional digits start and end.
fn mantissa_parts(s: &str) -> (r: (usize, usize, usize, usize))
    ensures
        r.0 == sign_len(s@),
        r.1 == whole_end(s@),
        r.2 == frac_start(s@),
        r.3 == mantissa_end(s@),
        r.0 <= r.1 <= r.2 <= r.3 <= s@.len(),
        all_digits(mantissa_digits(s@)),
{
    let n = s.unicode_len();
    let mut start: usize = 0;
    if n > 0 {
        let c = s.get_char(0);
        if c == '-' || c == '+' {
            start = 1;
        }
    }
    let whole = digits_run(s, start);
    proof {
        lemma_digits_end(s@, start as int);
    }
    let first = if whole < n && s.get_char(whole) == '.' {
        whole + 1
    } else {
        whole
    };
    let end = digits_run(s, first);
    proof {
        lemma_digits_end(s@, first as int);
        let a = s@.subrange(start as int, whole as int);
        let b = s@.subrange(first as int, end as int);
        assert forall|i: int| 0 <= i < (a + b).len() implies is_digit(#[trigger] (a + b)[i]) by {
            if i < a.len() {
                assert((a + b)[i] == a[i]);
            } else {
                assert((a + b)[i] == b[i - a.len()]);
            }
        }
    }
    (start, whole, first, end)
}

/// The digits of the mantissa of `s`, from its parts.
fn mantissa_digit_vec(s: &str, start: usize, whole: usize, first: usize, end: usize) -> (r: Vec<
    char,
>)
    requires
        start <= whole <= first <= end <= s@.len(),
    ensures
        r@ == s@.subrange(start as int, whole as int) + s@.subrange(first as int, end as int),
{
    let mut d: Vec<char> = Vec::new();
    let mut i = start;
    while i < whole
        invariant
            start <= i <= whole <= s@.len(),
            d@ == s@.subrange(start as int, i as int),
        decreases whole - i,
    {
        d.push(s.get_char(i));
        assert(d@ =~= s@.subrange(start as int, i + 1));
        i = i + 1;
    }
    let mut j = first;
    assert(d@ =~= s@.subrange(start as int, whole as int) + s@.subrange(
        first as int,
        first as int,
    ));
    while j < end
        invariant
            first <= j <= end <= s@.len(),
            d@ == s@.subrange(start as int, whole as int) + s@.subrange(first as int, j as int),
        decreases end - j,
    {
        d.push(s.get_char(j));
        assert(d@ =~= s@.subrange(start as int, whole as int) + s@.subrange(
            first as int,
            j + 1,
        ));
        j = j + 1;
    }
    d
}

/// Whether `s` writes a number (see `decimal_units`).
pub fn is_number_text(s: &str) -> (r: bool)
    ensures
        r == writes_number(s@),
{
    let (start, whole, first, end) = mantissa_parts(s);
    let digits = (whole - start) + (end - first);
    match exponent_part(s, end) {
        ExponentPart::Invalid => false,
        _ => digits > 0,
    }
}

/// Parses `s` as a number in units of `10^-k`: its value times `10^k`,
/// truncated toward zero. `None` unless `s` writes a number (see
/// `decimal_units`) whose magnitude is at most `limit`.
pub fn parse_decimal(s: &str, k: u32, limit: u64) -> (r: Option<i64>)
    requires
        k <= 18,
        limit <= i64::MAX,
    ensures
        match r {
            Some(v) => bounded_units(s@, k as nat, limit as int) == Some(v as int),
            None => bounded_units(s@, k as nat, limit as int) is None,
        },
{
    let n = s.unicode_len();
    let (start, whole, first, end) = mantissa_parts(s);
    let exp = exponent_part(s, end);
    if let ExponentPart::Invalid = exp {
        return None;
    }
    let d = mantissa_digit_vec(s, start, whole, first, end);
    let len = d.len();
    if len == 0 {
        return None;
    }
    let ghost ds = mantissa_digits(s@);
    assert(d@ == ds);
    let frac = (end - first) as i128;
    let negative = s.get_char(0) == '-';
    let limit = limit as u128;
    // the scale `t` of the digits: positive for whole powers of ten, negative
    // for the number of digits dropped
    let magnitude: u128 = match exp {
        ExponentPart::Huge(true) => 0,
        ExponentPart::Huge(false) => {
            match prefix_value(&d, len, limit) {
                Some(0) => {
                    proof {
                        assert(d@.take(len as int) =~= d@);
                    }
                    0
                },
                other => {
                    proof {
                        assert(d@.take(len as int) =~= d@);
                        let t = exponent(s@).unwrap() - fraction_len(s@) + k;
                        lemma_pow10_at_least(t as nat);
                        if other is Some {
                            lemma_times_at_least_one(digits_value(ds), pow10(t as nat));
                        } else {
                            lemma_digits_prefix(ds, 0);
                            assert(ds.take(0) =~= Seq::<char>::empty());
                            assert(digits_value(ds) * pow10(t as nat) >= digits_value(ds))
                                by (nonlinear_arith)
                                requires
                                    digits_value(ds) >= 0,
                                    pow10(t as nat) >= 1,
                            ;
                        }
                    }
                    return None;
                },
            }
        },
        ExponentPart::Known(negative_exp, e) => {
            let e = if negative_exp {
                -(e as i128)
            } else {
                e as i128
            };
            let t = e - frac + k as i128;
            if t >= 0 {
                match prefix_value(&d, len, limit) {
                    Some(v) => {
                        proof {
                            assert(d@.take(len as int) =~= d@);
                        }
                        if v == 0 {
                            0
                        } else if t > 18 {
                            proof {
                                lemma_pow10_at_least(t as nat);
                                lemma_times_at_least_one(v as int, pow10(t as nat));
                            }
                            return None;
                        } else {
                            let p = pow10_exec(t as u32);
                            proof {
                                lemma_pow10_bound(t as nat);
                                assert(v * p <= 0xffff_ffff_ffff_ffffu128 * 1_000_000_000_000_000_000u128)
                                    by (nonlinear_arith)
                                    requires
                                        v <= 0xffff_ffff_ffff_ffffu128,
                                        p <= 1_000_000_000_000_000_000u128,
                                ;
                            }
                            v * p as u128
                        }
                    },
                    None => {
                        proof {
                            assert(d@.take(len as int) =~= d@);
                            lemma_pow10_positive(t as nat);
                            assert(digits_value(ds) * pow10(t as nat) >= digits_value(ds))
                                by (nonlinear_arith)
                                requires
                                    digits_value(ds) >= 0,
                                    pow10(t as nat) >= 1,
                            ;
                        }
                        return None;
                    },
                }
            } else if -t >= len as i128 {
                0
            } else {
                match prefix_value(&d, (len as i128 + t) as usize, limit) {
                    Some(v) => v,
                    None => {
                        return None;
                    },
                }
            }
        },
        // refused above
        ExponentPart::Invalid => 0,
    };
    if magnitude > limit {
        return None;
    }
    let v = magnitude as i64;
    if negative {
        Some(-v)
    } else {
        Some(v)
    }
}

proof fn lemma_pow10_positive(k: nat)
    ensures
        pow10(k) >= 1,
    decreases k,
{
    if k > 0 {
        lemma_pow10_positive((k - 1) as nat);
    }
}

/// Parses `s` as an unsigned decimal integer: an optional `+` and at least one
/// digit, with a value that fits in `usize`.
pub fn parse_natural(s: &str) -> (r: Option<usize>)
    ensures
        match r {
            Some(v) => natural_value(s@) == Some(v as int),
            None => natural_value(s@) is None || natural_value(s@).unwrap() > usize::MAX,
        },
{
    let n = s.unicode_len();
    let mut start: usize = 0;
    if n > 0 && s.get_char(0) == '+' {
        start = 1;
    }
    let ghost body = if n > 0 && s@[0] == '+' {
        s@.drop_first()
    } else {
        s@
    };
    assert(body =~= s@.subrange(start as int, n as int));
    let (end, value) = scan_digits(s, start, usize::MAX as u128);
    match value {
        Some(v) => {
            if end == n && end > start {
                Some(v as usize)
            } else {
                if end < n {
                    assert(!is_digit(body[end - start]));
                }
                None
            }
        },
        None => {
            proof {
                if all_digits(body) {
                    lemma_digits_prefix(body, end - start);
                    assert(body.take(end - start) =~= s@.subrange(start as int, end as int));
                }
            }
            None
        },
    }
}

/// The decimal digits of `n`, without leading zeros.
pub open spec fn decimal_text(n: nat) -> Seq<char>
    decreases n,
{
    if n < 10 {
        seq![(n + '0' as nat) as char]
    } else {
        decimal_text(n / 10).push(((n % 10) + '0' as nat) as char)
    }
}

/// The digit that writes `d`.
fn digit_text(d: u64) -> (r: &'static str)
    requires
        d < 10,
    ensures
        r@ == seq![(d + '0' as nat) as char],
{
    proof {
        reveal_strlit("0");
        reveal_strlit("1");
        reveal_strlit("2");
        reveal_strlit("3");
        reveal_strlit("4");
        reveal_strlit("5");
        reveal_strlit("6");
        reveal_strlit("7");
        reveal_strlit("8");
        reveal_strlit("9");
    }
    let r = if d == 0 {
        "0"
    } else if d == 1 {
        "1"
    } else if d == 2 {
        "2"
    } else if d == 3 {
        "3"
    } else if d == 4 {
        "4"
    } else if d == 5 {
        "5"
    } else if d == 6 {
        "6"
    } else if d == 7 {
        "7"
    } else if d == 8 {
        "8"
    } else {
        "9"
    };
    assert(r@ =~= seq![(d + '0' as nat) as char]);
    r
}

/// `n` written in decimal digits, without leading zeros.
pub fn u64_text(n: u64) -> (r: String)
    ensures
        r@ == decimal_text(n as nat),
    decreases n,
{
    if n < 10 {
        String::from_str(digit_text(n))
    } else {
        let mut r = u64_text(n / 10);
        r.append(digit_text(n % 10));
        assert(r@ =~= decimal_text((n / 10) as nat).push(((n % 10) + '0' as nat) as char));
        r
    }
}

/// `n` written in decimal digits, without leading zeros.
pub(crate) fn usize_text(n: usize) -> (r: String)
    ensures
        r@ == decimal_text(n as nat),
{
    u64_text(n as u64)
}

/// An integer written in decimal, with a leading `-` when negative.
pub open spec fn signed_decimal_text(n: int) -> Seq<char> {
    if n < 0 {
        seq!['-'] + decimal_text((-n) as nat)
    } else {
        decimal_text(n as nat)
    }
}

/// `n` written in decimal digits, without leading zeros, after a `-` when
/// negative.
pub fn i64_text(n: i64) -> (r: String)
    ensures
        r@ == signed_decimal_text(n as int),
{
    if n < 0 {
        let magnitude = (-(n as i128)) as u64;
        let mut r = String::from_str("-");
        r.append(u64_text(magnitude).as_str());
        proof {
            reveal_strlit("-");
        }
        assert(r@ =~= seq!['-'] + decimal_text((-n) as nat));
        r
    } else {
        u64_text(n as u64)
    }
}

} // verus!
