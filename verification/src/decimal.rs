//! Numbers written the way `f64::from_str` reads the finite ones (a sign,
//! digits with at most one point, an exponent), taken as whole milliseconds.
use vstd::prelude::*;
use crate::text::{all_digits, digits_value, find_char, find_char_exec, is_digit, is_digit_char};
use crate::lyrics::pow10;

verus! {

/// The value of one decimal digit.
pub open spec fn digit_val(c: char) -> nat {
    ((c as u32) - ('0' as u32)) as nat
}

/// The text of a number without its sign character.
pub open spec fn unsigned_part(s: Seq<char>) -> Seq<char> {
    if s.len() > 0 && (s[0] == '+' || s[0] == '-') {
        s.drop_first()
    } else {
        s
    }
}

pub open spec fn is_negative(s: Seq<char>) -> bool {
    s.len() > 0 && s[0] == '-'
}

/// Where the exponent mark (`e` or `E`) stands, or `s.len()`.
pub open spec fn exp_mark(s: Seq<char>) -> int {
    let a = find_char(s, 'e', 0);
    let b = find_char(s, 'E', 0);
    if a <= b {
        a
    } else {
        b
    }
}

/// An exponent: an optional sign and at least one digit.
pub open spec fn exponent_value(t: Seq<char>) -> Option<int> {
    let ds = unsigned_part(t);
    if ds.len() > 0 && all_digits(ds) {
        Some(
            if is_negative(t) {
                -(digits_value(ds) as int)
            } else {
                digits_value(ds) as int
            },
        )
    } else {
        None
    }
}

/// A finite number as `f64::from_str` reads it: an optional sign, digits
/// with at most one point and at least one digit, and an optional exponent.
/// The parts are (negative, digits before the point, digits after it,
/// exponent). `inf`, `infinity` and `nan` are not finite and give `None`.
pub open spec fn number_parts(s: Seq<char>) -> Option<(bool, Seq<char>, Seq<char>, int)> {
    let body = unsigned_part(s);
    let e = exp_mark(body);
    let mant = body.take(e);
    let p = find_char(mant, '.', 0);
    let a = mant.take(p);
    let b = if p < mant.len() {
        mant.skip(p + 1)
    } else {
        Seq::<char>::empty()
    };
    let x = if e < body.len() {
        exponent_value(body.skip(e + 1))
    } else {
        Some(0int)
    };
    if all_digits(a) && all_digits(b) && a.len() + b.len() > 0 && x is Some {
        Some((is_negative(s), a, b, x.unwrap()))
    } else {
        None
    }
}

/// Whether a digit other than `0` occurs (the number is not zero).
pub open spec fn has_nonzero(d: Seq<char>) -> bool {
    exists|i: int| 0 <= i < d.len() && #[trigger] d[i] != '0'
}

/// The whole part of the digits `d` with the point moved to position `q`:
/// the floor of `value(d) * 10^(q - |d|)`.
pub open spec fn shifted_int(d: Seq<char>, q: int) -> nat {
    if q <= 0 {
        0
    } else if q <= d.len() {
        digits_value(d.take(q))
    } else {
        digits_value(d) * pow10((q - d.len()) as nat)
    }
}

/// The carry out of a fraction `0.d` multiplied by 6: the floor of
/// `6 * 0.d`.
pub open spec fn carry6(d: Seq<char>) -> nat
    decreases d.len(),
{
    if d.len() == 0 {
        0
    } else {
        (6 * digit_val(d[0]) + carry6(d.drop_first())) / 10
    }
}

/// What the digits after position `q` add to six times the whole part in
/// front of it.
pub open spec fn tail_carry(d: Seq<char>, q: int) -> nat {
    if q < 0 || q >= d.len() {
        0
    } else {
        carry6(d.skip(q))
    }
}

/// A number of seconds as whole milliseconds (rounded down); `None` for a
/// text that is not a finite number, or a negative one (`-0` is zero).
pub open spec fn millis_of_seconds(s: Seq<char>) -> Option<nat> {
    match number_parts(s) {
        None => None,
        Some((neg, a, b, x)) => {
            let d = a + b;
            if neg && has_nonzero(d) {
                None
            } else {
                Some(shifted_int(d, a.len() + x + 3))
            }
        },
    }
}

/// A number of minutes as whole milliseconds (rounded down: sixty thousand
/// times the number is six times its value shifted by four places, plus the
/// carry of the digits behind); `None` as for seconds.
pub open spec fn millis_of_minutes(s: Seq<char>) -> Option<nat> {
    match number_parts(s) {
        None => None,
        Some((neg, a, b, x)) => {
            let d = a + b;
            let q = a.len() + x + 4;
            if neg && has_nonzero(d) {
                None
            } else {
                Some(6 * shifted_int(d, q) + tail_carry(d, q))
            }
        },
    }
}

/// A value that fits in 64 bits, or `None`.
pub open spec fn fit(o: Option<nat>) -> Option<u64> {
    match o {
        Some(n) => if n <= u64::MAX {
            Some(n as u64)
        } else {
            None
        },
        None => None,
    }
}

proof fn lemma_pow10_ge1(n: nat)
    ensures
        pow10(n) >= 1,
    decreases n,
{
    if n > 0 {
        lemma_pow10_ge1((n - 1) as nat);
    }
}

proof fn lemma_pow10_mono(a: nat, b: nat)
    requires
        a <= b,
    ensures
        pow10(a) <= pow10(b),
    decreases b,
{
    if a < b {
        lemma_pow10_mono(a, (b - 1) as nat);
        lemma_pow10_ge1((b - 1) as nat);
    }
}

proof fn lemma_pow10_big()
    ensures
        pow10(20) > u64::MAX,
{
    reveal_with_fuel(pow10, 21);
}

proof fn lemma_take_step(d: Seq<char>, i: int)
    requires
        0 <= i < d.len(),
    ensures
        digits_value(d.take(i + 1)) == digits_value(d.take(i)) * 10 + digit_val(d[i]),
{
    assert(d.take(i + 1).drop_last() =~= d.take(i));
}

proof fn lemma_take_mono(d: Seq<char>, i: int, k: int)
    requires
        0 <= i <= k <= d.len(),
    ensures
        digits_value(d.take(i)) <= digits_value(d.take(k)),
    decreases k - i,
{
    if i < k {
        lemma_take_mono(d, i, k - 1);
        lemma_take_step(d, k - 1);
    }
}

proof fn lemma_zero_digits(d: Seq<char>)
    requires
        !has_nonzero(d),
    ensures
        digits_value(d) == 0,
        carry6(d) == 0,
    decreases d.len(),
{
    if d.len() > 0 {
        assert(!has_nonzero(d.drop_last())) by {
            if has_nonzero(d.drop_last()) {
                let i = choose|i: int| 0 <= i < d.drop_last().len() && #[trigger] d.drop_last()[i] != '0';
                assert(d[i] != '0');
            }
        }
        assert(!has_nonzero(d.drop_first())) by {
            if has_nonzero(d.drop_first()) {
                let i = choose|i: int| 0 <= i < d.drop_first().len() && #[trigger] d.drop_first()[i] != '0';
                assert(d[i + 1] != '0');
            }
        }
        lemma_zero_digits(d.drop_last());
        lemma_zero_digits(d.drop_first());
        assert(d[d.len() - 1] == '0');
        assert(d[0] == '0');
    }
}

/// A number with a non-zero digit is at least one.
proof fn lemma_nonzero_digits(d: Seq<char>)
    requires
        all_digits(d),
        has_nonzero(d),
    ensures
        digits_value(d) >= 1,
    decreases d.len(),
{
    let t = d.drop_last();
    assert(is_digit(d[d.len() - 1]));
    if d[d.len() - 1] == '0' {
        let i = choose|i: int| 0 <= i < d.len() && #[trigger] d[i] != '0';
        assert(i < d.len() - 1);
        assert(t[i] != '0');
        assert(all_digits(t)) by {
            assert forall|k: int| 0 <= k < t.len() implies is_digit(#[trigger] t[k]) by {
                assert(t[k] == d[k]);
            }
        }
        lemma_nonzero_digits(t);
    }
}

proof fn lemma_zero_shifted(d: Seq<char>, q: int)
    requires
        !has_nonzero(d),
    ensures
        shifted_int(d, q) == 0,
        tail_carry(d, q) == 0,
{
    lemma_zero_digits(d);
    if 0 < q <= d.len() {
        assert(!has_nonzero(d.take(q))) by {
            if has_nonzero(d.take(q)) {
                let i = choose|i: int| 0 <= i < d.take(q).len() && #[trigger] d.take(q)[i] != '0';
                assert(d[i] != '0');
            }
        }
        lemma_zero_digits(d.take(q));
    }
    if 0 <= q < d.len() {
        assert(!has_nonzero(d.skip(q))) by {
            if has_nonzero(d.skip(q)) {
                let i = choose|i: int| 0 <= i < d.skip(q).len() && #[trigger] d.skip(q)[i] != '0';
                assert(d[q + i] != '0');
            }
        }
        lemma_zero_digits(d.skip(q));
    }
}

/// The digits of `a` followed by those of `b`.
fn concat_digits(a: &[char], b: &[char]) -> (r: Vec<char>)
    ensures
        r@ == a@ + b@,
{
    let mut r: Vec<char> = Vec::new();
    let mut i: usize = 0;
    while i < a.len()
        invariant
            i <= a@.len(),
            r@ == a@.take(i as int),
        decreases a@.len() - i,
    {
        r.push(a[i]);
        i += 1;
        assert(r@ =~= a@.take(i as int));
    }
    assert(a@.take(a@.len() as int) =~= a@);
    let mut j: usize = 0;
    while j < b.len()
        invariant
            j <= b@.len(),
            r@ == a@ + b@.take(j as int),
        decreases b@.len() - j,
    {
        r.push(b[j]);
        j += 1;
        assert(r@ =~= a@ + b@.take(j as int));
    }
    assert(b@.take(b@.len() as int) =~= b@);
    r
}

pub(crate) fn all_digits_slice(v: &[char]) -> (b: bool)
    ensures
        b == all_digits(v@),
{
    let mut i: usize = 0;
    while i < v.len()
        invariant
            i <= v@.len(),
            forall|k: int| 0 <= k < i ==> is_digit(#[trigger] v@[k]),
        decreases v@.len() - i,
    {
        if !is_digit_char(v[i]) {
            return false;
        }
        i += 1;
    }
    true
}

fn has_nonzero_exec(d: &[char]) -> (r: bool)
    ensures
        r == has_nonzero(d@),
{
    let mut i: usize = 0;
    while i < d.len()
        invariant
            i <= d@.len(),
            forall|k: int| 0 <= k < i ==> #[trigger] d@[k] == '0',
        decreases d@.len() - i,
    {
        if d[i] != '0' {
            return true;
        }
        i += 1;
    }
    false
}

/// `shifted_int(d, q)` where it fits in 64 bits.
fn shifted_int_exec(d: &[char], q: i128) -> (r: Option<u64>)
    requires
        all_digits(d@),
    ensures
        r == fit(Some(shifted_int(d@, q as int))),
{
    if q <= 0 {
        return Some(0);
    }
    let k: usize = if q < d.len() as i128 {
        q as usize
    } else {
        d.len()
    };
    let mut v: u64 = 0;
    let mut i: usize = 0;
    while i < k
        invariant
            i <= k <= d@.len(),
            k as int == q || k == d@.len(),
            k as int <= q,
            all_digits(d@),
            v == digits_value(d@.take(i as int)),
        decreases k - i,
    {
        let c = d[i];
        assert(is_digit(d@[i as int]));
        let dig = (c as u32 - '0' as u32) as u64;
        proof {
            lemma_take_step(d@, i as int);
        }
        if v > (u64::MAX - dig) / 10 {
            proof {
                assert(v * 10 + dig > u64::MAX) by (nonlinear_arith)
                    requires
                        v > (u64::MAX - dig) / 10,
                        dig <= 9,
                ;
                lemma_take_mono(d@, i + 1, k as int);
                if q > d@.len() {
                    assert(d@.take(k as int) =~= d@);
                    lemma_pow10_ge1((q - d@.len()) as nat);
                    let dv = digits_value(d@);
                    let pw = pow10((q - d@.len()) as nat);
                    assert(dv * pw >= dv) by (nonlinear_arith)
                        requires
                            pw >= 1,
                    ;
                }
            }
            return None;
        }
        v = v * 10 + dig;
        i += 1;
    }
    if q <= d.len() as i128 {
        return Some(v);
    }
    assert(d@.take(k as int) =~= d@);
    assert(v == digits_value(d@));
    if v == 0 {
        assert(digits_value(d@) * pow10((q - d@.len()) as nat) == 0);
        return Some(0);
    }
    let extra: i128 = q - d.len() as i128;
    let mut j: i128 = 0;
    assert(pow10(0) == 1);
    assert(digits_value(d@) * pow10(0) == digits_value(d@));
    while j < extra
        invariant
            0 <= j <= extra,
            extra == q - d@.len(),
            v >= 1,
            v as nat == digits_value(d@) * pow10(j as nat),
        decreases extra - j,
    {
        assert(pow10((j + 1) as nat) == 10 * pow10(j as nat));
        if v > u64::MAX / 10 {
            proof {
                let dv = digits_value(d@);
                lemma_pow10_mono((j + 1) as nat, extra as nat);
                let a = pow10((j + 1) as nat);
                let b = pow10(extra as nat);
                assert(dv * a == v * 10) by (nonlinear_arith)
                    requires
                        v == dv * pow10(j as nat),
                        a == 10 * pow10(j as nat),
                ;
                assert(dv * b >= dv * a) by (nonlinear_arith)
                    requires
                        b >= a,
                ;
            }
            return None;
        }
        proof {
            let dv = digits_value(d@);
            assert(dv * pow10((j + 1) as nat) == v * 10) by (nonlinear_arith)
                requires
                    v == dv * pow10(j as nat),
                    pow10((j + 1) as nat) == 10 * pow10(j as nat),
            ;
        }
        v = v * 10;
        j += 1;
    }
    Some(v)
}

/// `tail_carry(d, q)`.
fn tail_carry_exec(d: &[char], q: i128) -> (r: u64)
    requires
        all_digits(d@),
    ensures
        r == tail_carry(d@, q as int),
        r <= 5,
{
    if q < 0 || q >= d.len() as i128 {
        return 0;
    }
    let qs = q as usize;
    let mut c: u64 = 0;
    let mut i: usize = d.len();
    assert(d@.skip(d@.len() as int) =~= Seq::<char>::empty());
    while i > qs
        invariant
            qs <= i <= d@.len(),
            all_digits(d@),
            c == carry6(d@.skip(i as int)),
            c <= 5,
        decreases i,
    {
        i -= 1;
        assert(is_digit(d@[i as int]));
        let dig = (d[i] as u32 - '0' as u32) as u64;
        assert(d@.skip(i as int).drop_first() =~= d@.skip(i + 1));
        assert(d@.skip(i as int)[0] == d@[i as int]);
        c = (6 * dig + c) / 10;
    }
    c
}

/// The exponent after an `e`: `None` where it is not one; else its sign and
/// its size, where a size over `cap` is given as `cap + 1`.
fn exponent_exec(t: &[char], cap: u128) -> (r: Option<(bool, u128)>)
    requires
        cap < 0x1_0000_0000_0000_0000_0000,
    ensures
        match r {
            None => exponent_value(t@) is None,
            Some((neg, m)) => {
                &&& exponent_value(t@) is Some
                &&& neg == is_negative(t@)
                &&& exponent_value(t@).unwrap() == (if neg {
                    -(digits_value(unsigned_part(t@)) as int)
                } else {
                    digits_value(unsigned_part(t@)) as int
                })
                &&& m <= cap + 1
                &&& m <= cap ==> m == digits_value(unsigned_part(t@))
                &&& m > cap ==> digits_value(unsigned_part(t@)) > cap
            },
        },
{
    let neg = t.len() > 0 && t[0] == '-';
    let start: usize = if t.len() > 0 && (t[0] == '+' || t[0] == '-') {
        1
    } else {
        0
    };
    let ds = &t[start..t.len()];
    assert(ds@ == unsigned_part(t@));
    if ds.len() == 0 || !all_digits_slice(ds) {
        return None;
    }
    let mut m: u128 = 0;
    let mut i: usize = 0;
    while i < ds.len()
        invariant
            i <= ds@.len(),
            all_digits(ds@),
            cap < 0x1_0000_0000_0000_0000_0000,
            m <= cap + 1,
            m <= cap ==> m == digits_value(ds@.take(i as int)),
            m > cap ==> digits_value(ds@.take(i as int)) > cap,
        decreases ds@.len() - i,
    {
        assert(is_digit(ds@[i as int]));
        let dig = (ds[i] as u32 - '0' as u32) as u128;
        proof {
            lemma_take_step(ds@, i as int);
        }
        if m <= cap {
            let n = m * 10 + dig;
            m = if n > cap {
                cap + 1
            } else {
                n
            };
        }
        i += 1;
    }
    assert(ds@.take(ds@.len() as int) =~= ds@);
    Some((neg, m))
}

/// `millis_of_minutes` (for `minutes`) or `millis_of_seconds` of `v`, where
/// it fits in 64 bits.
#[verifier::rlimit(60)]
pub fn number_millis(v: &[char], minutes: bool) -> (r: Option<u64>)
    ensures
        r == fit(
            if minutes {
                millis_of_minutes(v@)
            } else {
                millis_of_seconds(v@)
            },
        ),
{
    let neg = v.len() > 0 && v[0] == '-';
    let start: usize = if v.len() > 0 && (v[0] == '+' || v[0] == '-') {
        1
    } else {
        0
    };
    let body = &v[start..v.len()];
    assert(body@ == unsigned_part(v@));
    let e1 = find_char_exec(body, 'e', 0);
    let e2 = find_char_exec(body, 'E', 0);
    let e = if e1 <= e2 {
        e1
    } else {
        e2
    };
    assert(e == exp_mark(body@));
    let mant = &body[0..e];
    assert(mant@ == body@.take(e as int));
    let p = find_char_exec(mant, '.', 0);
    let a = &mant[0..p];
    assert(a@ == mant@.take(p as int));
    let b: &[char] = if p < mant.len() {
        &mant[p + 1..mant.len()]
    } else {
        &mant[0..0]
    };
    assert(b@ == (if p < mant@.len() {
        mant@.skip(p + 1)
    } else {
        Seq::<char>::empty()
    }));
    if !all_digits_slice(a) || !all_digits_slice(b) || a.len() + b.len() == 0 {
        return None;
    }
    let d = concat_digits(a, b);
    let cap: u128 = d.len() as u128 + 64;
    let (xneg, xmag): (bool, u128) = if e < body.len() {
        let t = &body[e + 1..body.len()];
        assert(t@ == body@.skip(e + 1));
        match exponent_exec(t, cap) {
            None => {
                return None;
            },
            Some(x) => x,
        }
    } else {
        (false, 0)
    };
    let ghost parts = number_parts(v@);
    let ghost x_spec: int = parts.unwrap().3;
    assert(parts is Some);
    assert(parts.unwrap().1 == a@ && parts.unwrap().2 == b@);
    assert(xmag <= cap ==> x_spec == (if xneg { -(xmag as int) } else { xmag as int }));
    assert(xmag > cap ==> (if xneg { x_spec < -(cap as int) } else { x_spec > cap as int }));
    let nonzero = has_nonzero_exec(d.as_slice());
    if neg && nonzero {
        return None;
    }
    let shift: i128 = if minutes {
        4
    } else {
        3
    };
    let ghost q_spec: int = a@.len() + x_spec + shift;
    if !nonzero {
        proof {
            lemma_zero_shifted(d@, q_spec);
        }
        return Some(0);
    }
    if xmag > cap {
        if xneg {
            assert(q_spec < 0);
            return Some(0);
        } else {
            proof {
                lemma_nonzero_digits(d@);
                assert(q_spec > d@.len() + 20);
                lemma_pow10_mono(20, (q_spec - d@.len()) as nat);
                lemma_pow10_big();
                let dv = digits_value(d@);
                let pw = pow10((q_spec - d@.len()) as nat);
                assert(dv * pw >= pw) by (nonlinear_arith)
                    requires
                        dv >= 1,
                ;
                assert(6 * shifted_int(d@, q_spec) >= shifted_int(d@, q_spec));
            }
            return None;
        }
    }
    let x: i128 = if xneg {
        -(xmag as i128)
    } else {
        xmag as i128
    };
    let q: i128 = a.len() as i128 + x + shift;
    assert(q as int == q_spec);
    if minutes {
        let s = match shifted_int_exec(d.as_slice(), q) {
            Some(s) => s,
            None => {
                return None;
            },
        };
        let c = tail_carry_exec(d.as_slice(), q);
        match s.checked_mul(6) {
            Some(m) => m.checked_add(c),
            None => None,
        }
    } else {
        shifted_int_exec(d.as_slice(), q)
    }
}

} // verus!
