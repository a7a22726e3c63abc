//! Decimal rendering of integers and fixed-point amounts.
use vstd::prelude::*;

verus! {

/// The decimal digit of `d` (0 to 9).
pub open spec fn digit(d: nat) -> char {
    seq!['0', '1', '2', '3', '4', '5', '6', '7', '8', '9'][d as int]
}

/// The decimal rendering of `n`, without sign or leading zeros.
pub open spec fn decimal(n: nat) -> Seq<char>
    decreases n,
{
    if n < 10 {
        seq![digit(n)]
    } else {
        decimal(n / 10).push(digit(n % 10))
    }
}

/// `n / 100` rendered with exactly two decimals.
pub open spec fn fixed2(n: nat) -> Seq<char> {
    decimal(n / 100) + seq!['.'] + (if n % 100 < 10 {
        seq!['0']
    } else {
        seq![]
    }) + decimal(n % 100)
}

/// Relies on `u64`'s `Display` (through `ToString`): it writes the value in
/// decimal, without sign or leading zeros.
#[verifier::external_body]
pub(crate) fn u64_text(n: u64) -> (r: String)
    ensures
        r@ == decimal(n as nat),
{
    n.to_string()
}

/// `n / 100` with two decimals, as an order price or size is sent.
pub fn fixed2_text(n: u64) -> (r: String)
    ensures
        r@ == fixed2(n as nat),
{
    let whole = u64_text(n / 100);
    let frac = n % 100;
    let mut s = whole.concat(".");
    if frac < 10 {
        s.append("0");
    }
    let f = u64_text(frac);
    s.append(f.as_str());
    proof {
        reveal_strlit(".");
        reveal_strlit("0");
        assert(s@ =~= fixed2(n as nat));
    }
    s
}

/// 10^e.
pub open spec fn ten_pow(e: nat) -> nat
    decreases e,
{
    if e == 0 {
        1
    } else {
        10 * ten_pow((e - 1) as nat)
    }
}

proof fn lemma_ten_pow_bounds(e: nat)
    ensures
        ten_pow(e) >= 1,
        e <= 18 ==> ten_pow(e) <= 1_000_000_000_000_000_000,
        e <= 19 ==> ten_pow(e) <= 10_000_000_000_000_000_000,
    decreases e,
{
    reveal_with_fuel(ten_pow, 20);
    if e > 0 {
        lemma_ten_pow_bounds((e - 1) as nat);
    }
    if e <= 19 {
        lemma_ten_pow_mono(e, 19);
        lemma_ten_pow_mono(e, 18);
    }
}

proof fn lemma_ten_pow_mono(a: nat, b: nat)
    ensures
        a <= b ==> ten_pow(a) <= ten_pow(b),
    decreases b,
{
    if a < b {
        lemma_ten_pow_mono(a, (b - 1) as nat);
        assert(ten_pow(b) == 10 * ten_pow((b - 1) as nat));
        lemma_ten_pow_pos((b - 1) as nat);
    }
}

proof fn lemma_ten_pow_pos(e: nat)
    ensures
        ten_pow(e) >= 1,
    decreases e,
{
    if e > 0 {
        lemma_ten_pow_pos((e - 1) as nat);
    }
}

proof fn lemma_ten_pow_adds(a: nat, b: nat)
    ensures
        ten_pow(a + b) == ten_pow(a) * ten_pow(b),
    decreases a,
{
    if a > 0 {
        let a1 = (a - 1) as nat;
        lemma_ten_pow_adds(a1, b);
        let x = ten_pow(a1);
        let y = ten_pow(b);
        assert(a1 + b + 1 == a + b);
        assert(ten_pow(a) == 10 * x);
        assert(ten_pow(a + b) == 10 * ten_pow(a1 + b));
        assert(10 * (x * y) == (10 * x) * y) by (nonlinear_arith);
    } else {
        assert(ten_pow(0) == 1);
        assert(a + b == b);
    }
}

/// The state of a left-to-right scan of a decimal number.
pub struct ScanState {
    pub int_part: nat,
    pub frac_part: nat,
    pub frac_digits: nat,
    pub seen_dot: bool,
    pub seen_digit: bool,
    pub ok: bool,
}

pub open spec fn is_digit(c: char) -> bool {
    '0' <= c && c <= '9'
}

pub open spec fn digit_value(c: char) -> nat {
    (c as u32 - '0' as u32) as nat
}

/// One character of `<digits>[.<digits>]`, keeping `decimals` fraction digits
/// and dropping the rest.
pub open spec fn scan_step(st: ScanState, c: char, decimals: nat) -> ScanState {
    if !st.ok {
        st
    } else if is_digit(c) {
        if !st.seen_dot {
            ScanState { int_part: st.int_part * 10 + digit_value(c), seen_digit: true, ..st }
        } else if st.frac_digits < decimals {
            ScanState {
                frac_part: st.frac_part * 10 + digit_value(c),
                frac_digits: st.frac_digits + 1,
                ..st
            }
        } else {
            st
        }
    } else if c == '.' && !st.seen_dot {
        ScanState { seen_dot: true, ..st }
    } else {
        ScanState { ok: false, ..st }
    }
}

pub open spec fn scan(s: Seq<char>, st: ScanState, decimals: nat) -> ScanState
    decreases s.len(),
{
    if s.len() == 0 {
        st
    } else {
        scan(s.skip(1), scan_step(st, s[0], decimals), decimals)
    }
}

pub open spec fn scan_start() -> ScanState {
    ScanState { int_part: 0, frac_part: 0, frac_digits: 0, seen_dot: false, seen_digit: false, ok: true }
}

/// The value of a decimal number in units of 10^-decimals (extra fraction
/// digits truncated), if `s` is digits with at most one `.` and at least one
/// digit before it.
pub open spec fn fixed_value(s: Seq<char>, decimals: nat) -> Option<nat> {
    let st = scan(s, scan_start(), decimals);
    if st.ok && st.seen_digit {
        Some(
            st.int_part * ten_pow(decimals) + st.frac_part
                * ten_pow((decimals - st.frac_digits) as nat),
        )
    } else {
        None
    }
}

proof fn lemma_scan_int_grows(s: Seq<char>, st: ScanState, decimals: nat)
    requires
        st.frac_digits <= decimals,
    ensures
        scan(s, st, decimals).ok ==> scan(s, st, decimals).int_part >= st.int_part,
        scan(s, st, decimals).ok ==> st.ok,
        scan(s, st, decimals).frac_digits <= decimals,
    decreases s.len(),
{
    if s.len() > 0 {
        lemma_scan_int_grows(s.skip(1), scan_step(st, s[0], decimals), decimals);
    }
}

/// Parse a decimal number such as `"199.7540"` into units of
/// 10^-decimals (`decimals` at most 18); `None` when it is malformed or does
/// not fit a `u64`.
pub fn parse_fixed(s: &str, decimals: u32) -> (r: Option<u64>)
    requires
        decimals <= 18,
    ensures
        r matches Some(v) ==> fixed_value(s@, decimals as nat) == Some(v as nat),
        r is None ==> (fixed_value(s@, decimals as nat) is None || fixed_value(s@, decimals as nat)->Some_0 > u64::MAX),
{
    let n = s.unicode_len();
    let mut int_part: u128 = 0;
    let mut frac_part: u128 = 0;
    let mut frac_digits: u32 = 0;
    let mut seen_dot = false;
    let mut seen_digit = false;
    let ghost d = decimals as nat;
    let mut i: usize = 0;
    assert(s@.skip(0) =~= s@);
    while i < n
        invariant
            0 <= i <= n,
            n == s@.len(),
            decimals <= 18,
            d == decimals as nat,
            frac_digits <= decimals,
            int_part <= u64::MAX,
            frac_part < ten_pow(frac_digits as nat),
            scan(s@.skip(i as int), ScanState {
                int_part: int_part as nat,
                frac_part: frac_part as nat,
                frac_digits: frac_digits as nat,
                seen_dot,
                seen_digit,
                ok: true,
            }, d) == scan(s@, scan_start(), d),
        decreases n - i,
    {
        let ghost st = ScanState {
            int_part: int_part as nat,
            frac_part: frac_part as nat,
            frac_digits: frac_digits as nat,
            seen_dot,
            seen_digit,
            ok: true,
        };
        let c = s.get_char(i);
        assert(s@.skip(i as int)[0] == c);
        assert(s@.skip(i as int).skip(1) =~= s@.skip(i as int + 1));
        if '0' <= c && c <= '9' {
            let v = (c as u32 - '0' as u32) as u128;
            if !seen_dot {
                int_part = int_part * 10 + v;
                seen_digit = true;
                if int_part > u64::MAX as u128 {
                    proof {
                        let st2 = scan_step(st, c, d);
                        lemma_scan_int_grows(s@.skip(i as int + 1), st2, d);
                        let fin = scan(s@, scan_start(), d);
                        if fin.ok && fin.seen_digit {
                            lemma_ten_pow_bounds(d);
                            lemma_ten_pow_bounds((d - fin.frac_digits) as nat);
                            let a = fin.int_part * ten_pow(d);
                            let b = fin.frac_part * ten_pow((d - fin.frac_digits) as nat);
                            assert(a >= fin.int_part) by (nonlinear_arith)
                                requires
                                    a == fin.int_part * ten_pow(d),
                                    ten_pow(d) >= 1,
                            ;
                            assert(b >= 0) by (nonlinear_arith)
                                requires
                                    b == fin.frac_part * ten_pow((d - fin.frac_digits) as nat),
                            ;
                        }
                    }
                    return None;
                }
            } else if frac_digits < decimals {
                proof {
                    assert(ten_pow(frac_digits as nat + 1) == 10 * ten_pow(frac_digits as nat));
                    lemma_ten_pow_bounds(frac_digits as nat + 1);
                    assert(frac_part * 10 + v < ten_pow(frac_digits as nat + 1)) by (nonlinear_arith)
                        requires
                            frac_part < ten_pow(frac_digits as nat),
                            v < 10,
                            ten_pow(frac_digits as nat + 1) == 10 * ten_pow(frac_digits as nat),
                    ;
                }
                frac_part = frac_part * 10 + v;
                frac_digits = frac_digits + 1;
            }
        } else if c == '.' && !seen_dot {
            seen_dot = true;
        } else {
            proof {
                let st2 = scan_step(st, c, d);
                lemma_scan_int_grows(s@.skip(i as int + 1), st2, d);
            }
            return None;
        }
        i = i + 1;
    }
    assert(s@.skip(n as int) =~= Seq::<char>::empty());
    if !seen_digit {
        return None;
    }
    let scale = pow10(decimals);
    let fscale = pow10(decimals - frac_digits);
    proof {
        crate::quote::lemma_mul_bound(int_part as int, scale as int, u64::MAX as int, 1_000_000_000_000_000_000);
        lemma_ten_pow_adds(frac_digits as nat, (decimals - frac_digits) as nat);
        crate::quote::lemma_mul_bound(frac_part as int, fscale as int, ten_pow(frac_digits as nat) as int, fscale as int);
        lemma_ten_pow_bounds(decimals as nat);
    }
    let whole = int_part * (scale as u128);
    let part = frac_part * (fscale as u128);
    if whole > u64::MAX as u128 || part > u64::MAX as u128 - whole {
        return None;
    }
    Some((whole + part) as u64)
}

/// 10^e for e at most 18.
fn pow10(e: u32) -> (r: u64)
    requires
        e <= 18,
    ensures
        r == ten_pow(e as nat),
        r <= 1_000_000_000_000_000_000,
{
    let mut r: u64 = 1;
    let mut i: u32 = 0;
    while i < e
        invariant
            0 <= i <= e <= 18,
            r == ten_pow(i as nat),
        decreases e - i,
    {
        proof {
            assert(ten_pow(i as nat + 1) == 10 * ten_pow(i as nat));
            lemma_ten_pow_bounds(i as nat + 1);
        }
        r = r * 10;
        i = i + 1;
    }
    proof {
        lemma_ten_pow_bounds(e as nat);
    }
    r
}

} // verus!
