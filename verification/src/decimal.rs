//! Comparing the number a decimal text denotes (such as `12.5`, `95.0` or
//! `1.5e2`) with a whole-number threshold, exactly, without floating point.
use vstd::prelude::*;
use crate::text::{all_digit_chars, all_digits, digits_value, slice_chars};

verus! {

pub open spec fn pow10(n: nat) -> nat
    decreases n,
{
    if n == 0 {
        1
    } else {
        10 * pow10((n - 1) as nat)
    }
}

/// Index of the first `c` in `s`, or the length of `s`.
pub open spec fn index_of(s: Seq<char>, c: char) -> nat
    decreases s.len(),
{
    if s.len() == 0 {
        0
    } else if s[0] == c {
        0
    } else {
        1 + index_of(s.drop_first(), c)
    }
}

/// Index of the first `e` or `E` in `s`, or the length of `s`.
pub open spec fn exp_index(s: Seq<char>) -> nat
    decreases s.len(),
{
    if s.len() == 0 {
        0
    } else if s[0] == 'e' || s[0] == 'E' {
        0
    } else {
        1 + exp_index(s.drop_first())
    }
}

/// The parts of a decimal text `[-]digits[.digits][(e|E)[+|-]digits]`:
/// sign, integer digits, fraction digits, exponent; `None` for any other text.
pub open spec fn decimal_parts(s: Seq<char>) -> Option<(bool, Seq<char>, Seq<char>, int)> {
    let neg = s.len() > 0 && s[0] == '-';
    let b = if neg {
        s.drop_first()
    } else {
        s
    };
    let ei = exp_index(b);
    let m = b.take(ei as int);
    let has_exp = ei < b.len();
    let x = if has_exp {
        b.skip(ei + 1int)
    } else {
        Seq::empty()
    };
    let di = index_of(m, '.');
    let ip = m.take(di as int);
    let has_frac = di < m.len();
    let fp = if has_frac {
        m.skip(di + 1int)
    } else {
        Seq::empty()
    };
    let xneg = x.len() > 0 && x[0] == '-';
    let xd = if x.len() > 0 && (x[0] == '-' || x[0] == '+') {
        x.drop_first()
    } else {
        x
    };
    if ip.len() > 0 && all_digits(ip) && all_digits(fp) && (has_frac ==> fp.len() > 0) && (has_exp
        ==> (xd.len() > 0 && all_digits(xd))) {
        let e = if xneg {
            -(digits_value(xd) as int)
        } else {
            digits_value(xd) as int
        };
        Some((neg, ip, fp, e))
    } else {
        None
    }
}

/// Whether the number that the decimal text `s` denotes is at least 95.
pub open spec fn decimal_at_least_95(s: Seq<char>) -> bool {
    match decimal_parts(s) {
        Some((neg, ip, fp, e)) => {
            let m = digits_value(ip + fp);
            let k = e - fp.len();
            !neg && (if k >= 0 {
                m * pow10(k as nat) >= 95
            } else {
                m >= 95 * pow10((-k) as nat)
            })
        },
        None => false,
    }
}


pub proof fn lemma_pow10_add(a: nat, b: nat)
    ensures
        pow10(a + b) == pow10(a) * pow10(b),
    decreases a,
{
    if a > 0 {
        lemma_pow10_add((a - 1) as nat, b);
        assert((a - 1) as nat + b == (a + b - 1) as nat);
        assert(pow10(a + b) == 10 * pow10((a + b - 1) as nat));
        assert(pow10(a) == 10 * pow10((a - 1) as nat));
        assert(10 * (pow10((a - 1) as nat) * pow10(b)) == (10 * pow10((a - 1) as nat)) * pow10(b))
            by (nonlinear_arith);
    } else {
        assert(pow10(0) == 1);
        assert(a + b == b);
    }
}

pub proof fn lemma_pow10_pos(a: nat)
    ensures
        pow10(a) >= 1,
    decreases a,
{
    if a > 0 {
        lemma_pow10_pos((a - 1) as nat);
    }
}

pub proof fn lemma_pow10_mono(a: nat, b: nat)
    requires
        a <= b,
    ensures
        pow10(a) <= pow10(b),
    decreases b,
{
    if a < b {
        lemma_pow10_mono(a, (b - 1) as nat);
        lemma_pow10_pos((b - 1) as nat);
    }
}

pub open spec fn digit_value(c: char) -> nat {
    ((c as u32) - ('0' as u32)) as nat
}

/// The value of a concatenation of digit runs.
pub proof fn lemma_digits_concat(a: Seq<char>, b: Seq<char>)
    ensures
        digits_value(a + b) == digits_value(a) * pow10(b.len()) + digits_value(b),
    decreases b.len(),
{
    if b.len() == 0 {
        assert(a + b == a);
        assert(pow10(0) == 1);
        assert(digits_value(b) == 0);
    } else {
        lemma_digits_concat(a, b.drop_last());
        assert((a + b).drop_last() == a + b.drop_last());
        assert((a + b).last() == b.last());
        let x = digits_value(a);
        let p = pow10(b.drop_last().len());
        let y = digits_value(b.drop_last());
        let d = digit_value(b.last());
        assert(digits_value(a + b) == digits_value(a + b.drop_last()) * 10 + d);
        assert(digits_value(b) == y * 10 + d);
        assert(pow10(b.len()) == 10 * p);
        assert((x * p + y) * 10 + d == x * (10 * p) + (y * 10 + d)) by (nonlinear_arith);
    }
}

/// A run of zeros is worth nothing.
pub proof fn lemma_zeros_value(z: Seq<char>)
    requires
        forall|i: int| 0 <= i < z.len() ==> z[i] == '0',
    ensures
        digits_value(z) == 0,
    decreases z.len(),
{
    if z.len() > 0 {
        lemma_zeros_value(z.drop_last());
    }
}

/// A digit run without a leading zero has exactly `len` digits of magnitude.
pub proof fn lemma_digits_bounds(d: Seq<char>)
    requires
        d.len() >= 1,
        all_digits(d),
        d[0] != '0',
    ensures
        pow10((d.len() - 1) as nat) <= digits_value(d) < pow10(d.len()),
    decreases d.len(),
{
    if d.len() == 1 {
        assert(d.drop_last().len() == 0);
        assert(is_digit_at(d, 0));
        assert(d.last() == d[0]);
        assert(digits_value(d.drop_last()) == 0);
        assert(digits_value(d) == digit_value(d[0]));
        assert(pow10(1) == 10 * pow10(0));
    } else {
        let dl = d.drop_last();
        assert(dl[0] == d[0]);
        assert(all_digits(dl));
        lemma_digits_bounds(dl);
        let x = digits_value(dl);
        let p = pow10((dl.len() - 1) as nat);
        let q = pow10(dl.len());
        let c = digit_value(d.last());
        assert(is_digit_at(d, d.len() - 1));
        assert(c <= 9);
        assert(p <= x < q);
        assert(digits_value(d) == x * 10 + c);
        assert(pow10(d.len()) == 10 * q);
        assert(pow10((d.len() - 1) as nat) == 10 * p);
        assert(10 * p <= x * 10 + c < 10 * q) by (nonlinear_arith)
            requires
                p <= x < q,
                c <= 9,
        ;
    }
}

pub open spec fn is_digit_at(d: Seq<char>, i: int) -> bool {
    '0' <= d[i] && d[i] <= '9'
}

/// The first two digits of a run (a missing second digit counts as 0).
pub open spec fn lead2(d: Seq<char>) -> nat {
    digit_value(d[0]) * 10 + if d.len() >= 2 {
        digit_value(d[1])
    } else {
        0
    }
}

/// Deciding `m * 10^k >= 95` from the number of digits of `m` and its two
/// leading digits.
pub proof fn lemma_reach(d: Seq<char>, k: int)
    requires
        d.len() >= 1,
        all_digits(d),
        d[0] != '0',
    ensures
        (if k >= 0 {
            digits_value(d) * pow10(k as nat) >= 95
        } else {
            digits_value(d) >= 95 * pow10((-k) as nat)
        }) == (d.len() + k > 2 || (d.len() + k == 2 && lead2(d) >= 95)),
{
    let m = digits_value(d);
    let l = d.len();
    lemma_digits_bounds(d);
    assert(is_digit_at(d, 0));
    if l >= 2 {
        assert(is_digit_at(d, 1));
    }
    if k >= 0 {
        let pk = pow10(k as nat);
        lemma_pow10_pos(k as nat);
        if l + k > 2 {
            lemma_pow10_add((l - 1) as nat, k as nat);
            lemma_pow10_mono(2, (l - 1 + k) as nat);
            reveal_with_fuel(pow10, 3);
            assert(pow10(2) == 100);
            assert((l - 1) as nat + k as nat == (l - 1 + k) as nat);
            assert(m * pk >= pow10((l - 1) as nat) * pk) by (nonlinear_arith)
                requires
                    m >= pow10((l - 1) as nat),
                    pk >= 1,
            ;
            assert(m * pk >= 95);
        } else if l + k < 2 {
            assert(l == 1 && k == 0);
            assert(pk == 1);
            reveal_with_fuel(pow10, 2);
            assert(pow10(1) == 10);
            assert(m * pk == m) by (nonlinear_arith)
                requires
                    pk == 1,
            ;
            assert(m * pk < 95);
        } else {
            if l == 2 {
                assert(k == 0);
                assert(pk == 1);
                lemma_two_digits(d);
                assert(m * pk == m) by (nonlinear_arith)
                requires
                    pk == 1,
            ;
            } else {
                assert(l == 1 && k == 1);
                reveal_with_fuel(pow10, 2);
                assert(pk == 10);
                assert(d.drop_last().len() == 0);
                assert(d.last() == d[0]);
                assert(digits_value(d.drop_last()) == 0);
                assert(m == digit_value(d[0]));
                assert(m * pk == lead2(d)) by (nonlinear_arith)
                    requires
                        pk == 10,
                        m == digit_value(d[0]),
                        lead2(d) == digit_value(d[0]) * 10,
                ;
            }
        }
    } else {
        let j = (-k) as nat;
        let pj = pow10(j);
        lemma_pow10_pos(j);
        if l + k > 2 {
            lemma_pow10_mono(j + 2, (l - 1) as nat);
            lemma_pow10_add(j, 2);
            reveal_with_fuel(pow10, 3);
            assert(pow10(2) == 100);
            assert(95 * pj < 100 * pj) by (nonlinear_arith)
                requires
                    pj >= 1,
            ;
            assert(m >= pow10(j + 2));
            assert(m >= 95 * pj);
        } else if l + k < 2 {
            lemma_pow10_mono(l, j + 1);
            lemma_pow10_add(j, 1);
            reveal_with_fuel(pow10, 2);
                assert(pow10(1) == 10);
            assert(10 * pj < 95 * pj) by (nonlinear_arith)
                requires
                    pj >= 1,
            ;
            assert(m < pow10(j + 1));
            assert(!(m >= 95 * pj));
        } else {
            assert(l == j + 2);
            let head = d.take(2);
            let rest = d.skip(2);
            assert(d == head + rest);
            lemma_digits_concat(head, rest);
            assert(rest.len() == j);
            lemma_two_digits(head);
            assert(head[0] == d[0] && head[1] == d[1]);
            let r = digits_value(rest);
            if rest.len() > 0 {
                assert(rest[0] == d[2]);
                if rest[0] == '0' {
                    lemma_rest_bound(rest);
                } else {
                    assert(all_digits(rest));
                    lemma_digits_bounds(rest);
                }
            }
            lemma_rest_bound(rest);
            let h = lead2(d);
            assert(m == h * pj + r);
            assert(r < pj);
            assert((h * pj + r >= 95 * pj) == (h >= 95)) by (nonlinear_arith)
                requires
                    r < pj,
                    0 <= r,
            ;
        }
    }
}

pub proof fn lemma_two_digits(d: Seq<char>)
    requires
        d.len() == 2,
    ensures
        digits_value(d) == lead2(d),
{
    let d1 = d.drop_last();
    assert(d1.drop_last().len() == 0);
    assert(digits_value(d1.drop_last()) == 0);
    assert(d1.last() == d[0]);
    assert(digits_value(d1) == digit_value(d[0]));
    assert(d.last() == d[1]);
}

/// Any digit run is worth less than `10^len`.
pub proof fn lemma_rest_bound(d: Seq<char>)
    requires
        all_digits(d),
    ensures
        digits_value(d) < pow10(d.len()),
    decreases d.len(),
{
    if d.len() > 0 {
        let dl = d.drop_last();
        assert(all_digits(dl));
        lemma_rest_bound(dl);
        assert(is_digit_at(d, d.len() - 1));
        let x = digits_value(dl);
        let c = digit_value(d.last());
        let q = pow10(dl.len());
        assert(digits_value(d) == x * 10 + c);
        assert(pow10(d.len()) == 10 * q);
        assert(x * 10 + c < 10 * q) by (nonlinear_arith)
            requires
                x < q,
                c <= 9,
        ;
    }
}

/// Index of the first `c` in `s`, or its length.
pub fn index_of_char(s: &Vec<char>, c: char) -> (r: usize)
    ensures
        r == index_of(s@, c),
        r <= s.len(),
{
    let mut i: usize = 0;
    assert(s@.skip(0) == s@);
    while i < s.len() && s[i] != c
        invariant
            i <= s.len(),
            index_of(s@, c) == i + index_of(s@.skip(i as int), c),
        decreases s.len() - i,
    {
        assert(s@.skip(i as int).drop_first() == s@.skip(i + 1));
        i = i + 1;
    }
    i
}

/// Index of the first `e` or `E` in `s`, or its length.
pub fn exp_index_of(s: &Vec<char>) -> (r: usize)
    ensures
        r == exp_index(s@),
        r <= s.len(),
{
    let mut i: usize = 0;
    assert(s@.skip(0) == s@);
    while i < s.len() && s[i] != 'e' && s[i] != 'E'
        invariant
            i <= s.len(),
            exp_index(s@) == i + exp_index(s@.skip(i as int)),
        decreases s.len() - i,
    {
        assert(s@.skip(i as int).drop_first() == s@.skip(i + 1));
        i = i + 1;
    }
    i
}

/// The bound at which an exponent's magnitude is held.
pub open spec fn exp_cap() -> nat {
    0x40_0000_0000_0000_0000
}

/// The magnitude of a digit run, held at `exp_cap()`.
fn capped_value(d: &Vec<char>) -> (r: u128)
    requires
        all_digits(d@),
    ensures
        r == if digits_value(d@) <= exp_cap() {
            digits_value(d@)
        } else {
            exp_cap()
        },
{
    let cap: u128 = 0x40_0000_0000_0000_0000;
    let mut v: u128 = 0;
    let mut i: usize = 0;
    while i < d.len()
        invariant
            i <= d.len(),
            cap == exp_cap(),
            all_digits(d@),
            v == if digits_value(d@.take(i as int)) <= exp_cap() {
                digits_value(d@.take(i as int))
            } else {
                exp_cap()
            },
        decreases d.len() - i,
    {
        assert(d@.take(i + 1).drop_last() == d@.take(i as int));
        assert(d@.take(i + 1).last() == d@[i as int]);
        assert('0' <= d@[i as int] && d@[i as int] <= '9');
        let digit = (d[i] as u32 - '0' as u32) as u128;
        let ghost old_full = digits_value(d@.take(i as int));
        assert(digits_value(d@.take(i + 1)) == old_full * 10 + digit);
        if v >= cap {
            v = cap;
        } else {
            let w = v * 10 + digit;
            v = if w > cap {
                cap
            } else {
                w
            };
        }
        i = i + 1;
    }
    assert(d@.take(d.len() as int) == d@);
    v
}

/// The exponent written by a sign flag and digits.
pub open spec fn exp_value(xneg: bool, xd: Seq<char>) -> int {
    if xneg {
        -(digits_value(xd) as int)
    } else {
        digits_value(xd) as int
    }
}

/// Splits a decimal text into sign, integer digits, fraction digits,
/// exponent sign and exponent digits.
fn split_decimal(s: &Vec<char>) -> (r: Option<(bool, Vec<char>, Vec<char>, bool, Vec<char>)>)
    ensures
        r matches Some((neg, ip, fp, xneg, xd)) ==> decimal_parts(s@) == Some(
            (neg, ip@, fp@, exp_value(xneg, xd@)),
        ) && all_digits(ip@) && all_digits(fp@) && all_digits(xd@),
        r is None ==> decimal_parts(s@) is None,
{
    let neg = s.len() > 0 && s[0] == '-';
    let b = if neg {
        slice_chars(s, 1, s.len())
    } else {
        slice_chars(s, 0, s.len())
    };
    assert(s@.subrange(0, s@.len() as int) == s@);
    assert(neg ==> s@.subrange(1, s@.len() as int) == s@.drop_first());
    let ei = exp_index_of(&b);
    let m = slice_chars(&b, 0, ei);
    assert(b@.subrange(0, ei as int) == b@.take(ei as int));
    let has_exp = ei < b.len();
    let x = if has_exp {
        slice_chars(&b, ei + 1, b.len())
    } else {
        Vec::new()
    };
    assert(has_exp ==> b@.subrange(ei + 1, b@.len() as int) == b@.skip(ei + 1int));
    let di = index_of_char(&m, '.');
    let ip = slice_chars(&m, 0, di);
    assert(m@.subrange(0, di as int) == m@.take(di as int));
    let has_frac = di < m.len();
    let fp = if has_frac {
        slice_chars(&m, di + 1, m.len())
    } else {
        Vec::new()
    };
    assert(has_frac ==> m@.subrange(di + 1, m@.len() as int) == m@.skip(di + 1int));
    let xneg = x.len() > 0 && x[0] == '-';
    let xd = if x.len() > 0 && (x[0] == '-' || x[0] == '+') {
        slice_chars(&x, 1, x.len())
    } else {
        slice_chars(&x, 0, x.len())
    };
    assert(x@.subrange(0, x@.len() as int) == x@);
    assert(x@.len() > 0 ==> x@.subrange(1, x@.len() as int) == x@.drop_first());
    let valid = ip.len() > 0 && all_digit_chars(&ip) && all_digit_chars(&fp) && (!has_frac
        || fp.len() > 0) && (!has_exp || (xd.len() > 0 && all_digit_chars(&xd)));
    if !valid {
        return None;
    }
    proof {
        if !has_exp {
            assert(xd@.len() == 0);
        }
    }
    Some((neg, ip, fp, xneg, xd))
}

/// `m * 10^k >= 95` for a digit run `m` and exponent `k`.
pub open spec fn reaches_95(m: nat, k: int) -> bool {
    if k >= 0 {
        m * pow10(k as nat) >= 95
    } else {
        m >= 95 * pow10((-k) as nat)
    }
}

/// Decides `reaches_95` for the digits `ip fp` scaled by `10^(e - fp.len())`.
fn digits_reach_95(ip: &Vec<char>, fp: &Vec<char>, xneg: bool, xd: &Vec<char>) -> (r: bool)
    requires
        all_digits(ip@),
        all_digits(fp@),
        all_digits(xd@),
    ensures
        r == reaches_95(digits_value(ip@ + fp@), exp_value(xneg, xd@) - fp@.len()),
{
    let mut digits = slice_chars(ip, 0, ip.len());
    assert(ip@.subrange(0, ip@.len() as int) == ip@);
    crate::text::extend_chars(&mut digits, fp);
    let ghost all = digits@;
    assert(all == ip@ + fp@);
    assert(all_digits(all)) by {
        assert forall|i: int| 0 <= i < all.len() implies crate::text::is_digit(#[trigger] all[i]) by {
            if i < ip@.len() {
                assert(all[i] == ip@[i]);
            } else {
                assert(all[i] == fp@[i - ip@.len()]);
            }
        }
    }
    let mut z: usize = 0;
    while z < digits.len() && digits[z] == '0'
        invariant
            z <= digits.len(),
            digits@ == all,
            forall|i: int| 0 <= i < z ==> all[i] == '0',
        decreases digits.len() - z,
    {
        z = z + 1;
    }
    let lead = slice_chars(&digits, z, digits.len());
    let ghost k: int = exp_value(xneg, xd@) - fp@.len();
    proof {
        let zs = all.take(z as int);
        assert(all == zs + lead@);
        lemma_zeros_value(zs);
        lemma_digits_concat(zs, lead@);
        assert(digits_value(all) == digits_value(lead@));
        assert(all_digits(lead@)) by {
            assert forall|i: int| 0 <= i < lead@.len() implies crate::text::is_digit(
                #[trigger] lead@[i],
            ) by {
                assert(lead@[i] == all[i + z]);
            }
        }
    }
    if lead.len() == 0 {
        proof {
            assert(digits_value(lead@) == 0);
            if k < 0 {
                lemma_pow10_pos((-k) as nat);
            }
        }
        return false;
    }
    let emag: u128 = capped_value(xd);
    let l = lead.len() as i128;
    let f = fp.len() as i128;
    let ecap: i128 = if xneg {
        -(emag as i128)
    } else {
        emag as i128
    };
    let q = l + ecap - f;
    let first = (lead[0] as u32 - '0' as u32) as u64;
    let second = if lead.len() >= 2 {
        (lead[1] as u32 - '0' as u32) as u64
    } else {
        0
    };
    proof {
        assert('0' <= lead@[0] && lead@[0] <= '9');
        if lead@.len() >= 2 {
            assert('0' <= lead@[1] && lead@[1] <= '9');
        }
        assert(lead@[0] != '0');
        lemma_reach(lead@, k);
        assert(first * 10 + second == lead2(lead@));
        assert((q > 2) == (lead@.len() + k > 2));
        assert((q == 2) == (lead@.len() + k == 2));
    }
    q > 2 || (q == 2 && first * 10 + second >= 95)
}

/// Whether the decimal text `s` denotes a number of at least 95.
pub fn decimal_reaches_95(s: &Vec<char>) -> (r: bool)
    ensures
        r == decimal_at_least_95(s@),
{
    match split_decimal(s) {
        None => false,
        Some((neg, ip, fp, xneg, xd)) => {
            if neg {
                false
            } else {
                digits_reach_95(&ip, &fp, xneg, &xd)
            }
        },
    }
}

} // verus!
