//! Natural, case-insensitive order of names: runs of decimal digits compare by the
//! number they write, everything else character by character after lower-casing.
use vstd::prelude::*;
use crate::paths::{lowercase, to_lowercase};
use crate::text::chars_of;
use std::cmp::Ordering;

verus! {

/// Whether `c` is a decimal digit.
pub open spec fn is_digit(c: char) -> bool {
    '0' <= c && c <= '9'
}

/// The number of decimal digits at the start of `s`.
pub open spec fn digit_run_len(s: Seq<char>) -> nat
    decreases s.len(),
{
    if s.len() > 0 && is_digit(s[0]) {
        1 + digit_run_len(s.skip(1))
    } else {
        0
    }
}

/// `s` without its leading `'0'` characters.
pub open spec fn strip_zeros(s: Seq<char>) -> Seq<char>
    decreases s.len(),
{
    if s.len() > 0 && s[0] == '0' {
        strip_zeros(s.skip(1))
    } else {
        s
    }
}

/// -1, 0 or 1 as `a` comes before, together with or after `b`, comparing character
/// by character from the first one (the shorter of the two counts as ended there).
pub open spec fn lex_sign(a: Seq<char>, b: Seq<char>) -> int
    decreases a.len(),
{
    if a.len() == 0 || b.len() == 0 {
        0
    } else if a[0] < b[0] {
        -1
    } else if a[0] > b[0] {
        1
    } else {
        lex_sign(a.skip(1), b.skip(1))
    }
}

/// -1, 0 or 1 as the number written by the digits `x` is smaller than, equal to or
/// greater than the one written by `y`: without leading zeros, fewer digits is
/// smaller, and equally many compare digit by digit.
pub open spec fn number_sign(x: Seq<char>, y: Seq<char>) -> int {
    let sx = strip_zeros(x);
    let sy = strip_zeros(y);
    if sx.len() < sy.len() {
        -1
    } else if sx.len() > sy.len() {
        1
    } else {
        lex_sign(sx, sy)
    }
}

/// A run of digits is no longer than the text, and a text that starts with a digit has one.
pub proof fn lemma_digit_run_bounds(s: Seq<char>)
    ensures
        digit_run_len(s) <= s.len(),
        s.len() > 0 && is_digit(s[0]) ==> digit_run_len(s) >= 1,
    decreases s.len(),
{
    if s.len() > 0 && is_digit(s[0]) {
        lemma_digit_run_bounds(s.skip(1));
    }
}

/// -1, 0 or 1 as `a` comes before, together with or after `b` in natural order: where
/// both go on with a digit, the two runs of digits compare as numbers and, when equal,
/// the texts after them decide; otherwise the first characters decide, and an ended
/// text comes first.
pub open spec fn natural_sign(a: Seq<char>, b: Seq<char>) -> int
    decreases a.len() + b.len(),
{
    if a.len() == 0 && b.len() == 0 {
        0
    } else if a.len() == 0 {
        -1
    } else if b.len() == 0 {
        1
    } else if is_digit(a[0]) && is_digit(b[0]) {
        let n = digit_run_len(a) as int;
        let m = digit_run_len(b) as int;
        proof {
            lemma_digit_run_bounds(a);
            lemma_digit_run_bounds(b);
        }
        let s = number_sign(a.take(n), b.take(m));
        if s != 0 {
            s
        } else {
            natural_sign(a.skip(n), b.skip(m))
        }
    } else if a[0] < b[0] {
        -1
    } else if a[0] > b[0] {
        1
    } else {
        natural_sign(a.skip(1), b.skip(1))
    }
}

/// The natural order of two names, ignoring case.
pub open spec fn name_sign(a: Seq<char>, b: Seq<char>) -> int {
    natural_sign(lowercase(a), lowercase(b))
}

proof fn lemma_digit_run(s: Seq<char>, q: int)
    requires
        0 <= q <= s.len(),
        forall|k: int| 0 <= k < q ==> is_digit(#[trigger] s[k]),
        q == s.len() || !is_digit(s[q]),
    ensures
        digit_run_len(s) == q,
    decreases q,
{
    if q > 0 {
        lemma_digit_run(s.skip(1), q - 1);
    }
}

proof fn lemma_strip(s: Seq<char>, z: int)
    requires
        0 <= z <= s.len(),
        forall|k: int| 0 <= k < z ==> #[trigger] s[k] == '0',
        z == s.len() || s[z] != '0',
    ensures
        strip_zeros(s) == s.skip(z),
    decreases z,
{
    if z > 0 {
        lemma_strip(s.skip(1), z - 1);
        assert(s.skip(1).skip(z - 1) =~= s.skip(z));
    } else {
        assert(s.skip(0) =~= s);
    }
}

proof fn lemma_lex_antisymmetric(a: Seq<char>, b: Seq<char>)
    ensures
        lex_sign(a, b) == -lex_sign(b, a),
        -1 <= lex_sign(a, b) <= 1,
    decreases a.len(),
{
    if a.len() > 0 && b.len() > 0 && a[0] == b[0] {
        lemma_lex_antisymmetric(a.skip(1), b.skip(1));
    }
}

proof fn lemma_natural_antisymmetric(a: Seq<char>, b: Seq<char>)
    ensures
        natural_sign(a, b) == -natural_sign(b, a),
        -1 <= natural_sign(a, b) <= 1,
    decreases a.len() + b.len(),
{
    if a.len() > 0 && b.len() > 0 {
        lemma_digit_run_bounds(a);
        lemma_digit_run_bounds(b);
        if is_digit(a[0]) && is_digit(b[0]) {
            let n = digit_run_len(a) as int;
            let m = digit_run_len(b) as int;
            lemma_lex_antisymmetric(strip_zeros(a.take(n)), strip_zeros(b.take(m)));
            lemma_natural_antisymmetric(a.skip(n), b.skip(m));
        } else if a[0] == b[0] {
            lemma_natural_antisymmetric(a.skip(1), b.skip(1));
        }
    }
}

/// Natural order is antisymmetric: swapping the two names turns the sign, and the
/// sign is -1, 0 or 1.
pub proof fn law_name_order_antisymmetric(a: Seq<char>, b: Seq<char>)
    ensures
        name_sign(a, b) == -name_sign(b, a),
        -1 <= name_sign(a, b) <= 1,
{
    lemma_natural_antisymmetric(lowercase(a), lowercase(b));
}

/// The value of decimal digit `c`.
pub open spec fn digit_value(c: char) -> int {
    (c as int) - ('0' as int)
}

/// Whether every character of `s` is a decimal digit.
pub open spec fn all_digits(s: Seq<char>) -> bool {
    forall|k: int| 0 <= k < s.len() ==> is_digit(#[trigger] s[k])
}

/// Ten to the power `n`.
pub open spec fn ten_pow(n: nat) -> nat
    decreases n,
{
    if n == 0 {
        1
    } else {
        10 * ten_pow((n - 1) as nat)
    }
}

/// The number the decimal digits `s` write (0 for no digits).
pub open spec fn numeral_value(s: Seq<char>) -> int
    decreases s.len(),
{
    if s.len() == 0 {
        0
    } else {
        digit_value(s[0]) * ten_pow((s.len() - 1) as nat) + numeral_value(s.skip(1))
    }
}

/// -1, 0 or 1 as `d` is negative, zero or positive.
pub open spec fn sign_of(d: int) -> int {
    if d < 0 {
        -1
    } else if d > 0 {
        1
    } else {
        0
    }
}

proof fn lemma_ten_pow_grows(a: nat, b: nat)
    requires
        a <= b,
    ensures
        1 <= ten_pow(a) <= ten_pow(b),
    decreases b,
{
    if b > a {
        lemma_ten_pow_grows(a, (b - 1) as nat);
    } else if a > 0 {
        lemma_ten_pow_grows((a - 1) as nat, (a - 1) as nat);
    }
}

proof fn lemma_value_range(s: Seq<char>)
    requires
        all_digits(s),
    ensures
        0 <= numeral_value(s) < ten_pow(s.len()),
        s.len() > 0 && s[0] != '0' ==> numeral_value(s) >= ten_pow((s.len() - 1) as nat),
    decreases s.len(),
{
    if s.len() > 0 {
        let rest = s.skip(1);
        assert(all_digits(rest)) by {
            assert forall|k: int| 0 <= k < rest.len() implies is_digit(#[trigger] rest[k]) by {
                assert(rest[k] == s[k + 1]);
            }
        }
        lemma_value_range(rest);
        lemma_ten_pow_grows(0, (s.len() - 1) as nat);
        assert(is_digit(s[0]));
        let d = digit_value(s[0]);
        let p = ten_pow((s.len() - 1) as nat) as int;
        let r = numeral_value(rest);
        assert(0 <= d <= 9);
        assert(ten_pow(s.len()) == 10 * p);
        assert(0 <= d * p + r < 10 * p) by (nonlinear_arith)
            requires
                0 <= d <= 9,
                0 <= r < p,
        ;
        if s[0] != '0' {
            assert(d * p + r >= p) by (nonlinear_arith)
                requires
                    1 <= d,
                    0 <= r,
                    0 <= p,
            ;
        }
    }
}

proof fn lemma_value_strip(s: Seq<char>)
    requires
        all_digits(s),
    ensures
        all_digits(strip_zeros(s)),
        numeral_value(strip_zeros(s)) == numeral_value(s),
        strip_zeros(s).len() > 0 ==> strip_zeros(s)[0] != '0',
    decreases s.len(),
{
    if s.len() > 0 && s[0] == '0' {
        let rest = s.skip(1);
        assert(all_digits(rest)) by {
            assert forall|k: int| 0 <= k < rest.len() implies is_digit(#[trigger] rest[k]) by {
                assert(rest[k] == s[k + 1]);
            }
        }
        lemma_value_strip(rest);
        assert(digit_value(s[0]) == 0);
    }
}

proof fn lemma_lex_value(x: Seq<char>, y: Seq<char>)
    requires
        all_digits(x),
        all_digits(y),
        x.len() == y.len(),
    ensures
        lex_sign(x, y) == sign_of(numeral_value(x) - numeral_value(y)),
    decreases x.len(),
{
    if x.len() > 0 {
        let rx = x.skip(1);
        let ry = y.skip(1);
        assert(all_digits(rx)) by {
            assert forall|k: int| 0 <= k < rx.len() implies is_digit(#[trigger] rx[k]) by {
                assert(rx[k] == x[k + 1]);
            }
        }
        assert(all_digits(ry)) by {
            assert forall|k: int| 0 <= k < ry.len() implies is_digit(#[trigger] ry[k]) by {
                assert(ry[k] == y[k + 1]);
            }
        }
        lemma_value_range(rx);
        lemma_value_range(ry);
        lemma_lex_value(rx, ry);
        assert(is_digit(x[0]) && is_digit(y[0]));
        let p = ten_pow((x.len() - 1) as nat) as int;
        let dx = digit_value(x[0]);
        let dy = digit_value(y[0]);
        let vx = numeral_value(rx);
        let vy = numeral_value(ry);
        if dx < dy {
            assert(dx * p + vx < dy * p + vy) by (nonlinear_arith)
                requires
                    dx + 1 <= dy,
                    0 <= vx < p,
                    0 <= vy,
            ;
        } else if dx > dy {
            assert(dx * p + vx > dy * p + vy) by (nonlinear_arith)
                requires
                    dy + 1 <= dx,
                    0 <= vy < p,
                    0 <= vx,
            ;
        } else {
            assert(x[0] == y[0]);
        }
    }
}

/// Digit runs compare by the numbers they write: for texts of decimal digits,
/// `number_sign` is the sign of the difference of their values.
pub proof fn law_number_sign_is_numeric(x: Seq<char>, y: Seq<char>)
    requires
        all_digits(x),
        all_digits(y),
    ensures
        number_sign(x, y) == sign_of(numeral_value(x) - numeral_value(y)),
{
    lemma_value_strip(x);
    lemma_value_strip(y);
    let sx = strip_zeros(x);
    let sy = strip_zeros(y);
    lemma_value_range(sx);
    lemma_value_range(sy);
    if sx.len() < sy.len() {
        lemma_ten_pow_grows(sx.len(), (sy.len() - 1) as nat);
    } else if sx.len() > sy.len() {
        lemma_ten_pow_grows(sy.len(), (sx.len() - 1) as nat);
    } else {
        lemma_lex_value(sx, sy);
    }
}

fn digit(c: char) -> (r: bool)
    ensures
        r == is_digit(c),
{
    '0' <= c && c <= '9'
}

/// The end of the run of digits that starts at `i`.
fn run_end(a: &Vec<char>, i: usize) -> (e: usize)
    requires
        i <= a@.len(),
    ensures
        i <= e <= a@.len(),
        digit_run_len(a@.skip(i as int)) == e - i,
        forall|k: int| i <= k < e ==> is_digit(#[trigger] a@[k]),
{
    let mut e = i;
    while e < a.len() && digit(a[e])
        invariant
            i <= e <= a@.len(),
            forall|k: int| i <= k < e ==> is_digit(#[trigger] a@[k]),
        decreases a@.len() - e,
    {
        e = e + 1;
    }
    proof {
        let s = a@.skip(i as int);
        assert forall|k: int| 0 <= k < e - i implies is_digit(#[trigger] s[k]) by {
            assert(s[k] == a@[i + k]);
        }
        lemma_digit_run(s, e - i);
    }
    e
}

/// The first position in `i..e` that holds no `'0'`, or `e`.
fn zeros_end(a: &Vec<char>, i: usize, e: usize) -> (z: usize)
    requires
        i <= e <= a@.len(),
    ensures
        i <= z <= e,
        strip_zeros(a@.subrange(i as int, e as int)) == a@.subrange(z as int, e as int),
{
    let mut z = i;
    while z < e && a[z] == '0'
        invariant
            i <= z <= e <= a@.len(),
            forall|k: int| i <= k < z ==> #[trigger] a@[k] == '0',
        decreases e - z,
    {
        z = z + 1;
    }
    proof {
        let s = a@.subrange(i as int, e as int);
        assert forall|k: int| 0 <= k < z - i implies #[trigger] s[k] == '0' by {
            assert(s[k] == a@[i + k]);
        }
        lemma_strip(s, z - i);
        assert(s.skip(z - i) =~= a@.subrange(z as int, e as int));
    }
    z
}

/// `lex_sign` of `a[za..za + len]` and `b[zb..zb + len]`.
fn lex_sign_of(a: &Vec<char>, za: usize, b: &Vec<char>, zb: usize, len: usize) -> (r: i8)
    requires
        za + len <= a@.len(),
        zb + len <= b@.len(),
    ensures
        r == lex_sign(
            a@.subrange(za as int, za + len),
            b@.subrange(zb as int, zb + len),
        ),
{
    let mut k: usize = 0;
    while k < len
        invariant
            k <= len,
            za + len <= a.len(),
            zb + len <= b.len(),
            lex_sign(a@.subrange(za as int, za + len), b@.subrange(zb as int, zb + len))
                == lex_sign(
                a@.subrange(za + k, za + len),
                b@.subrange(zb + k, zb + len),
            ),
        decreases len - k,
    {
        let ghost x = a@.subrange(za + k, za + len);
        let ghost y = b@.subrange(zb + k, zb + len);
        assert(x[0] == a@[za + k]);
        assert(y[0] == b@[zb + k]);
        let ca = a[za + k];
        let cb = b[zb + k];
        if ca < cb {
            return -1;
        } else if ca > cb {
            return 1;
        }
        assert(x.skip(1) =~= a@.subrange(za + k + 1, za + len));
        assert(y.skip(1) =~= b@.subrange(zb + k + 1, zb + len));
        k = k + 1;
    }
    0
}

/// `natural_sign` of `a` and `b`.
fn natural_sign_of(a: &Vec<char>, b: &Vec<char>) -> (r: i8)
    ensures
        r == natural_sign(a@, b@),
{
    let mut i: usize = 0;
    let mut j: usize = 0;
    proof {
        assert(a@.skip(0) =~= a@);
        assert(b@.skip(0) =~= b@);
    }
    loop
        invariant
            i <= a@.len(),
            j <= b@.len(),
            natural_sign(a@.skip(i as int), b@.skip(j as int)) == natural_sign(a@, b@),
        decreases a@.len() - i + b@.len() - j,
    {
        let ghost sa = a@.skip(i as int);
        let ghost sb = b@.skip(j as int);
        if i == a.len() && j == b.len() {
            return 0;
        } else if i == a.len() {
            return -1;
        } else if j == b.len() {
            return 1;
        }
        assert(sa[0] == a@[i as int]);
        assert(sb[0] == b@[j as int]);
        let ca = a[i];
        let cb = b[j];
        if digit(ca) && digit(cb) {
            let ea = run_end(a, i);
            let eb = run_end(b, j);
            let za = zeros_end(a, i, ea);
            let zb = zeros_end(b, j, eb);
            proof {
                assert(sa.take(ea - i) =~= a@.subrange(i as int, ea as int));
                assert(sb.take(eb - j) =~= b@.subrange(j as int, eb as int));
                lemma_digit_run_bounds(sa);
                lemma_digit_run_bounds(sb);
            }
            let la = ea - za;
            let lb = eb - zb;
            let s: i8 = if la < lb {
                -1
            } else if la > lb {
                1
            } else {
                lex_sign_of(a, za, b, zb, la)
            };
            assert(s == number_sign(sa.take(ea - i), sb.take(eb - j)));
            if s != 0 {
                return s;
            }
            proof {
                assert(sa.skip(ea - i) =~= a@.skip(ea as int));
                assert(sb.skip(eb - j) =~= b@.skip(eb as int));
            }
            i = ea;
            j = eb;
        } else if ca < cb {
            return -1;
        } else if ca > cb {
            return 1;
        } else {
            proof {
                assert(sa.skip(1) =~= a@.skip(i + 1));
                assert(sb.skip(1) =~= b@.skip(j + 1));
            }
            i = i + 1;
            j = j + 1;
        }
    }
}

/// Compares two names in natural order, ignoring case: `Less` where `a` comes first.
pub fn natural_cmp_ci(a: &str, b: &str) -> (r: Ordering)
    ensures
        (r == Ordering::Less) == (name_sign(a@, b@) < 0),
        (r == Ordering::Equal) == (name_sign(a@, b@) == 0),
        (r == Ordering::Greater) == (name_sign(a@, b@) > 0),
{
    let la = to_lowercase(a);
    let lb = to_lowercase(b);
    let ca = chars_of(la.as_str());
    let cb = chars_of(lb.as_str());
    let s = natural_sign_of(&ca, &cb);
    if s < 0 {
        Ordering::Less
    } else if s > 0 {
        Ordering::Greater
    } else {
        Ordering::Equal
    }
}

/// Whether `a` comes strictly before `b` in natural order, ignoring case.
pub fn name_before(a: &str, b: &str) -> (r: bool)
    ensures
        r == (name_sign(a@, b@) < 0),
{
    match natural_cmp_ci(a, b) {
        Ordering::Less => true,
        Ordering::Equal => false,
        Ordering::Greater => false,
    }
}

/// Whether every name is ordered no later than the next one.
pub open spec fn names_in_order(s: Seq<String>) -> bool {
    forall|k: int| 0 <= k < s.len() - 1 ==> name_sign(#[trigger] s[k]@, s[k + 1]@) <= 0
}

/// The same names, each ordered no later than the next in natural order, ignoring case.
pub fn sort_names_naturally(names: Vec<String>) -> (sorted: Vec<String>)
    ensures
        sorted@.to_multiset() == names@.to_multiset(),
        names_in_order(sorted@),
{
    let mut rest = names;
    let mut out: Vec<String> = Vec::new();
    proof {
        broadcast use vstd::multiset::group_multiset_properties;
        broadcast use vstd::seq_lib::group_to_multiset_ensures;
    }
    while rest.len() > 0
        invariant
            out@.to_multiset().add(rest@.to_multiset()) == names@.to_multiset(),
            names_in_order(out@),
        decreases rest@.len(),
    {
        let ghost before = rest@;
        let x = rest.remove(0);
        proof {
            broadcast use vstd::seq_lib::group_to_multiset_ensures;
            assert(rest@.to_multiset() == before.to_multiset().remove(x));
            assert(before.to_multiset().count(x) > 0);
        }
        let mut p = out.len();
        loop
            invariant
                p <= out@.len(),
                names_in_order(out@),
                p < out@.len() ==> name_sign(x@, out@[p as int]@) < 0,
            ensures
                p <= out@.len(),
                p < out@.len() ==> name_sign(x@, out@[p as int]@) < 0,
                p > 0 ==> name_sign(out@[p - 1]@, x@) <= 0,
            decreases p,
        {
            if p == 0 {
                break;
            }
            if name_before(x.as_str(), out[p - 1].as_str()) {
                p = p - 1;
            } else {
                proof {
                    law_name_order_antisymmetric(x@, out@[p - 1]@);
                }
                break;
            }
        }
        let ghost old_out = out@;
        out.insert(p, x);
        proof {
            broadcast use vstd::seq_lib::group_to_multiset_ensures;
            assert forall|k: int| 0 <= k < out@.len() - 1 implies name_sign(
                #[trigger] out@[k]@,
                out@[k + 1]@,
            ) <= 0 by {
                if k < p - 1 {
                    assert(out@[k] == old_out[k] && out@[k + 1] == old_out[k + 1]);
                } else if k == p - 1 {
                    assert(out@[k] == old_out[k]);
                } else if k == p {
                } else {
                    assert(out@[k] == old_out[k - 1] && out@[k + 1] == old_out[k]);
                }
            }
            assert(out@.to_multiset() == old_out.to_multiset().insert(x));
            assert(out@.to_multiset().add(rest@.to_multiset()) =~= old_out.to_multiset().add(
                before.to_multiset(),
            ));
        }
    }
    proof {
        assert(rest@ =~= Seq::<String>::empty());
    }
    out
}

proof fn lemma_value_push(s: Seq<char>, c: char)
    requires
        all_digits(s),
        is_digit(c),
    ensures
        numeral_value(s.push(c)) == 10 * numeral_value(s) + digit_value(c),
    decreases s.len(),
{
    if s.len() == 0 {
        assert(s.push(c).skip(1) =~= Seq::<char>::empty());
        assert(s.push(c)[0] == c);
        assert(ten_pow(0) == 1);
        assert(numeral_value(s.push(c)) == digit_value(c) * 1 + numeral_value(Seq::<char>::empty()));
    } else {
        let t = s.skip(1);
        assert(all_digits(t)) by {
            assert forall|k: int| 0 <= k < t.len() implies is_digit(#[trigger] t[k]) by {
                assert(t[k] == s[k + 1]);
            }
        }
        lemma_value_push(t, c);
        assert(s.push(c).skip(1) =~= t.push(c));
        assert(s.push(c)[0] == s[0]);
        let p = ten_pow((s.len() - 1) as nat) as int;
        assert(ten_pow(s.len()) == 10 * p);
        let d = digit_value(s[0]);
        assert(d * (10 * p) == 10 * (d * p)) by (nonlinear_arith);
        assert(s.push(c).len() - 1 == s.len());
        assert(numeral_value(s.push(c)) == d * ten_pow(s.len()) + numeral_value(t.push(c)));
        assert(numeral_value(s) == d * p + numeral_value(t));
    }
}

proof fn lemma_decimal_digits(n: nat)
    ensures
        all_digits(crate::text::decimal(n)),
        numeral_value(crate::text::decimal(n)) == n,
        crate::text::decimal(n).len() > 0,
        crate::text::decimal(n)[0] != '0' || n == 0,
    decreases n,
{
    let c = crate::text::digit_char(n % 10);
    assert(is_digit(c) && digit_value(c) == n % 10);
    if n < 10 {
        assert(crate::text::decimal(n) == seq![c]);
        assert(seq![c] =~= Seq::<char>::empty().push(c));
        lemma_value_push(Seq::<char>::empty(), c);
    } else {
        lemma_decimal_digits(n / 10);
        let s = crate::text::decimal(n / 10);
        assert(crate::text::decimal(n) =~= s.push(c));
        lemma_value_push(s, c);
        assert(crate::text::decimal(n)[0] == s[0]);
    }
}

/// Decimal text reads back as the number written: the text of `n` is made of digits,
/// starts with no `0` unless `n` is 0, and the number it writes is `n`.
pub proof fn law_decimal_reads_back(n: nat)
    ensures
        all_digits(crate::text::decimal(n)),
        numeral_value(crate::text::decimal(n)) == n,
        crate::text::decimal(n).len() > 0,
        crate::text::decimal(n)[0] != '0' || n == 0,
{
    lemma_decimal_digits(n);
}

} // verus!
