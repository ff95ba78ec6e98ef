//! Run ids sort by time: the time stamp at their front is written with
//! fixed-width fields, so comparing names as text compares the instants.

use vstd::prelude::*;
use crate::calendar::{civil_date, date_before, is_valid_date, lemma_civil_date_increasing, lemma_nonnegative_day_year};
use crate::control::lex_le;
use crate::run::{lemma_utc_digits, run_id_text, utc_digits, utc_fields};
use crate::text::{decimal, digit_char, zero_padded};

verus! {

pub open spec fn pow10(w: nat) -> nat
    decreases w,
{
    if w == 0 {
        1
    } else {
        10 * pow10((w - 1) as nat)
    }
}

/// The last `w` decimal digits of `n`, most significant first.
pub open spec fn fixed_digits(n: nat, w: nat) -> Seq<char>
    decreases w,
{
    if w == 0 {
        Seq::empty()
    } else {
        fixed_digits(n / 10, (w - 1) as nat).push(digit_char(n % 10))
    }
}

/// `a` comes before `b` at their first difference.
pub open spec fn differs_first_below(a: Seq<char>, b: Seq<char>) -> bool {
    exists|k: int| 0 <= k < a.len() && k < b.len() && a.subrange(0, k) == b.subrange(0, k) && #[trigger] a[k] < b[k]
}

proof fn lemma_pow10_positive(w: nat)
    ensures
        pow10(w) >= 1,
    decreases w,
{
    if w > 0 {
        lemma_pow10_positive((w - 1) as nat);
    }
}

proof fn lemma_fixed_len(n: nat, w: nat)
    ensures
        fixed_digits(n, w).len() == w,
    decreases w,
{
    if w > 0 {
        lemma_fixed_len(n / 10, (w - 1) as nat);
    }
}

proof fn lemma_fixed_zero(w: nat)
    ensures
        fixed_digits(0, w) == Seq::new(w, |i: int| '0'),
    decreases w,
{
    if w > 0 {
        lemma_fixed_zero((w - 1) as nat);
        assert(fixed_digits(0, w) =~= Seq::new(w, |i: int| '0'));
    }
}

proof fn lemma_decimal_len(n: nat)
    ensures
        decimal(n).len() >= 1,
    decreases n,
{
    if n >= 10 {
        lemma_decimal_len(n / 10);
    }
}

/// Zero padding to `w` digits writes the last `w` digits when the number
/// has no more.
proof fn lemma_zero_padded_fixed(n: nat, w: nat)
    requires
        w >= 1,
        n < pow10(w),
    ensures
        zero_padded(n, w) == fixed_digits(n, w),
        decimal(n).len() <= w,
    decreases w,
{
    if n < 10 {
        assert(decimal(n) == seq![digit_char(n)]);
        lemma_fixed_zero((w - 1) as nat);
        assert(n / 10 == 0);
        assert(n % 10 == n);
        if w == 1 {
            assert(fixed_digits(n, w) =~= seq![digit_char(n)]);
        } else {
            assert(zero_padded(n, w) =~= fixed_digits(n, w));
        }
    } else {
        assert(w >= 2) by {
            if w == 1 {
                assert(pow10(1) == 10 * pow10(0));
            }
        }
        let w1 = (w - 1) as nat;
        assert(n / 10 < pow10(w1)) by {
            assert(pow10(w) == 10 * pow10(w1));
        }
        lemma_zero_padded_fixed(n / 10, w1);
        lemma_decimal_len(n / 10);
        assert(decimal(n) == decimal(n / 10).push(digit_char(n % 10)));
        assert(zero_padded(n, w) =~= zero_padded(n / 10, w1).push(digit_char(n % 10)));
    }
}

proof fn lemma_split_div(x: nat, p: nat, y: nat)
    requires
        p >= 1,
    ensures
        (10 * (x * p) + y) / 10 == x * p + y / 10,
        (10 * (x * p) + y) % 10 == y % 10,
{
    let a: int = (x * p) as int;
    let yi: int = y as int;
    vstd::arithmetic::div_mod::lemma_fundamental_div_mod(yi, 10);
    vstd::arithmetic::div_mod::lemma_mod_bound(yi, 10);
    vstd::arithmetic::div_mod::lemma_fundamental_div_mod_converse(10 * a + yi, 10, a + yi / 10, yi % 10);
}

/// Writing `x` then `y` in `w2` digits is writing `x * 10^w2 + y`.
proof fn lemma_fixed_concat(x: nat, y: nat, w1: nat, w2: nat)
    requires
        y < pow10(w2),
    ensures
        fixed_digits(x * pow10(w2) + y, w1 + w2) == fixed_digits(x, w1) + fixed_digits(y, w2),
    decreases w2,
{
    if w2 == 0 {
        assert(y == 0);
        assert(x * pow10(0) + y == x);
        assert(fixed_digits(x, w1) + fixed_digits(y, 0) =~= fixed_digits(x, w1));
    } else {
        let v2 = (w2 - 1) as nat;
        let p = pow10(v2);
        lemma_pow10_positive(v2);
        assert(pow10(w2) == 10 * p);
        assert(x * pow10(w2) == 10 * (x * p)) by (nonlinear_arith)
            requires
                pow10(w2) == 10 * p,
        ;
        lemma_split_div(x, p, y);
        assert(y / 10 < p) by (nonlinear_arith)
            requires
                y < 10 * p,
        ;
        lemma_fixed_concat(x, y / 10, w1, v2);
        let n = x * pow10(w2) + y;
        assert(n / 10 == x * p + y / 10);
        assert(n % 10 == y % 10);
        assert((w1 + w2 - 1) as nat == w1 + v2);
        assert(fixed_digits(n, w1 + w2) == fixed_digits(n / 10, (w1 + w2 - 1) as nat).push(digit_char(n % 10)));
        assert(fixed_digits(y, w2) == fixed_digits(y / 10, v2).push(digit_char(y % 10)));
        assert(fixed_digits(n, w1 + w2) =~= fixed_digits(x, w1) + fixed_digits(y, w2));
    }
}

proof fn lemma_digit_char_increasing(a: nat, b: nat)
    requires
        a < b < 10,
    ensures
        digit_char(a) < digit_char(b),
{
}

/// A smaller number has the smaller digits at the first place where the
/// two differ.
proof fn lemma_fixed_less(n1: nat, n2: nat, w: nat)
    requires
        n1 < n2 < pow10(w),
    ensures
        differs_first_below(fixed_digits(n1, w), fixed_digits(n2, w)),
    decreases w,
{
    if w == 0 {
        assert(false);
    } else {
        let v = (w - 1) as nat;
        assert(pow10(w) == 10 * pow10(v));
        lemma_fixed_len(n1 / 10, v);
        lemma_fixed_len(n2 / 10, v);
        let a = fixed_digits(n1, w);
        let b = fixed_digits(n2, w);
        let pa = fixed_digits(n1 / 10, v);
        let pb = fixed_digits(n2 / 10, v);
        assert(a == pa.push(digit_char(n1 % 10)));
        assert(b == pb.push(digit_char(n2 % 10)));
        if n1 / 10 < n2 / 10 {
            assert(n2 / 10 < pow10(v));
            lemma_fixed_less(n1 / 10, n2 / 10, v);
            let k = choose|k: int| 0 <= k < pa.len() && k < pb.len() && pa.subrange(0, k) == pb.subrange(0, k)
                && #[trigger] pa[k] < pb[k];
            assert(a.subrange(0, k) == pa.subrange(0, k));
            assert(b.subrange(0, k) == pb.subrange(0, k));
            assert(a[k] == pa[k] && b[k] == pb[k]);
            assert(a[k] < b[k]);
        } else {
            assert(n1 / 10 == n2 / 10);
            assert(n1 % 10 < n2 % 10);
            lemma_digit_char_increasing(n1 % 10, n2 % 10);
            let k = v as int;
            assert(a.subrange(0, k) == pa);
            assert(b.subrange(0, k) == pb);
            assert(a[k] < b[k]);
        }
    }
}

/// Text that is smaller at its first difference sorts first.
proof fn lemma_first_difference_sorts(a: Seq<char>, b: Seq<char>, k: int)
    requires
        0 <= k < a.len(),
        k < b.len(),
        a.subrange(0, k) == b.subrange(0, k),
        a[k] < b[k],
    ensures
        lex_le(a, b),
        !lex_le(b, a),
    decreases k,
{
    if k > 0 {
        assert(a[0] == a.subrange(0, k)[0]);
        assert(b[0] == b.subrange(0, k)[0]);
        assert(a.drop_first().subrange(0, k - 1) =~= a.subrange(0, k).drop_first());
        assert(b.drop_first().subrange(0, k - 1) =~= b.subrange(0, k).drop_first());
        lemma_first_difference_sorts(a.drop_first(), b.drop_first(), k - 1);
    }
}


/// The digits of a time stamp, YYYYMMDDhhmmss, read as one number.
#[verifier::opaque]
pub open spec fn stamp_number(t: u64) -> nat {
    let f = utc_fields(t);
    (((((f.0 * 100 + f.1) * 100 + f.2) * 100 + f.3) * 100 + f.4) * 100 + f.5) as nat
}

/// The fields of a time stamp of a year before 10000 are in range.
proof fn lemma_fields_in_range(t: u64)
    ensures
        ({
            let f = utc_fields(t);
            &&& 1970 <= f.0
            &&& 1 <= f.1 <= 12
            &&& 1 <= f.2 <= 31
            &&& 0 <= f.3 < 24
            &&& 0 <= f.4 < 60
            &&& 0 <= f.5 < 60
        }),
{
    let secs = t / 1000;
    let days = secs / 86_400;
    lemma_nonnegative_day_year(days as int);
}

proof fn lemma_pow10_values()
    ensures
        pow10(2) == 100,
        pow10(4) == 10_000,
{
    reveal_with_fuel(pow10, 5);
}

/// The digits of a time stamp before the year 10000 are its number written
/// in fourteen digits.
proof fn lemma_stamp_digits(t: u64)
    requires
        utc_fields(t).0 < 10_000,
    ensures
        utc_digits(t) == fixed_digits(stamp_number(t), 14),
        stamp_number(t) < pow10(14),
{
    let f = utc_fields(t);
    lemma_fields_in_range(t);
    lemma_pow10_values();
    let y = f.0 as nat;
    let m = f.1 as nat;
    let d = f.2 as nat;
    let h = f.3 as nat;
    let mi = f.4 as nat;
    let s = f.5 as nat;
    lemma_zero_padded_fixed(y, 4);
    lemma_zero_padded_fixed(m, 2);
    lemma_zero_padded_fixed(d, 2);
    lemma_zero_padded_fixed(h, 2);
    lemma_zero_padded_fixed(mi, 2);
    lemma_zero_padded_fixed(s, 2);
    let n1 = y * 100 + m;
    let n2 = n1 * 100 + d;
    let n3 = n2 * 100 + h;
    let n4 = n3 * 100 + mi;
    let n5 = n4 * 100 + s;
    lemma_fixed_concat(y, m, 4, 2);
    lemma_fixed_concat(n1, d, 6, 2);
    lemma_fixed_concat(n2, h, 8, 2);
    lemma_fixed_concat(n3, mi, 10, 2);
    lemma_fixed_concat(n4, s, 12, 2);
    reveal(stamp_number);
    assert(stamp_number(t) == n5);
    assert(utc_digits(t) == fixed_digits(n5, 14));
    reveal_with_fuel(pow10, 15);
}

/// The time of day as hhmmss read as a number grows with the second of
/// the day.
proof fn lemma_time_of_day_increasing(a: int, b: int)
    requires
        0 <= a < b < 86_400,
    ensures
        ((a / 3600) * 100 + (a % 3600) / 60) * 100 + a % 60 < ((b / 3600) * 100 + (b % 3600) / 60) * 100 + b % 60,
{
    let ha = a / 3600;
    let hb = b / 3600;
    let ra = a % 3600;
    let rb = b % 3600;
    assert(ra / 60 < 60 && rb / 60 < 60);
    if ha == hb {
        assert(ra < rb);
        if ra / 60 == rb / 60 {
            assert(ra % 60 < rb % 60);
            assert(a % 60 == ra % 60 && b % 60 == rb % 60);
        } else {
            assert(ra / 60 < rb / 60);
        }
    } else {
        assert(ha < hb);
    }
}

/// Later seconds have larger time stamps.
proof fn lemma_stamp_increasing(t1: u64, t2: u64)
    requires
        t1 / 1000 < t2 / 1000,
    ensures
        stamp_number(t1) < stamp_number(t2),
        utc_fields(t1).0 <= utc_fields(t2).0,
{
    reveal(stamp_number);
    let s1 = (t1 / 1000) as int;
    let s2 = (t2 / 1000) as int;
    let z1 = s1 / 86_400;
    let z2 = s2 / 86_400;
    let f1 = utc_fields(t1);
    let f2 = utc_fields(t2);
    lemma_fields_in_range(t1);
    lemma_fields_in_range(t2);
    let g1 = (f1.3 * 100 + f1.4) * 100 + f1.5;
    let g2 = (f2.3 * 100 + f2.4) * 100 + f2.5;
    assert(g1 < 1_000_000 && g2 < 1_000_000);
    let e1 = (f1.0 * 100 + f1.1) * 100 + f1.2;
    let e2 = (f2.0 * 100 + f2.1) * 100 + f2.2;
    assert(stamp_number(t1) == e1 * 1_000_000 + g1);
    assert(stamp_number(t2) == e2 * 1_000_000 + g2);
    if z1 == z2 {
        assert(s1 % 86_400 < s2 % 86_400);
        lemma_time_of_day_increasing(s1 % 86_400, s2 % 86_400);
        assert(e1 == e2);
    } else {
        assert(z1 < z2);
        lemma_civil_date_increasing(z1, z2);
        assert(date_before((f1.0, f1.1, f1.2), (f2.0, f2.1, f2.2)));
        assert(e1 < e2);
        assert(e1 * 1_000_000 + g1 < e2 * 1_000_000 + g2) by (nonlinear_arith)
            requires
                e1 < e2,
                0 <= g1 < 1_000_000,
                0 <= g2,
        ;
    }
}

/// Names made of a fourteen-digit stamp split after eight digits by '-'
/// and followed by anything sort as their stamps do.
#[verifier::spinoff_prover]
proof fn lemma_stamped_names_sort(a: Seq<char>, b: Seq<char>, k: int, q1: Seq<char>, q2: Seq<char>)
    requires
        a.len() == 14,
        b.len() == 14,
        0 <= k < 14,
        a.subrange(0, k) == b.subrange(0, k),
        a[k] < b[k],
    ensures
        lex_le(a.subrange(0, 8) + seq!['-'] + a.subrange(8, 14) + q1, b.subrange(0, 8) + seq!['-'] + b.subrange(8, 14) + q2),
        !lex_le(b.subrange(0, 8) + seq!['-'] + b.subrange(8, 14) + q2, a.subrange(0, 8) + seq!['-'] + a.subrange(8, 14) + q1),
{
    let r1 = a.subrange(0, 8) + seq!['-'] + a.subrange(8, 14) + q1;
    let r2 = b.subrange(0, 8) + seq!['-'] + b.subrange(8, 14) + q2;
    if k < 8 {
        assert(r1.subrange(0, k) =~= a.subrange(0, k));
        assert(r2.subrange(0, k) =~= b.subrange(0, k));
        assert(r1[k] == a[k] && r2[k] == b[k]);
        lemma_first_difference_sorts(r1, r2, k);
    } else {
        assert(a.subrange(0, 8) =~= a.subrange(0, k).subrange(0, 8));
        assert(b.subrange(0, 8) =~= b.subrange(0, k).subrange(0, 8));
        assert(a.subrange(8, k) =~= a.subrange(0, k).subrange(8, k));
        assert(b.subrange(8, k) =~= b.subrange(0, k).subrange(8, k));
        assert(r1.subrange(0, k + 1) =~= a.subrange(0, 8) + seq!['-'] + a.subrange(8, k));
        assert(r2.subrange(0, k + 1) =~= b.subrange(0, 8) + seq!['-'] + b.subrange(8, k));
        assert(r1[k + 1] == a[k] && r2[k + 1] == b[k]);
        lemma_first_difference_sorts(r1, r2, k + 1);
    }
}

/// A run id is the stamp's fourteen digits, split after eight by '-',
/// then "Z-" and the process id.
proof fn lemma_run_id_shape(t: u64, p: u32)
    requires
        utc_fields(t).0 < 10_000,
    ensures
        fixed_digits(stamp_number(t), 14).len() == 14,
        stamp_number(t) < pow10(14),
        run_id_text(t, p) == fixed_digits(stamp_number(t), 14).subrange(0, 8) + seq!['-'] + fixed_digits(
            stamp_number(t),
            14,
        ).subrange(8, 14) + (seq!['Z', '-'] + decimal(p as nat)),
{
    lemma_stamp_digits(t);
    lemma_utc_digits(t);
    lemma_fixed_len(stamp_number(t), 14);
    let a = fixed_digits(stamp_number(t), 14);
    assert(run_id_text(t, p) =~= a.subrange(0, 8) + seq!['-'] + a.subrange(8, 14) + (seq!['Z', '-'] + decimal(p as nat)));
}

/// Run ids sort by the time their runs started: of two runs started in
/// different seconds before the year 10000, the later has the greater id,
/// whatever the process ids. So the greatest run directory name, which
/// `newest_session_under` picks, is the newest run.
pub proof fn law_run_ids_sort_by_time(t1: u64, p1: u32, t2: u64, p2: u32)
    requires
        t1 / 1000 < t2 / 1000,
        utc_fields(t2).0 < 10_000,
    ensures
        lex_le(run_id_text(t1, p1), run_id_text(t2, p2)),
        !lex_le(run_id_text(t2, p2), run_id_text(t1, p1)),
{
    lemma_stamp_increasing(t1, t2);
    lemma_run_id_shape(t1, p1);
    lemma_run_id_shape(t2, p2);
    let n1 = stamp_number(t1);
    let n2 = stamp_number(t2);
    lemma_fixed_less(n1, n2, 14);
    let a = fixed_digits(n1, 14);
    let b = fixed_digits(n2, 14);
    let k = choose|k: int| 0 <= k < a.len() && k < b.len() && a.subrange(0, k) == b.subrange(0, k) && #[trigger] a[k] < b[k];
    lemma_stamped_names_sort(a, b, k, seq!['Z', '-'] + decimal(p1 as nat), seq!['Z', '-'] + decimal(p2 as nat));
}

} // verus!
