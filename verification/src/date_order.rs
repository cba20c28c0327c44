//! The texts of dates in the years 0 to 9999: ten characters `YYYY-MM-DD`,
//! which sort as the times they are the dates of.
use vstd::prelude::*;

use crate::date::{
    civil_date, date_le, date_of_secs, date_text, day_of_secs, epoch_day, is_date_of_day,
    is_valid_date, lemma_epoch_day_increasing, lemma_every_day_has_one_date,
    lemma_four_digit_years_days,
};
use crate::text::{decimal, digit_char, is_digit_char, signed_zero_padded, zero_padded};

verus! {

/// `a` comes before `b`, or is `b`, in lexicographic order of characters.
pub open spec fn text_le(a: Seq<char>, b: Seq<char>) -> bool
    decreases a.len(),
{
    if a.len() == 0 {
        true
    } else if b.len() == 0 {
        false
    } else if a[0] != b[0] {
        a[0] < b[0]
    } else {
        text_le(a.drop_first(), b.drop_first())
    }
}

/// The ten characters of the text of a date with a year from 0 to 9999.
pub open spec fn date_chars(y: int, m: int, d: int) -> Seq<char> {
    seq![
        digit_char(y / 1000),
        digit_char(y / 100 % 10),
        digit_char(y / 10 % 10),
        digit_char(y % 10),
        '-',
        digit_char(m / 10),
        digit_char(m % 10),
        '-',
        digit_char(d / 10),
        digit_char(d % 10),
    ]
}

/// The first and last Unix times whose dates have four-digit years.
pub open spec fn in_four_digit_years(secs: int) -> bool {
    -62167219200 <= secs <= 253402300799
}

proof fn lemma_four_digits(n: int)
    requires
        0 <= n < 10000,
    ensures
        signed_zero_padded(n, 4) == seq![
            digit_char(n / 1000),
            digit_char(n / 100 % 10),
            digit_char(n / 10 % 10),
            digit_char(n % 10),
        ],
{
    reveal_with_fuel(decimal, 5);
    if n < 10 {
        assert(decimal(n as nat) == seq![digit_char(n)]);
    } else if n < 100 {
        assert(decimal(n as nat) =~= seq![digit_char(n / 10), digit_char(n % 10)]);
    } else if n < 1000 {
        assert(decimal((n / 10) as nat) =~= seq![digit_char(n / 100), digit_char(n / 10 % 10)]);
        assert(decimal(n as nat) =~= seq![
            digit_char(n / 100),
            digit_char(n / 10 % 10),
            digit_char(n % 10),
        ]);
    } else {
        assert(decimal((n / 100) as nat) =~= seq![digit_char(n / 1000), digit_char(n / 100 % 10)]);
        assert(decimal((n / 10) as nat) =~= seq![
            digit_char(n / 1000),
            digit_char(n / 100 % 10),
            digit_char(n / 10 % 10),
        ]);
    }
    assert(signed_zero_padded(n, 4) =~= seq![
        digit_char(n / 1000),
        digit_char(n / 100 % 10),
        digit_char(n / 10 % 10),
        digit_char(n % 10),
    ]);
}

proof fn lemma_two_digits(n: int)
    requires
        0 <= n < 100,
    ensures
        zero_padded(n as nat, 2) == seq![digit_char(n / 10), digit_char(n % 10)],
{
    reveal_with_fuel(decimal, 3);
    if n < 10 {
        assert(decimal(n as nat) == seq![digit_char(n)]);
    } else {
        assert(decimal(n as nat) =~= seq![digit_char(n / 10), digit_char(n % 10)]);
    }
    assert(zero_padded(n as nat, 2) =~= seq![digit_char(n / 10), digit_char(n % 10)]);
}

proof fn lemma_date_text_chars(y: int, m: int, d: int)
    requires
        0 <= y <= 9999,
        is_valid_date(y, m, d),
    ensures
        date_text(y, m, d) == date_chars(y, m, d),
{
    lemma_four_digits(y);
    lemma_two_digits(m);
    lemma_two_digits(d);
    assert(date_text(y, m, d) =~= date_chars(y, m, d));
}

/// The digits of a date, position by position, with 0 for a dash.
spec fn date_digits(y: int, m: int, d: int) -> Seq<int> {
    seq![y / 1000, y / 100 % 10, y / 10 % 10, y % 10, 0, m / 10, m % 10, 0, d / 10, d % 10]
}

spec fn pow10(k: int) -> int
    decreases k,
{
    if k <= 0 {
        1
    } else {
        10 * pow10(k - 1)
    }
}

/// The value of the digits `a[i..10]`, each weighed by its place.
spec fn digit_value(a: Seq<int>, i: int) -> int
    decreases 10 - i,
{
    if i >= 10 {
        0
    } else {
        a[i] * pow10(9 - i) + digit_value(a, i + 1)
    }
}

proof fn lemma_pow10_positive(k: int)
    ensures
        pow10(k) >= 1,
    decreases k,
{
    if k > 0 {
        lemma_pow10_positive(k - 1);
    }
}

spec fn are_digits(a: Seq<int>) -> bool {
    a.len() == 10 && forall|j: int| 0 <= j < 10 ==> 0 <= #[trigger] a[j] < 10
}

proof fn lemma_digit_value_bound(a: Seq<int>, i: int)
    requires
        0 <= i <= 10,
        are_digits(a),
    ensures
        0 <= digit_value(a, i) < pow10(10 - i),
    decreases 10 - i,
{
    if i < 10 {
        lemma_digit_value_bound(a, i + 1);
        lemma_pow10_positive(9 - i);
        let p = pow10(9 - i);
        assert(pow10(10 - i) == 10 * p);
        assert(0 <= a[i]);
        assert(a[i] < 10);
        assert(0 <= a[i] * p <= 9 * p) by (nonlinear_arith)
            requires
                0 <= a[i] < 10,
                p >= 1,
        {
        }
    }
}

/// The characters of `t1` and `t2` compare as the digits `a` and `b` do.
spec fn chars_follow_digits(t1: Seq<char>, t2: Seq<char>, a: Seq<int>, b: Seq<int>) -> bool {
    &&& t1.len() == 10
    &&& t2.len() == 10
    &&& are_digits(a)
    &&& are_digits(b)
    &&& forall|j: int|
        0 <= j < 10 ==> (#[trigger] t1[j] < t2[j]) == (a[j] < b[j]) && (t1[j] == t2[j]) == (a[j]
            == b[j])
}

proof fn lemma_text_le_suffix(t1: Seq<char>, t2: Seq<char>, a: Seq<int>, b: Seq<int>, i: int)
    requires
        0 <= i <= 10,
        chars_follow_digits(t1, t2, a, b),
    ensures
        text_le(t1.subrange(i, 10), t2.subrange(i, 10)) == (digit_value(a, i) <= digit_value(b, i)),
    decreases 10 - i,
{
    let s1 = t1.subrange(i, 10);
    let s2 = t2.subrange(i, 10);
    if i < 10 {
        lemma_text_le_suffix(t1, t2, a, b, i + 1);
        assert(s1.drop_first() =~= t1.subrange(i + 1, 10));
        assert(s2.drop_first() =~= t2.subrange(i + 1, 10));
        assert(s1[0] == t1[i]);
        assert(s2[0] == t2[i]);
        assert((t1[i] < t2[i]) == (a[i] < b[i]));
        assert((t1[i] == t2[i]) == (a[i] == b[i]));
        lemma_digit_value_bound(a, i + 1);
        lemma_digit_value_bound(b, i + 1);
        lemma_pow10_positive(9 - i);
        let p = pow10(9 - i);
        assert(pow10(10 - (i + 1)) == p);
        if a[i] < b[i] {
            assert(a[i] * p + p <= b[i] * p) by (nonlinear_arith)
                requires
                    a[i] + 1 <= b[i],
                    p >= 1,
            {
            }
        } else if a[i] > b[i] {
            assert(b[i] * p + p <= a[i] * p) by (nonlinear_arith)
                requires
                    b[i] + 1 <= a[i],
                    p >= 1,
            {
            }
        }
    } else {
        assert(s1.len() == 0);
    }
}

proof fn lemma_digit_value_expanded(a: Seq<int>)
    requires
        a.len() == 10,
    ensures
        digit_value(a, 0) == 1000000000 * a[0] + 100000000 * a[1] + 10000000 * a[2] + 1000000 * a[3]
            + 100000 * a[4] + 10000 * a[5] + 1000 * a[6] + 100 * a[7] + 10 * a[8] + a[9],
{
    assert(pow10(0) == 1);
    assert(pow10(1) == 10);
    assert(pow10(2) == 100);
    assert(pow10(3) == 1000);
    assert(pow10(4) == 10000);
    assert(pow10(5) == 100000);
    assert(pow10(6) == 1000000);
    assert(pow10(7) == 10000000);
    assert(pow10(8) == 100000000);
    assert(pow10(9) == 1000000000);
    assert(digit_value(a, 10) == 0);
    assert(digit_value(a, 9) == a[9]);
    assert(digit_value(a, 8) == 10 * a[8] + a[9]);
    assert(digit_value(a, 7) == 100 * a[7] + 10 * a[8] + a[9]);
    assert(digit_value(a, 6) == 1000 * a[6] + digit_value(a, 7));
    assert(digit_value(a, 5) == 10000 * a[5] + digit_value(a, 6));
    assert(digit_value(a, 4) == 100000 * a[4] + digit_value(a, 5));
    assert(digit_value(a, 3) == 1000000 * a[3] + digit_value(a, 4));
    assert(digit_value(a, 2) == 10000000 * a[2] + digit_value(a, 3));
    assert(digit_value(a, 1) == 100000000 * a[1] + digit_value(a, 2));
}

proof fn lemma_date_digits_value(y: int, m: int, d: int)
    requires
        0 <= y <= 9999,
        1 <= m <= 12,
        1 <= d <= 31,
    ensures
        are_digits(date_digits(y, m, d)),
        digit_value(date_digits(y, m, d), 0) == y * 1000000 + m * 1000 + d,
{
    let a = date_digits(y, m, d);
    lemma_digit_value_expanded(a);
    assert(y == 1000 * (y / 1000) + 100 * (y / 100 % 10) + 10 * (y / 10 % 10) + y % 10);
    assert(m == 10 * (m / 10) + m % 10);
    assert(d == 10 * (d / 10) + d % 10);
    assert(a[0] == y / 1000 && a[1] == y / 100 % 10 && a[2] == y / 10 % 10 && a[3] == y % 10);
    assert(a[4] == 0 && a[5] == m / 10 && a[6] == m % 10 && a[7] == 0 && a[8] == d / 10 && a[9] == d % 10);
}

proof fn lemma_digit_char_order(a: int, b: int)
    requires
        0 <= a < 10,
        0 <= b < 10,
    ensures
        (digit_char(a) < digit_char(b)) == (a < b),
        (digit_char(a) == digit_char(b)) == (a == b),
{
}

/// The texts of dates in the years 0 to 9999 sort as the dates do.
proof fn lemma_date_chars_order(y1: int, m1: int, d1: int, y2: int, m2: int, d2: int)
    requires
        0 <= y1 <= 9999,
        0 <= y2 <= 9999,
        1 <= m1 <= 12,
        1 <= m2 <= 12,
        1 <= d1 <= 31,
        1 <= d2 <= 31,
    ensures
        text_le(date_chars(y1, m1, d1), date_chars(y2, m2, d2)) == date_le(y1, m1, d1, y2, m2, d2),
        (date_chars(y1, m1, d1) == date_chars(y2, m2, d2)) == (y1 == y2 && m1 == m2 && d1 == d2),
{
    let t1 = date_chars(y1, m1, d1);
    let t2 = date_chars(y2, m2, d2);
    let a = date_digits(y1, m1, d1);
    let b = date_digits(y2, m2, d2);
    lemma_date_digits_value(y1, m1, d1);
    lemma_date_digits_value(y2, m2, d2);
    assert forall|j: int| 0 <= j < 10 implies (#[trigger] t1[j] < t2[j]) == (a[j] < b[j]) && (
    t1[j] == t2[j]) == (a[j] == b[j]) by {
        if j != 4 && j != 7 {
            lemma_digit_char_order(a[j], b[j]);
        }
    }
    lemma_text_le_suffix(t1, t2, a, b, 0);
    assert(t1.subrange(0, 10) =~= t1);
    assert(t2.subrange(0, 10) =~= t2);
    if t1 == t2 {
        assert(t1[0] == t2[0] && t1[1] == t2[1] && t1[2] == t2[2] && t1[3] == t2[3]);
        assert(t1[5] == t2[5] && t1[6] == t2[6] && t1[8] == t2[8] && t1[9] == t2[9]);
    }
}

/// The date of a time in the four-digit years has a year from 0 to 9999.
proof fn lemma_four_digit_year(secs: int)
    requires
        in_four_digit_years(secs),
    ensures
        ({
            let (y, m, d) = civil_date(day_of_secs(secs));
            0 <= y <= 9999 && is_date_of_day(day_of_secs(secs), y, m, d)
        }),
{
    let day = day_of_secs(secs);
    lemma_every_day_has_one_date(day);
    lemma_four_digit_years_days();
    let (y, m, d) = civil_date(day);
    assert(-719528 <= day <= 2932896);
    if y < 0 {
        lemma_epoch_day_increasing(y, m, d, 0, 1, 1);
    }
    if y > 9999 {
        lemma_epoch_day_increasing(9999, 12, 31, y, m, d);
    }
}

/// The date of a time in the years 0 to 9999 is ten characters:
/// four digits, a dash, two digits, a dash, two digits.
pub proof fn lemma_date_text_shape(secs: int)
    requires
        in_four_digit_years(secs),
    ensures
        date_of_secs(secs).len() == 10,
        date_of_secs(secs)[4] == '-',
        date_of_secs(secs)[7] == '-',
        forall|i: int|
            0 <= i < 10 && i != 4 && i != 7 ==> is_digit_char(#[trigger] date_of_secs(secs)[i]),
{
    lemma_four_digit_year(secs);
    let (y, m, d) = civil_date(day_of_secs(secs));
    lemma_date_text_chars(y, m, d);
    let t = date_chars(y, m, d);
    assert forall|i: int| 0 <= i < 10 && i != 4 && i != 7 implies is_digit_char(#[trigger] t[i]) by {
    }
}

/// Later times in the years 0 to 9999 have dates whose texts sort later or
/// equal, and two times have the same date text exactly when they fall on
/// the same day.
pub proof fn lemma_date_texts_ordered(s1: int, s2: int)
    requires
        in_four_digit_years(s1),
        in_four_digit_years(s2),
        s1 <= s2,
    ensures
        text_le(date_of_secs(s1), date_of_secs(s2)),
        (date_of_secs(s1) == date_of_secs(s2)) == (day_of_secs(s1) == day_of_secs(s2)),
{
    lemma_four_digit_year(s1);
    lemma_four_digit_year(s2);
    let day1 = day_of_secs(s1);
    let day2 = day_of_secs(s2);
    assert(day1 <= day2);
    let (y1, m1, d1) = civil_date(day1);
    let (y2, m2, d2) = civil_date(day2);
    lemma_date_text_chars(y1, m1, d1);
    lemma_date_text_chars(y2, m2, d2);
    lemma_date_chars_order(y1, m1, d1, y2, m2, d2);
    if !date_le(y1, m1, d1, y2, m2, d2) {
        lemma_epoch_day_increasing(y2, m2, d2, y1, m1, d1);
    }
}

} // verus!
