//! The tabular rendering of a series: one row per observation, holding the
//! day (counted from one) and the value with two decimal places, and the
//! reading of such rows.
//!
//! Text is ASCII, held as bytes.

use vstd::prelude::*;

verus! {

/// How many units make one whole: values carry six decimal places.
pub const UNITS_PER_ONE: i64 = 1_000_000;

/// How many units make one hundredth, the precision of the rendering.
pub const UNITS_PER_HUNDREDTH: i64 = 10_000;

/// The absolute value of `v`.
pub open spec fn magnitude(v: int) -> nat {
    if v >= 0 {
        v as nat
    } else {
        (-v) as nat
    }
}

/// The number of hundredths nearest to `m` units; where two are equally
/// near, the even one.
pub open spec fn rounded_magnitude(m: nat) -> nat {
    let q = m / 10_000;
    let r = m % 10_000;
    if r > 5_000 || (r == 5_000 && q % 2 == 1) {
        q + 1
    } else {
        q
    }
}

/// A value in hundredths: the nearest to `v` units, ties going to the even
/// hundredth, negative values mirroring positive ones.
pub open spec fn hundredths_of(v: int) -> int {
    if v >= 0 {
        rounded_magnitude(v as nat) as int
    } else {
        -(rounded_magnitude((-v) as nat) as int)
    }
}

/// The value in units as which the text of `v` is read back: `v` rounded to
/// hundredths. A value below zero that rounds to no hundredth at all is read
/// back as the least value below zero, one unit, so that it stays below zero
/// and is written as before.
pub open spec fn rounded(v: int) -> int {
    if v < 0 && rounded_magnitude(magnitude(v)) == 0 {
        -1
    } else {
        hundredths_of(v) * 10_000
    }
}

/// The character for a digit `d` below ten.
pub open spec fn digit(d: nat) -> u8 {
    (48 + d) as u8
}

/// The decimal numeral of `n`, without leading zeros.
pub open spec fn digits_of(n: nat) -> Seq<u8>
    decreases n,
{
    if n < 10 {
        seq![digit(n)]
    } else {
        digits_of(n / 10).push(digit(n % 10))
    }
}

/// The text of a value of `v` units, with two decimals: a minus sign exactly
/// when the value is below zero, then the magnitude rounded to hundredths, as
/// its whole part, a point, and two digits. So a value below zero that
/// rounds to no hundredth is written "-0.00".
pub open spec fn value_text(v: int) -> Seq<u8> {
    let m = rounded_magnitude(magnitude(v));
    let sign = if v < 0 {
        seq![45u8]
    } else {
        Seq::<u8>::empty()
    };
    sign + digits_of(m / 100) + seq![46u8, digit(m % 100 / 10), digit(m % 10)]
}

/// Rounds a value to hundredths.
pub fn to_hundredths(v: i64) -> (h: i64)
    ensures
        h == hundredths_of(v as int),
{
    let m: i128 = if v >= 0 {
        v as i128
    } else {
        -(v as i128)
    };
    let q: i128 = m / 10_000;
    let r: i128 = m % 10_000;
    let up: i128 = if r > 5_000 || (r == 5_000 && q % 2 == 1) {
        q + 1
    } else {
        q
    };
    if v >= 0 {
        up as i64
    } else {
        (-up) as i64
    }
}

/// Appends the decimal numeral of `n` to `out`.
fn push_digits(out: &mut Vec<u8>, n: u64)
    ensures
        final(out)@ == old(out)@ + digits_of(n as nat),
    decreases n,
{
    if n >= 10 {
        push_digits(out, n / 10);
    }
    let d: u8 = (n % 10) as u8;
    out.push(48 + d);
    assert(final(out)@ =~= old(out)@ + digits_of(n as nat));
}

/// Renders a day number, or any count, as a decimal numeral.
pub fn format_count(n: u64) -> (text: Vec<u8>)
    ensures
        text@ == digits_of(n as nat),
{
    let mut text: Vec<u8> = Vec::new();
    push_digits(&mut text, n);
    assert(text@ =~= digits_of(n as nat));
    text
}

/// Renders a value with two decimal places. The sign goes by the value, the
/// digits by its magnitude rounded to hundredths.
pub fn format_value(v: i64) -> (text: Vec<u8>)
    ensures
        text@ == value_text(v as int),
{
    let h = to_hundredths(v);
    let m: u64 = if h >= 0 {
        h as u64
    } else {
        (-(h as i128)) as u64
    };
    let mut text: Vec<u8> = Vec::new();
    if v < 0 {
        text.push(45u8);
    }
    push_digits(&mut text, m / 100);
    text.push(46u8);
    text.push(48 + ((m % 100) / 10) as u8);
    text.push(48 + (m % 10) as u8);
    assert(text@ =~= value_text(v as int));
    text
}

/// `b` is the character of a decimal digit.
pub open spec fn is_digit(b: u8) -> bool {
    48 <= b <= 57
}

/// The number that a character stands for; zero for what is no digit.
pub open spec fn digit_value(b: u8) -> nat {
    if is_digit(b) {
        (b - 48) as nat
    } else {
        0
    }
}

/// Every character of `t` is a decimal digit.
pub open spec fn all_digits(t: Seq<u8>) -> bool {
    forall|i: int| 0 <= i < t.len() ==> is_digit(#[trigger] t[i])
}

/// The number that a string of digits denotes.
pub open spec fn number_of(t: Seq<u8>) -> nat
    decreases t.len(),
{
    if t.len() == 0 {
        0
    } else {
        number_of(t.drop_last()) * 10 + digit_value(t.last())
    }
}

/// `t` is a decimal numeral: at least one digit, and no leading zero unless
/// it is the single digit zero.
pub open spec fn is_numeral(t: Seq<u8>) -> bool {
    t.len() >= 1 && all_digits(t) && (t.len() >= 2 ==> t[0] != 48)
}

/// The count that `t` denotes, if `t` is a numeral of a number that a `u64`
/// holds.
pub open spec fn parse_count_spec(t: Seq<u8>) -> Option<u64> {
    if is_numeral(t) && number_of(t) <= u64::MAX {
        Some(number_of(t) as u64)
    } else {
        None
    }
}

/// The value in units that `t` denotes, if `t` is the text of a value: an
/// optional minus sign, a numeral, a point and two digits. The text "-0.00"
/// denotes the least value below zero, one unit.
pub open spec fn parse_units(t: Seq<u8>) -> Option<int> {
    let negative = t.len() >= 1 && t[0] == 45;
    let body = if negative {
        t.skip(1)
    } else {
        t
    };
    let n = body.len() as int;
    if n >= 4 && body[n - 3] == 46 && is_numeral(body.take(n - 3)) && is_digit(body[n - 2])
        && is_digit(body[n - 1]) {
        let m = number_of(body.take(n - 3)) * 100 + digit_value(body[n - 2]) * 10 + digit_value(
            body[n - 1],
        );
        if !negative {
            Some((m * 10_000) as int)
        } else if m == 0 {
            Some(-1)
        } else {
            Some(-((m * 10_000) as int))
        }
    } else {
        None
    }
}

/// The value in units that `t` denotes, if `t` is the text of a value that
/// an `i64` holds.
pub open spec fn parse_value_spec(t: Seq<u8>) -> Option<i64> {
    match parse_units(t) {
        Some(u) => if i64::MIN <= u <= i64::MAX {
            Some(u as i64)
        } else {
            None
        },
        None => None,
    }
}

/// A longer string of characters denotes no smaller number than its beginning.
proof fn lemma_number_grows(t: Seq<u8>, k: int)
    requires
        0 <= k <= t.len(),
    ensures
        number_of(t.take(k)) <= number_of(t),
    decreases t.len() - k,
{
    if k == t.len() {
        assert(t.take(k) =~= t);
    } else {
        lemma_number_grows(t.drop_last(), k);
        assert(t.drop_last().take(k) =~= t.take(k));
    }
}

/// Reads the characters of `text` from `start` up to `end` as a numeral of a
/// number that is at most `limit`.
fn read_numeral(text: &[u8], start: usize, end: usize, limit: u64) -> (out: Option<u64>)
    requires
        start <= end <= text@.len(),
    ensures
        out == if is_numeral(text@.subrange(start as int, end as int)) && number_of(
            text@.subrange(start as int, end as int),
        ) <= limit {
            Some(number_of(text@.subrange(start as int, end as int)) as u64)
        } else {
            None
        },
{
    let ghost part = text@.subrange(start as int, end as int);
    if start == end {
        return None;
    }
    if end - start >= 2 && text[start] == 48 {
        return None;
    }
    let mut acc: u128 = 0;
    let mut i: usize = start;
    while i < end
        invariant
            start <= i <= end <= text@.len(),
            part == text@.subrange(start as int, end as int),
            acc == number_of(part.take(i - start)),
            acc <= limit,
            all_digits(part.take(i - start)),
        decreases end - i,
    {
        let b = text[i];
        let ghost longer = part.take(i - start + 1);
        proof {
            assert(longer.drop_last() =~= part.take(i - start));
            assert(longer.last() == b);
        }
        if b < 48 || b > 57 {
            assert(!is_digit(part[i - start]));
            return None;
        }
        acc = acc * 10 + (b - 48) as u128;
        if acc > limit as u128 {
            proof {
                lemma_number_grows(part, i - start + 1);
            }
            return None;
        }
        assert forall|k: int| 0 <= k < longer.len() implies is_digit(#[trigger] longer[k]) by {
            if k < i - start {
                assert(longer[k] == part.take(i - start)[k]);
            }
        }
        i += 1;
    }
    assert(part.take(end - start) =~= part);
    Some(acc as u64)
}

/// Reads a day number, or any count, from its decimal numeral.
pub fn parse_count(text: &[u8]) -> (out: Option<u64>)
    ensures
        out == parse_count_spec(text@),
{
    assert(text@.subrange(0, text@.len() as int) =~= text@);
    read_numeral(text, 0, text.len(), u64::MAX)
}

/// Reads a value from its text with two decimal places.
pub fn parse_value(text: &[u8]) -> (out: Option<i64>)
    ensures
        out == parse_value_spec(text@),
{
    let len = text.len();
    let negative = len >= 1 && text[0] == 45;
    let start: usize = if negative {
        1
    } else {
        0
    };
    let ghost body = if negative {
        text@.skip(1)
    } else {
        text@
    };
    if len - start < 4 {
        return None;
    }
    let point = len - 3;
    assert(body.len() == len - start);
    assert(body[body.len() - 3] == text@[point as int]);
    assert(body[body.len() - 2] == text@[point + 1]);
    assert(body[body.len() - 1] == text@[point + 2]);
    assert(body.take(body.len() - 3) =~= text@.subrange(start as int, point as int));
    if text[point] != 46 {
        return None;
    }
    let tens = text[point + 1];
    let ones = text[point + 2];
    if tens < 48 || tens > 57 || ones < 48 || ones > 57 {
        return None;
    }
    let whole = match read_numeral(text, start, point, 9_223_372_036_854) {
        Some(w) => w,
        None => {
            return None;
        },
    };
    let m: i128 = (whole as i128) * 100 + ((tens - 48) as i128) * 10 + (ones - 48) as i128;
    if m > 922_337_203_685_477 {
        return None;
    }
    if negative {
        if m == 0 {
            Some(-1)
        } else {
            Some((-m * 10_000) as i64)
        }
    } else {
        Some((m * 10_000) as i64)
    }
}

/// The numeral of `n` is a numeral, and it denotes `n`.
pub proof fn lemma_digits_denote(n: nat)
    ensures
        is_numeral(digits_of(n)),
        number_of(digits_of(n)) == n,
        n >= 1 ==> digits_of(n)[0] != 48,
    decreases n,
{
    let d = digits_of(n);
    if n < 10 {
        assert(d.drop_last() =~= Seq::<u8>::empty());
        assert(number_of(d.drop_last()) == 0);
    } else {
        lemma_digits_denote(n / 10);
        let front = digits_of(n / 10);
        assert(d.drop_last() =~= front);
        assert(d.last() == digit(n % 10));
        assert(d[0] == front[0]);
        assert forall|i: int| 0 <= i < d.len() implies is_digit(#[trigger] d[i]) by {
            if i < front.len() {
                assert(d[i] == front[i]);
            }
        }
    }
}

/// The text of a value is read back as the value rounded to hundredths.
pub proof fn lemma_text_denotes(v: int)
    ensures
        parse_units(value_text(v)) == Some(rounded(v)),
{
    let m = rounded_magnitude(magnitude(v));
    let whole = digits_of(m / 100);
    let tail = seq![46u8, digit(m % 100 / 10), digit(m % 10)];
    let t = value_text(v);
    lemma_digits_denote(m / 100);
    let negative = t.len() >= 1 && t[0] == 45;
    if v < 0 {
        assert(t =~= seq![45u8] + whole + tail);
        assert(t[0] == 45);
        assert(t.skip(1) =~= whole + tail);
    } else {
        assert(t =~= whole + tail);
        assert(t[0] == whole[0]);
        assert(is_digit(whole[0]));
    }
    let body = if negative {
        t.skip(1)
    } else {
        t
    };
    assert(body =~= whole + tail);
    let n = body.len() as int;
    assert(n == whole.len() + 3);
    assert(body[n - 3] == tail[0]);
    assert(body[n - 2] == tail[1]);
    assert(body[n - 1] == tail[2]);
    assert(body.take(n - 3) =~= whole);
    assert(m == (m / 100) * 100 + (m % 100 / 10) * 10 + m % 10);
}

/// Round trip of one value: its text is read back as the value rounded to
/// hundredths, wherever that rounded value can be held.
pub proof fn lemma_value_round_trip(v: i64)
    requires
        i64::MIN <= rounded(v as int) <= i64::MAX,
    ensures
        parse_value_spec(value_text(v as int)) == Some(rounded(v as int) as i64),
{
    lemma_text_denotes(v as int);
}

/// Rounding is within half a hundredth of the value and keeps its sign; a
/// value that is a whole number of hundredths is left as it is; and what was
/// read back is written as the same text again.
pub proof fn lemma_rounded_is_near(v: int)
    ensures
        -5_000 <= rounded(v) - v <= 5_000,
        v < 0 <==> rounded(v) < 0,
        v % 10_000 == 0 ==> rounded(v) == v,
        rounded(rounded(v)) == rounded(v),
        value_text(rounded(v)) == value_text(v),
{
}

/// The text of a value begins with a minus sign exactly when the value is
/// below zero.
pub proof fn lemma_sign_goes_by_value(v: int)
    ensures
        value_text(v).len() >= 4,
        value_text(v)[0] == 45u8 <==> v < 0,
{
    let m = rounded_magnitude(magnitude(v));
    let whole = digits_of(m / 100);
    let tail = seq![46u8, digit(m % 100 / 10), digit(m % 10)];
    lemma_digits_denote(m / 100);
    if v < 0 {
        assert(value_text(v) =~= seq![45u8] + whole + tail);
    } else {
        assert(value_text(v) =~= whole + tail);
        assert(value_text(v)[0] == whole[0]);
        assert(is_digit(whole[0]));
    }
}

/// One row of the table, as text.
#[derive(Clone, Debug, PartialEq, Eq)]
pub struct Row {
    /// The day, counted from one.
    pub day: Vec<u8>,
    /// The value, with two decimal places.
    pub value: Vec<u8>,
}

impl DeepView for Row {
    type V = (Seq<u8>, Seq<u8>);

    open spec fn deep_view(&self) -> (Seq<u8>, Seq<u8>) {
        (self.day@, self.value@)
    }
}

/// The rows of a series: row `i` holds the day `i + 1` and the text of
/// observation `i`.
pub open spec fn rows_of(s: Seq<i64>) -> Seq<(Seq<u8>, Seq<u8>)> {
    Seq::new(s.len(), |i: int| (digits_of((i + 1) as nat), value_text(s[i] as int)))
}

/// The value that row number `index` (counted from zero) holds, if the row
/// carries the day `index + 1` and the text of a value.
pub open spec fn row_value(row: (Seq<u8>, Seq<u8>), index: int) -> Option<i64> {
    if is_numeral(row.0) && number_of(row.0) == index + 1 {
        parse_value_spec(row.1)
    } else {
        None
    }
}

/// Every row carries its day and the text of a value.
pub open spec fn rows_readable(rows: Seq<(Seq<u8>, Seq<u8>)>) -> bool {
    forall|i: int| 0 <= i < rows.len() ==> (#[trigger] row_value(rows[i], i)) is Some
}

/// The series that readable rows hold.
pub open spec fn series_of(rows: Seq<(Seq<u8>, Seq<u8>)>) -> Seq<i64> {
    Seq::new(rows.len(), |i: int| row_value(rows[i], i).unwrap())
}

/// The heading of the table: "Day" and "Value".
pub fn header() -> (row: Row)
    ensures
        row.day@ == seq![68u8, 97u8, 121u8],
        row.value@ == seq![86u8, 97u8, 108u8, 117u8, 101u8],
{
    let mut day: Vec<u8> = Vec::new();
    day.push(68);
    day.push(97);
    day.push(121);
    let mut value: Vec<u8> = Vec::new();
    value.push(86);
    value.push(97);
    value.push(108);
    value.push(117);
    value.push(101);
    assert(day@ =~= seq![68u8, 97u8, 121u8]);
    assert(value@ =~= seq![86u8, 97u8, 108u8, 117u8, 101u8]);
    Row { day, value }
}

/// Renders a series as rows, in order; the heading is not among them.
pub fn export_rows(series: &[i64]) -> (rows: Vec<Row>)
    ensures
        rows.deep_view() == rows_of(series@),
{
    let n = series.len();
    let mut rows: Vec<Row> = Vec::new();
    let mut i: usize = 0;
    while i < n
        invariant
            i <= n == series@.len(),
            rows@.len() == i,
            forall|k: int| 0 <= k < i ==> (#[trigger] rows@[k]).deep_view() == rows_of(series@)[k],
        decreases n - i,
    {
        let day = format_count(i as u64 + 1);
        let value = format_value(series[i]);
        rows.push(Row { day, value });
        i += 1;
    }
    assert(rows.deep_view() =~= rows_of(series@));
    rows
}

/// Reads a series back from its rows (without the heading).
///
/// The rows are read only if each carries its own day, counted from one in
/// order, and the text of a value; otherwise nothing is returned.
pub fn import_rows(rows: &[Row]) -> (out: Option<Vec<i64>>)
    ensures
        out is Some <==> rows_readable(rows.deep_view()),
        out matches Some(series) ==> series@ == series_of(rows.deep_view()),
{
    let n = rows.len();
    let ghost table = rows.deep_view();
    let mut series: Vec<i64> = Vec::new();
    let mut i: usize = 0;
    while i < n
        invariant
            i <= n == rows@.len(),
            table == rows.deep_view(),
            table.len() == n,
            series@.len() == i,
            forall|k: int| 0 <= k < i ==> (#[trigger] row_value(table[k], k)) == Some(series@[k]),
        decreases n - i,
    {
        assert(table[i as int] == rows@[i as int].deep_view());
        let day = parse_count(rows[i].day.as_slice());
        let value = parse_value(rows[i].value.as_slice());
        match (day, value) {
            (Some(d), Some(v)) if d == i as u64 + 1 => {
                series.push(v);
            },
            _ => {
                assert(row_value(table[i as int], i as int) is None);
                return None;
            },
        }
        i += 1;
    }
    assert(series@ =~= series_of(table));
    Some(series)
}

/// Round trip of a table: the rows of a series are readable, and they hold
/// the series in its order, each value rounded to hundredths; this for every
/// series whose rounded values can be held.
pub proof fn lemma_rows_round_trip(s: Seq<i64>)
    requires
        forall|i: int| 0 <= i < s.len() ==> i64::MIN <= #[trigger] rounded(s[i] as int) <= i64::MAX,
    ensures
        rows_readable(rows_of(s)),
        series_of(rows_of(s)).len() == s.len(),
        forall|i: int| 0 <= i < s.len() ==> #[trigger] series_of(rows_of(s))[i] == rounded(s[i] as int),
{
    let rows = rows_of(s);
    assert forall|i: int| 0 <= i < rows.len() implies row_value(rows[i], i) == Some(
        rounded(s[i] as int) as i64,
    ) by {
        lemma_digits_denote((i + 1) as nat);
        assert(i64::MIN <= rounded(s[i] as int) <= i64::MAX);
        lemma_value_round_trip(s[i]);
    }
    assert forall|i: int| 0 <= i < rows.len() implies (#[trigger] row_value(rows[i], i)) is Some by {
        assert(row_value(rows[i], i) == Some(rounded(s[i] as int) as i64));
    }
    assert forall|i: int| 0 <= i < s.len() implies #[trigger] series_of(rows)[i] == rounded(
        s[i] as int,
    ) by {
        assert(row_value(rows[i], i) == Some(rounded(s[i] as int) as i64));
    }
}

} // verus!
