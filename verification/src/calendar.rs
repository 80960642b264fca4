//! Dates for the created-at range filter: leap years, month lengths,
//! weekdays, the six-week month grid, `YYYY-MM-DD` text, and the two-click
//! range selection.

use vstd::prelude::*;
use vstd::string::*;
use crate::text::{
    all_digits, chars_of, split_chars, split_on, decimal, is_digit, parse_unsigned,
    parse_unsigned_chars, push_char, push_zero_padded, unsigned_body, zero_padded,
};

verus! {

/// A calendar date.
#[derive(Clone, Copy, Debug, PartialEq, Eq, PartialOrd, Ord, Structural)]
pub struct SimpleDate {
    pub year: i32,
    pub month: u32,
    pub day: u32,
}

/// A month of a year.
#[derive(Clone, Copy, Debug, PartialEq, Eq, Structural)]
pub struct YearMonth {
    pub year: i32,
    pub month: u32,
}

/// One cell of the month grid.
#[derive(Clone, Copy, Debug, PartialEq, Eq, Structural)]
pub struct CalendarCell {
    pub date: SimpleDate,
    pub current_month: bool,
}

// ---------------------------------------------------------------------------
// Specifications
// ---------------------------------------------------------------------------

/// Dates ordered by year, then month, then day.
pub open spec fn date_lt(a: SimpleDate, b: SimpleDate) -> bool {
    ||| a.year < b.year
    ||| a.year == b.year && a.month < b.month
    ||| a.year == b.year && a.month == b.month && a.day < b.day
}

pub open spec fn leap(y: int) -> bool {
    (y % 4 == 0 && y % 100 != 0) || y % 400 == 0
}

/// Days in a month; an out-of-range month counts 30 days.
pub open spec fn month_days(y: int, m: int) -> nat {
    if m == 1 || m == 3 || m == 5 || m == 7 || m == 8 || m == 10 || m == 12 {
        31
    } else if m == 4 || m == 6 || m == 9 || m == 11 {
        30
    } else if m == 2 {
        if leap(y) { 29 } else { 28 }
    } else {
        30
    }
}

/// Division truncating toward zero, as machine integers divide (`b > 0`).
pub open spec fn tdiv(a: int, b: int) -> int {
    if a >= 0 { a / b } else { -((-a) / b) }
}

/// Remainder of `tdiv`, with the sign of `a`.
pub open spec fn trem(a: int, b: int) -> int {
    a - b * tdiv(a, b)
}

/// Zeller's congruence on machine integers, shifted so Monday is 0 and Sunday
/// is 6.
pub open spec fn weekday_monday(year: int, month: int, day: int) -> int {
    let y = if month < 3 { year - 1 } else { year };
    let m = if month < 3 { month + 12 } else { month };
    let k = trem(y, 100);
    let j = tdiv(y, 100);
    let h = trem(day + tdiv(13 * (m + 1), 5) + k + tdiv(k, 4) + tdiv(j, 4) + 5 * j, 7);
    trem(h + 5, 7)
}

pub open spec fn ym_previous(m: YearMonth) -> YearMonth {
    if m.month == 1 {
        YearMonth { year: (m.year - 1) as i32, month: 12 }
    } else {
        YearMonth { year: m.year, month: (m.month - 1) as u32 }
    }
}

pub open spec fn ym_next(m: YearMonth) -> YearMonth {
    if m.month == 12 {
        YearMonth { year: (m.year + 1) as i32, month: 1 }
    } else {
        YearMonth { year: m.year, month: (m.month + 1) as u32 }
    }
}

/// Cell `i` (0..42) of the six-week grid of `m`, weeks starting on Monday:
/// the tail of the previous month, the month itself, then the next month.
pub open spec fn grid_cell(m: YearMonth, i: int) -> CalendarCell {
    let first = weekday_monday(m.year as int, m.month as int, 1);
    let days = month_days(m.year as int, m.month as int);
    let prev = ym_previous(m);
    let next = ym_next(m);
    if i < first {
        CalendarCell {
            date: SimpleDate {
                year: prev.year,
                month: prev.month,
                day: (month_days(prev.year as int, prev.month as int) - first + i + 1) as u32,
            },
            current_month: false,
        }
    } else if i < first + days {
        CalendarCell { date: SimpleDate { year: m.year, month: m.month, day: (i - first + 1) as u32 }, current_month: true }
    } else {
        CalendarCell { date: SimpleDate { year: next.year, month: next.month, day: (i - first - days + 1) as u32 }, current_month: false }
    }
}

/// The date written `Y-M-D`: three parts, each an unsigned decimal number in
/// range, with a month 1..=12 and a day that exists in that month.
pub open spec fn parse_date_spec(s: Seq<char>) -> Option<SimpleDate> {
    let parts = split_on(s, '-');
    if parts.len() != 3 {
        None
    } else {
        let y = parse_unsigned(parts[0], i32::MAX as int);
        let m = parse_unsigned(parts[1], u32::MAX as int);
        let d = parse_unsigned(parts[2], u32::MAX as int);
        if y is Some && m is Some && d is Some && 1 <= m->0 <= 12 && d->0 != 0 && d->0 <= month_days(y->0, m->0) {
            Some(SimpleDate { year: y->0 as i32, month: m->0 as u32, day: d->0 as u32 })
        } else {
            None
        }
    }
}

/// `Y-M-D` text: the year zero-padded to four digits (a negative year keeps
/// its sign in front of three padded digits), month and day to two.
pub open spec fn format_date_spec(d: SimpleDate) -> Seq<char> {
    let year = if d.year < 0 {
        seq!['-'] + zero_padded((-d.year) as nat, 3)
    } else {
        zero_padded(d.year as nat, 4)
    };
    year + seq!['-'] + zero_padded(d.month as nat, 2) + seq!['-'] + zero_padded(d.day as nat, 2)
}

// ---------------------------------------------------------------------------
// Executable functions
// ---------------------------------------------------------------------------

/// Whether `a` comes strictly before `b`.
pub fn date_before(a: SimpleDate, b: SimpleDate) -> (r: bool)
    ensures
        r == date_lt(a, b),
{
    a.year < b.year || (a.year == b.year && a.month < b.month) || (a.year == b.year && a.month == b.month
        && a.day < b.day)
}

/// Gregorian leap-year rule.
pub fn is_leap_year(year: i32) -> (r: bool)
    ensures
        r == leap(year as int),
{
    let a: i64 = if year < 0 { -(year as i64) } else { year as i64 };
    proof {
        lemma_divisible_sign(year as int, 4);
        lemma_divisible_sign(year as int, 100);
        lemma_divisible_sign(year as int, 400);
    }
    (a % 4 == 0 && a % 100 != 0) || a % 400 == 0
}

proof fn lemma_divisible_sign(a: int, d: int)
    requires
        d > 0,
    ensures
        (a % d == 0) == ((-a) % d == 0),
{
    if a % d == 0 {
        let q = a / d;
        assert(a == d * q) by (nonlinear_arith)
            requires
                d > 0,
                a % d == 0,
                q == a / d,
        ;
        assert(-a == d * (-q)) by (nonlinear_arith)
            requires
                a == d * q,
        ;
        vstd::arithmetic::div_mod::lemma_mod_multiples_basic(-q, d);
        assert((-q) * d == d * (-q)) by (nonlinear_arith);
    }
    if (-a) % d == 0 {
        let q = (-a) / d;
        assert(-a == d * q) by (nonlinear_arith)
            requires
                d > 0,
                (-a) % d == 0,
                q == (-a) / d,
        ;
        vstd::arithmetic::div_mod::lemma_mod_multiples_basic(-q, d);
        assert((-q) * d == a) by (nonlinear_arith)
            requires
                -a == d * q,
        ;
    }
}

/// Days in `month` of `year` (30 for an out-of-range month).
pub fn days_in_month(year: i32, month: u32) -> (r: u32)
    ensures
        r == month_days(year as int, month as int),
{
    match month {
        1 | 3 | 5 | 7 | 8 | 10 | 12 => 31,
        4 | 6 | 9 | 11 => 30,
        2 => if is_leap_year(year) { 29 } else { 28 },
        _ => 30,
    }
}

/// Whether Zeller's congruence for the date stays within `i32`, as it is
/// computed: no step of the sum overflows.
pub open spec fn weekday_fits(year: int, month: int, day: int) -> bool {
    let y = if month < 3 { year - 1 } else { year };
    let m = if month < 3 { month + 12 } else { month };
    let k = trem(y, 100);
    let j = tdiv(y, 100);
    let a = tdiv(13 * (m + 1), 5);
    &&& i32::MIN <= y
    &&& month <= i32::MAX && day <= i32::MAX
    &&& 13 * (m + 1) <= i32::MAX
    &&& day + a <= i32::MAX
    &&& day + a + k <= i32::MAX
    &&& day + a + k + tdiv(k, 4) <= i32::MAX
    &&& day + a + k + tdiv(k, 4) + tdiv(j, 4) <= i32::MAX
    &&& day + a + k + tdiv(k, 4) + tdiv(j, 4) + 5 * j <= i32::MAX
}

/// The weekday index as an unsigned number: a negative remainder (years
/// before 0) wraps around as the cast to `u32` does.
pub open spec fn weekday_u32(t: int) -> int {
    if t >= 0 { t } else { t + 0x1_0000_0000 }
}

/// Weekday of a date, Monday = 0 through Sunday = 6 (for dates whose
/// congruence is not negative).
pub fn weekday_index_monday(year: i32, month: u32, day: u32) -> (r: u32)
    requires
        weekday_fits(year as int, month as int, day as int),
    ensures
        r == weekday_u32(weekday_monday(year as int, month as int, day as int)),
        weekday_monday(year as int, month as int, day as int) >= 0 ==> r < 7,
{
    let (y, m): (i32, i32) = if month < 3 { (year - 1, month as i32 + 12) } else { (year, month as i32) };
    let k = y % 100;
    let j = y / 100;
    assert(-100 < k < 100);
    assert(-21474837 <= j <= 21474837);
    let h = (day as i32 + ((13 * (m + 1)) / 5) + k + (k / 4) + (j / 4) + (5 * j)) % 7;
    let t = (h + 5) % 7;
    if t >= 0 {
        t as u32
    } else {
        ((t as i64) + 0x1_0000_0000) as u32
    }
}

impl YearMonth {
    /// The month before.
    pub fn previous(self) -> (r: Self)
        requires
            self.month != 1 || self.year > i32::MIN,
            self.month >= 1,
        ensures
            r == ym_previous(self),
    {
        if self.month == 1 {
            YearMonth { year: self.year - 1, month: 12 }
        } else {
            YearMonth { year: self.year, month: self.month - 1 }
        }
    }

    /// The month after.
    pub fn next(self) -> (r: Self)
        requires
            self.month != 12 || self.year < i32::MAX,
            self.month < u32::MAX,
        ensures
            r == ym_next(self),
    {
        if self.month == 12 {
            YearMonth { year: self.year + 1, month: 1 }
        } else {
            YearMonth { year: self.year, month: self.month + 1 }
        }
    }
}

/// The six-week grid (42 cells) shown for `month`.
pub fn calendar_cells(month: YearMonth) -> (r: Vec<CalendarCell>)
    requires
        month.month != 1 || month.year > i32::MIN,
        month.month != 12 || month.year < i32::MAX,
        1 <= month.month <= 12,
        weekday_fits(month.year as int, month.month as int, 1),
        weekday_monday(month.year as int, month.month as int, 1) >= 0,
    ensures
        r@.len() == 42,
        forall|i: int| 0 <= i < 42 ==> #[trigger] r@[i] == grid_cell(month, i),
{
    let first_weekday = weekday_index_monday(month.year, month.month, 1);
    let current_days = days_in_month(month.year, month.month);
    let previous = month.previous();
    let previous_days = days_in_month(previous.year, previous.month);
    let next = month.next();
    let mut cells: Vec<CalendarCell> = Vec::new();
    let mut i: u32 = 0;
    while i < first_weekday
        invariant
            first_weekday < 7,
            first_weekday == weekday_monday(month.year as int, month.month as int, 1),
            previous == ym_previous(month),
            previous_days == month_days(previous.year as int, previous.month as int),
            previous_days >= 28,
            i <= first_weekday,
            cells@.len() == i,
            forall|k: int| 0 <= k < i ==> #[trigger] cells@[k] == grid_cell(month, k),
        decreases first_weekday - i,
    {
        cells.push(CalendarCell {
            date: SimpleDate { year: previous.year, month: previous.month, day: previous_days - first_weekday + i + 1 },
            current_month: false,
        });
        i = i + 1;
    }
    let mut day: u32 = 1;
    while day <= current_days
        invariant
            first_weekday < 7,
            first_weekday == weekday_monday(month.year as int, month.month as int, 1),
            current_days == month_days(month.year as int, month.month as int),
            current_days <= 31,
            1 <= day <= current_days + 1,
            cells@.len() == first_weekday + day - 1,
            forall|k: int| 0 <= k < cells@.len() ==> #[trigger] cells@[k] == grid_cell(month, k),
        decreases current_days + 1 - day,
    {
        cells.push(CalendarCell { date: SimpleDate { year: month.year, month: month.month, day }, current_month: true });
        day = day + 1;
    }
    let mut day: u32 = 1;
    while cells.len() < 42
        invariant
            first_weekday < 7,
            first_weekday == weekday_monday(month.year as int, month.month as int, 1),
            current_days == month_days(month.year as int, month.month as int),
            current_days <= 31,
            next == ym_next(month),
            cells@.len() <= 42,
            cells@.len() >= first_weekday + current_days,
            day == cells@.len() - first_weekday - current_days + 1,
            forall|k: int| 0 <= k < cells@.len() ==> #[trigger] cells@[k] == grid_cell(month, k),
        decreases 42 - cells@.len(),
    {
        cells.push(CalendarCell { date: SimpleDate { year: next.year, month: next.month, day }, current_month: false });
        day = day + 1;
    }
    cells
}

/// String-table key of a month's name (`12` and anything out of range read as
/// December).
pub fn month_name_key(month: u32) -> (r: &'static str)
    ensures
        month == 1 ==> r@ == "date.month_january"@,
        month == 2 ==> r@ == "date.month_february"@,
        month == 3 ==> r@ == "date.month_march"@,
        month == 4 ==> r@ == "date.month_april"@,
        month == 5 ==> r@ == "date.month_may"@,
        month == 6 ==> r@ == "date.month_june"@,
        month == 7 ==> r@ == "date.month_july"@,
        month == 8 ==> r@ == "date.month_august"@,
        month == 9 ==> r@ == "date.month_september"@,
        month == 10 ==> r@ == "date.month_october"@,
        month == 11 ==> r@ == "date.month_november"@,
        (month == 0 || month >= 12) ==> r@ == "date.month_december"@,
{
    match month {
        1 => "date.month_january",
        2 => "date.month_february",
        3 => "date.month_march",
        4 => "date.month_april",
        5 => "date.month_may",
        6 => "date.month_june",
        7 => "date.month_july",
        8 => "date.month_august",
        9 => "date.month_september",
        10 => "date.month_october",
        11 => "date.month_november",
        _ => "date.month_december",
    }
}

/// String-table keys of the weekday column headers, Monday first.
pub fn week_label_keys() -> (r: Vec<&'static str>)
    ensures
        r@.len() == 7,
        r@[0]@ == "date.week_monday"@,
        r@[1]@ == "date.week_tuesday"@,
        r@[2]@ == "date.week_wednesday"@,
        r@[3]@ == "date.week_thursday"@,
        r@[4]@ == "date.week_friday"@,
        r@[5]@ == "date.week_saturday"@,
        r@[6]@ == "date.week_sunday"@,
{
    vec![
        "date.week_monday",
        "date.week_tuesday",
        "date.week_wednesday",
        "date.week_thursday",
        "date.week_friday",
        "date.week_saturday",
        "date.week_sunday",
    ]
}

/// Parse `Y-M-D` text into a date.
pub fn parse_date(value: &str) -> (r: Option<SimpleDate>)
    ensures
        r == parse_date_spec(value@),
{
    let v = chars_of(value);
    let parts = split_chars(&v, '-');
    let ghost pv = parts@.map_values(|p: Vec<char>| p@);
    if parts.len() != 3 {
        return None;
    }
    assert(pv[0] == parts@[0]@ && pv[1] == parts@[1]@ && pv[2] == parts@[2]@);
    let year = parse_unsigned_chars(&parts[0], 2147483647);
    let month = parse_unsigned_chars(&parts[1], 4294967295);
    let day = parse_unsigned_chars(&parts[2], 4294967295);
    match (year, month, day) {
        (Some(y), Some(m), Some(d)) => {
            let y = y as i32;
            let m = m as u32;
            let d = d as u32;
            if !(1 <= m && m <= 12) || d == 0 {
                return None;
            }
            if d > days_in_month(y, m) {
                return None;
            }
            Some(SimpleDate { year: y, month: m, day: d })
        },
        _ => None,
    }
}

/// `Y-M-D` text of a date.
pub fn format_date(date: SimpleDate) -> (r: String)
    ensures
        r@ == format_date_spec(date),
{
    let mut r = String::new();
    if date.year < 0 {
        push_char(&mut r, '-');
        let abs: i64 = -(date.year as i64);
        push_zero_padded(&mut r, abs as u64, 3);
    } else {
        push_zero_padded(&mut r, date.year as u64, 4);
    }
    push_char(&mut r, '-');
    push_zero_padded(&mut r, date.month as u64, 2);
    push_char(&mut r, '-');
    push_zero_padded(&mut r, date.day as u64, 2);
    assert(r@ =~= format_date_spec(date));
    r
}

// ---------------------------------------------------------------------------
// Text round trip
// ---------------------------------------------------------------------------

pub open spec fn dash_free(b: Seq<char>) -> bool {
    forall|i: int| 0 <= i < b.len() ==> #[trigger] b[i] != '-'
}

proof fn lemma_split_extend(a: Seq<char>, b: Seq<char>)
    requires
        dash_free(b),
    ensures
        split_on(a + b, '-') == split_on(a, '-').update(split_on(a, '-').len() - 1, split_on(a, '-').last() + b),
    decreases b.len(),
{
    crate::text::lemma_split_nonempty(a, '-');
    let sa = split_on(a, '-');
    if b.len() == 0 {
        assert(a + b =~= a);
        assert(sa.last() + b =~= sa.last());
        assert(sa.update(sa.len() - 1, sa.last()) =~= sa);
    } else {
        let bd = b.drop_last();
        assert(dash_free(bd)) by {
            assert forall|i: int| 0 <= i < bd.len() implies #[trigger] bd[i] != '-' by {
                assert(b[i] != '-');
            }
        }
        lemma_split_extend(a, bd);
        assert((a + b).drop_last() =~= a + bd);
        assert((a + b).last() == b.last());
        assert(b[b.len() - 1] != '-');
        assert((sa.last() + bd).push(b.last()) =~= sa.last() + b);
        assert(sa.update(sa.len() - 1, sa.last() + bd).update(sa.len() - 1, sa.last() + b)
            =~= sa.update(sa.len() - 1, sa.last() + b));
    }
}

proof fn lemma_split_dash_end(a: Seq<char>)
    ensures
        split_on(a + seq!['-'], '-') == split_on(a, '-').push(Seq::<char>::empty()),
{
    assert((a + seq!['-']).drop_last() =~= a);
}

proof fn lemma_digits_dash_free(d: Seq<char>)
    requires
        all_digits(d),
    ensures
        dash_free(d),
{
    assert forall|i: int| 0 <= i < d.len() implies #[trigger] d[i] != '-' by {
        assert(is_digit(d[i]));
    }
}

proof fn lemma_three_parts(y: Seq<char>, m: Seq<char>, d: Seq<char>)
    requires
        dash_free(y),
        dash_free(m),
        dash_free(d),
    ensures
        split_on(y + seq!['-'] + m + seq!['-'] + d, '-') == seq![y, m, d],
{
    let e = Seq::<char>::empty();
    assert(split_on(e, '-') == seq![e]);
    lemma_split_extend(e, y);
    assert(e + y =~= y);
    assert(split_on(y, '-') =~= seq![y]);
    lemma_split_dash_end(y);
    lemma_split_extend(y + seq!['-'], m);
    assert(split_on(y + seq!['-'] + m, '-') =~= seq![y, m]);
    lemma_split_dash_end(y + seq!['-'] + m);
    lemma_split_extend(y + seq!['-'] + m + seq!['-'], d);
    assert(split_on(y + seq!['-'] + m + seq!['-'] + d, '-') =~= seq![y, m, d]);
}

proof fn lemma_parse_padded(n: nat, width: nat, max: int)
    requires
        n <= max,
    ensures
        parse_unsigned(zero_padded(n, width), max) == Some(n as int),
        dash_free(zero_padded(n, width)),
{
    crate::text::lemma_zero_padded_reads_back(n, width);
    let z = zero_padded(n, width);
    assert(is_digit(z[0]));
    assert(unsigned_body(z) == z);
    lemma_digits_dash_free(z);
}

/// Writing a date and reading the text back gives the same date: the range
/// filter stores the picked bounds as text and the picker reopens on them.
pub proof fn law_date_text_round_trip(d: SimpleDate)
    requires
        d.year >= 0,
        1 <= d.month <= 12,
        1 <= d.day <= month_days(d.year as int, d.month as int),
    ensures
        parse_date_spec(format_date_spec(d)) == Some(d),
{
    let y = zero_padded(d.year as nat, 4);
    let m = zero_padded(d.month as nat, 2);
    let dd = zero_padded(d.day as nat, 2);
    lemma_parse_padded(d.year as nat, 4, i32::MAX as int);
    lemma_parse_padded(d.month as nat, 2, u32::MAX as int);
    lemma_parse_padded(d.day as nat, 2, u32::MAX as int);
    lemma_three_parts(y, m, dd);
    assert(format_date_spec(d) == y + seq!['-'] + m + seq!['-'] + dd);
}

// ---------------------------------------------------------------------------
// Range selection
// ---------------------------------------------------------------------------

/// The range being picked in the calendar before it is applied.
#[derive(Clone, Copy, Debug, PartialEq, Eq, Structural)]
pub struct DateRangeDraft {
    pub from: Option<SimpleDate>,
    pub to: Option<SimpleDate>,
}

/// A click on `date`: with no start, or a complete range, it starts a new
/// range; with only a start, a date before it becomes the start (the old start
/// the end), the start itself resets the end, and a later date ends the range.
pub open spec fn draft_select(r: DateRangeDraft, date: SimpleDate) -> DateRangeDraft {
    match (r.from, r.to) {
        (Some(start), None) => {
            if date_lt(date, start) {
                DateRangeDraft { from: Some(date), to: Some(start) }
            } else if date == start {
                DateRangeDraft { from: Some(date), to: None }
            } else {
                DateRangeDraft { from: r.from, to: Some(date) }
            }
        },
        _ => DateRangeDraft { from: Some(date), to: None },
    }
}

impl DateRangeDraft {
    /// The draft that `from` and `to` (stored as text) reopen the picker with.
    pub fn from_text(from: &str, to: &str) -> (r: Self)
        ensures
            r.from == parse_date_spec(from@),
            r.to == parse_date_spec(to@),
    {
        DateRangeDraft { from: parse_date(from), to: parse_date(to) }
    }

    /// Apply a click on `date`.
    pub fn select(&mut self, date: SimpleDate)
        ensures
            *final(self) == draft_select(*old(self), date),
    {
        match (self.from, self.to) {
            (Some(start), None) => {
                if date_before(date, start) {
                    self.from = Some(date);
                    self.to = Some(start);
                } else if date == start {
                    self.from = Some(date);
                    self.to = None;
                } else {
                    self.to = Some(date);
                }
            },
            _ => {
                self.from = Some(date);
                self.to = None;
            },
        }
    }

    /// Whether `date` lies strictly inside a complete range.
    pub fn in_range(&self, date: SimpleDate) -> (r: bool)
        ensures
            r == (self.from is Some && self.to is Some && date_lt(self.from->0, date) && date_lt(date, self.to->0)),
    {
        match (self.from, self.to) {
            (Some(start), Some(end)) => date_before(start, date) && date_before(date, end),
            _ => false,
        }
    }

    /// Whether `date` is one of the range's ends.
    pub fn is_selected(&self, date: SimpleDate) -> (r: bool)
        ensures
            r == (self.from == Some(date) || self.to == Some(date)),
    {
        self.from == Some(date) || self.to == Some(date)
    }

    /// The text the filter stores when the range is applied (empty for a
    /// missing end).
    pub fn applied_text(&self) -> (r: (String, String))
        ensures
            self.from is Some ==> r.0@ == format_date_spec(self.from->0),
            self.from is None ==> r.0@.len() == 0,
            self.to is Some ==> r.1@ == format_date_spec(self.to->0),
            self.to is None ==> r.1@.len() == 0,
    {
        let from = match self.from {
            Some(d) => format_date(d),
            None => String::new(),
        };
        let to = match self.to {
            Some(d) => format_date(d),
            None => String::new(),
        };
        (from, to)
    }
}

/// Clicking through the calendar keeps a complete range ordered: when both
/// ends are set, the start comes strictly before the end.
pub proof fn law_range_stays_ordered(r: DateRangeDraft, date: SimpleDate)
    requires
        r.from is Some && r.to is Some ==> date_lt(r.from->0, r.to->0),
    ensures
        ({
            let n = draft_select(r, date);
            n.from is Some && n.to is Some ==> date_lt(n.from->0, n.to->0)
        }),
{
}

/// The month the picker opens on: the month of the stored start, else of the
/// stored end, else `today`.
pub fn initial_calendar_month(from: &str, to: &str, today: YearMonth) -> (r: YearMonth)
    ensures
        parse_date_spec(from@) is Some ==> r == (YearMonth { year: parse_date_spec(from@)->0.year, month: parse_date_spec(from@)->0.month }),
        parse_date_spec(from@) is None && parse_date_spec(to@) is Some ==> r == (YearMonth { year: parse_date_spec(to@)->0.year, month: parse_date_spec(to@)->0.month }),
        parse_date_spec(from@) is None && parse_date_spec(to@) is None ==> r == today,
{
    match parse_date(from) {
        Some(d) => YearMonth { year: d.year, month: d.month },
        None => match parse_date(to) {
            Some(d) => YearMonth { year: d.year, month: d.month },
            None => today,
        },
    }
}

/// Which of the four label forms the range button shows.
#[derive(Clone, Copy, Debug, PartialEq, Eq, Structural)]
pub enum RangeLabelForm {
    /// No bounds: the "all dates" label.
    All,
    /// Only a start: the "from" prefix, then the start.
    From,
    /// Only an end: the "to" prefix, then the end.
    To,
    /// Both: `start - end`.
    Between,
}

/// The label form for the stored bounds.
pub fn range_label_form(from: &str, to: &str) -> (r: RangeLabelForm)
    ensures
        from@.len() == 0 && to@.len() == 0 ==> r == RangeLabelForm::All,
        from@.len() != 0 && to@.len() == 0 ==> r == RangeLabelForm::From,
        from@.len() == 0 && to@.len() != 0 ==> r == RangeLabelForm::To,
        from@.len() != 0 && to@.len() != 0 ==> r == RangeLabelForm::Between,
{
    match (from.is_empty(), to.is_empty()) {
        (true, true) => RangeLabelForm::All,
        (false, true) => RangeLabelForm::From,
        (true, false) => RangeLabelForm::To,
        (false, false) => RangeLabelForm::Between,
    }
}

// ---------------------------------------------------------------------------
// Weekdays follow the days
// ---------------------------------------------------------------------------

/// The part of Zeller's sum that depends on the (March-based) year.
spec fn zeller_year(y: int) -> int {
    trem(y, 100) + tdiv(trem(y, 100), 4) + tdiv(tdiv(y, 100), 4) + 5 * tdiv(y, 100)
}

/// Zeller's sum for a date, before it is reduced modulo 7.
spec fn zeller_sum(year: int, month: int, day: int) -> int {
    let y = if month < 3 { year - 1 } else { year };
    let m = if month < 3 { month + 12 } else { month };
    day + tdiv(13 * (m + 1), 5) + zeller_year(y)
}

proof fn lemma_weekday_of_sum(year: int, month: int, day: int)
    requires
        year >= 1,
        1 <= month <= 12,
        day >= 1,
    ensures
        zeller_sum(year, month, day) >= 0,
        weekday_monday(year, month, day) == (zeller_sum(year, month, day) + 5) % 7,
{
    let y = if month < 3 { year - 1 } else { year };
    assert(y >= 0);
    assert(tdiv(y, 100) >= 0 && trem(y, 100) >= 0);
    let t = zeller_sum(year, month, day);
    assert(t >= 0);
    assert(trem(t, 7) == t % 7);
    assert(trem(t % 7 + 5, 7) == (t % 7 + 5) % 7);
    assert((t % 7 + 5) % 7 == (t + 5) % 7) by {
        vstd::arithmetic::div_mod::lemma_add_mod_noop(t, 5, 7);
        vstd::arithmetic::div_mod::lemma_mod_twice(5, 7);
    }
}

/// From one March-based year to the next, the year term of the sum grows by
/// one, plus one more when the later year is a leap year (modulo 7).
proof fn lemma_year_step(y: int)
    requires
        y >= 1,
    ensures
        (zeller_year(y) - zeller_year(y - 1) - 1 - (if leap(y) { 1int } else { 0 })) % 7 == 0,
{
    let j = y / 100;
    let k = y % 100;
    let j0 = (y - 1) / 100;
    let k0 = (y - 1) % 100;
    assert(zeller_year(y) == k + k / 4 + j / 4 + 5 * j);
    assert(zeller_year(y - 1) == k0 + k0 / 4 + j0 / 4 + 5 * j0);
    if k == 0 {
        assert(j0 == j - 1 && k0 == 99);
        if j % 4 == 0 {
            assert(y % 400 == 0 && leap(y));
            assert(j0 / 4 == j / 4 - 1);
        } else {
            assert(y % 400 != 0 && y % 100 == 0 && !leap(y));
            assert(j0 / 4 == j / 4);
        }
    } else {
        assert(j0 == j && k0 == k - 1);
        if k % 4 == 0 {
            assert(y % 4 == 0 && y % 100 != 0 && leap(y));
            assert(k0 / 4 == k / 4 - 1);
        } else {
            assert(y % 4 != 0 && !leap(y));
            assert(k0 / 4 == k / 4);
        }
    }
}

proof fn lemma_mod_step(a: int, b: int)
    requires
        a >= 0,
        b >= 0,
        (b - a - 1) % 7 == 0,
    ensures
        (b + 5) % 7 == ((a + 5) % 7 + 1) % 7,
{
    vstd::arithmetic::div_mod::lemma_add_mod_noop(a + 5, 1, 7);
    vstd::arithmetic::div_mod::lemma_mod_twice(1, 7);
    vstd::arithmetic::div_mod::lemma_fundamental_div_mod(b - a - 1, 7);
    vstd::arithmetic::div_mod::lemma_mod_multiples_vanish((b - a - 1) / 7, a + 6, 7);
}

/// From the last day of a month to the first of the next, Zeller's sum grows
/// by one modulo 7.
proof fn lemma_month_end_sum(year: int, month: int)
    requires
        year >= 1,
        1 <= month <= 12,
    ensures
        (if month < 12 { zeller_sum(year, month + 1, 1) } else { zeller_sum(year + 1, 1, 1) } - zeller_sum(
            year,
            month,
            month_days(year, month) as int,
        ) - 1) % 7 == 0,
{
    let d = month_days(year, month) as int;
    if month == 2 {
        lemma_year_step(year);
        assert(zeller_sum(year, 3, 1) == 1 + 10 + zeller_year(year));
        assert(zeller_sum(year, 2, d) == d + 39 + zeller_year(year - 1));
    } else if month == 12 {
        assert(zeller_sum(year + 1, 1, 1) == 1 + 36 + zeller_year(year));
        assert(zeller_sum(year, 12, d) == 31 + 33 + zeller_year(year));
    } else if month == 1 {
        assert(zeller_sum(year, 2, 1) == 1 + 39 + zeller_year(year - 1));
        assert(zeller_sum(year, 1, d) == 31 + 36 + zeller_year(year - 1));
    } else {
        let f = tdiv(13 * (month + 1), 5);
        let g = tdiv(13 * (month + 2), 5);
        assert(zeller_sum(year, month + 1, 1) == 1 + g + zeller_year(year));
        assert(zeller_sum(year, month, d) == d + f + zeller_year(year));
        assert((g - f - d) % 7 == 0) by {
            if month == 3 {
                assert(f == 10 && g == 13);
            } else if month == 4 {
                assert(f == 13 && g == 15);
            } else if month == 5 {
                assert(f == 15 && g == 18);
            } else if month == 6 {
                assert(f == 18 && g == 20);
            } else if month == 7 {
                assert(f == 20 && g == 23);
            } else if month == 8 {
                assert(f == 23 && g == 26);
            } else if month == 9 {
                assert(f == 26 && g == 28);
            } else if month == 10 {
                assert(f == 28 && g == 31);
            } else {
                assert(f == 31 && g == 33);
            }
        }
    }
}

/// The weekday steps by one from each day to the next, across month and year
/// ends (for years from 1 on), and 1 January 2024 is a Monday. Together these
/// fix the weekday of every date of those years: it is the number of days
/// since that Monday, modulo 7.
pub proof fn law_weekday_follows_days(year: int, month: int, day: int)
    requires
        year >= 1,
        1 <= month <= 12,
        1 <= day <= month_days(year, month),
    ensures
        weekday_monday(2024, 1, 1) == 0,
        0 <= weekday_monday(year, month, day) < 7,
        day < month_days(year, month) ==> weekday_monday(year, month, day + 1) == (weekday_monday(year, month, day)
            + 1) % 7,
        day == month_days(year, month) && month < 12 ==> weekday_monday(year, month + 1, 1) == (weekday_monday(
            year,
            month,
            day,
        ) + 1) % 7,
        day == month_days(year, month) && month == 12 ==> weekday_monday(year + 1, 1, 1) == (weekday_monday(
            year,
            month,
            day,
        ) + 1) % 7,
{
    lemma_weekday_of_sum(2024, 1, 1);
    assert(zeller_sum(2024, 1, 1) == 170);
    lemma_weekday_of_sum(year, month, day);
    let a = zeller_sum(year, month, day);
    if day < month_days(year, month) {
        lemma_weekday_of_sum(year, month, day + 1);
        lemma_mod_step(a, zeller_sum(year, month, day + 1));
    } else if month < 12 {
        lemma_weekday_of_sum(year, month + 1, 1);
        lemma_month_end_sum(year, month);
        lemma_mod_step(a, zeller_sum(year, month + 1, 1));
    } else {
        lemma_weekday_of_sum(year + 1, 1, 1);
        lemma_month_end_sum(year, month);
        lemma_mod_step(a, zeller_sum(year + 1, 1, 1));
    }
}

/// The calendar day after `d`.
pub open spec fn day_after(d: SimpleDate) -> SimpleDate {
    if (d.day as int) < month_days(d.year as int, d.month as int) {
        SimpleDate { year: d.year, month: d.month, day: (d.day + 1) as u32 }
    } else if d.month < 12 {
        SimpleDate { year: d.year, month: (d.month + 1) as u32, day: 1 }
    } else {
        SimpleDate { year: (d.year + 1) as i32, month: 1, day: 1 }
    }
}

/// A date that exists, in a year from 1 on.
pub open spec fn real_date(d: SimpleDate) -> bool {
    d.year >= 1 && 1 <= d.month <= 12 && 1 <= d.day <= month_days(d.year as int, d.month as int)
}

/// The month grid is a run of consecutive days: each cell holds a real date,
/// the next cell holds the day after it, a cell is marked as the shown
/// month's exactly when its date lies in that month, and the month's first
/// day sits in the column of its weekday.
pub proof fn law_grid_days_consecutive(m: YearMonth, i: int)
    requires
        2 <= m.year < i32::MAX,
        1 <= m.month <= 12,
        0 <= i < 42,
    ensures
        real_date(grid_cell(m, i).date),
        i < 41 ==> grid_cell(m, i + 1).date == day_after(grid_cell(m, i).date),
        grid_cell(m, i).current_month <==> (grid_cell(m, i).date.year == m.year && grid_cell(m, i).date.month
            == m.month),
        grid_cell(m, weekday_monday(m.year as int, m.month as int, 1)).date == (SimpleDate {
            year: m.year,
            month: m.month,
            day: 1,
        }),
{
    law_weekday_follows_days(m.year as int, m.month as int, 1);
}

proof fn lemma_next_residue(w: int, i: int)
    requires
        i >= 1,
        w == (i - 1) % 7,
    ensures
        (w + 1) % 7 == i % 7,
{
}

proof fn lemma_previous_residue(w: int, i: int)
    requires
        i >= 0,
        0 <= w < 7,
        (w + 1) % 7 == (i + 1) % 7,
    ensures
        w == i % 7,
{
}

/// Each column of the grid is one weekday: the date in cell `i` falls on
/// weekday `i % 7` (Monday first), so every row starts on a Monday.
#[verifier::rlimit(50)]
pub proof fn law_grid_columns_are_weekdays(m: YearMonth, i: int)
    requires
        2 <= m.year < i32::MAX,
        1 <= m.month <= 12,
        0 <= i < 42,
    ensures
        ({
            let d = grid_cell(m, i).date;
            weekday_monday(d.year as int, d.month as int, d.day as int) == i % 7
        }),
    decreases (if i < weekday_monday(m.year as int, m.month as int, 1) {
        weekday_monday(m.year as int, m.month as int, 1) - i
    } else {
        i - weekday_monday(m.year as int, m.month as int, 1)
    }),
{
    let first = weekday_monday(m.year as int, m.month as int, 1);
    law_grid_days_consecutive(m, i);
    law_weekday_follows_days(m.year as int, m.month as int, 1);
    let d = grid_cell(m, i).date;
    let w = weekday_monday(d.year as int, d.month as int, d.day as int);
    if i == first {
        assert(d == SimpleDate { year: m.year, month: m.month, day: 1 });
    } else if i > first {
        law_grid_columns_are_weekdays(m, i - 1);
        law_grid_days_consecutive(m, i - 1);
        let p = grid_cell(m, i - 1).date;
        let wp = weekday_monday(p.year as int, p.month as int, p.day as int);
        assert(d == day_after(p));
        law_weekday_follows_days(p.year as int, p.month as int, p.day as int);
        assert(w == (wp + 1) % 7);
        lemma_next_residue(wp, i);
    } else {
        law_grid_columns_are_weekdays(m, i + 1);
        let n = grid_cell(m, i + 1).date;
        let wn = weekday_monday(n.year as int, n.month as int, n.day as int);
        assert(n == day_after(d));
        law_weekday_follows_days(d.year as int, d.month as int, d.day as int);
        assert(wn == (w + 1) % 7);
        lemma_previous_residue(w, i);
    }
}

} // verus!
