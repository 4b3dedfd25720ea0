//! The local time as text: what a date-and-time pattern turns into, and the
//! one place where the clock is read.

use vstd::prelude::*;

verus! {

/// A reading of the local clock, by its calendar fields.
pub struct LocalTime {
    pub year: int,
    pub month: int,
    pub day: int,
    pub hour: int,
    pub minute: int,
    pub second: int,
}

impl LocalTime {
    /// The ranges in which a clock reading's fields lie. The year is not
    /// bounded; the second is 60 during a leap second.
    pub open spec fn in_range(self) -> bool {
        &&& 1 <= self.month <= 12
        &&& 1 <= self.day <= 31
        &&& 0 <= self.hour <= 23
        &&& 0 <= self.minute <= 59
        &&& 0 <= self.second <= 60
    }
}

/// The character for the decimal digit `d`, for `d` from 0 to 9.
pub open spec fn digit(d: int) -> char {
    (('0' as u8) + d) as u8 as char
}

/// `n` in decimal, with zeros in front where it has fewer than `width` digits.
pub open spec fn padded(n: nat, width: nat) -> Seq<char>
    decreases n, width,
{
    if n < 10 && width <= 1 {
        seq![digit(n as int)]
    } else {
        padded(n / 10, (width - 1) as nat).push(digit(n as int % 10))
    }
}

/// A year as text: four digits from 0 to 9999; any other year with its sign
/// and at least four digits.
pub open spec fn year_text(year: int) -> Seq<char> {
    if 0 <= year <= 9999 {
        padded(year as nat, 4)
    } else if year < 0 {
        seq!['-'] + padded((-year) as nat, 4)
    } else {
        seq!['+'] + padded(year as nat, 4)
    }
}

/// Whether `letter` names one of the fields that a pattern can ask for.
pub open spec fn is_field(letter: char) -> bool {
    letter == 'Y' || letter == 'm' || letter == 'd' || letter == 'H' || letter == 'M' || letter
        == 'S'
}

/// The text of the field that `letter` names: `Y` the year, `m` the month, `d`
/// the day, `H` the hour, `M` the minute, `S` the second; all but the year in
/// two digits.
pub open spec fn field_text(letter: char, t: LocalTime) -> Seq<char> {
    if letter == 'Y' {
        year_text(t.year)
    } else if letter == 'm' {
        padded(t.month as nat, 2)
    } else if letter == 'd' {
        padded(t.day as nat, 2)
    } else if letter == 'H' {
        padded(t.hour as nat, 2)
    } else if letter == 'M' {
        padded(t.minute as nat, 2)
    } else {
        padded(t.second as nat, 2)
    }
}

/// A pattern that this library writes: every `%` in it is followed by the
/// letter of a field.
pub open spec fn is_pattern(pattern: Seq<char>) -> bool {
    forall|i: int|
        0 <= i < pattern.len() && pattern[i] == '%' ==> i + 1 < pattern.len() && is_field(
            #[trigger] pattern[i + 1],
        )
}

/// The text that `pattern` stands for at the time `t`: each `%` with its letter
/// gives way to that field's text, every other character stands for itself.
pub open spec fn render(pattern: Seq<char>, t: LocalTime) -> Seq<char>
    decreases pattern.len(),
{
    if pattern.len() == 0 {
        Seq::empty()
    } else if pattern[0] != '%' {
        seq![pattern[0]] + render(pattern.skip(1), t)
    } else if pattern.len() >= 2 {
        field_text(pattern[1], t) + render(pattern.skip(2), t)
    } else {
        Seq::empty()
    }
}

/// Whether `text` is `pattern` written out at some time that a clock can show.
pub open spec fn is_rendering(text: Seq<char>, pattern: Seq<char>) -> bool {
    exists|t: LocalTime| t.in_range() && text == #[trigger] render(pattern, t)
}

/// Reads the local clock and writes the reading out after `pattern`.
///
/// Calls `chrono::Local::now`, then `format` on the result with `pattern`, and
/// turns that into a `String`. Nothing here is proved. The contract claims of
/// chrono that `%Y`, `%m`, `%d`, `%H`, `%M` and `%S` are written as
/// `field_text` says, that every other character of the pattern is copied,
/// and that the fields of the time that was read lie in the ranges of
/// `LocalTime::in_range`. Which time was read it does not say. chrono panics
/// where the system clock stands before 1970 or beyond the dates it can hold.
#[verifier::external_body]
pub(crate) fn local_time_text(pattern: &str) -> (text: String)
    requires
        is_pattern(pattern@),
    ensures
        is_rendering(text@, pattern@),
{
    chrono::Local::now().format(pattern).to_string()
}

/// A clock reading as one run of digits: year, month, day, hour, minute and
/// second, in that order.
pub open spec fn stamp_text(t: LocalTime) -> Seq<char> {
    year_text(t.year) + padded(t.month as nat, 2) + padded(t.day as nat, 2) + padded(
        t.hour as nat,
        2,
    ) + padded(t.minute as nat, 2) + padded(t.second as nat, 2)
}

/// A clock reading's date: year, month and day with `-` between them.
pub open spec fn date_text(t: LocalTime) -> Seq<char> {
    year_text(t.year) + seq!['-'] + padded(t.month as nat, 2) + seq!['-'] + padded(
        t.day as nat,
        2,
    )
}

/// The pattern of six fields with nothing between them renders as the stamp.
pub proof fn lemma_stamp_pattern(t: LocalTime)
    ensures
        is_pattern("%Y%m%d%H%M%S"@),
        render("%Y%m%d%H%M%S"@, t) == stamp_text(t),
{
    reveal_strlit("%Y%m%d%H%M%S");
    let p = "%Y%m%d%H%M%S"@;
    reveal_with_fuel(render, 8);
    assert(p.skip(2).skip(2) == p.skip(4));
    assert(p.skip(4).skip(2) == p.skip(6));
    assert(p.skip(6).skip(2) == p.skip(8));
    assert(p.skip(8).skip(2) == p.skip(10));
    assert(p.skip(10).skip(2) == p.skip(12));
    assert(render(p.skip(12), t) == Seq::<char>::empty());
    assert(render(p, t) =~= stamp_text(t));
}

/// A pattern without `%` renders as itself.
pub proof fn lemma_render_plain(pattern: Seq<char>, t: LocalTime)
    requires
        forall|i: int| 0 <= i < pattern.len() ==> pattern[i] != '%',
    ensures
        render(pattern, t) == pattern,
    decreases pattern.len(),
{
    if pattern.len() > 0 {
        lemma_render_plain(pattern.skip(1), t);
        assert(seq![pattern[0]] + pattern.skip(1) == pattern);
    }
}

/// A pattern that opens with year, month and day, `-` between them, and goes on
/// with `suffix`, which holds no `%`, renders as the date and the suffix.
pub proof fn lemma_date_pattern(pattern: Seq<char>, suffix: Seq<char>, t: LocalTime)
    requires
        pattern == "%Y-%m-%d"@ + suffix,
        forall|i: int| 0 <= i < suffix.len() ==> suffix[i] != '%',
    ensures
        is_pattern(pattern),
        render(pattern, t) == date_text(t) + suffix,
{
    reveal_strlit("%Y-%m-%d");
    reveal_with_fuel(render, 6);
    assert(pattern.skip(2).skip(1) == pattern.skip(3));
    assert(pattern.skip(3).skip(2) == pattern.skip(5));
    assert(pattern.skip(5).skip(1) == pattern.skip(6));
    assert(pattern.skip(6).skip(2) == pattern.skip(8));
    assert(pattern.skip(8) == suffix);
    lemma_render_plain(suffix, t);
    assert(render(pattern, t) =~= date_text(t) + suffix);
    assert forall|i: int| 0 <= i < pattern.len() && pattern[i] == '%' implies i + 1 < pattern.len()
        && is_field(#[trigger] pattern[i + 1]) by {
        if i >= 8 {
            assert(pattern[i] == suffix[i - 8]);
        }
    }
}

/// Two texts that are equal and end in parts of one length are equal part by
/// part.
pub proof fn lemma_same_parts(a: Seq<char>, b: Seq<char>, c: Seq<char>, d: Seq<char>)
    requires
        a + b == c + d,
        b.len() == d.len(),
    ensures
        a == c,
        b == d,
{
    assert((a + b).len() == (c + d).len());
    assert(a =~= (a + b).take(a.len() as int));
    assert(c =~= (c + d).take(c.len() as int));
    assert(b =~= (a + b).skip(a.len() as int));
    assert(d =~= (c + d).skip(c.len() as int));
}

/// A digit's character is a digit, so neither a sign nor a separator, and
/// different digits have different characters.
pub proof fn lemma_digit(d: int)
    requires
        0 <= d <= 9,
    ensures
        digit(d) as u32 == 48 + d,
        digit(d) != '-',
        digit(d) != '+',
        digit(d) != '/',
        digit(d) != '\n',
        digit(d) != '\r',
        digit(d) != '%',
        digit(d) != '.',
        !crate::text::is_whitespace(digit(d)),
{
}

/// A number below 100 is written in two digits.
pub proof fn lemma_two_digits(n: nat)
    requires
        n < 100,
    ensures
        padded(n, 2) == seq![digit(n as int / 10), digit(n as int % 10)],
{
    reveal_with_fuel(padded, 2);
    assert(padded(n, 2) =~= seq![digit(n as int / 10), digit(n as int % 10)]);
}

/// A padded number has at least one digit and at least as many as its width,
/// and holds nothing but digits.
pub proof fn lemma_padded_digits(n: nat, width: nat)
    ensures
        padded(n, width).len() >= 1,
        padded(n, width).len() >= width,
        forall|i: int|
            0 <= i < padded(n, width).len() ==> exists|d: int|
                0 <= d <= 9 && #[trigger] padded(n, width)[i] == digit(d),
    decreases n, width,
{
    if n < 10 && width <= 1 {
        assert(padded(n, width)[0] == digit(n as int));
    } else {
        let front = padded(n / 10, (width - 1) as nat);
        lemma_padded_digits(n / 10, (width - 1) as nat);
        assert forall|i: int| 0 <= i < padded(n, width).len() implies exists|d: int|
            0 <= d <= 9 && #[trigger] padded(n, width)[i] == digit(d) by {
            if i < front.len() {
                assert(padded(n, width)[i] == front[i]);
            } else {
                assert(padded(n, width)[i] == digit(n as int % 10));
            }
        }
    }
}

/// Different numbers are written differently at one width.
pub proof fn lemma_padded_injective(a: nat, b: nat, width: nat)
    requires
        padded(a, width) == padded(b, width),
    ensures
        a == b,
    decreases a, width,
{
    let a_short = a < 10 && width <= 1;
    let b_short = b < 10 && width <= 1;
    lemma_padded_digits(a / 10, (width - 1) as nat);
    lemma_padded_digits(b / 10, (width - 1) as nat);
    if a_short && b_short {
        assert(padded(a, width)[0] == digit(a as int));
        assert(padded(b, width)[0] == digit(b as int));
        lemma_digit(a as int);
        lemma_digit(b as int);
    } else if a_short || b_short {
        assert(padded(a, width).len() != padded(b, width).len());
    } else {
        let front_a = padded(a / 10, (width - 1) as nat);
        let front_b = padded(b / 10, (width - 1) as nat);
        assert(front_a == padded(a, width).drop_last());
        assert(front_b == padded(b, width).drop_last());
        assert(padded(a, width).last() == digit(a as int % 10));
        assert(padded(b, width).last() == digit(b as int % 10));
        lemma_digit(a as int % 10);
        lemma_digit(b as int % 10);
        lemma_padded_injective(a / 10, b / 10, (width - 1) as nat);
    }
}

/// Different years are written differently.
pub proof fn lemma_year_text_injective(a: int, b: int)
    requires
        year_text(a) == year_text(b),
    ensures
        a == b,
{
    let plain_a = 0 <= a <= 9999;
    let plain_b = 0 <= b <= 9999;
    lemma_first_of_year(a);
    lemma_first_of_year(b);
    if plain_a && plain_b {
        lemma_padded_injective(a as nat, b as nat, 4);
    } else if a < 0 && b < 0 {
        assert(padded((-a) as nat, 4) =~= year_text(a).skip(1));
        assert(padded((-b) as nat, 4) =~= year_text(b).skip(1));
        lemma_padded_injective((-a) as nat, (-b) as nat, 4);
    } else if a > 9999 && b > 9999 {
        assert(padded(a as nat, 4) =~= year_text(a).skip(1));
        assert(padded(b as nat, 4) =~= year_text(b).skip(1));
        lemma_padded_injective(a as nat, b as nat, 4);
    } else {
        assert(year_text(a)[0] != year_text(b)[0]);
    }
}

/// A year's text opens with `-` before the year 0, with `+` after the year
/// 9999, and with a digit between them; and it holds digits behind that.
pub proof fn lemma_first_of_year(year: int)
    ensures
        year_text(year).len() >= 4,
        year < 0 ==> year_text(year)[0] == '-',
        year > 9999 ==> year_text(year)[0] == '+',
        0 <= year <= 9999 ==> exists|d: int| 0 <= d <= 9 && year_text(year)[0] == digit(d),
        forall|i: int|
            1 <= i < year_text(year).len() ==> exists|d: int|
                0 <= d <= 9 && #[trigger] year_text(year)[i] == digit(d),
{
    if 0 <= year <= 9999 {
        lemma_padded_digits(year as nat, 4);
    } else if year < 0 {
        let digits = padded((-year) as nat, 4);
        lemma_padded_digits((-year) as nat, 4);
        assert forall|i: int| 1 <= i < year_text(year).len() implies exists|d: int|
            0 <= d <= 9 && #[trigger] year_text(year)[i] == digit(d) by {
            assert(year_text(year)[i] == digits[i - 1]);
        }
    } else {
        let digits = padded(year as nat, 4);
        lemma_padded_digits(year as nat, 4);
        assert forall|i: int| 1 <= i < year_text(year).len() implies exists|d: int|
            0 <= d <= 9 && #[trigger] year_text(year)[i] == digit(d) by {
            assert(year_text(year)[i] == digits[i - 1]);
        }
    }
}

/// Two clock readings with one date text are of the same day.
pub proof fn lemma_date_text_injective(s: LocalTime, t: LocalTime)
    requires
        s.in_range(),
        t.in_range(),
        date_text(s) == date_text(t),
    ensures
        s.year == t.year,
        s.month == t.month,
        s.day == t.day,
{
    lemma_two_digits(s.month as nat);
    lemma_two_digits(s.day as nat);
    lemma_two_digits(t.month as nat);
    lemma_two_digits(t.day as nat);
    let tail_s = seq!['-'] + padded(s.month as nat, 2) + seq!['-'] + padded(s.day as nat, 2);
    let tail_t = seq!['-'] + padded(t.month as nat, 2) + seq!['-'] + padded(t.day as nat, 2);
    assert(date_text(s) =~= year_text(s.year) + tail_s);
    assert(date_text(t) =~= year_text(t.year) + tail_t);
    lemma_same_parts(year_text(s.year), tail_s, year_text(t.year), tail_t);
    lemma_year_text_injective(s.year, t.year);
    assert(tail_s[1] == digit(s.month / 10) && tail_s[2] == digit(s.month % 10));
    assert(tail_t[1] == digit(t.month / 10) && tail_t[2] == digit(t.month % 10));
    assert(tail_s[4] == digit(s.day / 10) && tail_s[5] == digit(s.day % 10));
    assert(tail_t[4] == digit(t.day / 10) && tail_t[5] == digit(t.day % 10));
    lemma_digit(s.month / 10);
    lemma_digit(s.month % 10);
    lemma_digit(t.month / 10);
    lemma_digit(t.month % 10);
    lemma_digit(s.day / 10);
    lemma_digit(s.day % 10);
    lemma_digit(t.day / 10);
    lemma_digit(t.day % 10);
}

/// Two clock readings with one stamp are of the same second.
pub proof fn lemma_stamp_text_injective(s: LocalTime, t: LocalTime)
    requires
        s.in_range(),
        t.in_range(),
        stamp_text(s) == stamp_text(t),
    ensures
        s == t,
{
    lemma_two_digits(s.month as nat);
    lemma_two_digits(s.day as nat);
    lemma_two_digits(s.hour as nat);
    lemma_two_digits(s.minute as nat);
    lemma_two_digits(s.second as nat);
    lemma_two_digits(t.month as nat);
    lemma_two_digits(t.day as nat);
    lemma_two_digits(t.hour as nat);
    lemma_two_digits(t.minute as nat);
    lemma_two_digits(t.second as nat);
    let tail_s = padded(s.month as nat, 2) + padded(s.day as nat, 2) + padded(s.hour as nat, 2)
        + padded(s.minute as nat, 2) + padded(s.second as nat, 2);
    let tail_t = padded(t.month as nat, 2) + padded(t.day as nat, 2) + padded(t.hour as nat, 2)
        + padded(t.minute as nat, 2) + padded(t.second as nat, 2);
    assert(stamp_text(s) =~= year_text(s.year) + tail_s);
    assert(stamp_text(t) =~= year_text(t.year) + tail_t);
    lemma_same_parts(year_text(s.year), tail_s, year_text(t.year), tail_t);
    lemma_year_text_injective(s.year, t.year);
    assert(tail_s[0] == digit(s.month / 10) && tail_s[1] == digit(s.month % 10));
    assert(tail_t[0] == digit(t.month / 10) && tail_t[1] == digit(t.month % 10));
    assert(tail_s[2] == digit(s.day / 10) && tail_s[3] == digit(s.day % 10));
    assert(tail_t[2] == digit(t.day / 10) && tail_t[3] == digit(t.day % 10));
    assert(tail_s[4] == digit(s.hour / 10) && tail_s[5] == digit(s.hour % 10));
    assert(tail_t[4] == digit(t.hour / 10) && tail_t[5] == digit(t.hour % 10));
    assert(tail_s[6] == digit(s.minute / 10) && tail_s[7] == digit(s.minute % 10));
    assert(tail_t[6] == digit(t.minute / 10) && tail_t[7] == digit(t.minute % 10));
    assert(tail_s[8] == digit(s.second / 10) && tail_s[9] == digit(s.second % 10));
    assert(tail_t[8] == digit(t.second / 10) && tail_t[9] == digit(t.second % 10));
    lemma_digit(s.month / 10);
    lemma_digit(s.month % 10);
    lemma_digit(t.month / 10);
    lemma_digit(t.month % 10);
    lemma_digit(s.day / 10);
    lemma_digit(s.day % 10);
    lemma_digit(t.day / 10);
    lemma_digit(t.day % 10);
    lemma_digit(s.hour / 10);
    lemma_digit(s.hour % 10);
    lemma_digit(t.hour / 10);
    lemma_digit(t.hour % 10);
    lemma_digit(s.minute / 10);
    lemma_digit(s.minute % 10);
    lemma_digit(t.minute / 10);
    lemma_digit(t.minute % 10);
    lemma_digit(s.second / 10);
    lemma_digit(s.second % 10);
    lemma_digit(t.second / 10);
    lemma_digit(t.second % 10);
}

/// Every character of a stamp is a digit or, in front, the sign of the year.
pub proof fn lemma_stamp_characters(t: LocalTime)
    requires
        t.in_range(),
    ensures
        stamp_text(t).len() >= 14,
        forall|i: int|
            0 <= i < stamp_text(t).len() ==> #[trigger] stamp_text(t)[i] == '-' || stamp_text(
                t,
            )[i] == '+' || exists|d: int| 0 <= d <= 9 && stamp_text(t)[i] == digit(d),
        exists|d: int| 0 <= d <= 9 && stamp_text(t).last() == digit(d),
{
    let year = year_text(t.year);
    let stamp = stamp_text(t);
    lemma_first_of_year(t.year);
    lemma_two_digits(t.month as nat);
    lemma_two_digits(t.day as nat);
    lemma_two_digits(t.hour as nat);
    lemma_two_digits(t.minute as nat);
    lemma_two_digits(t.second as nat);
    let n = year.len() as int;
    assert(stamp.len() == n + 10);
    assert(stamp[n] == digit(t.month / 10) && stamp[n + 1] == digit(t.month % 10));
    assert(stamp[n + 2] == digit(t.day / 10) && stamp[n + 3] == digit(t.day % 10));
    assert(stamp[n + 4] == digit(t.hour / 10) && stamp[n + 5] == digit(t.hour % 10));
    assert(stamp[n + 6] == digit(t.minute / 10) && stamp[n + 7] == digit(t.minute % 10));
    assert(stamp[n + 8] == digit(t.second / 10) && stamp[n + 9] == digit(t.second % 10));
    assert(stamp.last() == digit(t.second % 10));
    assert forall|i: int| 0 <= i < stamp.len() implies #[trigger] stamp[i] == '-' || stamp[i]
        == '+' || exists|d: int| 0 <= d <= 9 && stamp[i] == digit(d) by {
        if i < n {
            assert(stamp[i] == year[i]);
        }
    }
}

} // verus!
