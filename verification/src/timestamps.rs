//! Decimal timestamps in microsecond ticks.
use vstd::prelude::*;

verus! {

/// Whether a character is a decimal digit.
pub open spec fn is_digit(c: char) -> bool {
    '0' <= c <= '9'
}

/// The value of a decimal digit.
pub open spec fn digit_value(c: char) -> int {
    c as u32 - '0' as u32
}

/// Whether a text holds digits alone.
pub open spec fn all_digits(text: Seq<char>) -> bool {
    forall|i: int| 0 <= i < text.len() ==> is_digit(#[trigger] text[i])
}

/// The number that a text of digits spells.
pub open spec fn number(digits: Seq<char>) -> int
    decreases digits.len(),
{
    if digits.len() == 0 {
        0
    } else {
        number(digits.drop_last()) * 10 + digit_value(digits.last())
    }
}

/// The first `count` digits of a fraction as a number; missing ones are zeros.
pub open spec fn fraction_number(fraction: Seq<char>, count: int) -> int
    decreases count,
{
    if count <= 0 {
        0
    } else {
        fraction_number(fraction, count - 1) * 10 + (if count - 1 < fraction.len() {
            digit_value(fraction[count - 1])
        } else {
            0
        })
    }
}

/// The microseconds of a fraction of a second, rounded by the seventh digit.
pub open spec fn fraction_micros(fraction: Seq<char>) -> int {
    fraction_number(fraction, 6) + (if fraction.len() > 6 && digit_value(fraction[6]) >= 5 {
        1int
    } else {
        0
    })
}

/// The text without its sign.
pub open spec fn magnitude_text(text: Seq<char>) -> Seq<char> {
    if text.len() > 0 && text[0] == '-' {
        text.drop_first()
    } else {
        text
    }
}

/// Where the decimal point stands, or the end.
pub open spec fn point_index(text: Seq<char>) -> int
    decreases text.len(),
{
    if text.len() == 0 || text[0] == '.' {
        0
    } else {
        1 + point_index(text.drop_first())
    }
}

/// The digits before the point.
pub open spec fn whole_part(text: Seq<char>) -> Seq<char> {
    text.take(point_index(text))
}

/// The digits after the point.
pub open spec fn fraction_part(text: Seq<char>) -> Seq<char> {
    if point_index(text) < text.len() {
        text.skip(point_index(text) + 1)
    } else {
        Seq::empty()
    }
}

/// Whether a text is a decimal number: digits, and at most one point after the first of them.
pub open spec fn is_decimal(text: Seq<char>) -> bool {
    let body = magnitude_text(text);
    &&& whole_part(body).len() > 0
    &&& all_digits(whole_part(body))
    &&& all_digits(fraction_part(body))
}

/// The microseconds that a decimal number of seconds spells.
pub open spec fn decimal_micros(text: Seq<char>) -> int {
    let body = magnitude_text(text);
    let micros = number(whole_part(body)) * 1_000_000 + fraction_micros(fraction_part(body));
    if text.len() > 0 && text[0] == '-' {
        -micros
    } else {
        micros
    }
}

/// The tick that a text spells, where it is a decimal number in range.
pub open spec fn timestamp_of(text: Seq<char>) -> Option<i64> {
    if is_decimal(text) && i64::MIN <= decimal_micros(text) <= i64::MAX {
        Some(decimal_micros(text) as i64)
    } else {
        None
    }
}

proof fn lemma_point_index(text: Seq<char>)
    ensures
        0 <= point_index(text) <= text.len(),
        point_index(text) < text.len() ==> text[point_index(text)] == '.',
        forall|i: int| 0 <= i < point_index(text) ==> text[i] != '.',
    decreases text.len(),
{
    if text.len() > 0 && text[0] != '.' {
        let rest = text.drop_first();
        lemma_point_index(rest);
        assert forall|i: int| 0 <= i < point_index(text) implies text[i] != '.' by {
            if i > 0 {
                assert(text[i] == rest[i - 1]);
            }
        }
        if point_index(text) < text.len() {
            assert(text[point_index(text)] == rest[point_index(rest)]);
        }
    }
}

/// The first point is where it is found.
proof fn lemma_point_at(text: Seq<char>, at: int)
    requires
        0 <= at <= text.len(),
        at < text.len() ==> text[at] == '.',
        forall|i: int| 0 <= i < at ==> text[i] != '.',
    ensures
        point_index(text) == at,
{
    lemma_point_index(text);
}

/// More digits never spell a smaller number.
proof fn lemma_number_grows(digits: Seq<char>, count: int)
    requires
        all_digits(digits),
        0 <= count <= digits.len(),
    ensures
        0 <= number(digits.take(count)) <= number(digits),
    decreases digits.len(),
{
    if digits.len() == 0 {
        assert(digits.take(count) =~= digits);
    } else {
        let shorter = digits.drop_last();
        assert(is_digit(digits.last()));
        if count == digits.len() {
            assert(digits.take(count) =~= digits);
            lemma_number_grows(shorter, shorter.len() as int);
            assert(shorter.take(shorter.len() as int) =~= shorter);
        } else {
            lemma_number_grows(shorter, count);
            assert(shorter.take(count) =~= digits.take(count));
        }
    }
}

proof fn lemma_fraction_bounds(fraction: Seq<char>, count: int)
    requires
        all_digits(fraction),
        0 <= count <= 6,
    ensures
        0 <= fraction_number(fraction, count),
        count == 6 ==> fraction_number(fraction, count) <= 999_999,
        count == 5 ==> fraction_number(fraction, count) <= 99_999,
        count == 4 ==> fraction_number(fraction, count) <= 9_999,
        count == 3 ==> fraction_number(fraction, count) <= 999,
        count == 2 ==> fraction_number(fraction, count) <= 99,
        count == 1 ==> fraction_number(fraction, count) <= 9,
        count == 0 ==> fraction_number(fraction, count) == 0,
    decreases count,
{
    if count > 0 {
        lemma_fraction_bounds(fraction, count - 1);
        if count - 1 < fraction.len() {
            assert(is_digit(fraction[count - 1]));
        }
    }
}

/// Parses a decimal number of seconds, such as a demuxer prints, into microsecond ticks. Anything
/// beyond the sixth decimal place is rounded by the seventh digit.
#[verifier::loop_isolation(false)]
pub fn parse_timestamp_microseconds(timestamp: &str) -> (tick: Option<i64>)
    ensures
        tick == timestamp_of(timestamp@),
{
    let ghost text = timestamp@;
    let ghost body = magnitude_text(text);
    let length: usize = timestamp.unicode_len();
    let negative: bool = length > 0 && timestamp.get_char(0) == '-';
    let start: usize = if negative {
        1
    } else {
        0
    };
    assert(body =~= text.skip(start as int));
    proof {
        lemma_point_index(body);
    }
    let ghost whole = whole_part(body);
    let ghost fraction = fraction_part(body);
    let mut seconds: u64 = 0;
    let mut i: usize = start;
    assert(whole.take(0) =~= Seq::empty());
    while i < length && timestamp.get_char(i) != '.'
        invariant
            start <= i <= length,
            length == text.len(),
            i - start <= point_index(body),
            forall|j: int| 0 <= j < i - start ==> is_digit(#[trigger] whole[j]),
            seconds == number(whole.take(i - start)),
            seconds <= 9_300_000_000_000,
        decreases length - i,
    {
        let c = timestamp.get_char(i);
        assert(c == body[i - start]);
        assert(i - start < point_index(body));
        assert(whole[i - start] == c);
        if !('0' <= c && c <= '9') {
            assert(!is_digit(whole[i - start]));
            return None;
        }
        let digit: u64 = (c as u32 - '0' as u32) as u64;
        assert(whole.take(i - start + 1).drop_last() =~= whole.take(i - start));
        seconds = seconds * 10 + digit;
        i += 1;
        if seconds > 9_300_000_000_000 {
            proof {
                if is_decimal(text) {
                    lemma_number_grows(whole, i - start);
                    lemma_fraction_bounds(fraction, 6);
                    assert(number(whole) * 1_000_000 > 9_300_000_000_000 * 1_000_000);
                }
            }
            return None;
        }
    }
    proof {
        assert(forall|j: int| 0 <= j < i - start ==> body[j] != '.') by {
            assert forall|j: int| 0 <= j < i - start implies body[j] != '.' by {
                assert(is_digit(whole[j]));
            }
        }
        lemma_point_at(body, i - start);
        assert(whole.take(i - start) =~= whole);
    }
    if i == start {
        return None;
    }
    let mut micros: u64 = 0;
    let mut round_up: u64 = 0;
    let mut count: usize = 0;
    let first: usize = if i < length {
        i + 1
    } else {
        i
    };
    assert(fraction =~= text.skip(first as int));
    let mut k: usize = first;
    while k < length
        invariant
            first <= k <= length,
            length == text.len(),
            forall|j: int| 0 <= j < k - first ==> is_digit(#[trigger] fraction[j]),
            count == (if k - first < 6 {
                k - first
            } else {
                6
            }),
            micros == fraction_number(fraction, count as int),
            micros <= 999_999,
            count < 6 ==> micros <= 99_999,
            round_up == (if k - first > 6 && digit_value(fraction[6]) >= 5 {
                1int
            } else {
                0
            }),
        decreases length - k,
    {
        let c = timestamp.get_char(k);
        assert(c == fraction[k - first]);
        if !('0' <= c && c <= '9') {
            assert(!is_digit(fraction[k - first]));
            return None;
        }
        let digit: u64 = (c as u32 - '0' as u32) as u64;
        if count < 6 {
            micros = micros * 10 + digit;
            count += 1;
            proof {
                let seen = fraction.take(k - first + 1);
                assert(all_digits(seen));
                lemma_same_fraction(seen, fraction, count as int);
                lemma_fraction_bounds(seen, count as int);
            }
        } else if k - first == 6 && digit >= 5 {
            round_up = 1;
        }
        k += 1;
    }
    assert(all_digits(fraction));
    while count < 6
        invariant
            count <= 6,
            count == 6 || count >= fraction.len(),
            micros == fraction_number(fraction, count as int),
            micros <= 999_999,
            count < 6 ==> micros <= 99_999,
            all_digits(fraction),
        decreases 6 - count,
    {
        micros = micros * 10;
        count += 1;
        proof {
            lemma_fraction_bounds(fraction, count as int);
        }
    }
    assert(is_decimal(text));
    let total: u64 = seconds * 1_000_000 + micros + round_up;
    if negative {
        if total > 9_223_372_036_854_775_808 {
            None
        } else if total == 9_223_372_036_854_775_808 {
            Some(i64::MIN)
        } else {
            Some(-(total as i64))
        }
    } else if total > 9_223_372_036_854_775_807 {
        None
    } else {
        Some(total as i64)
    }
}

proof fn lemma_same_fraction(left: Seq<char>, right: Seq<char>, count: int)
    requires
        count <= left.len() <= right.len(),
        forall|i: int| 0 <= i < left.len() ==> left[i] == right[i],
    ensures
        fraction_number(left, count) == fraction_number(right, count),
    decreases count,
{
    if count > 0 {
        lemma_same_fraction(left, right, count - 1);
    }
}

/// Digits are read by their place: one more digit is ten times as much and that digit.
pub proof fn law_digits_count_by_place(digits: Seq<char>, digit: char)
    ensures
        number(Seq::empty()) == 0,
        number(digits.push(digit)) == number(digits) * 10 + (digit as u32 - 48),
{
    assert(digits.push(digit).drop_last() =~= digits);
}

/// The first digits of a fraction are a number, with zeros for those that are missing.
pub proof fn law_fractions_count_by_place(fraction: Seq<char>, count: int)
    requires
        0 <= count,
    ensures
        count <= fraction.len() ==> fraction_number(fraction, count) == number(
            fraction.take(count),
        ),
        count >= fraction.len() ==> fraction_number(fraction, count + 1) == fraction_number(
            fraction,
            count,
        ) * 10,
    decreases count,
{
    if 0 < count <= fraction.len() {
        law_fractions_count_by_place(fraction, count - 1);
        assert(fraction.take(count).drop_last() =~= fraction.take(count - 1));
        assert(fraction.take(count).last() == fraction[count - 1]);
    }
}

/// A fraction is rounded to a microsecond by its seventh digit, up from five on.
pub proof fn law_fractions_are_rounded(fraction: Seq<char>)
    requires
        forall|i: int| 0 <= i < fraction.len() ==> '0' <= #[trigger] fraction[i] <= '9',
    ensures
        fraction.len() <= 6 ==> fraction_micros(fraction) == fraction_number(fraction, 6),
        fraction.len() > 6 && fraction[6] < '5' ==> fraction_micros(fraction) == number(
            fraction.take(6),
        ),
        fraction.len() > 6 && fraction[6] >= '5' ==> fraction_micros(fraction) == number(
            fraction.take(6),
        ) + 1,
{
    if fraction.len() > 6 {
        law_fractions_count_by_place(fraction, 6);
        assert('0' <= fraction[6] <= '9');
    }
}

/// A number of seconds is read as written: digits, a point and more digits give that many
/// microseconds, and a minus in front turns them around. Digits alone are whole seconds.
pub proof fn law_timestamps_are_read_as_written(whole: Seq<char>, fraction: Seq<char>)
    requires
        whole.len() > 0,
        forall|i: int| 0 <= i < whole.len() ==> '0' <= #[trigger] whole[i] <= '9',
        forall|i: int| 0 <= i < fraction.len() ==> '0' <= #[trigger] fraction[i] <= '9',
        number(whole) * 1_000_000 + fraction_micros(fraction) <= i64::MAX,
        number(whole) * 1_000_000 <= i64::MAX,
        0 <= number(whole) * 1_000_000 + fraction_micros(fraction),
        0 <= number(whole),
    ensures
        timestamp_of(whole) == Some((number(whole) * 1_000_000) as i64),
        timestamp_of(whole.push('.') + fraction) == Some(
            (number(whole) * 1_000_000 + fraction_micros(fraction)) as i64,
        ),
        timestamp_of(seq!['-'] + (whole.push('.') + fraction)) == Some(
            (-(number(whole) * 1_000_000 + fraction_micros(fraction))) as i64,
        ),
{
    let text = whole.push('.') + fraction;
    lemma_written(whole, fraction);
    assert('0' <= whole[0] <= '9');
    assert(text[0] == whole[0]);
    assert(magnitude_text(text) == text);
    let negative = seq!['-'] + text;
    assert(negative[0] == '-');
    assert(negative.drop_first() =~= text);
    lemma_no_point(whole);
    assert(whole.take(whole.len() as int) =~= whole);
    assert(magnitude_text(whole) == whole);
    assert(fraction_part(whole) =~= Seq::empty());
    assert(fraction_micros(Seq::<char>::empty()) == 0) by {
        reveal_with_fuel(fraction_number, 7);
    }
    assert(all_digits(whole));
    assert(all_digits(fraction));
}

proof fn lemma_no_point(digits: Seq<char>)
    requires
        forall|i: int| 0 <= i < digits.len() ==> '0' <= #[trigger] digits[i] <= '9',
    ensures
        point_index(digits) == digits.len(),
    decreases digits.len(),
{
    if digits.len() > 0 {
        assert('0' <= digits[0] <= '9');
        let rest = digits.drop_first();
        assert forall|i: int| 0 <= i < rest.len() implies '0' <= #[trigger] rest[i] <= '9' by {
            assert(rest[i] == digits[i + 1]);
        }
        lemma_no_point(rest);
    }
}

proof fn lemma_written(whole: Seq<char>, fraction: Seq<char>)
    requires
        forall|i: int| 0 <= i < whole.len() ==> '0' <= #[trigger] whole[i] <= '9',
    ensures
        ({
            let text = whole.push('.') + fraction;
            &&& point_index(text) == whole.len()
            &&& whole_part(text) == whole
            &&& fraction_part(text) == fraction
        }),
    decreases whole.len(),
{
    let text = whole.push('.') + fraction;
    if whole.len() > 0 {
        assert('0' <= whole[0] <= '9');
        let rest = whole.drop_first();
        assert forall|i: int| 0 <= i < rest.len() implies '0' <= #[trigger] rest[i] <= '9' by {
            assert(rest[i] == whole[i + 1]);
        }
        lemma_written(rest, fraction);
        assert(text.drop_first() =~= rest.push('.') + fraction);
        assert(text[0] == whole[0]);
    } else {
        assert(text[0] == '.');
    }
    assert(text.take(whole.len() as int) =~= whole);
    assert(text.skip(whole.len() as int + 1) =~= fraction);
}

/// Nothing else is a timestamp: after the sign there is a digit first, and then nothing but digits and
/// one point.
pub proof fn law_other_texts_are_no_timestamps(text: Seq<char>, i: int, j: int)
    requires
        timestamp_of(text) is Some,
    ensures
        ({
            let first = if text.len() > 0 && text[0] == '-' {
                1int
            } else {
                0int
            };
            &&& text.len() > first
            &&& '0' <= text[first] <= '9'
            &&& first <= i < text.len() ==> '0' <= text[i] <= '9' || text[i] == '.'
            &&& first <= i < j < text.len() ==> !(text[i] == '.' && text[j] == '.')
        }),
{
    let first = if text.len() > 0 && text[0] == '-' {
        1int
    } else {
        0int
    };
    let body = magnitude_text(text);
    lemma_point_index(body);
    let point = point_index(body);
    assert(forall|k: int| 0 <= k < body.len() ==> body[k] == text[first + k]);
    assert(whole_part(body)[0] == body[0]);
    assert(is_digit(whole_part(body)[0]));
    assert(body[0] == text[first]);
    if first <= i < text.len() {
        let k = i - first;
        if k < point {
            assert(whole_part(body)[k] == body[k]);
        } else if k > point {
            assert(fraction_part(body)[k - point - 1] == body[k]);
        }
        assert(body[k] == text[i]);
    }
    if first <= i < j < text.len() {
        let k = i - first;
        let l = j - first;
        assert(body[k] == text[i] && body[l] == text[j]);
        if k >= point {
            assert(fraction_part(body)[l - point - 1] == body[l]);
        }
    }
}

/// What is read of a timestamp is what it says in microseconds.
pub proof fn law_parsed_timestamps_are_as_written(text: &str, tick: Option<i64>, whole: Seq<char>)
    requires
        call_ensures(parse_timestamp_microseconds, (text,), tick),
        text@ == whole,
        whole.len() > 0,
        forall|i: int| 0 <= i < whole.len() ==> '0' <= #[trigger] whole[i] <= '9',
        0 <= number(whole) * 1_000_000 <= i64::MAX,
    ensures
        tick == Some((number(whole) * 1_000_000) as i64),
{
    assert(fraction_micros(Seq::<char>::empty()) == 0) by {
        reveal_with_fuel(fraction_number, 7);
    }
    law_timestamps_are_read_as_written(whole, Seq::empty());
}

} // verus!
