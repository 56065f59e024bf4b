//! Decimal text of fixed-point numbers: how a number of ten-thousandths is
//! written, and which number a text stands for.

use vstd::prelude::*;

verus! {

/// How many units make up one whole: an amount has four decimal places.
pub const SCALE: i64 = 10_000;

/// The character that stands for the digit `value`, which is 0 to 9.
pub open spec fn digit(value: int) -> u8 {
    ('0' as u8 + value) as u8
}

/// The decimal digits of a natural number, most significant first and
/// without leading zeros.
pub open spec fn digits(number: nat) -> Seq<u8>
    decreases number,
{
    if number < 10 {
        seq![digit(number as int)]
    } else {
        digits(number / 10).push(digit((number % 10) as int))
    }
}

/// The decimal places of a number of ten-thousandths below one whole: four
/// digits, of which the zeros at the end are left out, but not the first
/// digit.
pub open spec fn decimal_places(part: nat) -> Seq<u8> {
    let tenths = seq![digit(part as int / 1000)];
    let hundredths = tenths.push(digit(part as int / 100 % 10));
    let thousandths = hundredths.push(digit(part as int / 10 % 10));
    if part % 1000 == 0 {
        tenths
    } else if part % 100 == 0 {
        hundredths
    } else if part % 10 == 0 {
        thousandths
    } else {
        thousandths.push(digit(part as int % 10))
    }
}

/// The decimal text of a number of ten-thousandths: a minus sign where it is
/// negative, the digits of the whole part, a point, and the decimal places.
pub open spec fn decimal_text(units: int) -> Seq<u8> {
    let magnitude = if units < 0 {
        -units
    } else {
        units
    };
    let unsigned = digits((magnitude / SCALE as int) as nat) + seq!['.' as u8] + decimal_places(
        (magnitude % SCALE as int) as nat,
    );
    if units < 0 {
        seq!['-' as u8] + unsigned
    } else {
        unsigned
    }
}

/// Whether the character is a decimal digit.
pub open spec fn is_digit(byte: u8) -> bool {
    '0' as u8 <= byte <= '9' as u8
}

/// Whether a text is made of decimal digits only.
pub open spec fn all_digits(text: Seq<u8>) -> bool {
    forall|i: int| 0 <= i < text.len() ==> is_digit(#[trigger] text[i])
}

/// The number that a text of decimal digits stands for.
pub open spec fn number(text: Seq<u8>) -> nat
    decreases text.len(),
{
    if text.len() == 0 {
        0
    } else {
        number(text.drop_last()) * 10 + (text.last() - '0' as u8) as nat
    }
}

/// The place of the first point in a text, or the length of the text where
/// it has no point.
pub open spec fn point_at(text: Seq<u8>) -> int
    decreases text.len(),
{
    if text.len() == 0 || text.first() == '.' as u8 {
        0
    } else {
        1 + point_at(text.drop_first())
    }
}

/// How many ten-thousandths a unit of the last of `places` decimal places is
/// worth, for one to four places.
pub open spec fn place_worth(places: int) -> int {
    if places == 1 {
        1000
    } else if places == 2 {
        100
    } else if places == 3 {
        10
    } else {
        1
    }
}

/// The number of ten-thousandths that a decimal text stands for. A decimal
/// text is one or more digits, which may be followed by a point and one to
/// four more digits. Any other text stands for nothing.
pub open spec fn decimal_value(text: Seq<u8>) -> Option<int> {
    let point = point_at(text);
    let whole = text.take(point);
    let places = text.skip(point + 1);
    if whole.len() == 0 || !all_digits(whole) {
        None
    } else if point == text.len() {
        Some(number(whole) * SCALE)
    } else if 1 <= places.len() <= 4 && all_digits(places) {
        Some(number(whole) * SCALE + number(places) * place_worth(places.len() as int))
    } else {
        None
    }
}

/// Appends the decimal digits of `number` to `text`.
pub fn push_digits(number: u64, text: &mut Vec<u8>)
    ensures
        final(text)@ == old(text)@ + digits(number as nat),
    decreases number,
{
    if number >= 10 {
        push_digits(number / 10, text);
    }
    text.push('0' as u8 + (number % 10) as u8);
    assert(text@ =~= old(text)@ + digits(number as nat));
}

/// Where the first `k` characters of a text hold no point, the first point
/// is not among them; and it is at `k` where a point stands there.
pub proof fn point_is_past(text: Seq<u8>, k: int)
    requires
        0 <= k <= text.len(),
        forall|j: int| 0 <= j < k ==> text[j] != '.' as u8,
    ensures
        k <= point_at(text) <= text.len(),
        k < text.len() && text[k] == '.' as u8 ==> point_at(text) == k,
        k == text.len() ==> point_at(text) == k,
    decreases text.len(),
{
    if text.len() > 0 && text.first() != '.' as u8 {
        let rest = text.drop_first();
        if k > 0 {
            assert forall|j: int| 0 <= j < k - 1 implies rest[j] != '.' as u8 by {
                assert(rest[j] == text[j + 1]);
            }
            point_is_past(rest, k - 1);
            if k < text.len() {
                assert(rest[k - 1] == text[k]);
            }
        } else {
            point_is_past(rest, 0);
        }
    }
}

/// Where the first point of a text is within the text, a point stands
/// there.
pub proof fn point_is_point(text: Seq<u8>)
    ensures
        0 <= point_at(text) <= text.len(),
        point_at(text) < text.len() ==> text[point_at(text)] == '.' as u8,
    decreases text.len(),
{
    if text.len() > 0 && text.first() != '.' as u8 {
        let rest = text.drop_first();
        point_is_point(rest);
        if point_at(rest) < rest.len() {
            assert(rest[point_at(rest)] == text[point_at(rest) + 1]);
        }
    }
}

/// The greatest whole part of a number of ten-thousandths that fits in an
/// `i64`.
const WHOLE_LIMIT: u64 = 922_337_203_685_477;

/// The number of ten-thousandths that a decimal text stands for, see
/// [`decimal_value`], where the text is a decimal text and the number can be
/// held in an `i64`.
pub fn parse_decimal(text: &[u8]) -> (units: Option<i64>)
    ensures
        units == match decimal_value(text@) {
            Some(value) => if value <= i64::MAX {
                Some(value as i64)
            } else {
                None
            },
            None => None::<i64>,
        },
{
    let length = text.len();
    let mut whole: u64 = 0;
    let mut too_big = false;
    let mut i: usize = 0;
    while i < length && '0' as u8 <= text[i] && text[i] <= '9' as u8
        invariant
            i <= length,
            length == text@.len(),
            all_digits(text@.take(i as int)),
            !too_big ==> whole == number(text@.take(i as int)) && whole <= WHOLE_LIMIT,
            too_big ==> number(text@.take(i as int)) > WHOLE_LIMIT,
        decreases length - i,
    {
        proof {
            assert(text@.take(i + 1).drop_last() =~= text@.take(i as int));
            assert(text@.take(i + 1).last() == text@[i as int]);
        }
        if !too_big {
            let next: u64 = whole * 10 + (text[i] - '0' as u8) as u64;
            if next > WHOLE_LIMIT {
                too_big = true;
            } else {
                whole = next;
            }
        }
        i = i + 1;
    }
    proof {
        assert forall|j: int| 0 <= j < i implies text@[j] != '.' as u8 by {
            assert(text@.take(i as int)[j] == text@[j]);
        }
        point_is_past(text@, i as int);
    }
    if i == 0 {
        proof {
            if point_at(text@) > 0 {
                assert(text@.take(point_at(text@))[0] == text@[0]);
            }
        }
        return None;
    }
    if i == length {
        proof {
            assert(text@.take(i as int) =~= text@);
        }
        return if too_big {
            None
        } else {
            Some((whole * 10_000) as i64)
        };
    }
    if text[i] != '.' as u8 {
        proof {
            let point = point_at(text@);
            point_is_point(text@);
            assert(text@.take(point)[i as int] == text@[i as int]);
            assert(!is_digit(text@.take(point)[i as int]));
        }
        return None;
    }
    let places: usize = length - i - 1;
    assert(text@.skip(i + 1).len() == places);
    if places < 1 || places > 4 {
        return None;
    }
    let start: usize = i + 1;
    let mut part: u64 = 0;
    let mut j: usize = 0;
    while j < places
        invariant
            j <= places,
            start + places == length,
            length == text@.len(),
            1 <= places <= 4,
            start >= 2,
            point_at(text@) == start - 1,
            all_digits(text@.take(start - 1)),
            all_digits(text@.skip(start as int).take(j as int)),
            part == number(text@.skip(start as int).take(j as int)),
            j == 0 ==> part == 0,
            j == 1 ==> part <= 9,
            j == 2 ==> part <= 99,
            j == 3 ==> part <= 999,
            j == 4 ==> part <= 9999,
        decreases places - j,
    {
        let byte = text[start + j];
        proof {
            let rest = text@.skip(start as int);
            assert(rest.take(j + 1).drop_last() =~= rest.take(j as int));
            assert(rest.take(j + 1).last() == text@[start + j]);
        }
        if !('0' as u8 <= byte && byte <= '9' as u8) {
            proof {
                assert(!is_digit(text@.skip(start as int)[j as int]));
            }
            return None;
        }
        part = part * 10 + (byte - '0' as u8) as u64;
        j = j + 1;
    }
    proof {
        let rest = text@.skip(start as int);
        assert(rest.take(places as int) =~= rest);
    }
    let worth: u64 = if places == 1 {
        1000
    } else if places == 2 {
        100
    } else if places == 3 {
        10
    } else {
        1
    };
    assert(part * worth >= 0) by (nonlinear_arith)
        requires
            part >= 0,
            worth >= 0,
    ;
    if too_big {
        return None;
    }
    let value: u64 = whole * 10_000 + part * worth;
    if value > i64::MAX as u64 {
        None
    } else {
        Some(value as i64)
    }
}

/// The digits of a natural number are digits, at least one, and stand for
/// that number.
pub proof fn digits_stand_for_number(value: nat)
    ensures
        digits(value).len() >= 1,
        all_digits(digits(value)),
        number(digits(value)) == value,
    decreases value,
{
    if value < 10 {
        assert(digits(value).drop_last() =~= Seq::<u8>::empty());
        assert(number(digits(value).drop_last()) == 0);
    } else {
        digits_stand_for_number(value / 10);
        assert(digits(value).drop_last() =~= digits(value / 10));
    }
}

/// The decimal places of a number of ten-thousandths below one whole are
/// one to four digits, and stand for that number.
pub proof fn places_stand_for_part(part: nat)
    requires
        part < 10_000,
    ensures
        1 <= decimal_places(part).len() <= 4,
        all_digits(decimal_places(part)),
        number(decimal_places(part)) * place_worth(decimal_places(part).len() as int) == part,
{
    let tenths = seq![digit(part as int / 1000)];
    let hundredths = tenths.push(digit(part as int / 100 % 10));
    let thousandths = hundredths.push(digit(part as int / 10 % 10));
    let all = thousandths.push(digit(part as int % 10));
    assert(tenths.drop_last() =~= Seq::<u8>::empty());
    assert(number(tenths.drop_last()) == 0);
    assert(number(tenths) == part / 1000);
    assert(hundredths.drop_last() =~= tenths);
    assert(number(hundredths) == part / 100);
    assert(thousandths.drop_last() =~= hundredths);
    assert(number(thousandths) == part / 10);
    assert(all.drop_last() =~= thousandths);
    assert(number(all) == part);
}

/// The decimal text of a number of ten-thousandths that is not negative
/// stands for that number.
pub proof fn text_stands_for_units(units: int)
    requires
        units >= 0,
    ensures
        decimal_value(decimal_text(units)) == Some(units),
{
    let whole = digits((units / SCALE as int) as nat);
    let places = decimal_places((units % SCALE as int) as nat);
    let text = decimal_text(units);
    digits_stand_for_number((units / SCALE as int) as nat);
    places_stand_for_part((units % SCALE as int) as nat);
    assert(text =~= whole + seq!['.' as u8] + places);
    assert forall|j: int| 0 <= j < whole.len() implies text[j] != '.' as u8 by {
        assert(is_digit(whole[j]));
    }
    assert(text[whole.len() as int] == '.' as u8);
    point_is_past(text, whole.len() as int);
    assert(text.take(whole.len() as int) =~= whole);
    assert(text.skip(whole.len() as int + 1) =~= places);
}

/// Whether the character is one that decimal texts are made of: a digit, the
/// point or the minus sign.
pub open spec fn is_decimal_character(byte: u8) -> bool {
    is_digit(byte) || byte == '.' as u8 || byte == '-' as u8
}

/// A decimal text is made of digits, the point and the minus sign, and
/// begins with a digit or the minus sign.
pub proof fn text_is_decimal_characters(units: int)
    ensures
        decimal_text(units).len() >= 3,
        forall|i: int|
            0 <= i < decimal_text(units).len() ==> is_decimal_character(
                #[trigger] decimal_text(units)[i],
            ),
{
    let magnitude = if units < 0 {
        -units
    } else {
        units
    };
    let whole = digits((magnitude / SCALE as int) as nat);
    let places = decimal_places((magnitude % SCALE as int) as nat);
    digits_stand_for_number((magnitude / SCALE as int) as nat);
    places_stand_for_part((magnitude % SCALE as int) as nat);
    let unsigned = whole + seq!['.' as u8] + places;
    assert forall|i: int| 0 <= i < unsigned.len() implies is_decimal_character(
        #[trigger] unsigned[i],
    ) by {
        if i < whole.len() {
            assert(is_digit(whole[i]));
        } else if i > whole.len() {
            assert(is_digit(places[i - whole.len() - 1]));
        }
    }
    if units < 0 {
        assert forall|i: int| 0 <= i < decimal_text(units).len() implies is_decimal_character(
            #[trigger] decimal_text(units)[i],
        ) by {
            if i > 0 {
                assert(decimal_text(units)[i] == unsigned[i - 1]);
            }
        }
    }
}

} // verus!
