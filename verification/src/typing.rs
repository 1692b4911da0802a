//! What a row of keys leaves in the entry buffer, and the number it stands for.

use vstd::prelude::*;
use crate::digits::{
    all_digits, is_decimal_text, is_digit, number_of, pow10, DigitsView, MAX_DIGITS,
};

verus! {

/// Reading `first + second` is reading `first`, then `second`.
pub proof fn lemma_typed_in_two(start: DigitsView, first: Seq<char>, second: Seq<char>)
    ensures
        start.typed(first + second) == start.typed(first).typed(second),
    decreases second.len(),
{
    if second.len() == 0 {
        assert(first + second =~= first);
    } else {
        lemma_typed_in_two(start, first, second.drop_last());
        assert((first + second).drop_last() =~= first + second.drop_last());
    }
}

/// Digits written behind a number shift it left by as many places.
pub proof fn lemma_number_of_joined(front: Seq<char>, back: Seq<char>)
    ensures
        number_of(front + back) == number_of(front) * pow10(back.len()) + number_of(back),
    decreases back.len(),
{
    if back.len() == 0 {
        assert(front + back =~= front);
        assert(number_of(front) * 1 == number_of(front));
    } else {
        let shorter = back.drop_last();
        lemma_number_of_joined(front, shorter);
        assert((front + back).drop_last() =~= front + shorter);
        let a = number_of(front);
        let p = pow10(shorter.len());
        let b = number_of(shorter);
        assert((a * p + b) * 10 == a * (10 * p) + b * 10) by (nonlinear_arith);
        assert(pow10(back.len()) == 10 * p);
        assert((front + back).last() == back.last());
    }
}

/// Digits typed into a buffer with room for them all: sign and decimal point
/// stay, and the buffer's digits read as the old digits followed by the keys
/// do. Zeros that the buffer refused led the number and so changed nothing.
/// Behind a decimal point every digit is kept.
pub proof fn lemma_digits_typed(start: DigitsView, keys: Seq<char>)
    requires
        all_digits(keys),
        start.digits.len() + keys.len() <= MAX_DIGITS,
    ensures
        start.typed(keys).negative == start.negative,
        start.typed(keys).decimal == start.decimal,
        start.typed(keys).magnitude() == number_of(start.digits + keys),
        start.typed(keys).digits.len() <= start.digits.len() + keys.len(),
        start.decimal is Some ==> start.typed(keys).digits.len() == start.digits.len() + keys.len(),
    decreases keys.len(),
{
    if keys.len() == 0 {
        assert(start.digits + keys =~= start.digits);
    } else {
        let shorter = keys.drop_last();
        let key = keys.last();
        lemma_digits_typed(start, shorter);
        let before = start.typed(shorter);
        let after = start.typed(keys);
        assert(is_digit(keys[keys.len() - 1]));
        assert(after == before.pushed(key));
        assert((start.digits + keys).drop_last() =~= start.digits + shorter);
        assert((start.digits + keys).last() == key);
        if before.accepts(key) {
            assert(after.digits.drop_last() =~= before.digits);
        } else {
            assert(before.digits =~= Seq::<char>::empty());
        }
    }
}

/// Up to fifteen digits typed into an empty buffer, under either sign and
/// with no decimal point: the buffer holds the integer that the digits write,
/// with that sign and nothing behind the point.
pub proof fn lemma_integer_entry(negative: bool, keys: Seq<char>)
    requires
        all_digits(keys),
        keys.len() <= MAX_DIGITS,
    ensures
        ({
            let entry = DigitsView::empty().signed(negative).typed(keys);
            &&& entry.negative == negative
            &&& entry.decimal is None
            &&& entry.scale() == 0
            &&& entry.magnitude() == number_of(keys)
        }),
{
    let start = DigitsView::empty().signed(negative);
    lemma_digits_typed(start, keys);
    assert(start.digits + keys =~= keys);
}

/// Up to fifteen digits typed into an empty buffer, under either sign, with
/// the decimal point typed once, behind the digits of `whole` and before
/// those of `fraction`: the buffer holds the integer that all the digits
/// write, over ten to the number of digits in `fraction`, with that sign.
pub proof fn lemma_decimal_entry(negative: bool, whole: Seq<char>, fraction: Seq<char>)
    requires
        all_digits(whole),
        all_digits(fraction),
        whole.len() + fraction.len() <= MAX_DIGITS,
    ensures
        ({
            let entry = DigitsView::empty().signed(negative).typed(whole + seq!['.'] + fraction);
            &&& entry.negative == negative
            &&& entry.decimal is Some
            &&& entry.scale() == fraction.len()
            &&& entry.magnitude() == number_of(whole + fraction)
        }),
{
    let start = DigitsView::empty().signed(negative);
    let point = seq!['.'];
    lemma_typed_in_two(start, whole + point, fraction);
    lemma_typed_in_two(start, whole, point);
    let integer = start.typed(whole);
    lemma_digits_typed(start, whole);
    assert(start.digits + whole =~= whole);
    assert(point.drop_last() =~= Seq::<char>::empty());
    assert(integer.typed(point) == integer.typed(point.drop_last()).keyed('.'));
    let pointed = integer.typed(point);
    assert(pointed == integer.pointed());
    lemma_digits_typed(pointed, fraction);
    lemma_number_of_joined(pointed.digits, fraction);
    lemma_number_of_joined(whole, fraction);
}

/// Whatever is typed, the buffer stays in a state that it can be in.
pub proof fn lemma_typed_wf(start: DigitsView, keys: Seq<char>)
    requires
        start.wf(),
    ensures
        start.typed(keys).wf(),
    decreases keys.len(),
{
    if keys.len() > 0 {
        lemma_typed_wf(start, keys.drop_last());
        let before = start.typed(keys.drop_last());
        if before.accepts(keys.last()) && keys.last() != '-' && keys.last() != '.' {
            let after = before.pushed(keys.last());
            assert forall|i: int| 0 <= i < after.digits.len() implies is_digit(
                #[trigger] after.digits[i],
            ) by {
                if i < before.digits.len() {
                    assert(after.digits[i] == before.digits[i]);
                }
            }
        }
    }
}

/// Zeros typed into an empty buffer, however many, leave it empty, and it
/// goes on showing the one zero that an empty buffer shows.
pub proof fn lemma_leading_zeros(negative: bool, count: nat)
    ensures
        ({
            let start = DigitsView::empty().signed(negative);
            let entry = start.typed(Seq::new(count, |i: int| '0'));
            &&& entry == start
            &&& entry.body_text() == seq!['0']
        }),
    decreases count,
{
    let start = DigitsView::empty().signed(negative);
    let zeros = Seq::new(count, |i: int| '0');
    if count > 0 {
        lemma_leading_zeros(negative, (count - 1) as nat);
        assert(zeros.drop_last() =~= Seq::new((count - 1) as nat, |i: int| '0'));
    }
}

/// Digits that the buffer has room for, typed where none of them would be a
/// leading zero: all of them join the buffer's digits, in order.
pub proof fn lemma_digits_kept(start: DigitsView, keys: Seq<char>)
    requires
        all_digits(keys),
        start.digits.len() + keys.len() <= MAX_DIGITS,
        start.decimal is Some || start.digits.len() > 0 || keys.len() == 0 || keys[0] != '0',
    ensures
        start.typed(keys) == (DigitsView { digits: start.digits + keys, ..start }),
    decreases keys.len(),
{
    if keys.len() == 0 {
        assert(start.digits + keys =~= start.digits);
    } else {
        let shorter = keys.drop_last();
        if shorter.len() > 0 {
            assert(shorter[0] == keys[0]);
        }
        lemma_digits_kept(start, shorter);
        assert(is_digit(keys[keys.len() - 1]));
        assert((start.digits + shorter).push(keys.last()) =~= start.digits + keys);
    }
}

/// The display text of a buffer, read back into an empty buffer, gives the
/// buffer again: sign, digits and decimal point. The text holds nothing
/// that reading could stumble over.
pub proof fn lemma_text_read_back(buffer: DigitsView)
    requires
        buffer.wf(),
    ensures
        is_decimal_text(buffer.text()),
        DigitsView::empty().typed(buffer.text()) == buffer,
{
    let len = buffer.digits.len() as int;
    let sign = buffer.sign_text();
    let body = buffer.body_text();
    let start = DigitsView::empty().signed(buffer.negative);
    let zero = seq!['0'];
    let point = seq!['.'];

    // The sign.
    lemma_typed_in_two(DigitsView::empty(), sign, body);
    if buffer.negative {
        assert(sign.drop_last() =~= Seq::<char>::empty());
        assert(DigitsView::empty().typed(sign) == DigitsView::empty().typed(sign.drop_last()).keyed(
            '-',
        ));
    }
    assert(DigitsView::empty().typed(sign) == start);

    // A lone zero changes nothing.
    assert(zero.drop_last() =~= Seq::<char>::empty());
    assert(start.typed(zero) == start.typed(zero.drop_last()).keyed('0'));
    assert(start.typed(zero) == start);

    match buffer.decimal {
        None => {
            if len == 0 {
                assert(buffer.digits =~= Seq::<char>::empty());
            } else {
                lemma_digits_kept(start, buffer.digits);
                assert(start.digits + buffer.digits =~= buffer.digits);
            }
            assert(start.typed(body) == buffer);
        },
        Some(k) => {
            let whole = if k > 0 {
                buffer.digits.subrange(0, k as int)
            } else {
                zero
            };
            let fraction = buffer.digits.subrange(k as int, len);
            let kept = buffer.digits.subrange(0, k as int);
            assert(body == whole + point + fraction);
            lemma_typed_in_two(start, whole + point, fraction);
            lemma_typed_in_two(start, whole, point);
            let integer = DigitsView { digits: kept, ..start };
            if k > 0 {
                assert(kept[0] == buffer.digits[0]);
                lemma_digits_kept(start, kept);
                assert(start.digits + kept =~= kept);
            } else {
                assert(kept =~= Seq::<char>::empty());
            }
            assert(start.typed(whole) == integer);
            assert(point.drop_last() =~= Seq::<char>::empty());
            assert(integer.typed(point) == integer.typed(point.drop_last()).keyed('.'));
            let pointed = integer.pointed();
            assert(integer.typed(point) == pointed);
            lemma_digits_kept(pointed, fraction);
            assert(kept + fraction =~= buffer.digits);
            assert(start.typed(body) == buffer);
        },
    }
    assert forall|i: int| 0 <= i < buffer.text().len() implies {
        let c = #[trigger] buffer.text()[i];
        is_digit(c) || c == '-' || c == '.'
    } by {
        let c = buffer.text()[i];
        if i >= sign.len() {
            let j = i - sign.len();
            assert(c == body[j]);
            match buffer.decimal {
                None => {
                    if len > 0 {
                        assert(is_digit(buffer.digits[j]));
                    }
                },
                Some(k) => {
                    let lead: int = if k > 0 {
                        k as int
                    } else {
                        1
                    };
                    if j < lead {
                        if k > 0 {
                            assert(is_digit(buffer.digits[j]));
                        }
                    } else if j > lead {
                        assert(is_digit(buffer.digits[k + (j - lead - 1)]));
                    }
                },
            }
        }
    }
}

} // verus!
