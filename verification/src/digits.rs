//! The entry buffer: the number that is being typed, digit by digit.

use vstd::prelude::*;
use vstd::string::*;

verus! {

/// The most digits that one entry can hold.
pub const MAX_DIGITS: usize = 15;

/// Why a key was not taken into the buffer.
#[derive(Copy, Clone, Debug, PartialEq, Eq)]
pub enum PushError {
    /// The key is no decimal digit, or it is a zero that would lead the number.
    InvalidDigit(char),
    /// The buffer is full.
    TooManyDigits,
}

/// An exact decimal number: `magnitude / 10^scale`, negated where `negative`.
#[derive(Copy, Clone, Debug, PartialEq, Eq, Structural)]
pub struct Decimal {
    pub negative: bool,
    pub magnitude: u64,
    pub scale: u32,
}

/// Whether `c` is one of the ten decimal digits.
pub open spec fn is_digit(c: char) -> bool {
    '0' <= c <= '9'
}

/// The number that a decimal digit stands for.
pub open spec fn digit_value(c: char) -> nat {
    (c as int - '0' as int) as nat
}

/// The natural number that a row of decimal digits writes, the empty row being 0.
pub open spec fn number_of(digits: Seq<char>) -> nat
    decreases digits.len(),
{
    if digits.len() == 0 {
        0
    } else {
        number_of(digits.drop_last()) * 10 + digit_value(digits.last())
    }
}

/// Ten to the power `n`.
pub open spec fn pow10(n: nat) -> nat
    decreases n,
{
    if n == 0 {
        1
    } else {
        10 * pow10((n - 1) as nat)
    }
}

/// Whether every character of `keys` is a decimal digit.
pub open spec fn all_digits(keys: Seq<char>) -> bool {
    forall|i: int| 0 <= i < keys.len() ==> is_digit(#[trigger] keys[i])
}

/// Whether `text` is made of digits, minus signs and decimal points only.
pub open spec fn is_decimal_text(text: Seq<char>) -> bool {
    forall|i: int|
        0 <= i < text.len() ==> {
            let c = #[trigger] text[i];
            is_digit(c) || c == '-' || c == '.'
        }
}

/// What a buffer holds: its sign, the digits in the order typed, and where
/// among them the decimal point stands, if it was typed.
pub struct DigitsView {
    pub negative: bool,
    pub digits: Seq<char>,
    pub decimal: Option<nat>,
}

impl DigitsView {
    /// The buffer before any key.
    pub open spec fn empty() -> DigitsView {
        DigitsView { negative: false, digits: Seq::empty(), decimal: None }
    }

    /// The states that a buffer can be in. A zero leads the digits only behind
    /// a decimal point that was placed before any digit.
    pub open spec fn wf(self) -> bool {
        &&& self.digits.len() <= MAX_DIGITS
        &&& all_digits(self.digits)
        &&& self.decimal matches Some(k) ==> k <= self.digits.len()
        &&& self.digits.len() > 0 && self.digits[0] == '0' ==> self.decimal == Some(0nat)
    }

    /// Whether `push` takes `digit` in this state.
    pub open spec fn accepts(self, digit: char) -> bool {
        &&& self.digits.len() < MAX_DIGITS
        &&& is_digit(digit)
        &&& digit == '0' ==> self.digits.len() > 0 || self.decimal is Some
    }

    /// What `push` answers to `digit` in this state.
    pub open spec fn push_outcome(self, digit: char) -> Result<(), PushError> {
        if self.digits.len() >= MAX_DIGITS {
            Err(PushError::TooManyDigits)
        } else if self.accepts(digit) {
            Ok(())
        } else {
            Err(PushError::InvalidDigit(digit))
        }
    }

    /// The state after `digit` was offered: it joins the digits where it is
    /// accepted, and nothing changes where it is not.
    pub open spec fn pushed(self, digit: char) -> DigitsView {
        if self.accepts(digit) {
            DigitsView { digits: self.digits.push(digit), ..self }
        } else {
            self
        }
    }

    /// Whether the decimal point is the last thing typed.
    pub open spec fn ends_in_point(self) -> bool {
        self.decimal == Some(self.digits.len())
    }

    /// What `pop` hands out in this state.
    pub open spec fn pop_outcome(self) -> Option<char> {
        if self.ends_in_point() {
            Some('.')
        } else if self.digits.len() == 0 {
            None
        } else {
            Some(self.digits.last())
        }
    }

    /// The state after the last thing typed was taken back. Taking back the
    /// only digit also takes back the sign.
    pub open spec fn popped(self) -> DigitsView {
        if self.ends_in_point() {
            DigitsView { decimal: None, ..self }
        } else if self.digits.len() == 0 {
            self
        } else {
            DigitsView {
                negative: self.negative && self.digits.len() > 1,
                digits: self.digits.drop_last(),
                decimal: self.decimal,
            }
        }
    }

    /// The state with the sign set as given.
    pub open spec fn signed(self, negative: bool) -> DigitsView {
        DigitsView { negative, ..self }
    }

    /// The state after the decimal point was offered: it stands behind the
    /// digits typed so far, unless one was placed before.
    pub open spec fn pointed(self) -> DigitsView {
        if self.decimal is Some {
            self
        } else {
            DigitsView { decimal: Some(self.digits.len()), ..self }
        }
    }

    /// The state after one character of a decimal text was read: a minus
    /// sign, a decimal point, or a digit.
    pub open spec fn keyed(self, key: char) -> DigitsView {
        if key == '-' {
            self.signed(true)
        } else if key == '.' {
            self.pointed()
        } else {
            self.pushed(key)
        }
    }

    /// The state after all of `keys` were read in order.
    pub open spec fn typed(self, keys: Seq<char>) -> DigitsView
        decreases keys.len(),
    {
        if keys.len() == 0 {
            self
        } else {
            self.typed(keys.drop_last()).keyed(keys.last())
        }
    }

    /// The digits read as one natural number, the decimal point left aside.
    pub open spec fn magnitude(self) -> nat {
        number_of(self.digits)
    }

    /// How many digits stand behind the decimal point.
    pub open spec fn scale(self) -> nat {
        match self.decimal {
            Some(k) => (self.digits.len() - k) as nat,
            None => 0,
        }
    }

    /// The sign as it is displayed.
    pub open spec fn sign_text(self) -> Seq<char> {
        if self.negative {
            seq!['-']
        } else {
            Seq::empty()
        }
    }

    /// The digits as they are displayed, point included. Where no digit
    /// stands before the point, or none was typed at all, a zero is shown.
    pub open spec fn body_text(self) -> Seq<char> {
        match self.decimal {
            Some(k) => {
                let whole = if k > 0 {
                    self.digits.subrange(0, k as int)
                } else {
                    seq!['0']
                };
                whole + seq!['.'] + self.digits.subrange(k as int, self.digits.len() as int)
            },
            None => if self.digits.len() == 0 {
                seq!['0']
            } else {
                self.digits
            },
        }
    }

    /// The buffer as it is displayed.
    pub open spec fn text(self) -> Seq<char> {
        self.sign_text() + self.body_text()
    }
}

/// A number being typed: a sign, up to fifteen digits and, once typed, the
/// place of the decimal point among them.
#[derive(Clone, Debug)]
pub struct Digits {
    is_negative: bool,
    digits: Vec<char>,
    decimal_position: Option<usize>,
}

impl View for Digits {
    type V = DigitsView;

    closed spec fn view(&self) -> DigitsView {
        DigitsView {
            negative: self.is_negative,
            digits: self.digits@,
            decimal: match self.decimal_position {
                Some(k) => Some(k as nat),
                None => None,
            },
        }
    }
}

impl Default for Digits {
    fn default() -> (buffer: Self)
        ensures
            buffer@ == DigitsView::empty(),
            buffer@.wf(),
    {
        Digits { is_negative: false, digits: Vec::new(), decimal_position: None }
    }
}

/// The one-character text of a decimal digit.
fn digit_text(digit: char) -> (text: &'static str)
    requires
        is_digit(digit),
    ensures
        text@ == seq![digit],
{
    proof {
        reveal_strlit("0");
        reveal_strlit("1");
        reveal_strlit("2");
        reveal_strlit("3");
        reveal_strlit("4");
        reveal_strlit("5");
        reveal_strlit("6");
        reveal_strlit("7");
        reveal_strlit("8");
        reveal_strlit("9");
    }
    let text = match digit {
        '0' => "0",
        '1' => "1",
        '2' => "2",
        '3' => "3",
        '4' => "4",
        '5' => "5",
        '6' => "6",
        '7' => "7",
        '8' => "8",
        _ => "9",
    };
    assert(text@ =~= seq![digit]);
    text
}

/// Appends `digits[from..to]` to `text`.
fn append_digits(text: &mut String, digits: &Vec<char>, from: usize, to: usize)
    requires
        from <= to <= digits@.len(),
        all_digits(digits@),
    ensures
        final(text)@ == old(text)@ + digits@.subrange(from as int, to as int),
{
    let mut i: usize = from;
    assert(text@ =~= old(text)@ + digits@.subrange(from as int, i as int));
    while i < to
        invariant
            from <= i <= to <= digits@.len(),
            all_digits(digits@),
            text@ == old(text)@ + digits@.subrange(from as int, i as int),
        decreases to - i,
    {
        text.append(digit_text(digits[i]));
        assert(digits@.subrange(from as int, i + 1) =~= digits@.subrange(from as int, i as int)
            + seq![digits@[i as int]]);
        i += 1;
    }
}

/// A row of at most `n` digits writes a number below `10^n`.
pub proof fn lemma_number_of_bound(digits: Seq<char>)
    requires
        all_digits(digits),
    ensures
        number_of(digits) < pow10(digits.len()),
    decreases digits.len(),
{
    if digits.len() > 0 {
        lemma_number_of_bound(digits.drop_last());
        assert(is_digit(digits[digits.len() - 1]));
    }
}

/// Powers of ten grow with the exponent.
pub proof fn lemma_pow10_grows(m: nat, n: nat)
    requires
        m <= n,
    ensures
        pow10(m) <= pow10(n),
    decreases n,
{
    if m < n {
        lemma_pow10_grows(m, (n - 1) as nat);
    }
}

impl Digits {
    /// Offers one key to the buffer. A full buffer refuses every key; a key
    /// that is no digit is refused, and so is a zero before any other digit
    /// unless the decimal point was typed. A refusal changes nothing.
    pub fn push(&mut self, digit: char) -> (outcome: Result<(), PushError>)
        requires
            old(self)@.wf(),
        ensures
            outcome == old(self)@.push_outcome(digit),
            final(self)@ == old(self)@.pushed(digit),
            final(self)@.wf(),
    {
        if self.digits.len() >= MAX_DIGITS {
            Err(PushError::TooManyDigits)
        } else if digit == '0' {
            if self.digits.len() > 0 || self.decimal_position.is_some() {
                self.digits.push(digit);
                Ok(())
            } else {
                Err(PushError::InvalidDigit(digit))
            }
        } else if '1' <= digit && digit <= '9' {
            self.digits.push(digit);
            Ok(())
        } else {
            Err(PushError::InvalidDigit(digit))
        }
    }

    /// Takes back the last thing typed and hands it out: the decimal point
    /// where it was typed last, else the last digit, else nothing.
    pub fn pop(&mut self) -> (outcome: Option<char>)
        requires
            old(self)@.wf(),
        ensures
            outcome == old(self)@.pop_outcome(),
            final(self)@ == old(self)@.popped(),
            final(self)@.wf(),
    {
        if self.decimal_position == Some(self.digits.len()) {
            self.decimal_position = None;
            Some('.')
        } else {
            let last = self.digits.pop();
            if last.is_some() && self.digits.len() == 0 {
                self.is_negative = false;
            }
            last
        }
    }

    /// Empties the buffer: sign, decimal point and digits together.
    pub fn clear(&mut self)
        ensures
            final(self)@ == DigitsView::empty(),
            final(self)@.wf(),
    {
        self.is_negative = false;
        self.decimal_position = None;
        self.digits.clear();
    }

    /// Whether no digit is held. The sign and the decimal point do not count.
    pub fn is_empty(&self) -> (empty: bool)
        ensures
            empty == (self@.digits.len() == 0),
    {
        self.digits.len() == 0
    }

    /// Whether the sign is set.
    pub fn is_negative(&self) -> (negative: bool)
        ensures
            negative == self@.negative,
    {
        self.is_negative
    }

    /// Sets the sign, whatever the digits are.
    pub fn set_negative(&mut self, flag: bool)
        requires
            old(self)@.wf(),
        ensures
            final(self)@ == old(self)@.signed(flag),
            final(self)@.wf(),
    {
        self.is_negative = flag;
    }

    /// Sets the sign to what it is: the buffer stays as it was.
    pub fn toggle_negative(&mut self)
        requires
            old(self)@.wf(),
        ensures
            final(self)@ == old(self)@,
            final(self)@.wf(),
    {
        let flag = self.is_negative();
        self.set_negative(flag);
    }

    /// Places the decimal point behind the digits typed so far. Where one
    /// was placed before, nothing changes.
    pub fn set_decimal_position(&mut self)
        requires
            old(self)@.wf(),
        ensures
            final(self)@ == old(self)@.pointed(),
            final(self)@.wf(),
    {
        if self.decimal_position.is_none() {
            self.decimal_position = Some(self.digits.len());
        }
    }

    /// The display text of the buffer.
    pub fn to_string(&self) -> (text: String)
        requires
            self@.wf(),
        ensures
            text@ == self@.text(),
    {
        proof {
            reveal_strlit("-");
            reveal_strlit("0");
            reveal_strlit(".");
        }
        let mut text = String::new();
        if self.is_negative {
            text.append("-");
        }
        assert(text@ =~= self@.sign_text());
        let len = self.digits.len();
        match self.decimal_position {
            Some(k) => {
                if k > 0 {
                    append_digits(&mut text, &self.digits, 0, k);
                } else {
                    text.append("0");
                }
                text.append(".");
                append_digits(&mut text, &self.digits, k, len);
            },
            None => {
                if len == 0 {
                    text.append("0");
                } else {
                    append_digits(&mut text, &self.digits, 0, len);
                    assert(self.digits@.subrange(0, len as int) =~= self.digits@);
                }
            },
        }
        assert(text@ =~= self@.text());
        text
    }

    /// The number that the buffer holds, exactly: the digits read as one
    /// integer, the count of digits behind the decimal point, and the sign.
    /// An empty buffer holds zero.
    pub fn to_decimal(&self) -> (value: Decimal)
        requires
            self@.wf(),
        ensures
            value.negative == self@.negative,
            value.magnitude == self@.magnitude(),
            value.scale == self@.scale(),
    {
        proof {
            lemma_pow10_grows(0, 15);
        }
        let len = self.digits.len();
        let mut magnitude: u64 = 0;
        let mut i: usize = 0;
        assert(self.digits@.subrange(0, 0) =~= Seq::<char>::empty());
        while i < len
            invariant
                i <= len == self.digits@.len() <= 15,
                all_digits(self.digits@),
                magnitude == number_of(self.digits@.subrange(0, i as int)),
            decreases len - i,
        {
            let digit = self.digits[i];
            proof {
                let before = self.digits@.subrange(0, i as int);
                let after = self.digits@.subrange(0, i + 1);
                assert(after.drop_last() =~= before);
                assert(all_digits(after));
                lemma_number_of_bound(after);
                lemma_pow10_grows(after.len(), 15);
                reveal_with_fuel(pow10, 16);
                assert(pow10(15) == 1_000_000_000_000_000);
            }
            magnitude = magnitude * 10 + (digit as u64 - '0' as u64);
            i += 1;
        }
        assert(self.digits@.subrange(0, len as int) =~= self.digits@);
        let scale: usize = match self.decimal_position {
            Some(k) => len - k,
            None => 0,
        };
        Decimal { negative: self.is_negative, magnitude, scale: scale as u32 }
    }

    /// Whether `text` can be read by `from_text`: whether it holds nothing
    /// but digits, minus signs and decimal points.
    pub fn reads(text: &str) -> (ok: bool)
        ensures
            ok == is_decimal_text(text@),
    {
        let len = text.unicode_len();
        let mut i: usize = 0;
        while i < len
            invariant
                i <= len == text@.len(),
                is_decimal_text(text@.subrange(0, i as int)),
            decreases len - i,
        {
            let c = text.get_char(i);
            if !(('0' <= c && c <= '9') || c == '-' || c == '.') {
                return false;
            }
            assert forall|j: int| 0 <= j < i + 1 implies {
                let d = #[trigger] text@.subrange(0, i + 1)[j];
                is_digit(d) || d == '-' || d == '.'
            } by {
                if j < i {
                    assert(text@.subrange(0, i + 1)[j] == text@.subrange(0, i as int)[j]);
                }
            }
            i += 1;
        }
        assert(text@.subrange(0, len as int) =~= text@);
        true
    }

    /// The buffer that results from reading the decimal text of a number,
    /// character by character, into an empty buffer: a minus sign sets the
    /// sign, a decimal point is placed, a digit is offered as a key is, and
    /// dropped where the buffer refuses it.
    pub fn from_text(text: &str) -> (buffer: Digits)
        requires
            is_decimal_text(text@),
        ensures
            buffer@ == DigitsView::empty().typed(text@),
            buffer@.wf(),
    {
        let mut buffer = Digits::default();
        let len = text.unicode_len();
        let mut i: usize = 0;
        assert(text@.subrange(0, 0) =~= Seq::<char>::empty());
        while i < len
            invariant
                i <= len == text@.len(),
                buffer@ == DigitsView::empty().typed(text@.subrange(0, i as int)),
                buffer@.wf(),
            decreases len - i,
        {
            let c = text.get_char(i);
            assert(text@.subrange(0, i + 1).drop_last() =~= text@.subrange(0, i as int));
            if c == '-' {
                buffer.set_negative(true);
            } else if c == '.' {
                buffer.set_decimal_position();
            } else {
                let _ = buffer.push(c);
            }
            i += 1;
        }
        assert(text@.subrange(0, len as int) =~= text@);
        buffer
    }
}

} // verus!
