//! The calculator: an accumulator, the entry buffer, the operation that
//! waits for its operand, and the log of what was calculated.
//!
//! The accumulator is a binary floating-point number. Its arithmetic is the
//! caller's: the calculator carries each such number as the bits that hold it
//! and the text that displays it, and decides what happens to them.

use vstd::prelude::*;
use vstd::string::*;
use crate::digits::{Decimal, Digits, DigitsView, is_digit};
use crate::operation::Operation;

verus! {

/// A floating-point number as the calculator carries it.
#[derive(Clone, Debug)]
pub struct Number {
    /// The bits of the number in the 64-bit binary format.
    pub bits: u64,
    /// The number as it is displayed.
    pub text: String,
}

/// What a `Number` holds.
pub struct NumberView {
    pub bits: u64,
    pub text: Seq<char>,
}

impl NumberView {
    /// Positive zero, displayed as "0".
    pub open spec fn zero() -> NumberView {
        NumberView { bits: 0, text: seq!['0'] }
    }
}

impl View for Number {
    type V = NumberView;

    open spec fn view(&self) -> NumberView {
        NumberView { bits: self.bits, text: self.text@ }
    }
}

impl Number {
    /// Positive zero.
    pub fn zero() -> (number: Number)
        ensures
            number@ == NumberView::zero(),
    {
        proof {
            reveal_strlit("0");
        }
        let number = Number { bits: 0, text: String::from_str("0") };
        assert(number.text@ =~= seq!['0']);
        number
    }
}

/// The key of a key press, as far as the calculator tells keys apart.
#[derive(Copy, Clone, Debug, PartialEq, Eq)]
pub enum KeyCode {
    Char(char),
    Esc,
    Enter,
    Backspace,
    Other,
}

/// A key press.
#[derive(Copy, Clone, Debug, PartialEq, Eq)]
pub struct KeyEvent {
    pub code: KeyCode,
    /// Whether Control, and no other modifier, was held.
    pub control: bool,
}

/// What a key press asks of the calculator.
#[derive(Copy, Clone, Debug, PartialEq, Eq)]
pub enum Input {
    Digit(char),
    Decimal,
    Backspace,
    Clear,
    Add,
    Subtract,
    Multiply,
    Divide,
    Equal,
    SetNegative,
    SetPositive,
    Quit,
}

/// The meaning of each key. A key without one asks nothing.
pub open spec fn input_of(key: KeyEvent) -> Option<Input> {
    match key.code {
        KeyCode::Char(c) => {
            if key.control && (c == 'q' || c == 'c') {
                Some(Input::Quit)
            } else if c == 'c' {
                Some(Input::Clear)
            } else if c == '+' {
                Some(Input::Add)
            } else if c == '-' {
                Some(Input::Subtract)
            } else if c == '*' {
                Some(Input::Multiply)
            } else if c == '/' {
                Some(Input::Divide)
            } else if c == '=' {
                Some(Input::Equal)
            } else if c == 'n' || c == 'N' {
                Some(Input::SetNegative)
            } else if c == 'p' || c == 'P' {
                Some(Input::SetPositive)
            } else if c == '.' {
                Some(Input::Decimal)
            } else if is_digit(c) {
                Some(Input::Digit(c))
            } else {
                None
            }
        },
        KeyCode::Esc => Some(Input::Clear),
        KeyCode::Enter => Some(Input::Equal),
        KeyCode::Backspace => Some(Input::Backspace),
        KeyCode::Other => None,
    }
}

/// The texts of a row of strings.
pub open spec fn texts(lines: Seq<String>) -> Seq<Seq<char>> {
    Seq::new(lines.len(), |i: int| lines[i]@)
}

/// What the calculator holds.
pub struct AppView {
    pub should_quit: bool,
    pub digits: DigitsView,
    pub acc: NumberView,
    pub operation: Operation,
    pub history: Seq<Seq<char>>,
}

impl AppView {
    /// The calculator as it starts: zero, nothing typed, nothing waiting,
    /// nothing calculated.
    pub open spec fn initial() -> AppView {
        AppView {
            should_quit: false,
            digits: DigitsView::empty(),
            acc: NumberView::zero(),
            operation: Operation::Equal,
            history: Seq::empty(),
        }
    }

    /// The states that a calculator can be in.
    pub open spec fn wf(self) -> bool {
        self.digits.wf()
    }

    /// The state after a digit key: the buffer is offered the digit, and
    /// where it takes it while no operation waits, a new calculation starts
    /// from zero.
    pub open spec fn digit_entered(self, digit: char) -> AppView {
        AppView {
            digits: self.digits.pushed(digit),
            acc: if self.digits.accepts(digit) && self.operation == Operation::Equal {
                NumberView::zero()
            } else {
                self.acc
            },
            ..self
        }
    }

    /// The state after the clear key. A waiting operation is dropped; else
    /// typed digits are dropped; else the accumulator goes back to zero.
    pub open spec fn cleared(self) -> AppView {
        if self.operation != Operation::Equal {
            AppView { operation: Operation::Equal, ..self }
        } else if self.digits.digits.len() > 0 {
            AppView { digits: DigitsView::empty(), ..self }
        } else {
            AppView { acc: NumberView::zero(), ..self }
        }
    }

    /// Whether an operator key finds something to calculate: an operation
    /// that waits, or typed digits.
    pub open spec fn commits(self) -> bool {
        self.operation != Operation::Equal || self.digits.digits.len() > 0
    }

    /// The line that the log gets for the waiting operation: accumulator,
    /// operation, entry, `=` and the result, one space between them.
    pub open spec fn record(self, entry: NumberView, result: NumberView) -> Seq<char> {
        self.acc.text + seq![' '] + self.operation.symbol() + seq![' '] + entry.text + seq![
            ' ',
            '=',
            ' ',
        ] + result.text
    }

    /// The state after what waits was calculated, `entry` being the number
    /// in the buffer and `result` what the waiting operation makes of
    /// accumulator and entry. Where there is nothing to calculate, nothing
    /// changes. Else the buffer is emptied and no operation waits. Where an
    /// operation waited, its result becomes the accumulator and the log gets
    /// a line; where none did, the entry becomes the accumulator.
    pub open spec fn committed(self, entry: NumberView, result: NumberView) -> AppView {
        if !self.commits() {
            self
        } else {
            AppView {
                should_quit: self.should_quit,
                digits: DigitsView::empty(),
                acc: if self.operation != Operation::Equal {
                    result
                } else {
                    entry
                },
                operation: Operation::Equal,
                history: if self.operation != Operation::Equal {
                    self.history.push(self.record(entry, result))
                } else {
                    self.history
                },
            }
        }
    }

    /// The state after an operator key: what waits is calculated, then
    /// `operation` waits.
    pub open spec fn operated(
        self,
        operation: Operation,
        entry: NumberView,
        result: NumberView,
    ) -> AppView {
        AppView { operation, ..self.committed(entry, result) }
    }

    /// The state after one input.
    pub open spec fn handled(self, input: Input, entry: NumberView, result: NumberView) -> AppView {
        match input {
            Input::Digit(c) => self.digit_entered(c),
            Input::Decimal => AppView { digits: self.digits.pointed(), ..self },
            Input::Backspace => AppView { digits: self.digits.popped(), ..self },
            Input::Clear => self.cleared(),
            Input::Add => self.operated(Operation::Add, entry, result),
            Input::Subtract => self.operated(Operation::Subtract, entry, result),
            Input::Multiply => self.operated(Operation::Multiply, entry, result),
            Input::Divide => self.operated(Operation::Divide, entry, result),
            Input::Equal => self.operated(Operation::Equal, entry, result),
            Input::SetNegative => AppView { digits: self.digits.signed(true), ..self },
            Input::SetPositive => AppView { digits: self.digits.signed(false), ..self },
            Input::Quit => AppView { should_quit: true, ..self },
        }
    }

    /// The state after a key press.
    pub open spec fn keyed(self, key: KeyEvent, entry: NumberView, result: NumberView) -> AppView {
        match input_of(key) {
            Some(input) => self.handled(input, entry, result),
            None => self,
        }
    }

    /// The waiting operation as it is displayed: nothing where none waits.
    pub open spec fn operation_text(self) -> Seq<char> {
        if self.operation == Operation::Equal {
            Seq::empty()
        } else {
            self.operation.symbol()
        }
    }
}

/// The calculator.
#[derive(Debug)]
pub struct App {
    pub should_quit: bool,
    digits: Digits,
    acc: Number,
    current_operation: Operation,
    history: Vec<String>,
}

impl View for App {
    type V = AppView;

    closed spec fn view(&self) -> AppView {
        AppView {
            should_quit: self.should_quit,
            digits: self.digits@,
            acc: self.acc@,
            operation: self.current_operation,
            history: texts(self.history@),
        }
    }
}

impl Default for App {
    fn default() -> (app: Self)
        ensures
            app@ == AppView::initial(),
            app@.wf(),
    {
        let app = App {
            should_quit: false,
            digits: Digits::default(),
            acc: Number::zero(),
            current_operation: Operation::Equal,
            history: Vec::new(),
        };
        assert(texts(app.history@) =~= Seq::<Seq<char>>::empty());
        app
    }
}

/// What a key press asks of the calculator, if anything.
pub fn read_key(key: KeyEvent) -> (input: Option<Input>)
    ensures
        input == input_of(key),
{
    match key.code {
        KeyCode::Char(c) => {
            if key.control && (c == 'q' || c == 'c') {
                Some(Input::Quit)
            } else if c == 'c' {
                Some(Input::Clear)
            } else if c == '+' {
                Some(Input::Add)
            } else if c == '-' {
                Some(Input::Subtract)
            } else if c == '*' {
                Some(Input::Multiply)
            } else if c == '/' {
                Some(Input::Divide)
            } else if c == '=' {
                Some(Input::Equal)
            } else if c == 'n' || c == 'N' {
                Some(Input::SetNegative)
            } else if c == 'p' || c == 'P' {
                Some(Input::SetPositive)
            } else if c == '.' {
                Some(Input::Decimal)
            } else if '0' <= c && c <= '9' {
                Some(Input::Digit(c))
            } else {
                None
            }
        },
        KeyCode::Esc => Some(Input::Clear),
        KeyCode::Enter => Some(Input::Equal),
        KeyCode::Backspace => Some(Input::Backspace),
        KeyCode::Other => None,
    }
}

impl App {
    /// A calculator in its starting state.
    pub fn new() -> (app: Self)
        ensures
            app@ == AppView::initial(),
            app@.wf(),
    {
        App::default()
    }

    /// The passing of time changes nothing.
    pub fn tick(&self) {
    }

    /// Asks the calculator's owner to stop.
    pub fn quit(&mut self)
        ensures
            final(self)@ == (AppView { should_quit: true, ..old(self)@ }),
    {
        self.should_quit = true;
    }

    /// A digit key. A character that is no digit, and a digit that the
    /// buffer refuses, change nothing.
    pub fn push_digit(&mut self, digit: char)
        requires
            old(self)@.wf(),
        ensures
            final(self)@ == old(self)@.digit_entered(digit),
            final(self)@.wf(),
    {
        if '0' <= digit && digit <= '9' {
            let taken = self.digits.push(digit).is_ok();
            if taken && self.current_operation == Operation::Equal {
                self.acc = Number::zero();
            }
        }
    }

    /// The decimal-point key.
    pub fn decimal(&mut self)
        requires
            old(self)@.wf(),
        ensures
            final(self)@ == (AppView { digits: old(self)@.digits.pointed(), ..old(self)@ }),
            final(self)@.wf(),
    {
        self.digits.set_decimal_position();
    }

    /// The backspace key: the last thing typed is taken back.
    pub fn backspace(&mut self)
        requires
            old(self)@.wf(),
        ensures
            final(self)@ == (AppView { digits: old(self)@.digits.popped(), ..old(self)@ }),
            final(self)@.wf(),
    {
        let _ = self.digits.pop();
    }

    /// The clear key: exactly one of three things is dropped, the waiting
    /// operation before the typed digits before the accumulator.
    pub fn clear(&mut self)
        requires
            old(self)@.wf(),
        ensures
            final(self)@ == old(self)@.cleared(),
            final(self)@.wf(),
    {
        if self.current_operation != Operation::Equal {
            self.current_operation = Operation::Equal;
        } else if !self.digits.is_empty() {
            self.digits.clear();
        } else {
            self.acc = Number::zero();
        }
    }

    /// The accumulator.
    pub fn acc(&self) -> (acc: &Number)
        ensures
            acc@ == self@.acc,
    {
        &self.acc
    }

    /// The entry buffer as it is displayed.
    pub fn digits(&self) -> (text: String)
        requires
            self@.wf(),
        ensures
            text@ == self@.digits.text(),
    {
        self.digits.to_string()
    }

    /// The number in the entry buffer, exactly.
    pub fn number(&self) -> (value: Decimal)
        requires
            self@.wf(),
        ensures
            value.negative == self@.digits.negative,
            value.magnitude == self@.digits.magnitude(),
            value.scale == self@.digits.scale(),
    {
        self.digits.to_decimal()
    }

    /// Sets the entry's sign.
    pub fn make_negative(&mut self)
        requires
            old(self)@.wf(),
        ensures
            final(self)@ == (AppView { digits: old(self)@.digits.signed(true), ..old(self)@ }),
            final(self)@.wf(),
    {
        self.digits.set_negative(true);
    }

    /// Takes the entry's sign away.
    pub fn make_positive(&mut self)
        requires
            old(self)@.wf(),
        ensures
            final(self)@ == (AppView { digits: old(self)@.digits.signed(false), ..old(self)@ }),
            final(self)@.wf(),
    {
        self.digits.set_negative(false);
    }

    /// The `+` key. `entry` is the number in the buffer, `result` what the
    /// waiting operation makes of accumulator and entry; where none waits,
    /// `result` does not count.
    pub fn add(&mut self, entry: Number, result: Number)
        requires
            old(self)@.wf(),
        ensures
            final(self)@ == old(self)@.operated(Operation::Add, entry@, result@),
            final(self)@.wf(),
    {
        self.perform_operation(entry, result);
        self.current_operation = Operation::Add;
    }

    /// The `-` key, with `entry` and `result` as for `add`.
    pub fn subtract(&mut self, entry: Number, result: Number)
        requires
            old(self)@.wf(),
        ensures
            final(self)@ == old(self)@.operated(Operation::Subtract, entry@, result@),
            final(self)@.wf(),
    {
        self.perform_operation(entry, result);
        self.current_operation = Operation::Subtract;
    }

    /// The `*` key, with `entry` and `result` as for `add`.
    pub fn multiply(&mut self, entry: Number, result: Number)
        requires
            old(self)@.wf(),
        ensures
            final(self)@ == old(self)@.operated(Operation::Multiply, entry@, result@),
            final(self)@.wf(),
    {
        self.perform_operation(entry, result);
        self.current_operation = Operation::Multiply;
    }

    /// The `/` key, with `entry` and `result` as for `add`.
    pub fn divide(&mut self, entry: Number, result: Number)
        requires
            old(self)@.wf(),
        ensures
            final(self)@ == old(self)@.operated(Operation::Divide, entry@, result@),
            final(self)@.wf(),
    {
        self.perform_operation(entry, result);
        self.current_operation = Operation::Divide;
    }

    /// The `=` key, with `entry` and `result` as for `add`. Afterwards no
    /// operation waits.
    pub fn equal(&mut self, entry: Number, result: Number)
        requires
            old(self)@.wf(),
        ensures
            final(self)@ == old(self)@.operated(Operation::Equal, entry@, result@),
            final(self)@.wf(),
    {
        self.perform_operation(entry, result);
        self.current_operation = Operation::Equal;
    }

    /// Calculates what waits: see `AppView::committed`.
    fn perform_operation(&mut self, entry: Number, result: Number)
        requires
            old(self)@.wf(),
        ensures
            final(self)@ == old(self)@.committed(entry@, result@),
            final(self)@.wf(),
    {
        if self.current_operation == Operation::Equal && self.digits.is_empty() {
            return ;
        }
        if self.current_operation != Operation::Equal {
            proof {
                reveal_strlit(" ");
                reveal_strlit(" = ");
            }
            let symbol = self.current_operation.to_string();
            let mut record = self.acc.text.clone();
            record.append(" ");
            record.append(symbol.as_str());
            record.append(" ");
            record.append(entry.text.as_str());
            record.append(" = ");
            record.append(result.text.as_str());
            assert(" "@ =~= seq![' ']);
            assert(" = "@ =~= seq![' ', '=', ' ']);
            assert(record@ =~= old(self)@.record(entry@, result@));
            self.history.push(record);
            assert(texts(self.history@) =~= texts(old(self).history@).push(record@));
            self.acc = result;
        } else {
            self.acc = entry;
        }
        self.digits.clear();
        self.current_operation = Operation::Equal;
    }

    /// The log, oldest line first.
    pub fn history(&self) -> (lines: &Vec<String>)
        ensures
            texts(lines@) == self@.history,
    {
        &self.history
    }

    /// The operation that waits.
    pub fn operation(&self) -> (operation: Operation)
        ensures
            operation == self@.operation,
    {
        self.current_operation
    }

    /// The waiting operation as it is displayed.
    pub fn current_operation(&self) -> (text: String)
        ensures
            text@ == self@.operation_text(),
    {
        match self.current_operation {
            Operation::Equal => String::new(),
            _ => self.current_operation.to_string(),
        }
    }

    /// One input, with `entry` and `result` as for `add`; they count only
    /// where the input is an operator key.
    pub fn handle(&mut self, input: Input, entry: Number, result: Number)
        requires
            old(self)@.wf(),
        ensures
            final(self)@ == old(self)@.handled(input, entry@, result@),
            final(self)@.wf(),
    {
        match input {
            Input::Digit(c) => self.push_digit(c),
            Input::Decimal => self.decimal(),
            Input::Backspace => self.backspace(),
            Input::Clear => self.clear(),
            Input::Add => self.add(entry, result),
            Input::Subtract => self.subtract(entry, result),
            Input::Multiply => self.multiply(entry, result),
            Input::Divide => self.divide(entry, result),
            Input::Equal => self.equal(entry, result),
            Input::SetNegative => self.make_negative(),
            Input::SetPositive => self.make_positive(),
            Input::Quit => self.quit(),
        }
    }

    /// One key press, with `entry` and `result` as for `add`. A key that
    /// means nothing changes nothing.
    pub fn handle_key_event(&mut self, key_event: KeyEvent, entry: Number, result: Number)
        requires
            old(self)@.wf(),
        ensures
            final(self)@ == old(self)@.keyed(key_event, entry@, result@),
            final(self)@.wf(),
    {
        match read_key(key_event) {
            Some(input) => self.handle(input, entry, result),
            None => {},
        }
    }
}

/// Clearing a calculator in which nothing is typed and nothing waits puts
/// zero in the accumulator, and clearing it once more changes nothing.
pub proof fn lemma_clear_settles(state: AppView)
    requires
        state.operation == Operation::Equal,
        state.digits.digits.len() == 0,
    ensures
        state.cleared().acc == NumberView::zero(),
        state.cleared().cleared() == state.cleared(),
{
}

/// An operator key pressed while nothing is typed and nothing waits
/// calculates nothing: accumulator, buffer and log stay, and the operation
/// waits.
pub proof fn lemma_operator_alone(
    state: AppView,
    operation: Operation,
    entry: NumberView,
    result: NumberView,
)
    requires
        state.operation == Operation::Equal,
        state.digits.digits.len() == 0,
    ensures
        state.operated(operation, entry, result) == (AppView { operation, ..state }),
{
}

/// The log only grows, by at most one line for each input, and only an
/// operator key that finds an operation waiting adds one.
pub proof fn lemma_history_grows(state: AppView, input: Input, entry: NumberView, result: NumberView)
    ensures
        ({
            let next = state.handled(input, entry, result);
            let operator = input == Input::Add || input == Input::Subtract || input
                == Input::Multiply || input == Input::Divide || input == Input::Equal;
            if operator && state.operation != Operation::Equal {
                next.history == state.history.push(state.record(entry, result))
            } else {
                next.history == state.history
            }
        }),
{
}

} // verus!
