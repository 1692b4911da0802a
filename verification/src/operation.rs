//! The operator slot of the calculator.

use vstd::prelude::*;
use vstd::string::*;

verus! {

/// The operation that waits for its second operand. `Equal` is both the
/// resting state of the slot and what a finished calculation leaves in it.
#[derive(Copy, Clone, Debug, PartialEq, Eq, Structural)]
pub enum Operation {
    Equal,
    Add,
    Subtract,
    Multiply,
    Divide,
}

impl Default for Operation {
    fn default() -> (op: Self)
        ensures
            op == Operation::Equal,
    {
        Operation::Equal
    }
}

impl Operation {
    /// The sign under which the operation is written.
    pub open spec fn symbol(self) -> Seq<char> {
        match self {
            Operation::Add => seq!['+'],
            Operation::Subtract => seq!['-'],
            Operation::Multiply => seq!['×'],
            Operation::Divide => seq!['÷'],
            Operation::Equal => seq!['='],
        }
    }

    /// The operation's sign as text.
    pub fn to_string(&self) -> (text: String)
        ensures
            text@ == self.symbol(),
    {
        proof {
            reveal_strlit("+");
            reveal_strlit("-");
            reveal_strlit("×");
            reveal_strlit("÷");
            reveal_strlit("=");
        }
        let text = match self {
            Operation::Add => String::from_str("+"),
            Operation::Subtract => String::from_str("-"),
            Operation::Multiply => String::from_str("×"),
            Operation::Divide => String::from_str("÷"),
            Operation::Equal => String::from_str("="),
        };
        assert(text@ =~= self.symbol());
        text
    }
}

} // verus!
