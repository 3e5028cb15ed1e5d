use vstd::prelude::*;

verus! {

/// One of the four binary operators.
#[derive(Debug, PartialEq, Eq, Clone, Copy, Structural)]
pub enum OperationType {
    Addition,
    Subtraction,
    Multiplication,
    Division,
}

impl OperationType {
    /// The character by which messages show the operator, whichever character
    /// of the input stood for it.
    pub open spec fn spec_glyph(self) -> char {
        match self {
            OperationType::Addition => '+',
            OperationType::Subtraction => '-',
            OperationType::Multiplication => '*',
            OperationType::Division => '/',
        }
    }

    /// The value of `x OP y` where it is a number of 32 bits: a sum or a
    /// product must fit, a difference must not be negative, and a divisor
    /// must not be zero. The quotient is rounded down.
    pub open spec fn spec_apply(self, x: u32, y: u32) -> Option<u32> {
        match self {
            OperationType::Addition => if x + y <= u32::MAX {
                Some((x + y) as u32)
            } else {
                None
            },
            OperationType::Subtraction => if y <= x {
                Some((x - y) as u32)
            } else {
                None
            },
            OperationType::Multiplication => if x * y <= u32::MAX {
                Some((x * y) as u32)
            } else {
                None
            },
            OperationType::Division => if y != 0 {
                Some(x / y)
            } else {
                None
            },
        }
    }

    #[verifier::when_used_as_spec(spec_glyph)]
    pub fn glyph(self) -> (c: char)
        ensures
            c == self.spec_glyph(),
    {
        match self {
            OperationType::Addition => '+',
            OperationType::Subtraction => '-',
            OperationType::Multiplication => '*',
            OperationType::Division => '/',
        }
    }

    /// Computes `x OP y` with the left operand first, and `None` where the
    /// value cannot be represented.
    #[verifier::when_used_as_spec(spec_apply)]
    pub fn apply(self, x: u32, y: u32) -> (r: Option<u32>)
        ensures
            r == self.spec_apply(x, y),
    {
        match self {
            OperationType::Addition => x.checked_add(y),
            OperationType::Subtraction => x.checked_sub(y),
            OperationType::Multiplication => x.checked_mul(y),
            OperationType::Division => x.checked_div(y),
        }
    }
}

} // verus!
