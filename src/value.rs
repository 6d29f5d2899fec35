use vstd::prelude::*;

verus! {

/// A value of the surrounding runtime, as far as the text operations read it.
pub enum Value {
    Str(String),
    Int(i128),
    Bool(bool),
    List(Vec<Value>),
    Slice { start: Option<i128>, stop: Option<i128>, step: Option<i128> },
}

/// The operations bound for the text type, by canonical name.
#[derive(PartialEq, Eq, Structural, Clone, Copy, Debug)]
pub enum Method {
    Add,
    Eq,
    Contains,
    GetItem,
    Gt,
    Hash,
    Len,
    Mul,
    New,
    Str,
    Repr,
    Lower,
    Upper,
    Capitalize,
    Split,
    Strip,
    LStrip,
    RStrip,
    EndsWith,
    StartsWith,
    Title,
    SwapCase,
    IsAlnum,
    IsAlpha,
    IsDigit,
}

/// The catchable errors of the text operations.
pub enum StrError {
    /// An operand of the wrong kind: the operation, the receiver's content
    /// and the operand that was refused.
    TypeMismatch { operation: Method, receiver: String, operand: Value },
    /// An integer index outside the sequence.
    IndexOutOfRange,
    /// A slice step that is zero or negative.
    InvalidStep,
    /// A call with a number of arguments that the operation does not take.
    Arity { operation: Method, given: usize },
}

} // verus!
