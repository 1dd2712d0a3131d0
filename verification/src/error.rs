//! Errors of the calculator engine.
use vstd::prelude::*;

verus! {

/// Why an operation or an input was refused.
#[derive(Debug, PartialEq)]
pub enum CalcError {
    StackUnderflow,
    DivisionByZero,
    DomainError(String),
    InvalidInput(String),
    NotAnInteger,
    IncompatibleUnits(String),
}

/// The mathematical content of a [`CalcError`]: its kind and message text.
pub enum ErrorModel {
    StackUnderflow,
    DivisionByZero,
    DomainError(Seq<char>),
    InvalidInput(Seq<char>),
    NotAnInteger,
    IncompatibleUnits(Seq<char>),
}

impl View for CalcError {
    type V = ErrorModel;

    open spec fn view(&self) -> ErrorModel {
        match self {
            CalcError::StackUnderflow => ErrorModel::StackUnderflow,
            CalcError::DivisionByZero => ErrorModel::DivisionByZero,
            CalcError::DomainError(m) => ErrorModel::DomainError(m@),
            CalcError::InvalidInput(m) => ErrorModel::InvalidInput(m@),
            CalcError::NotAnInteger => ErrorModel::NotAnInteger,
            CalcError::IncompatibleUnits(m) => ErrorModel::IncompatibleUnits(m@),
        }
    }
}

/// The text shown to the user for an error.
pub open spec fn error_message(e: ErrorModel) -> Seq<char> {
    match e {
        ErrorModel::StackUnderflow => "Stack underflow"@,
        ErrorModel::DivisionByZero => "Division by zero"@,
        ErrorModel::DomainError(m) => "Domain error: "@ + m,
        ErrorModel::InvalidInput(m) => "Invalid input: "@ + m,
        ErrorModel::NotAnInteger => "Operation requires an integer"@,
        ErrorModel::IncompatibleUnits(m) => "Incompatible units: "@ + m,
    }
}

impl CalcError {
    /// A `DomainError` carrying the given message.
    pub fn domain(msg: &str) -> (r: CalcError)
        ensures
            r@ == ErrorModel::DomainError(msg@),
    {
        CalcError::DomainError(String::from_str(msg))
    }

    /// An `InvalidInput` error carrying the given message.
    pub fn invalid(msg: &str) -> (r: CalcError)
        ensures
            r@ == ErrorModel::InvalidInput(msg@),
    {
        CalcError::InvalidInput(String::from_str(msg))
    }

    /// The message shown to the user.
    pub fn to_string(&self) -> (r: String)
        ensures
            r@ == error_message(self@),
    {
        match self {
            CalcError::StackUnderflow => String::from_str("Stack underflow"),
            CalcError::DivisionByZero => String::from_str("Division by zero"),
            CalcError::DomainError(m) => String::from_str("Domain error: ").concat(m.as_str()),
            CalcError::InvalidInput(m) => String::from_str("Invalid input: ").concat(m.as_str()),
            CalcError::NotAnInteger => String::from_str("Operation requires an integer"),
            CalcError::IncompatibleUnits(m) => String::from_str("Incompatible units: ").concat(
                m.as_str(),
            ),
        }
    }
}

} // verus!
