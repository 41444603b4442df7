//! Errors of parsing and validating a module.
use crate::instance::{decimal, digit_char};
use crate::types::{FuncIdx, MemIdx};
use vstd::prelude::*;

verus! {

/// An error of validating a module or a function body.
#[derive(Debug, Clone, PartialEq, Eq)]
pub enum ValidationError {
    Msg(String),
}

/// An error of evaluating a constant expression.
#[derive(Debug, Clone, PartialEq, Eq)]
pub enum ConstantExpressionError {
    Msg(String),
}

/// An error of decoding a binary value.
#[derive(Debug, Clone, PartialEq, Eq)]
pub enum DecodingError {
    Msg(String),
}

/// An error of loading a resource.
#[derive(Debug, Clone, PartialEq, Eq)]
pub enum ResourceBufferError {
    /// The file ending names no supported input format.
    InvalidFileEnding(String),
    /// An I/O error, with its message.
    IoError(String),
}

/// An error of parsing a module.
#[derive(Debug, PartialEq, Eq)]
pub enum ParserError {
    Msg(String),
    /// An error together with the reader position at which it arose.
    PositionalError(Box<ParserError>, usize),
    InvalidOpcode,
    InvalidEncoding,
    InvalidLEB128Encoding,
    /// An I/O error, with its message.
    IoError(String),
    ValidationError(ValidationError),
    ConstantExpressionError(ConstantExpressionError),
    DecodingError(DecodingError),
    UnknownMemory(MemIdx),
    LimitsMinimumGreaterThanMaximum,
    StartFunctionDoesNotExist,
    AlignmentLargerThanNatural,
    LoaderError(ResourceBufferError),
    UnexpectedEOF,
    MissingFunctionImplementation(FuncIdx),
}

impl ParserError {
    /// A parser error with a message.
    pub fn msg(s: &str) -> (e: ParserError)
        ensures
            e matches ParserError::Msg(m) && m@ == s@,
    {
        ParserError::Msg(String::from_str(s))
    }
}

/// An error of calling a function of a module instance.
#[derive(Debug, Clone, Copy, PartialEq, Eq, Structural)]
pub enum FunctionError {
    /// The function has no entry point with the Rust calling convention.
    MissingRustCallConvPtr,
}

impl FunctionError {
    /// The error's message.
    pub fn message(&self) -> (m: String)
        ensures
            m@ == "function not callable from rust code"@,
    {
        match self {
            FunctionError::MissingRustCallConvPtr => String::from_str("function not callable from rust code"),
        }
    }
}

impl ValidationError {
    /// A validation error with a message.
    pub fn msg(s: &str) -> (e: ValidationError)
        ensures
            e matches ValidationError::Msg(m) && m@ == s@,
    {
        ValidationError::Msg(String::from_str(s))
    }
}

/// The digit `d` as a string.
fn digit_str(d: u64) -> (r: &'static str)
    requires
        d < 10,
    ensures
        r@ == seq![digit_char(d as nat)],
{
    proof {
        reveal_strlit("0");
        reveal_strlit("1");
        reveal_strlit("2");
        reveal_strlit("3");
        reveal_strlit("4");
        reveal_strlit("5");
        reveal_strlit("6");
        reveal_strlit("7");
        reveal_strlit("8");
        reveal_strlit("9");
    }
    match d {
        0 => "0",
        1 => "1",
        2 => "2",
        3 => "3",
        4 => "4",
        5 => "5",
        6 => "6",
        7 => "7",
        8 => "8",
        _ => "9",
    }
}

/// Appends the decimal representation of `n` to `out`.
pub fn append_decimal(out: &mut String, n: u64)
    ensures
        final(out)@ == old(out)@ + decimal(n as nat),
    decreases n,
{
    if n >= 10 {
        append_decimal(out, n / 10);
    }
    let d = digit_str(n % 10);
    out.append(d);
    proof {
        if n >= 10 {
            assert(old(out)@ + decimal(n as nat) =~= old(out)@ + decimal((n / 10) as nat) + seq![digit_char((n % 10) as nat)]);
        } else {
            assert(old(out)@ + decimal(n as nat) =~= old(out)@ + seq![digit_char(n as nat)]);
        }
    }
}


/// The text `prefix`, then the decimal representation of `id`, then `suffix`.
pub fn id_text(prefix: &str, id: u32, suffix: &str) -> (m: String)
    ensures
        m@ == prefix@ + decimal(id as nat) + suffix@,
{
    let mut m = String::from_str(prefix);
    append_decimal(&mut m, id as u64);
    m.append(suffix);
    m
}

} // verus!
