//! The calculator: arithmetic operations as traits, a calculator that keeps the last
//! result, and the reading of an operation from a line of input.
use vstd::prelude::*;
use crate::text::{chars_of, trimmed, trim};

verus! {

/// Addition, where it is defined.
pub trait Add<Rhs = Self>: Sized {
    type Result;

    /// Whether `self` plus `second` is defined.
    spec fn add_defined(self, second: Rhs) -> bool;

    /// `self` plus `second`.
    spec fn add_spec(self, second: Rhs) -> Self::Result;

    fn add(self, second: Rhs) -> (r: Self::Result)
        requires
            self.add_defined(second),
        ensures
            r == self.add_spec(second),
    ;
}

/// Subtraction, where it is defined.
pub trait Subtraction<Rhs = Self>: Sized {
    type Result;

    /// Whether `self` minus `second` is defined.
    spec fn sub_defined(self, second: Rhs) -> bool;

    /// `self` minus `second`.
    spec fn sub_spec(self, second: Rhs) -> Self::Result;

    fn sub(self, second: Rhs) -> (r: Self::Result)
        requires
            self.sub_defined(second),
        ensures
            r == self.sub_spec(second),
    ;
}

/// Multiplication, where it is defined.
pub trait Multiplication<Rhs = Self>: Sized {
    type Result;

    /// Whether `self` times `second` is defined.
    spec fn multiply_defined(self, second: Rhs) -> bool;

    /// `self` times `second`.
    spec fn multiply_spec(self, second: Rhs) -> Self::Result;

    fn multiply(self, second: Rhs) -> (r: Self::Result)
        requires
            self.multiply_defined(second),
        ensures
            r == self.multiply_spec(second),
    ;
}

/// Division, where it is defined.
pub trait Division<Rhs = Self>: Sized {
    type Result;

    /// Whether `self` divided by `second` is defined.
    spec fn divide_defined(self, second: Rhs) -> bool;

    /// `self` divided by `second`.
    spec fn divide_spec(self, second: Rhs) -> Self::Result;

    fn divide(self, second: Rhs) -> (r: Self::Result)
        requires
            self.divide_defined(second),
        ensures
            r == self.divide_spec(second),
    ;
}

/// The quotient of `a` by `b` rounded toward zero, as Rust's `/` computes it on integers.
pub open spec fn trunc_div(a: int, b: int) -> int {
    let q = (if a < 0 {
        -a
    } else {
        a
    }) / (if b < 0 {
        -b
    } else {
        b
    });
    if (a < 0) != (b < 0) {
        -q
    } else {
        q
    }
}

impl Add for i32 {
    type Result = i32;

    open spec fn add_defined(self, second: i32) -> bool {
        i32::MIN <= self + second <= i32::MAX
    }

    open spec fn add_spec(self, second: i32) -> i32 {
        (self + second) as i32
    }

    fn add(self, second: i32) -> (r: i32) {
        self + second
    }
}

impl Subtraction for i32 {
    type Result = i32;

    open spec fn sub_defined(self, second: i32) -> bool {
        i32::MIN <= self - second <= i32::MAX
    }

    open spec fn sub_spec(self, second: i32) -> i32 {
        (self - second) as i32
    }

    fn sub(self, second: i32) -> (r: i32) {
        self - second
    }
}

impl Multiplication for i32 {
    type Result = i32;

    open spec fn multiply_defined(self, second: i32) -> bool {
        i32::MIN <= self * second <= i32::MAX
    }

    open spec fn multiply_spec(self, second: i32) -> i32 {
        (self * second) as i32
    }

    fn multiply(self, second: i32) -> (r: i32) {
        self * second
    }
}

impl Division for i32 {
    type Result = i32;

    open spec fn divide_defined(self, second: i32) -> bool {
        second != 0 && !(self == i32::MIN && second == -1)
    }

    open spec fn divide_spec(self, second: i32) -> i32 {
        trunc_div(self as int, second as int) as i32
    }

    fn divide(self, second: i32) -> (r: i32) {
        let a: u64 = if self < 0 {
            (0 - (self as i64)) as u64
        } else {
            self as u64
        };
        let b: u64 = if second < 0 {
            (0 - (second as i64)) as u64
        } else {
            second as u64
        };
        let q = a / b;
        proof {
            assert(q <= a);
        }
        if (self < 0) != (second < 0) {
            (0 - (q as i64)) as i32
        } else {
            proof {
                assert(q <= 0x7fff_ffff) by (nonlinear_arith)
                    requires
                        q == a / b,
                        b >= 1,
                        a <= 0x8000_0000,
                        (a == 0x8000_0000 ==> b >= 2),
                ;
            }
            q as i32
        }
    }
}

impl Add for i64 {
    type Result = i64;

    open spec fn add_defined(self, second: i64) -> bool {
        i64::MIN <= self + second <= i64::MAX
    }

    open spec fn add_spec(self, second: i64) -> i64 {
        (self + second) as i64
    }

    fn add(self, second: i64) -> (r: i64) {
        self + second
    }
}

impl Subtraction for i64 {
    type Result = i64;

    open spec fn sub_defined(self, second: i64) -> bool {
        i64::MIN <= self - second <= i64::MAX
    }

    open spec fn sub_spec(self, second: i64) -> i64 {
        (self - second) as i64
    }

    fn sub(self, second: i64) -> (r: i64) {
        self - second
    }
}

impl Multiplication for i64 {
    type Result = i64;

    open spec fn multiply_defined(self, second: i64) -> bool {
        i64::MIN <= self * second <= i64::MAX
    }

    open spec fn multiply_spec(self, second: i64) -> i64 {
        (self * second) as i64
    }

    fn multiply(self, second: i64) -> (r: i64) {
        self * second
    }
}

impl Division for i64 {
    type Result = i64;

    open spec fn divide_defined(self, second: i64) -> bool {
        second != 0 && !(self == i64::MIN && second == -1)
    }

    open spec fn divide_spec(self, second: i64) -> i64 {
        trunc_div(self as int, second as int) as i64
    }

    fn divide(self, second: i64) -> (r: i64) {
        let a: u128 = if self < 0 {
            (0 - (self as i128)) as u128
        } else {
            self as u128
        };
        let b: u128 = if second < 0 {
            (0 - (second as i128)) as u128
        } else {
            second as u128
        };
        let q = a / b;
        proof {
            assert(q <= a);
        }
        if (self < 0) != (second < 0) {
            (0 - (q as i128)) as i64
        } else {
            proof {
                assert(q <= 0x7fff_ffff_ffff_ffff) by (nonlinear_arith)
                    requires
                        q == a / b,
                        b >= 1,
                        a <= 0x8000_0000_0000_0000,
                        (a == 0x8000_0000_0000_0000 ==> b >= 2),
                ;
            }
            q as i64
        }
    }
}

impl Add for u32 {
    type Result = u32;

    open spec fn add_defined(self, second: u32) -> bool {
        self + second <= u32::MAX
    }

    open spec fn add_spec(self, second: u32) -> u32 {
        (self + second) as u32
    }

    fn add(self, second: u32) -> (r: u32) {
        self + second
    }
}

impl Subtraction for u32 {
    type Result = u32;

    open spec fn sub_defined(self, second: u32) -> bool {
        self >= second
    }

    open spec fn sub_spec(self, second: u32) -> u32 {
        (self - second) as u32
    }

    fn sub(self, second: u32) -> (r: u32) {
        self - second
    }
}

impl Multiplication for u32 {
    type Result = u32;

    open spec fn multiply_defined(self, second: u32) -> bool {
        self * second <= u32::MAX
    }

    open spec fn multiply_spec(self, second: u32) -> u32 {
        (self * second) as u32
    }

    fn multiply(self, second: u32) -> (r: u32) {
        self * second
    }
}

impl Division for u32 {
    type Result = u32;

    open spec fn divide_defined(self, second: u32) -> bool {
        second != 0
    }

    open spec fn divide_spec(self, second: u32) -> u32 {
        self / second
    }

    fn divide(self, second: u32) -> (r: u32) {
        self / second
    }
}

impl Add for u64 {
    type Result = u64;

    open spec fn add_defined(self, second: u64) -> bool {
        self + second <= u64::MAX
    }

    open spec fn add_spec(self, second: u64) -> u64 {
        (self + second) as u64
    }

    fn add(self, second: u64) -> (r: u64) {
        self + second
    }
}

impl Subtraction for u64 {
    type Result = u64;

    open spec fn sub_defined(self, second: u64) -> bool {
        self >= second
    }

    open spec fn sub_spec(self, second: u64) -> u64 {
        (self - second) as u64
    }

    fn sub(self, second: u64) -> (r: u64) {
        self - second
    }
}

impl Multiplication for u64 {
    type Result = u64;

    open spec fn multiply_defined(self, second: u64) -> bool {
        self * second <= u64::MAX
    }

    open spec fn multiply_spec(self, second: u64) -> u64 {
        (self * second) as u64
    }

    fn multiply(self, second: u64) -> (r: u64) {
        self * second
    }
}

impl Division for u64 {
    type Result = u64;

    open spec fn divide_defined(self, second: u64) -> bool {
        second != 0
    }

    open spec fn divide_spec(self, second: u64) -> u64 {
        self / second
    }

    fn divide(self, second: u64) -> (r: u64) {
        self / second
    }
}

/// A calculator that keeps the result of its last operation.
pub struct Calculator<T> {
    result: Option<T>,
}

impl<T> Calculator<T> {
    /// The last result, if there is one.
    pub closed spec fn result_spec(&self) -> Option<T> {
        self.result
    }

    /// A calculator with no result yet.
    pub fn new() -> (c: Self)
        ensures
            c.result_spec() is None,
    {
        Self { result: None }
    }

    /// The last result; there must be one.
    pub fn get_result(self) -> (r: T)
        requires
            self.result_spec() is Some,
        ensures
            r == self.result_spec()->0,
    {
        self.result.unwrap()
    }
}

impl<T: Add<Result = T>> Calculator<T> {
    /// Adds `first` and `second` and keeps the sum as the result.
    pub fn parse_operation(&mut self, first: T, second: T)
        requires
            first.add_defined(second),
        ensures
            final(self).result_spec() == Some(first.add_spec(second)),
    {
        self.result = Some(first.add(second));
    }
}

/// What the user asks the calculator for.
#[derive(PartialEq, Eq, Structural, Clone, Copy, Debug)]
pub enum Operation {
    Add,
    Subtraction,
    Multiplication,
    Division,
    Clear,
}

/// Why a line of input was refused.
#[derive(PartialEq, Eq, Structural, Clone, Copy, Debug)]
pub enum InputError {
    /// A number could not be read.
    ReadingString,
    /// The operation line is longer than an operation and a line break.
    TooManySymbols,
    /// The operation is none of `+ - * / c`.
    UnknownOperation,
}

impl InputError {
    /// The message that the error is shown with.
    pub fn message(&self) -> (m: &'static str)
        ensures
            m@ == (match self {
                InputError::ReadingString => "Reading string error"@,
                InputError::TooManySymbols => "To much symbols in string"@,
                InputError::UnknownOperation => "Unknown operation"@,
            }),
    {
        match self {
            InputError::ReadingString => "Reading string error",
            InputError::TooManySymbols => "To much symbols in string",
            InputError::UnknownOperation => "Unknown operation",
        }
    }
}

/// The operation that a line of input asks for: refused when it holds more than
/// three characters; otherwise given by its first character after trimming
/// (`'0'` when nothing is left).
pub open spec fn operation_of(line: Seq<char>) -> Result<Operation, InputError> {
    if line.len() > 3 {
        Err(InputError::TooManySymbols)
    } else {
        let t = trimmed(line);
        let c = if t.len() > 0 { t[0] } else { '0' };
        if c == '+' {
            Ok(Operation::Add)
        } else if c == '-' {
            Ok(Operation::Subtraction)
        } else if c == '*' {
            Ok(Operation::Multiplication)
        } else if c == '/' {
            Ok(Operation::Division)
        } else if c == 'c' {
            Ok(Operation::Clear)
        } else {
            Err(InputError::UnknownOperation)
        }
    }
}

/// Reads the operation from a line of input.
pub fn read_operation(line: &str) -> (r: Result<Operation, InputError>)
    ensures
        r == operation_of(line@),
{
    let chars = chars_of(line);
    if chars.len() > 3 {
        return Err(InputError::TooManySymbols);
    }
    let t = trim(chars.as_slice());
    let c = if t.len() > 0 {
        t[0]
    } else {
        '0'
    };
    if c == '+' {
        Ok(Operation::Add)
    } else if c == '-' {
        Ok(Operation::Subtraction)
    } else if c == '*' {
        Ok(Operation::Multiplication)
    } else if c == '/' {
        Ok(Operation::Division)
    } else if c == 'c' {
        Ok(Operation::Clear)
    } else {
        Err(InputError::UnknownOperation)
    }
}

} // verus!

verus! {

/// Division rounds toward zero: the remainder `a - b * q` is smaller than the
/// divisor and never has the opposite sign of the dividend.
pub proof fn law_division_rounds_toward_zero(a: int, b: int)
    requires
        b != 0,
    ensures
        ({
            let r = a - b * trunc_div(a, b);
            &&& (if r < 0 { -r } else { r }) < (if b < 0 { -b } else { b })
            &&& (r == 0 || ((r < 0) == (a < 0)))
        }),
{
    let x = if a < 0 { -a } else { a };
    let y = if b < 0 { -b } else { b };
    let q = x / y;
    assert(x == y * q + x % y && 0 <= x % y < y) by (nonlinear_arith)
        requires
            y > 0,
            x >= 0,
            q == x / y,
    ;
    if a < 0 && b < 0 {
        assert(a - b * q == -(x - y * q)) by (nonlinear_arith)
            requires
                x == -a,
                y == -b,
        ;
    } else if a < 0 {
        assert(a - b * (-q) == -(x - y * q)) by (nonlinear_arith)
            requires
                x == -a,
                y == b,
        ;
    } else if b < 0 {
        assert(a - b * (-q) == x - y * q) by (nonlinear_arith)
            requires
                x == a,
                y == -b,
        ;
    } else {
    }
}

} // verus!

verus! {

/// Subtracting what was added gives back the starting value (`i32`).
pub proof fn law_i32_sub_undoes_add(a: i32, b: i32)
    requires
        a.add_defined(b),
    ensures
        a.add_spec(b).sub_defined(b),
        a.add_spec(b).sub_spec(b) == a,
{
}

/// Subtracting what was added gives back the starting value (`u64`).
pub proof fn law_u64_sub_undoes_add(a: u64, b: u64)
    requires
        a.add_defined(b),
    ensures
        a.add_spec(b).sub_defined(b),
        a.add_spec(b).sub_spec(b) == a,
{
}

} // verus!
