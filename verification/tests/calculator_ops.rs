use playground::calculator::{
    read_operation, Add, Calculator, Division, InputError, Multiplication, Operation, Subtraction,
};

#[test]
fn calculator_keeps_the_sum() {
    let mut calc: Calculator<i64> = Calculator::new();
    calc.parse_operation(40, 2);
    assert_eq!(calc.get_result(), 42);
}

#[test]
fn calculator_keeps_the_last_sum() {
    let mut calc: Calculator<u32> = Calculator::new();
    calc.parse_operation(1, 2);
    calc.parse_operation(10, 20);
    assert_eq!(calc.get_result(), 30);
}

#[test]
fn integer_operations() {
    assert_eq!(Add::add(2i32, 3), 5);
    assert_eq!(Subtraction::sub(2i32, 3), -1);
    assert_eq!(Multiplication::multiply(-4i32, 3), -12);
    assert_eq!(Division::divide(7i32, 2), 3);
    assert_eq!(Division::divide(-7i32, 2), -3);
    assert_eq!(Division::divide(7i32, -2), -3);
    assert_eq!(Division::divide(-7i32, -2), 3);
    assert_eq!(Division::divide(i32::MIN, 1), i32::MIN);
    assert_eq!(Division::divide(i32::MIN, 2), -1073741824);
    assert_eq!(Division::divide(i64::MIN, -2), 4611686018427387904);
    assert_eq!(Division::divide(-9i64, 4), -2);
    assert_eq!(Division::divide(9u32, 4), 2);
    assert_eq!(Division::divide(9u64, 10), 0);
    assert_eq!(Subtraction::sub(9u64, 9), 0);
    assert_eq!(Multiplication::multiply(6u32, 7), 42);
    assert_eq!(Add::add(u64::MAX - 1, 1), u64::MAX);
}

#[test]
fn division_matches_the_operator() {
    for a in [-9i32, -8, -1, 0, 1, 8, 9, i32::MAX, i32::MIN] {
        for b in [-3i32, -1, 1, 2, 5, i32::MAX] {
            if a == i32::MIN && b == -1 {
                continue;
            }
            assert_eq!(Division::divide(a, b), a / b, "{a} / {b}");
        }
    }
}

#[test]
fn reading_operations() {
    assert_eq!(read_operation("+\n"), Ok(Operation::Add));
    assert_eq!(read_operation("-\r\n"), Ok(Operation::Subtraction));
    assert_eq!(read_operation(" *\n"), Ok(Operation::Multiplication));
    assert_eq!(read_operation("/"), Ok(Operation::Division));
    assert_eq!(read_operation("c\r\n"), Ok(Operation::Clear));
    assert_eq!(read_operation("x\n"), Err(InputError::UnknownOperation));
    assert_eq!(read_operation("\n"), Err(InputError::UnknownOperation));
    assert_eq!(read_operation(""), Err(InputError::UnknownOperation));
    assert_eq!(read_operation("++\r\n"), Err(InputError::TooManySymbols));
}

#[test]
fn error_messages() {
    assert_eq!(InputError::TooManySymbols.message(), "To much symbols in string");
    assert_eq!(InputError::UnknownOperation.message(), "Unknown operation");
    assert_eq!(InputError::ReadingString.message(), "Reading string error");
}

#[test]
fn subtraction_undoes_addition() {
    for (a, b) in [(5i32, -9i32), (i32::MAX - 3, 3), (i32::MIN, 7)] {
        assert_eq!(Subtraction::sub(Add::add(a, b), b), a);
    }
    assert_eq!(Subtraction::sub(Add::add(7u64, u64::MAX - 7), u64::MAX - 7), 7);
}
