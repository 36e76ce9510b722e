use icu_provider_core::operands::{OperandsError, PluralOperands};

fn ops(i: u64, v: usize, w: usize, f: u64, t: u64) -> PluralOperands {
    PluralOperands { i, v, w, f, t }
}

#[test]
fn operands_from_integers() {
    assert_eq!(PluralOperands::from_u64(2), ops(2, 0, 0, 0, 0));
    assert_eq!(PluralOperands::try_from_i64(-17), Ok(ops(17, 0, 0, 0, 0)));
    assert_eq!(PluralOperands::try_from_i64(i64::MIN), Err(OperandsError::Invalid));
}

#[test]
fn operands_from_strings() {
    assert_eq!("-1234.567".parse(), Ok(ops(1234, 3, 3, 567, 567)));
    assert_eq!("123.45".parse(), Ok(ops(123, 2, 2, 45, 45)));
    assert_eq!(PluralOperands::parse("1.500"), Ok(ops(1, 3, 1, 500, 5)));
    assert_eq!(PluralOperands::parse("1.000"), Ok(ops(1, 3, 0, 0, 0)));
    assert_eq!(PluralOperands::parse("42"), Ok(ops(42, 0, 0, 0, 0)));
    assert_eq!(PluralOperands::parse("+5"), Ok(ops(5, 0, 0, 0, 0)));
    assert_eq!(PluralOperands::parse("18446744073709551615"), Ok(ops(u64::MAX, 0, 0, 0, 0)));
}

#[test]
fn operands_errors() {
    assert_eq!(PluralOperands::parse(""), Err(OperandsError::Empty));
    assert_eq!(PluralOperands::parse("abc"), Err(OperandsError::Invalid));
    assert_eq!(PluralOperands::parse(".5"), Err(OperandsError::Invalid));
    assert_eq!(PluralOperands::parse("1."), Err(OperandsError::Invalid));
    assert_eq!(PluralOperands::parse("-"), Err(OperandsError::Invalid));
    assert_eq!(PluralOperands::parse("18446744073709551616"), Err(OperandsError::Invalid));
    assert_eq!(PluralOperands::parse("1.2.3"), Err(OperandsError::Invalid));
}
