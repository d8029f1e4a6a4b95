use llua::status::{ThreadStatus, Type};

#[test]
fn status_codes_round_trip() {
    for code in 0..=7 {
        assert!(ThreadStatus::is_code(code));
        assert_eq!(ThreadStatus::from_c_int(code).code(), code);
    }
    assert!(!ThreadStatus::is_code(8));
    assert!(!ThreadStatus::is_code(-1));
}

#[test]
fn error_statuses() {
    assert!(ThreadStatus::Success.is_ok());
    assert!(!ThreadStatus::Yield.is_ok());
    assert!(!ThreadStatus::Success.is_err());
    assert!(!ThreadStatus::Yield.is_err());
    assert!(ThreadStatus::RuntimeError.is_err());
    assert!(ThreadStatus::FileError.is_err());
}

#[test]
fn type_codes() {
    assert_eq!(Type::from_c_int(-1), Type::NoValue);
    assert_eq!(Type::from_c_int(0), Type::Nil);
    assert_eq!(Type::from_c_int(8), Type::Thread);
    assert_eq!(Type::from_c_int(9), Type::Invalid);
    assert!(Type::NoValue.is_none_or_nil());
    assert!(Type::Nil.is_none_or_nil());
    assert!(!Type::Boolean.is_none_or_nil());
}
