use ctl::input::InputFormat;

#[test]
fn float_input_keeps_sign_digits_and_first_dot() {
    assert_eq!(InputFormat::Float.fix("-12.3.4a"), "-12.34");
    assert_eq!(InputFormat::Float.fix("--3"), "-3");
    assert_eq!(InputFormat::Float.fix("a-1"), "1");
    assert_eq!(InputFormat::Float.fix("..5"), ".5");
    assert_eq!(InputFormat::Float.fix(""), "");
    assert_eq!(InputFormat::Float.fix("0.25"), "0.25");
}

#[test]
fn any_input_is_kept() {
    assert_eq!(InputFormat::Any.fix("x-y.z"), "x-y.z");
}
