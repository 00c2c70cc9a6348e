use taylor_params::decimal::Decimal;
use taylor_params::errors::ErrorKind;
use taylor_params::numeric::Parseable;
use taylor_params::params::NumThreads;
use taylor_params::params::Params;
use taylor_params::params::RunMode;
use taylor_params::params::TerminationCriteria;
use taylor_params::parse_u64_digits;

fn args(xs: &[&str]) -> Vec<String> {
    let mut v: Vec<String> = Vec::new();
    for x in xs {
        v.push((*x).to_string());
    }
    v
}

fn dec(negative: bool, mantissa: u64, exponent: i64) -> Decimal {
    Decimal { negative, mantissa, exponent }
}

#[test]
fn scenario_all_available_difference() {
    let p = Params::<Decimal>::fromArgs(&args(&["0", "f", "0.0001", "2.5"])).unwrap();
    assert_eq!(p.num_threads, NumThreads::UseAllAvailable);
    assert_eq!(p.termination_criteria, TerminationCriteria::Difference(dec(false, 1, -4)));
    assert_eq!(p.input_value, dec(false, 25, -1));
    assert_eq!(p.run_mode, RunMode::Default);
}

#[test]
fn scenario_fixed_absolute_sequential() {
    let p = Params::<Decimal>::fromArgs(&args(&["4", "m", "1e-6", "3.14", "s"])).unwrap();
    assert_eq!(p.num_threads, NumThreads::Fixed(4));
    assert_eq!(p.termination_criteria, TerminationCriteria::AbsoluteValue(dec(false, 1, -6)));
    assert_eq!(p.input_value, dec(false, 314, -2));
    assert_eq!(p.run_mode, RunMode::Sequential);
}

#[test]
fn scenario_bad_num_threads() {
    let e = Params::<Decimal>::fromArgs(&args(&["x", "f", "1", "1"])).unwrap_err();
    assert_eq!(e.kind, ErrorKind::BadNumThreads);
    let c = e.cause().unwrap();
    assert_eq!(c.kind, ErrorKind::InvalidNumber("x".to_string()));
    assert!(c.cause().is_none());
}

#[test]
fn scenario_bad_termination_mode() {
    let e = Params::<Decimal>::fromArgs(&args(&["2", "z", "1", "1"])).unwrap_err();
    assert_eq!(e.kind, ErrorKind::BadTerminationMode);
    assert!(e.cause().is_none());
}

#[test]
fn scenario_insufficient_arguments() {
    let e = Params::<Decimal>::fromArgs(&args(&["2", "f", "1"])).unwrap_err();
    assert_eq!(e.kind, ErrorKind::InsufficientArguments(3));
    assert!(e.cause().is_none());
}

#[test]
fn scenario_bad_run_mode() {
    let e = Params::<Decimal>::fromArgs(&args(&["2", "f", "1", "1", "q"])).unwrap_err();
    assert_eq!(e.kind, ErrorKind::BadRunMode);
    assert!(e.cause().is_none());
}

#[test]
fn insufficient_arguments_counts_zero() {
    let e = Params::<Decimal>::fromArgs(&args(&[])).unwrap_err();
    assert_eq!(e.kind, ErrorKind::InsufficientArguments(0));
}

#[test]
fn insufficient_arguments_ignores_content() {
    let e = Params::<Decimal>::fromArgs(&args(&["?!", "", "x"])).unwrap_err();
    assert_eq!(e.kind, ErrorKind::InsufficientArguments(3));
}

#[test]
fn value_checked_before_mode() {
    let e = Params::<Decimal>::fromArgs(&args(&["2", "z", "xyz", "1"])).unwrap_err();
    assert_eq!(e.kind, ErrorKind::BadTerminationValue);
    let c = e.cause().unwrap();
    assert_eq!(c.kind, ErrorKind::InvalidNumber("xyz".to_string()));
}

#[test]
fn bad_input_value_carries_token() {
    let e = Params::<Decimal>::fromArgs(&args(&["2", "f", "1", "y"])).unwrap_err();
    assert_eq!(e.kind, ErrorKind::BadInputValue);
    let c = e.cause().unwrap();
    assert_eq!(c.kind, ErrorKind::InvalidNumber("y".to_string()));
}

#[test]
fn num_threads_literal_values() {
    let p = Params::<Decimal>::fromArgs(&args(&["16", "m", "1", "1"])).unwrap();
    assert_eq!(p.num_threads, NumThreads::Fixed(16));
    let p1 = Params::<Decimal>::fromArgs(&args(&["1", "m", "1", "1"])).unwrap();
    assert_eq!(p1.num_threads, NumThreads::Fixed(1));
}

#[test]
fn num_threads_rejects_other_spellings_of_zero() {
    let e = Params::<Decimal>::fromArgs(&args(&["00", "f", "1", "1"])).unwrap_err();
    assert_eq!(e.kind, ErrorKind::BadNumThreads);
}

#[test]
fn num_threads_rejects_out_of_range() {
    let e = Params::<Decimal>::fromArgs(&args(&["65536", "f", "1", "1"])).unwrap_err();
    assert_eq!(e.kind, ErrorKind::BadNumThreads);
}

#[test]
fn run_mode_debug_and_extra_tokens_ignored() {
    let p = Params::<Decimal>::fromArgs(&args(&["1", "f", "1", "1", "d"])).unwrap();
    assert_eq!(p.run_mode, RunMode::Debug);
    let p1 = Params::<Decimal>::fromArgs(&args(&["1", "f", "1", "1", "d", "zz"])).unwrap();
    assert_eq!(p1.run_mode, RunMode::Debug);
}

#[test]
fn num_threads_decoder_direct() {
    assert_eq!(NumThreads::from_str("0").unwrap(), NumThreads::UseAllAvailable);
    assert_eq!(NumThreads::from_str("1").unwrap(), NumThreads::Fixed(1));
    assert_eq!(NumThreads::from_str("16").unwrap(), NumThreads::Fixed(16));
    assert_eq!(NumThreads::from_str("65535").unwrap(), NumThreads::Fixed(65535));
    let e = NumThreads::from_str("x").unwrap_err();
    assert_eq!(e.kind, ErrorKind::BadNumThreads);
    assert_eq!(e.cause().unwrap().kind, ErrorKind::InvalidNumber("x".to_string()));
}

#[test]
fn run_mode_decoder_direct() {
    assert_eq!(RunMode::from_token(None).unwrap(), RunMode::Default);
    assert_eq!(RunMode::from_token(Some("d")).unwrap(), RunMode::Debug);
    assert_eq!(RunMode::from_token(Some("s")).unwrap(), RunMode::Sequential);
    let e = RunMode::from_token(Some("q")).unwrap_err();
    assert_eq!(e.kind, ErrorKind::BadRunMode);
}

#[test]
fn criteria_decoder_direct() {
    let c = TerminationCriteria::<Decimal>::from_args("f", "1.5").unwrap();
    assert_eq!(c, TerminationCriteria::Difference(dec(false, 15, -1)));
    let c1 = TerminationCriteria::<Decimal>::from_args("m", "2").unwrap();
    assert_eq!(c1, TerminationCriteria::AbsoluteValue(dec(false, 2, 0)));
    let e = TerminationCriteria::<Decimal>::from_args("z", "2").unwrap_err();
    assert_eq!(e.kind, ErrorKind::BadTerminationMode);
    let e1 = TerminationCriteria::<Decimal>::from_args("z", "q").unwrap_err();
    assert_eq!(e1.kind, ErrorKind::BadTerminationValue);
    assert_eq!(e1.cause().unwrap().kind, ErrorKind::InvalidNumber("q".to_string()));
}

#[test]
fn descriptions_render_the_cause_chain() {
    let e = Params::<Decimal>::fromArgs(&args(&["x", "f", "1", "1"])).unwrap_err();
    assert_eq!(
        e.description().as_str(),
        "Bad number of threads, must be 0 or a positive number: not a valid numeric literal 'x'"
    );
    let e1 = Params::<Decimal>::fromArgs(&args(&["2", "f", "1"])).unwrap_err();
    assert_eq!(e1.description().as_str(), "Not enough arguments, only 3 provided");
    let e2 = Params::<Decimal>::fromArgs(&args(&["2", "z", "1", "1"])).unwrap_err();
    assert_eq!(e2.description().as_str(), "Bad termination mode, must be 'f' or 'm'");
    let e3 = Params::<Decimal>::fromArgs(&args(&["2", "f", "1", "1", "q"])).unwrap_err();
    assert_eq!(e3.description().as_str(), "Bad run mode, must be 'd', 's' or not provided");
    let e4 = Params::<Decimal>::fromArgs(&args(&["2", "z", "xyz", "1"])).unwrap_err();
    assert_eq!(
        e4.description().as_str(),
        "Bad termination value: not a valid numeric literal 'xyz'"
    );
    let e5 = Params::<Decimal>::fromArgs(&args(&["2", "f", "1", "y"])).unwrap_err();
    assert_eq!(e5.description().as_str(), "Bad input value: not a valid numeric literal 'y'");
}

#[test]
fn decimal_accepts_the_documented_grammar() {
    assert_eq!(<Decimal as Parseable>::from_text("2.5"), Some(dec(false, 25, -1)));
    assert_eq!(<Decimal as Parseable>::from_text("10"), Some(dec(false, 10, 0)));
    assert_eq!(<Decimal as Parseable>::from_text("0"), Some(dec(false, 0, 0)));
    assert_eq!(<Decimal as Parseable>::from_text("1e6"), Some(dec(false, 1, 6)));
    assert_eq!(<Decimal as Parseable>::from_text("-3.5e-2"), Some(dec(true, 35, -3)));
    assert_eq!(<Decimal as Parseable>::from_text("-0.5"), Some(dec(true, 5, -1)));
    assert_eq!(
        <Decimal as Parseable>::from_text("18446744073709551615"),
        Some(dec(false, u64::MAX, 0))
    );
}

#[test]
fn decimal_rejects_malformed_tokens() {
    assert_eq!(<Decimal as Parseable>::from_text(""), None);
    assert_eq!(<Decimal as Parseable>::from_text("-"), None);
    assert_eq!(<Decimal as Parseable>::from_text("."), None);
    assert_eq!(<Decimal as Parseable>::from_text("1."), None);
    assert_eq!(<Decimal as Parseable>::from_text(".5"), None);
    assert_eq!(<Decimal as Parseable>::from_text("1e"), None);
    assert_eq!(<Decimal as Parseable>::from_text("1e+5"), None);
    assert_eq!(<Decimal as Parseable>::from_text("1E5"), None);
    assert_eq!(<Decimal as Parseable>::from_text("2.5.6"), None);
    assert_eq!(<Decimal as Parseable>::from_text("a"), None);
    assert_eq!(<Decimal as Parseable>::from_text("1 "), None);
    assert_eq!(<Decimal as Parseable>::from_text("18446744073709551616"), None);
}

#[test]
fn u64_digit_tokens() {
    assert_eq!(parse_u64_digits("123"), Some(123));
    assert_eq!(parse_u64_digits("007"), Some(7));
    assert_eq!(parse_u64_digits(""), None);
    assert_eq!(parse_u64_digits("12a"), None);
    assert_eq!(parse_u64_digits("+7"), None);
    assert_eq!(parse_u64_digits("18446744073709551615"), Some(u64::MAX));
    assert_eq!(parse_u64_digits("18446744073709551616"), None);
}

#[test]
fn unsigned_values_as_the_numeric_type() {
    let p = Params::<u64>::fromArgs(&args(&["2", "f", "5", "7", "d"])).unwrap();
    assert_eq!(p.num_threads, NumThreads::Fixed(2));
    assert_eq!(p.termination_criteria, TerminationCriteria::Difference(5u64));
    assert_eq!(p.input_value, 7u64);
    assert_eq!(p.run_mode, RunMode::Debug);
    let e = Params::<u64>::fromArgs(&args(&["2", "f", "5.5", "7"])).unwrap_err();
    assert_eq!(e.kind, ErrorKind::BadTerminationValue);
}
