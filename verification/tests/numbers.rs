use gpslog::number::{digit, digit_number, read_int, Fault, FloatLiteral};
use gpslog::text::{chars_of, split_line};

#[test]
fn split_line_keeps_empty_fields() {
    assert_eq!(split_line("a,,b,"), vec!["a", "", "b", ""]);
    assert_eq!(split_line(""), vec![""]);
    assert_eq!(split_line(","), vec!["", ""]);
    assert_eq!(split_line("no separator"), vec!["no separator"]);
}

#[test]
fn split_line_agrees_with_std_split() {
    for line in ["H,1,2,3", "U,é,ü", ",,,", "x", "", "a,b", "多,字,节"] {
        let expected: Vec<String> = line.split(',').map(|s| s.to_owned()).collect();
        assert_eq!(split_line(line), expected, "line {:?}", line);
    }
}

#[test]
fn split_then_join_gives_the_line_back() {
    for line in ["H,1,2,3", ",,", "", "D,1000,5,-2,1,2.5,90.0"] {
        let fields = split_line(line);
        assert!(fields.iter().all(|f| !f.contains(',')));
        assert_eq!(fields.join(","), line);
    }
}

#[test]
fn chars_of_lists_every_character() {
    assert_eq!(chars_of("aé,1"), vec!['a', 'é', ',', '1']);
    assert_eq!(chars_of(""), Vec::<char>::new());
}

#[test]
fn digits_are_the_ten_ascii_digits() {
    assert!(digit('0'));
    assert!(digit('9'));
    assert!(!digit('/'));
    assert!(!digit(':'));
    assert!(!digit('a'));
    assert!(!digit('٣'));
    assert_eq!(digit_number('0'), 0);
    assert_eq!(digit_number('7'), 7);
    assert_eq!(digit_number('9'), 9);
}

#[test]
fn read_int_reads_signed_decimals() {
    assert_eq!(read_int("0"), Ok(0));
    assert_eq!(read_int("-0"), Ok(0));
    assert_eq!(read_int("+5"), Ok(5));
    assert_eq!(read_int("1700000000000"), Ok(1_700_000_000_000));
    assert_eq!(read_int("-250000"), Ok(-250_000));
    assert_eq!(read_int("0000000000000000000000001"), Ok(1));
    assert_eq!(read_int("9223372036854775807"), Ok(i64::MAX));
    assert_eq!(read_int("-9223372036854775808"), Ok(i64::MIN));
}

#[test]
fn read_int_names_the_fault() {
    assert_eq!(read_int(""), Err(Fault::Empty));
    assert_eq!(read_int("+"), Err(Fault::InvalidDigit));
    assert_eq!(read_int("-"), Err(Fault::InvalidDigit));
    assert_eq!(read_int("12x"), Err(Fault::InvalidDigit));
    assert_eq!(read_int("1.0"), Err(Fault::InvalidDigit));
    assert_eq!(read_int(" 1"), Err(Fault::InvalidDigit));
    assert_eq!(read_int("1 "), Err(Fault::InvalidDigit));
    assert_eq!(read_int("--1"), Err(Fault::InvalidDigit));
    assert_eq!(read_int("٣"), Err(Fault::InvalidDigit));
    assert_eq!(read_int("9223372036854775808"), Err(Fault::PosOverflow));
    assert_eq!(read_int("-9223372036854775809"), Err(Fault::NegOverflow));
    assert_eq!(read_int("99999999999999999999999"), Err(Fault::PosOverflow));
    assert_eq!(read_int("-99999999999999999999999"), Err(Fault::NegOverflow));
}

#[test]
fn read_int_reports_what_comes_first() {
    assert_eq!(read_int("99999999999999999999x"), Err(Fault::PosOverflow));
    assert_eq!(read_int("-99999999999999999999x"), Err(Fault::NegOverflow));
    assert_eq!(read_int("12x99999999999999999999"), Err(Fault::InvalidDigit));
}

#[test]
fn read_int_agrees_with_std() {
    let samples = [
        "", "0", "-0", "+0", "+", "-", "1", "-1", "+1", "007", "12a", "a12", "1 2", "1.5", "1e3",
        "9223372036854775807", "9223372036854775808", "-9223372036854775808",
        "-9223372036854775809", "18446744073709551616", "0x10", "१२", "1_000", "+-1", "-+1",
        "99999999999999999999x", "00000000000000000000000000000000000042",
    ];
    for text in samples {
        let expected = text.parse::<i64>();
        let got = read_int(text);
        match (expected, got) {
            (Ok(a), Ok(b)) => assert_eq!(a, b, "text {:?}", text),
            (Err(e), Err(fault)) => {
                let kind = match e.kind() {
                    std::num::IntErrorKind::Empty => Fault::Empty,
                    std::num::IntErrorKind::InvalidDigit => Fault::InvalidDigit,
                    std::num::IntErrorKind::PosOverflow => Fault::PosOverflow,
                    std::num::IntErrorKind::NegOverflow => Fault::NegOverflow,
                    other => panic!("unexpected kind {:?}", other),
                };
                assert_eq!(kind, fault, "text {:?}", text);
            }
            (a, b) => panic!("text {:?}: std gives {:?}, read_int gives {:?}", text, a, b),
        }
    }
}

#[test]
fn float_literal_accepts_decimal_numbers() {
    for text in [
        "10.0", "1", "1.", ".5", "-0.25", "+3.75", "2.5", "90.0", "1e5", "1E5", "1e-5", "1.5e+10",
        ".5e3", "5.e3", "0", "-0", "000.000", "123456789012345678901234567890.5",
    ] {
        let literal = FloatLiteral::parse(text).unwrap();
        assert_eq!(literal.as_str(), text);
    }
}

#[test]
fn float_literal_accepts_special_values() {
    for text in ["inf", "-inf", "+inf", "Infinity", "-INFINITY", "nan", "NaN", "-nan", "iNf"] {
        let literal = FloatLiteral::parse(text).unwrap();
        assert_eq!(literal.as_str(), text);
    }
}

#[test]
fn float_literal_rejects_what_is_no_number() {
    assert_eq!(FloatLiteral::parse(""), Err(Fault::Empty));
    for text in [
        "+", "-", ".", "+.", "e5", ".e5", "1e", "1e+", "1e-", "1.5.2", "1,5", " 1", "1 ", "0x10",
        "1_000", "abc", "infinit", "infinityy", "nanx", "na", "in", "--1", "+-1", "1e5.5", "1e5e5",
        "١", "1f", "1.0f64",
    ] {
        assert_eq!(FloatLiteral::parse(text), Err(Fault::Malformed), "text {:?}", text);
    }
}

#[test]
fn float_literal_agrees_with_std() {
    let samples = [
        "", "0", "-0", "+0", "1", "1.", ".1", ".", "+", "-", "+.", "-.", "1e1", "1e", "1e+", "1e+1",
        "1E-1", "e1", ".e1", "1.e1", ".1e1", "1.1.1", "inf", "Inf", "INF", "infinity", "Infinity",
        "InFiNiTy", "infinit", "infinityy", "nan", "NAN", "NaN", "nana", "+nan", "-inf", "--inf",
        "1 ", " 1", "1_0", "0x1", "1f", "10.0", "20.0", "5.0", "2.5", "90.0", "1e400", "1e-400",
        "00001", "1,0", "٣", "1e٣", "+e1", "1e1.0", "9999999999999999999999999999",
    ];
    for text in samples {
        let expected = text.parse::<f64>().is_ok();
        let got = FloatLiteral::parse(text).is_ok();
        assert_eq!(expected, got, "text {:?}", text);
    }
}

#[test]
fn zero_literal_is_zero() {
    let zero = FloatLiteral::zero();
    assert_eq!(zero.as_str(), "0");
    assert_eq!(zero.as_str().parse::<f64>().unwrap(), 0.0);
    assert_eq!(zero, FloatLiteral::parse("0").unwrap());
}

#[test]
fn float_literal_clone_keeps_the_text() {
    let literal = FloatLiteral::parse("19.75").unwrap();
    assert_eq!(literal.clone(), literal);
    assert_eq!(literal.clone().as_str(), "19.75");
}

#[test]
fn fault_messages() {
    assert_eq!(Fault::Empty.message(), "empty field");
    assert_eq!(Fault::InvalidDigit.message(), "invalid digit found in string");
    assert_eq!(Fault::PosOverflow.message(), "number too large to fit in target type");
    assert_eq!(Fault::NegOverflow.message(), "number too small to fit in target type");
    assert_eq!(Fault::Malformed.message(), "malformed value");
    assert_eq!(Fault::OutOfRange.message(), "value out of range");
}
