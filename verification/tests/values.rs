use labview::{
    Date, DecimalSeparator, ErrorKind, Real, Separator, TestNumber, TestNumbers, Time, TimePref,
    UnitType, Version, XColumns,
};

#[test]
fn separator_of_a_character() {
    assert_eq!(Separator::try_from(',').unwrap(), Separator::Comma);
    assert_eq!(Separator::try_from('\t').unwrap(), Separator::Tab);
    let err = Separator::try_from(';').unwrap_err();
    assert_eq!(err.kind, ErrorKind::InvalidSeparator(';'));
    assert!(err.lines.is_empty());
    assert_eq!(Separator::Comma.to_char(), ',');
    assert_eq!(Separator::Tab.to_char(), '\t');
}

#[test]
fn defaults() {
    assert_eq!(Separator::default(), Separator::Tab);
    assert_eq!(TimePref::default(), TimePref::Relative);
    assert_eq!(UnitType::default(), UnitType::ElectricPotential);
    assert_eq!(XColumns::default(), XColumns::One);
    assert_ne!(DecimalSeparator::Dot, DecimalSeparator::Comma);
}

#[test]
fn date_from_text() {
    let date = Date::from_str("2018/03/04").unwrap();
    assert_eq!((date.year, date.month, date.day), (2018, 3, 4));
    let leap = Date::from_str("2020/02/29").unwrap();
    assert_eq!((leap.year, leap.month, leap.day), (2020, 2, 29));
    assert!(Date::from_str("2019/02/29").is_err());
    assert!(Date::from_str("2018-03-04").is_err());
    assert!(!Date::from_str("").unwrap_err().is_empty());
}

#[test]
fn time_from_text() {
    let time = Time::from_str("01:02:03").unwrap();
    assert_eq!((time.hour, time.minute, time.second, time.nanosecond), (1, 2, 3, 0));
    let time = Time::from_str("23:59:58.125").unwrap();
    assert_eq!(
        (time.hour, time.minute, time.second, time.nanosecond),
        (23, 59, 58, 125_000_000)
    );
    assert!(Time::from_str("24:00:00").is_err());
    assert!(Time::from_str("noon").is_err());
}

#[test]
fn version_from_text() {
    let version = Version::from_str("2").unwrap();
    assert_eq!((version.major, version.minor, version.patch), (2, 0, 0));
    let version = Version::from_str("2.1").unwrap();
    assert_eq!((version.major, version.minor, version.patch), (2, 1, 0));
    let version = Version::from_str("1.2.3-alpha.1+build").unwrap();
    assert_eq!((version.major, version.minor, version.patch), (1, 2, 3));
    assert_eq!(version.pre, vec!["alpha".to_string(), "1".to_string()]);
    assert_eq!(version.build, vec!["build".to_string()]);
    assert_eq!(Version::from_str("x").unwrap_err(), "Error parsing major identifier");
    assert!(Version::from_str("1.2.3.4").is_err());
    assert!(Version::from_str("").is_err());
}

#[test]
fn version_to_text() {
    assert_eq!(Version::from_str("2").unwrap().to_text(), Some("2.0".to_string()));
    assert_eq!(Version::from_str("10.07").unwrap_err(), "Expected dot");
    assert_eq!(Version::from_str("120.7").unwrap().to_text(), Some("120.7".to_string()));
    assert_eq!(Version::from_str("1.2.3").unwrap().to_text(), None);
    assert_eq!(Version::from_str("1.2.0-rc").unwrap().to_text(), None);
    assert_eq!(Version::from_str("1.2.0+b").unwrap().to_text(), None);
    let big = Version { major: u64::MAX, minor: 0, patch: 0, pre: vec![], build: vec![] };
    assert_eq!(big.to_text(), Some("18446744073709551615.0".to_string()));
}

#[test]
fn test_numbers_from_text() {
    let numbers = TestNumbers::from_str("1;2;;30").unwrap();
    let texts: Vec<&str> = numbers.0.iter().map(|n| n.0.as_str()).collect();
    assert_eq!(texts, vec!["1", "2", "", "30"]);
    let numbers = TestNumbers::from_str("").unwrap();
    assert_eq!(numbers.0.len(), 1);
    assert_eq!(numbers.0[0].0, "");
    let numbers = TestNumbers::from_str("7;").unwrap();
    assert_eq!(numbers.0.len(), 2);
}

#[test]
fn test_numbers_to_text() {
    for text in ["1;2;;30", "", "7;", ";", "a b;c"] {
        let numbers = TestNumbers::from_str(text).unwrap();
        assert_eq!(numbers.to_text(), text);
        assert_eq!(TestNumbers::from_str(&numbers.to_text()).unwrap(), numbers);
    }
    let numbers = TestNumbers(vec![TestNumber("4".to_string()), TestNumber("5".to_string())]);
    assert_eq!(numbers.to_text(), "4;5");
    assert_eq!(TestNumbers::from_str("4;5").unwrap(), numbers);
    assert_eq!(TestNumbers(vec![]).to_text(), "");
    assert_eq!(TestNumbers(vec![TestNumber("x".to_string())]).to_text(), "x");
}

#[test]
fn real_from_text() {
    let accepted = [
        "1.0", "-1", "+.5", "1.", "1e5", "1.5E-3", "0", "007", "inf", "-Infinity", "NaN", "+nan",
        "iNf", "1e+05", ".5e-0",
    ];
    for text in accepted {
        let real = Real::from_str(text).unwrap();
        assert_eq!(real.as_str(), text);
        assert!(text.parse::<f64>().is_ok());
    }
    assert_eq!(Real::from_str("2.5e1").unwrap().as_str().parse::<f64>().unwrap(), 25.0);
}

#[test]
fn real_rejects_what_is_no_number() {
    let rejected = [
        "", ".", "e5", "1e", "1e+", "1.2.3", "0x10", "1 ", " 1", "--1", "+", "-", "infin", "na",
        "1,5", "1e5.0", "1_000", "+-1", "infinity1", "1f", "\u{661}",
    ];
    for text in rejected {
        let message = Real::from_str(text).unwrap_err();
        assert_eq!(message, text.parse::<f64>().unwrap_err().to_string());
    }
    assert_eq!(Real::from_str("").unwrap_err(), "cannot parse float from empty string");
    assert_eq!(Real::from_str("x").unwrap_err(), "invalid float literal");
}

#[test]
fn real_agrees_with_the_number_parser() {
    let alphabet = ['1', '.', 'e', '-', '+', 'n', 'a', 'i', 'f', 'E', '0'];
    let mut texts = vec![String::new()];
    let mut from = 0;
    for _ in 0..4 {
        let upto = texts.len();
        for i in from..upto {
            for c in alphabet {
                let mut next = texts[i].clone();
                next.push(c);
                texts.push(next);
            }
        }
        from = upto;
    }
    for text in texts {
        assert_eq!(Real::from_str(&text).is_ok(), text.parse::<f64>().is_ok(), "{:?}", text);
    }
}
