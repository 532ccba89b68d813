use clitools::calr::{get_args, month_by_name, parse_int, parse_month, parse_year, Date};

#[test]
fn test_parse_int() {
    // Parse positive int as usize
    let res = parse_int::<usize>("1");
    assert!(res.is_ok());
    assert_eq!(res.unwrap(), 1usize);

    // Parse negative int as i32
    let res = parse_int::<i32>("-1");
    assert!(res.is_ok());
    assert_eq!(res.unwrap(), -1i32);

    // Fail on a string
    let res = parse_int::<i64>("foo");
    assert!(res.is_err());
    assert_eq!(res.unwrap_err().to_string(), "Invalid integer \"foo\"");
}

#[test]
fn test_parse_year() {
    let res = parse_year("1");
    assert!(res.is_ok());
    assert_eq!(res.unwrap(), 1i32);

    let res = parse_year("9999");
    assert!(res.is_ok());
    assert_eq!(res.unwrap(), 9999i32);

    let res = parse_year("0");
    assert!(res.is_err());
    assert_eq!(
        res.unwrap_err().to_string(),
        "year \"0\" not in the range 1 through 9999"
    );

    let res = parse_year("10000");
    assert!(res.is_err());
    assert_eq!(
        res.unwrap_err().to_string(),
        "year \"10000\" not in the range 1 through 9999"
    );

    let res = parse_year("foo");
    assert!(res.is_err());
    assert_eq!(res.unwrap_err().to_string(), "Invalid integer \"foo\"");
}

#[test]
fn test_parse_month() {
    let res = parse_month("1");
    assert!(res.is_ok());
    assert_eq!(res.unwrap(), 1u32);

    let res = parse_month("12");
    assert!(res.is_ok());
    assert_eq!(res.unwrap(), 12u32);

    let res = parse_month("jan");
    assert!(res.is_ok());
    assert_eq!(res.unwrap(), 1u32);

    let res = parse_month("0");
    assert!(res.is_err());
    assert_eq!(
        res.unwrap_err().to_string(),
        "month \"0\" not in the range 1 through 12"
    );

    let res = parse_month("13");
    assert!(res.is_err());
    assert_eq!(
        res.unwrap_err().to_string(),
        "month \"13\" not in the range 1 through 12"
    );

    let res = parse_month("foo");
    assert!(res.is_err());
    assert_eq!(res.unwrap_err().to_string(), "Invalid month \"foo\"");
}

#[test]
fn parse_int_limits_of_each_type() {
    assert_eq!(parse_int::<i32>("2147483647").unwrap(), i32::MAX);
    assert_eq!(parse_int::<i32>("-2147483648").unwrap(), i32::MIN);
    assert!(parse_int::<i32>("2147483648").is_err());
    assert!(parse_int::<i32>("-2147483649").is_err());
    assert_eq!(parse_int::<i64>("-9223372036854775808").unwrap(), i64::MIN);
    assert_eq!(parse_int::<i64>("9223372036854775807").unwrap(), i64::MAX);
    assert!(parse_int::<i64>("9223372036854775808").is_err());
    assert_eq!(parse_int::<u32>("4294967295").unwrap(), u32::MAX);
    assert!(parse_int::<u32>("4294967296").is_err());
    assert_eq!(parse_int::<u64>("18446744073709551615").unwrap(), u64::MAX);
    assert!(parse_int::<u64>("18446744073709551616").is_err());
    assert_eq!(parse_int::<usize>("0007").unwrap(), 7);
}

#[test]
fn parse_int_signs() {
    assert_eq!(parse_int::<i32>("+5").unwrap(), 5);
    assert_eq!(parse_int::<usize>("+5").unwrap(), 5);
    assert_eq!(parse_int::<i32>("-0").unwrap(), 0);
    assert_eq!(parse_int::<usize>("-0").unwrap_err(), "Invalid integer \"-0\"");
    assert!(parse_int::<usize>("-1").is_err());
    assert!(parse_int::<i32>("").is_err());
    assert!(parse_int::<i32>("+").is_err());
    assert!(parse_int::<i32>("-").is_err());
    assert!(parse_int::<i32>("--1").is_err());
    assert!(parse_int::<i32>("+-1").is_err());
    assert!(parse_int::<i32>("1 ").is_err());
    assert!(parse_int::<i32>(" 1").is_err());
    assert!(parse_int::<i32>("1_000").is_err());
    assert!(parse_int::<i32>("١").is_err());
}

#[test]
fn parse_year_takes_a_sign() {
    assert_eq!(parse_year("+2024").unwrap(), 2024);
    assert_eq!(parse_year("-1").unwrap_err(), "year \"-1\" not in the range 1 through 9999");
    assert_eq!(parse_year("00012").unwrap(), 12);
    assert_eq!(
        parse_year("99999999999").unwrap_err(),
        "Invalid integer \"99999999999\""
    );
}

#[test]
fn parse_month_by_name() {
    assert_eq!(parse_month("JAN").unwrap(), 1);
    assert_eq!(parse_month("j").unwrap(), 1);
    assert_eq!(parse_month("ju").unwrap(), 6);
    assert_eq!(parse_month("jul").unwrap(), 7);
    assert_eq!(parse_month("ma").unwrap(), 3);
    assert_eq!(parse_month("May").unwrap(), 5);
    assert_eq!(parse_month("december").unwrap(), 12);
    assert_eq!(parse_month("Decembers").unwrap_err(), "Invalid month \"Decembers\"");
    assert_eq!(parse_month("g").unwrap(), 2);
    assert_eq!(parse_month("feb").unwrap_err(), "Invalid month \"feb\"");
    assert_eq!(parse_month("").unwrap(), 1);
    assert_eq!(parse_month("+3").unwrap(), 3);
    assert_eq!(parse_month("4294967295").unwrap_err(), "month \"4294967295\" not in the range 1 through 12");
    assert_eq!(parse_month("-1").unwrap_err(), "Invalid month \"-1\"");
    assert_eq!(month_by_name("s"), Some(9));
    assert_eq!(month_by_name("S"), None);
    assert_eq!(month_by_name("x"), None);
}

#[test]
fn calr_get_args_rules() {
    let today = Date { year: 2023, month: 7, day: 14 };
    let config = get_args(None, None, false, today).unwrap();
    assert_eq!((config.month, config.year, config.today), (Some(7), 2023, today));
    let config = get_args(Some("2".to_string()), None, false, today).unwrap();
    assert_eq!((config.month, config.year), (Some(2), 2023));
    let config = get_args(None, Some("1999".to_string()), false, today).unwrap();
    assert_eq!((config.month, config.year), (None, 1999));
    let config = get_args(Some("oct".to_string()), Some("1999".to_string()), false, today).unwrap();
    assert_eq!((config.month, config.year), (Some(10), 1999));
    let config = get_args(Some("oct".to_string()), Some("1999".to_string()), true, today).unwrap();
    assert_eq!((config.month, config.year), (None, 2023));
    assert_eq!(
        get_args(Some("x".to_string()), Some("0".to_string()), false, today).unwrap_err(),
        "Invalid month \"x\""
    );
    assert_eq!(
        get_args(Some("1".to_string()), Some("0".to_string()), true, today).unwrap_err(),
        "year \"0\" not in the range 1 through 9999"
    );
}
