use notify_bot::number::{parse_i64, parse_i64_list, parse_u32, parse_u64, parse_u64_list};

fn samples() -> Vec<&'static str> {
    vec![
        "", "0", "7", "42", "+42", "-42", "+", "-", "++1", "--1", "+-1", "-+1", "00012", "-0",
        "+0", " 1", "1 ", "1_000", "1,2", "12a", "a12", "１２", "4294967295", "4294967296",
        "18446744073709551615", "18446744073709551616", "9223372036854775807",
        "9223372036854775808", "-9223372036854775808", "-9223372036854775809",
        "99999999999999999999999999999999999999999999", "-99999999999999999999999999999999999",
        "000000000000000000000000000000000000000000001", "1.5", "0x10", "١٢٣",
    ]
}

#[test]
fn parse_u64_agrees_with_std() {
    for s in samples() {
        assert_eq!(parse_u64(s), s.parse::<u64>().ok(), "input {:?}", s);
    }
}

#[test]
fn parse_u32_agrees_with_std() {
    for s in samples() {
        assert_eq!(parse_u32(s), s.parse::<u32>().ok(), "input {:?}", s);
    }
}

#[test]
fn parse_i64_agrees_with_std() {
    for s in samples() {
        assert_eq!(parse_i64(s), s.parse::<i64>().ok(), "input {:?}", s);
    }
}

#[test]
fn parse_u64_exact_values() {
    assert_eq!(parse_u64("123"), Some(123));
    assert_eq!(parse_u64("+18446744073709551615"), Some(u64::MAX));
    assert_eq!(parse_u64("-1"), None);
    assert_eq!(parse_i64("-9223372036854775808"), Some(i64::MIN));
    assert_eq!(parse_u32("4294967295"), Some(u32::MAX));
}

#[test]
fn parse_u64_list_reads_numbers_between_commas() {
    assert_eq!(parse_u64_list("123,456,789"), Some(vec![123, 456, 789]));
    assert_eq!(parse_u64_list(" 123 ,\t456,789\n"), Some(vec![123, 456, 789]));
    assert_eq!(parse_u64_list("5"), Some(vec![5]));
}

#[test]
fn parse_u64_list_refuses_what_is_no_number() {
    assert_eq!(parse_u64_list(""), None);
    assert_eq!(parse_u64_list("1,,2"), None);
    assert_eq!(parse_u64_list("1,2,"), None);
    assert_eq!(parse_u64_list("1,-2"), None);
    assert_eq!(parse_u64_list("1 2"), None);
}

#[test]
fn parse_i64_list_takes_negative_numbers() {
    assert_eq!(parse_i64_list("-100123, 456"), Some(vec![-100123, 456]));
    assert_eq!(parse_i64_list("-"), None);
}

#[test]
fn number_lists_agree_with_std() {
    let inputs = [
        "1,2,3", " 1 , 2 ", "", ",", "1,", ",1", "a", "1,a", "\u{3000}7\u{85},8", "+1,+2",
        "18446744073709551615,0", "18446744073709551616",
    ];
    for s in inputs {
        let expected: Option<Vec<u64>> = s.split(',').map(|x| x.trim().parse::<u64>().ok()).collect();
        assert_eq!(parse_u64_list(s), expected, "input {:?}", s);
        let expected: Option<Vec<i64>> = s.split(',').map(|x| x.trim().parse::<i64>().ok()).collect();
        assert_eq!(parse_i64_list(s), expected, "input {:?}", s);
    }
}
