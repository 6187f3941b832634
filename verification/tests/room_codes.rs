//! Room codes.
use qomicex_connector::error::ScaffoldingError;
use qomicex_connector::models::room_code::{half_from_bytes, validate_checksum, RoomCode};

const VALID_CODE: &str = "U/G4J1-JZUE-TVUE-XBUB";

#[test]
fn parse_valid_code_returns_room_code() {
    let code = RoomCode::parse(VALID_CODE).expect("有效代码应解析成功");
    assert_eq!(code.raw(), VALID_CODE);
    assert_eq!(code.network_name_part(), "G4J1-JZUE");
    assert_eq!(code.secret_part(), "TVUE-XBUB");
    assert_eq!(code.easy_tier_network_name(), "scaffolding-mc-G4J1-JZUE");
    assert_eq!(code.easy_tier_network_secret(), "TVUE-XBUB");
}

#[test]
fn parse_invalid_format_returns_error() {
    assert!(RoomCode::parse("bad").is_err());
    assert!(RoomCode::parse("U/12").is_err());
}

#[test]
fn generate_produces_valid_code() {
    for _ in 0..100 {
        let code = RoomCode::generate();
        let reparsed = RoomCode::parse(code.raw()).expect("生成代码应可重新解析");
        assert_eq!(code.raw(), reparsed.raw());
    }
}

#[test]
fn generated_codes_differ_and_pass_the_checksum() {
    let mut codes: Vec<String> = Vec::new();
    for _ in 0..50 {
        let code = RoomCode::generate();
        assert!(validate_checksum(&code.network_name_part().replace('-', "")));
        assert!(validate_checksum(&code.secret_part().replace('-', "")));
        codes.push(code.raw().to_string());
    }
    codes.sort();
    codes.dedup();
    assert_eq!(codes.len(), 50);
}

#[test]
fn a_refused_code_is_quoted() {
    match RoomCode::parse("U/12") {
        Err(ScaffoldingError::RoomCodeInvalid(message)) => {
            assert_eq!(message, "无效的房间码格式: U/12");
        }
        other => panic!("unexpected: {other:?}"),
    }
}

#[test]
fn the_form_is_that_of_the_pattern() {
    let pattern = regex::Regex::new(
        r"^U/([A-HJ-NP-Z0-9]{4})-([A-HJ-NP-Z0-9]{4})-([A-HJ-NP-Z0-9]{4})-([A-HJ-NP-Z0-9]{4})$",
    )
    .expect("pattern");
    let mut samples: Vec<String> = vec![
        String::new(),
        VALID_CODE.to_string(),
        format!("{VALID_CODE}\n"),
        format!(" {VALID_CODE}"),
        "U/AAAA-AAAA-AAAA-AAA".to_string(),
        "U/AAAA-AAAA-AAAA-AAAAA".to_string(),
        "u/AAAA-AAAA-AAAA-AAAA".to_string(),
        "U/AAAA_AAAA-AAAA-AAAA".to_string(),
        "U/AAAAAAAA-AAAA-AAAA-".to_string(),
        "U/名AAA-AAAA-AAAA-AAAA".to_string(),
    ];
    for c in 0u8..128 {
        for at in 0..21 {
            let mut chars: Vec<char> = VALID_CODE.chars().collect();
            chars[at] = c as char;
            samples.push(chars.into_iter().collect());
        }
    }
    for sample in samples {
        let parsed = RoomCode::parse(&sample);
        match pattern.captures(&sample) {
            Some(groups) => {
                let code = parsed.expect("code");
                assert_eq!(code.network_name_part(), format!("{}-{}", &groups[1], &groups[2]));
                assert_eq!(code.secret_part(), format!("{}-{}", &groups[3], &groups[4]));
            }
            None => assert!(parsed.is_err(), "{sample:?}"),
        }
    }
}

#[test]
fn the_checksum_is_the_alternating_sum_by_seven() {
    assert!(validate_checksum("G4J1JZUE"));
    assert!(validate_checksum("TVUEXBUB"));
    assert!(validate_checksum(""));
    assert!(validate_checksum("7"));
    assert!(validate_checksum("11"));
    assert!(validate_checksum("07"));
    assert!(!validate_checksum("1"));
    assert!(!validate_checksum("12"));
    assert!(!validate_checksum("G4J1JZUF"));
    assert!(!validate_checksum("I"));
    assert!(!validate_checksum("O"));
    assert!(!validate_checksum("0a"));
}

#[test]
fn bytes_become_code_characters() {
    // 0..7 stand for themselves: 0-1+2-3+4-5+6-7 = -4.
    assert_eq!(half_from_bytes(&[0, 1, 2, 3, 4, 5, 6, 7]), None);
    // 10-17+18-22+23-33+34%34-35%34 = -22, and with 10 -> 32: 0.
    assert_eq!(half_from_bytes(&[32, 17, 18, 22, 23, 33, 34, 35]).as_deref(), Some("YHJNPZ01"));
    assert_eq!(half_from_bytes(&[9, 9, 10, 10, 255, 17, 0, 0]).as_deref(), Some("99AAHH00"));
}

#[test]
fn halves_make_a_code() {
    let code = RoomCode::from_halves("G4J1JZUE", "TVUEXBUB");
    assert_eq!(code.raw(), VALID_CODE);
    assert_eq!(code.clone().raw(), VALID_CODE);
}
