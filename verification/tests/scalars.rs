use rooting_forms::scalar::{
    format_int, format_scalar, parse_int, parse_scalar, BigString, IntError, IntKind, Password,
    ScalarKind,
};
use rooting_forms::value::Value;

const SAMPLES: [&str; 40] = [
    "", "0", "5", "7", "9", "-0", "+0", "+", "-", "+5", "-5", "++5", "--5", "+-5", "x", "5x", "x5",
    " 5", "5 ", "1_000", "007", "-007", "127", "128", "-128", "-129", "255", "256", "999x",
    "99x9", "32767", "32768", "-32769", "65536", "4294967295", "4294967296", "-2147483649",
    "18446744073709551615", "18446744073709551616", "-9223372036854775809",
];

fn from_std<T: std::str::FromStr<Err = std::num::ParseIntError> + Into<i128>>(text: &str) -> Result<i128, String> {
    match text.parse::<T>() {
        Ok(v) => Ok(v.into()),
        Err(e) => Err(e.to_string()),
    }
}

fn from_library(text: &str, kind: IntKind) -> Result<i128, String> {
    match parse_int(text, kind) {
        Ok(v) => Ok(v),
        Err(e) => Err(e.message().to_string()),
    }
}

#[test]
fn parse_int_agrees_with_std_on_unsigned_types() {
    for text in SAMPLES {
        assert_eq!(from_library(text, IntKind::U8), from_std::<u8>(text), "u8 {:?}", text);
        assert_eq!(from_library(text, IntKind::U16), from_std::<u16>(text), "u16 {:?}", text);
        assert_eq!(from_library(text, IntKind::U32), from_std::<u32>(text), "u32 {:?}", text);
        assert_eq!(from_library(text, IntKind::U64), from_std::<u64>(text), "u64 {:?}", text);
    }
}

#[test]
fn parse_int_agrees_with_std_on_signed_types() {
    for text in SAMPLES {
        assert_eq!(from_library(text, IntKind::I8), from_std::<i8>(text), "i8 {:?}", text);
        assert_eq!(from_library(text, IntKind::I16), from_std::<i16>(text), "i16 {:?}", text);
        assert_eq!(from_library(text, IntKind::I32), from_std::<i32>(text), "i32 {:?}", text);
        assert_eq!(from_library(text, IntKind::I64), from_std::<i64>(text), "i64 {:?}", text);
    }
}

#[test]
fn parse_int_exact_values() {
    assert_eq!(parse_int("5", IntKind::I32), Ok(5));
    assert_eq!(parse_int("-128", IntKind::I8), Ok(-128));
    assert_eq!(parse_int("+255", IntKind::U8), Ok(255));
    assert_eq!(parse_int("0000000000000000000000000012", IntKind::U8), Ok(12));
    assert_eq!(parse_int("18446744073709551615", IntKind::U64), Ok(18446744073709551615));
    assert_eq!(parse_int("-9223372036854775808", IntKind::I64), Ok(-9223372036854775808));
}

#[test]
fn parse_int_gives_each_error() {
    assert_eq!(parse_int("", IntKind::U8), Err(IntError::Empty));
    assert_eq!(parse_int("x", IntKind::U8), Err(IntError::InvalidDigit));
    assert_eq!(parse_int("+", IntKind::I8), Err(IntError::InvalidDigit));
    assert_eq!(parse_int("-", IntKind::I8), Err(IntError::InvalidDigit));
    assert_eq!(parse_int("-1", IntKind::U8), Err(IntError::InvalidDigit));
    assert_eq!(parse_int("256", IntKind::U8), Err(IntError::PosOverflow));
    assert_eq!(parse_int("-129", IntKind::I8), Err(IntError::NegOverflow));
}

#[test]
fn parse_int_reports_the_first_offence() {
    assert_eq!(parse_int("999x", IntKind::U8), Err(IntError::PosOverflow));
    assert_eq!(parse_int("99x9", IntKind::U8), Err(IntError::InvalidDigit));
    assert_eq!(parse_int("-999x", IntKind::I8), Err(IntError::NegOverflow));
}

#[test]
fn int_error_messages() {
    assert_eq!(IntError::Empty.message(), "cannot parse integer from empty string");
    assert_eq!(IntError::InvalidDigit.message(), "invalid digit found in string");
    assert_eq!(IntError::PosOverflow.message(), "number too large to fit in target type");
    assert_eq!(IntError::NegOverflow.message(), "number too small to fit in target type");
}

#[test]
fn int_kind_bounds() {
    assert_eq!((IntKind::U8.min(), IntKind::U8.max()), (u8::MIN as i128, u8::MAX as i128));
    assert_eq!((IntKind::U16.min(), IntKind::U16.max()), (u16::MIN as i128, u16::MAX as i128));
    assert_eq!((IntKind::U32.min(), IntKind::U32.max()), (u32::MIN as i128, u32::MAX as i128));
    assert_eq!((IntKind::U64.min(), IntKind::U64.max()), (u64::MIN as i128, u64::MAX as i128));
    assert_eq!((IntKind::I8.min(), IntKind::I8.max()), (i8::MIN as i128, i8::MAX as i128));
    assert_eq!((IntKind::I16.min(), IntKind::I16.max()), (i16::MIN as i128, i16::MAX as i128));
    assert_eq!((IntKind::I32.min(), IntKind::I32.max()), (i32::MIN as i128, i32::MAX as i128));
    assert_eq!((IntKind::I64.min(), IntKind::I64.max()), (i64::MIN as i128, i64::MAX as i128));
}

#[test]
fn format_int_agrees_with_std() {
    let values: [i128; 14] = [
        0,
        1,
        9,
        10,
        11,
        99,
        100,
        -1,
        -10,
        255,
        -128,
        u64::MAX as i128,
        i64::MIN as i128,
        i128::MAX,
    ];
    for v in values {
        assert_eq!(format_int(v), v.to_string());
    }
    assert_eq!(format_int(i128::MIN), i128::MIN.to_string());
    assert_eq!(format_int(7), "7");
    assert_eq!(format_int(-42), "-42");
}

#[test]
fn int_round_trip() {
    let kinds = [
        IntKind::U8,
        IntKind::U16,
        IntKind::U32,
        IntKind::U64,
        IntKind::I8,
        IntKind::I16,
        IntKind::I32,
        IntKind::I64,
    ];
    for kind in kinds {
        for v in [kind.min(), kind.min() + 1, -1, 0, 1, 10, 100, kind.max() - 1, kind.max()] {
            if kind.min() <= v && v <= kind.max() {
                assert_eq!(parse_int(&format_int(v), kind), Ok(v));
            }
        }
    }
}

#[test]
fn text_wrappers_keep_the_text() {
    assert_eq!(Password::from_str("hunter2").unwrap().as_str(), "hunter2");
    assert_eq!(Password::from_str("").unwrap().as_str(), "");
    assert_eq!(BigString::from_str("line one\nline two").unwrap().as_str(), "line one\nline two");
    assert_eq!(BigString::from_str("").unwrap().as_str(), "");
    assert_eq!("hunter2".parse::<Password>().unwrap().as_str(), "hunter2");
    assert_eq!("long text".parse::<BigString>().unwrap().as_str(), "long text");
    assert_eq!(<Password as std::str::FromStr>::from_str("pw"), Password::from_str("pw"));
    assert_eq!(<BigString as std::str::FromStr>::from_str("big"), BigString::from_str("big"));
}

#[test]
fn parse_scalar_gives_the_typed_value() {
    assert_eq!(parse_scalar(ScalarKind::Text, "abc"), Ok(Value::Text("abc".to_string())));
    assert_eq!(parse_scalar(ScalarKind::Text, ""), Ok(Value::Text(String::new())));
    assert_eq!(
        parse_scalar(ScalarKind::Password, "pw"),
        Ok(Value::Password(Password::from_str("pw").unwrap()))
    );
    assert_eq!(
        parse_scalar(ScalarKind::BigString, "big"),
        Ok(Value::BigString(BigString::from_str("big").unwrap()))
    );
    assert_eq!(parse_scalar(ScalarKind::Int(IntKind::U8), "200"), Ok(Value::U8(200)));
    assert_eq!(parse_scalar(ScalarKind::Int(IntKind::U16), "60000"), Ok(Value::U16(60000)));
    assert_eq!(parse_scalar(ScalarKind::Int(IntKind::U32), "4000000000"), Ok(Value::U32(4000000000)));
    assert_eq!(
        parse_scalar(ScalarKind::Int(IntKind::U64), "18000000000000000000"),
        Ok(Value::U64(18000000000000000000))
    );
    assert_eq!(parse_scalar(ScalarKind::Int(IntKind::I8), "-100"), Ok(Value::I8(-100)));
    assert_eq!(parse_scalar(ScalarKind::Int(IntKind::I16), "-30000"), Ok(Value::I16(-30000)));
    assert_eq!(parse_scalar(ScalarKind::Int(IntKind::I32), "-2000000000"), Ok(Value::I32(-2000000000)));
    assert_eq!(
        parse_scalar(ScalarKind::Int(IntKind::I64), "-9000000000000000000"),
        Ok(Value::I64(-9000000000000000000))
    );
    assert_eq!(parse_scalar(ScalarKind::Int(IntKind::I32), ""), Err(IntError::Empty));
    assert_eq!(parse_scalar(ScalarKind::Int(IntKind::I32), "x"), Err(IntError::InvalidDigit));
}

#[test]
fn format_scalar_writes_scalars_only() {
    assert_eq!(format_scalar(&Value::Text("abc".to_string())), Some("abc".to_string()));
    assert_eq!(
        format_scalar(&Value::Password(Password::from_str("pw").unwrap())),
        Some("pw".to_string())
    );
    assert_eq!(
        format_scalar(&Value::BigString(BigString::from_str("big").unwrap())),
        Some("big".to_string())
    );
    assert_eq!(format_scalar(&Value::U8(7)), Some("7".to_string()));
    assert_eq!(format_scalar(&Value::U16(7)), Some("7".to_string()));
    assert_eq!(format_scalar(&Value::U32(7)), Some("7".to_string()));
    assert_eq!(format_scalar(&Value::U64(u64::MAX)), Some(u64::MAX.to_string()));
    assert_eq!(format_scalar(&Value::I8(-7)), Some("-7".to_string()));
    assert_eq!(format_scalar(&Value::I16(-7)), Some("-7".to_string()));
    assert_eq!(format_scalar(&Value::I32(-7)), Some("-7".to_string()));
    assert_eq!(format_scalar(&Value::I64(i64::MIN)), Some(i64::MIN.to_string()));
    assert_eq!(format_scalar(&Value::Bool(true)), None);
    assert_eq!(format_scalar(&Value::Optional(None)), None);
    assert_eq!(format_scalar(&Value::Struct(vec![])), None);
    assert_eq!(format_scalar(&Value::Unit(0)), None);
}

#[test]
fn scalar_round_trip() {
    let cases = [
        (ScalarKind::Text, Value::Text("some text".to_string())),
        (ScalarKind::Password, Value::Password(Password::from_str("secret").unwrap())),
        (ScalarKind::BigString, Value::BigString(BigString::from_str("a\nb").unwrap())),
        (ScalarKind::Int(IntKind::U8), Value::U8(255)),
        (ScalarKind::Int(IntKind::I8), Value::I8(-128)),
        (ScalarKind::Int(IntKind::U64), Value::U64(u64::MAX)),
        (ScalarKind::Int(IntKind::I64), Value::I64(i64::MIN)),
    ];
    for (kind, value) in cases {
        let text = format_scalar(&value).unwrap();
        assert_eq!(parse_scalar(kind, &text), Ok(value));
    }
}
