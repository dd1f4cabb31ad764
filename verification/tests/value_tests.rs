use rbatis::decimal::{i64_text, parse_digits, u64_text};
use rbatis::integer::Integer;
use rbatis::number::extract_number;
use rbatis::shaping::shape_bytes;
use rbatis::text::{bytes_eq, trim_bytes};
use rbatis::types::uuid::{put_uuid, Error, IsNull, PgValue, PgValueFormat, Uuid};
use rbatis::value::Value;
use rbatis::value_ref::ValueRef;
use std::borrow::Cow;
use std::convert::TryFrom;

fn string(s: &str) -> Value {
    Value::String(s.as_bytes().to_vec())
}

fn text_of(v: &Value) -> String {
    String::from_utf8(v.to_text().unwrap()).unwrap()
}

fn number(s: &str) -> f64 {
    let inner = extract_number(s.as_bytes());
    if inner.is_empty() {
        0.0
    } else {
        String::from_utf8(inner).unwrap().parse().unwrap_or_default()
    }
}

#[test]
fn test() {
    assert_eq!(number("1.2332ESF"), 1.2332);
    assert_eq!(number("3.324324D"), 3.324324);
    assert_eq!(number("123456789012345678901234567890"), 123456789012345678901234567890.0);
}

#[test]
fn letters_alone_are_no_number() {
    assert_eq!(number("abc"), 0.0);
    assert_eq!(number(""), 0.0);
    assert_eq!(extract_number(b"12ab34cd"), b"12ab34".to_vec());
    assert_eq!(extract_number(b"42"), b"42".to_vec());
}

#[test]
fn integer_kinds() {
    let big = Integer::from(u64::MAX);
    assert!(!big.is_i64());
    assert!(big.is_u64());
    assert_eq!(big.as_i64(), None);
    assert_eq!(big.as_u64(), Some(u64::MAX));
    let neg = Integer::from(-5i32);
    assert!(neg.is_i64());
    assert!(!neg.is_u64());
    assert_eq!(neg.as_i64(), Some(-5));
    assert_eq!(neg.as_u64(), None);
    let small = Integer::from(7u8);
    assert_eq!(small.as_i64(), Some(7));
    assert_eq!(small.as_u64(), Some(7));
    assert_eq!(Integer::from(7i64), Integer::from(7u16));
    assert_eq!(Integer::from_i128(1 << 64), None);
    assert_eq!(Integer::from_i128(-(1 << 63)).unwrap().as_i64(), Some(i64::MIN));
    assert_eq!(neg.to_text(), b"-5".to_vec());
    assert_eq!(big.to_text(), b"18446744073709551615".to_vec());
    assert_eq!(neg.to_i128(), -5);
}

#[test]
fn decimal_texts() {
    assert_eq!(u64_text(0), b"0".to_vec());
    assert_eq!(u64_text(1905), b"1905".to_vec());
    assert_eq!(i64_text(i64::MIN), b"-9223372036854775808".to_vec());
    assert_eq!(i64_text(-1), b"-1".to_vec());
    assert_eq!(parse_digits(b"0012"), Some(12));
    assert_eq!(parse_digits(b"18446744073709551615"), Some(u64::MAX));
    assert_eq!(parse_digits(b"18446744073709551616"), None);
    assert_eq!(parse_digits(b"12a"), None);
    assert_eq!(parse_digits(b""), None);
}

#[test]
fn value_kinds() {
    assert!(Value::Nil.is_nil());
    assert!(Value::Boolean(true).is_bool());
    assert!(Value::I64(1).is_i64() && !Value::I64(1).is_u64());
    assert!(Value::U64(1).is_u64());
    assert!(Value::F32(0).is_f32() && Value::F32(0).is_number());
    assert!(Value::F64(0).is_f64() && !Value::Nil.is_number());
    assert!(string("a").is_str() && string("a").is_bin());
    assert!(Value::Binary(vec![1]).is_bin() && !Value::Binary(vec![1]).is_str());
    assert!(Value::Array(vec![]).is_array());
    assert!(Value::Pairs(vec![]).is_map());
    assert!(Value::Ext(1, vec![]).is_ext());
    assert_eq!(Value::Boolean(true).as_bool(), Some(true));
    assert_eq!(Value::Nil.as_bool(), None);
    assert_eq!(Value::I64(42).as_i64(), Some(42));
    assert_eq!(Value::U64(42).as_i64(), None);
    assert_eq!(Value::U64(42).as_u64(), Some(42));
    assert_eq!(string("le message").as_str(), Some(String::from("le message")));
    assert_eq!(Value::String(vec![b'a', 0xff]).as_str(), Some(String::from("a\u{fffd}")));
    assert_eq!(Value::Boolean(true).as_str(), None);
    assert_eq!(Value::Binary(vec![1, 2, 3]).as_slice(), Some(&[1u8, 2, 3][..]));
    assert_eq!(Value::Boolean(true).as_slice(), None);
    assert_eq!(Value::Ext(42, vec![1, 2]).as_ext(), Some((42, &[1u8, 2][..])));
}

#[test]
fn value_parts() {
    let arr = Value::Array(vec![Value::Nil, Value::Boolean(true)]);
    assert_eq!(arr.as_array().unwrap().len(), 2);
    assert_eq!(arr.index(1), Some(&Value::Boolean(true)));
    assert_eq!(arr.index(2), None);
    assert_eq!(Value::Nil.index(0), None);
    let map = Value::Pairs(vec![
        (string("a"), Value::I64(1)),
        (Value::I64(9), Value::I64(2)),
        (string("a"), Value::I64(3)),
    ]);
    assert_eq!(map.as_map().unwrap().len(), 3);
    assert_eq!(map.index_key(b"a"), Some(&Value::I64(1)));
    assert_eq!(map.index_key(b"b"), None);
    assert_eq!(arr.index_key(b"a"), None);
}

#[test]
fn value_equality_and_copy() {
    let v = Value::Array(vec![
        Value::Nil,
        Value::I64(42),
        Value::Pairs(vec![(string("k"), Value::Binary(vec![1, 2]))]),
    ]);
    assert_eq!(v.copy(), v);
    assert_eq!(v.clone(), v);
    assert!(v.same(&v.copy()));
    assert_ne!(v, Value::Array(vec![Value::Nil]));
    assert_ne!(Value::I64(1), Value::U64(1));
    assert_ne!(string("a"), Value::Binary(b"a".to_vec()));
}

#[test]
fn value_as_text() {
    assert_eq!(text_of(&Value::Nil), "nil");
    assert_eq!(text_of(&Value::Boolean(true)), "true");
    assert_eq!(text_of(&Value::Boolean(false)), "false");
    assert_eq!(text_of(&Value::I64(-12)), "-12");
    assert_eq!(text_of(&Value::U64(12)), "12");
    assert_eq!(text_of(&string("abc")), "abc");
    assert_eq!(text_of(&Value::Binary(vec![1, 20, 255])), "[1, 20, 255]");
    assert_eq!(text_of(&Value::Binary(vec![])), "[]");
    assert_eq!(
        text_of(&Value::Array(vec![Value::I64(1), string("a"), Value::Array(vec![])])),
        "[1, a, []]"
    );
    assert_eq!(
        text_of(&Value::Pairs(vec![(string("a"), Value::I64(1)), (string("b"), Value::Nil)])),
        "{a: 1, b: nil}"
    );
    assert_eq!(text_of(&Value::Pairs(vec![])), "{}");
    assert_eq!(text_of(&Value::Ext(-3, vec![1, 2])), "[-3, [1, 2]]");
    assert_eq!(text_of(&Value::String(vec![b'a', 0xff])), "a\u{fffd}");
    assert_eq!(Value::F64(0).to_text(), None);
    assert_eq!(Value::Array(vec![Value::I64(1), Value::F32(0)]).to_text(), None);
}

#[test]
fn value_conversions() {
    assert_eq!(Value::from(true), Value::Boolean(true));
    assert_eq!(Value::from(7u8), Value::U64(7));
    assert_eq!(Value::from(7usize), Value::U64(7));
    assert_eq!(Value::from(-7i16), Value::I64(-7));
    assert_eq!(Value::from(-7isize), Value::I64(-7));
    assert_eq!(Value::from("ab"), string("ab"));
    assert_eq!(Value::from(String::from("ab")), string("ab"));
    assert_eq!(Value::from(vec![1u8, 2]), Value::Binary(vec![1, 2]));
    assert_eq!(Value::from(&[1u8, 2][..]), Value::Binary(vec![1, 2]));
    assert_eq!(Value::from(vec![Value::Nil]), Value::Array(vec![Value::Nil]));
    assert_eq!(u64::try_from(Value::U64(3)), Ok(3));
    assert_eq!(u64::try_from(Value::I64(3)), Err(Value::I64(3)));
    assert_eq!(i64::try_from(Value::I64(-3)), Ok(-3));
    assert_eq!(bool::try_from(Value::Boolean(true)), Ok(true));
    assert_eq!(bool::try_from(Value::Nil), Err(Value::Nil));
    assert_eq!(Vec::<u8>::try_from(Value::Binary(vec![1])), Ok(vec![1]));
    assert_eq!(Vec::<Value>::try_from(Value::Array(vec![Value::Nil])), Ok(vec![Value::Nil]));
    assert_eq!(String::try_from(string("ab")), Ok(String::from("ab")));
    assert_eq!(String::try_from(Value::String(vec![0xff])), Ok(String::new()));
    assert_eq!(String::try_from(Value::Nil), Err(Value::Nil));
}

#[test]
fn borrowed_values() {
    let val = Value::Array(vec![
        Value::Nil,
        Value::I64(42),
        Value::Array(vec![string("le message")]),
    ]);
    let r = val.as_ref();
    assert_eq!(r.to_owned(), val);
    assert_eq!(r.as_array().unwrap().len(), 3);
    assert_eq!(r.index(1).unwrap().to_owned(), Value::I64(42));
    assert!(r.index(3).is_none());
    assert_eq!(ValueRef::U64(42).as_u64(), Some(42));
    assert_eq!(ValueRef::I64(42).as_u64(), None);
    assert_eq!(ValueRef::String(b"ab").as_str(), Some(String::from("ab")));
    assert_eq!(ValueRef::String(&[0xff]).as_str(), Some(String::from("\u{fffd}")));
    assert_eq!(ValueRef::Nil.as_str(), None);
    assert_eq!(r.to_text(), Some(b"[nil, 42, [le message]]".to_vec()));
    let inner = r.into_array().unwrap();
    assert_eq!(inner.len(), 3);
    assert!(ValueRef::Nil.into_array().is_none());
}

#[test]
fn uuid_is_encoded_as_sixteen_bytes() {
    let mut buf = vec![9u8];
    let r = Uuid(String::from("550e8400-e29b-41d4-a716-446655440000")).encode(&mut buf);
    assert_eq!(r, Ok(IsNull::No));
    assert_eq!(
        buf,
        vec![
            9, 0x55, 0x0e, 0x84, 0x00, 0xe2, 0x9b, 0x41, 0xd4, 0xa7, 0x16, 0x44, 0x66, 0x55, 0x44,
            0x00, 0x00
        ]
    );
    let mut other = vec![1u8];
    assert_eq!(Uuid(String::from("not a uuid")).encode(&mut other), Err(Error::InvalidUuid));
    assert_eq!(other, vec![1u8]);
    assert_eq!(put_uuid(None, &mut other), Err(Error::InvalidUuid));
    assert_eq!(put_uuid(Some(vec![2, 3]), &mut other), Ok(IsNull::No));
    assert_eq!(other, vec![1u8, 2, 3]);
}

#[test]
fn uuid_is_decoded_from_text_bytes() {
    let text = "550e8400-e29b-41d4-a716-446655440000";
    let v = PgValue { format: PgValueFormat::Text, value: Some(text.as_bytes().to_vec()) };
    assert_eq!(Uuid::decode(v), Ok(Uuid(String::from(text))));
    let b = PgValue { format: PgValueFormat::Binary, value: Some(vec![0xff, 0xfe]) };
    assert_eq!(Uuid::decode(b), Err(Error::InvalidUtf8));
    let n = PgValue { format: PgValueFormat::Binary, value: None };
    assert_eq!(Uuid::decode(n), Err(Error::UnexpectedNull));
}

#[test]
fn text_helpers() {
    assert_eq!(trim_bytes(b"  a b \n"), b"a b".to_vec());
    assert_eq!(trim_bytes(b" \t "), b"".to_vec());
    assert!(bytes_eq(b"ab", b"ab"));
    assert!(!bytes_eq(b"ab", b"abc"));
    let over = vec![b"AND".to_vec(), b"OR".to_vec()];
    assert_eq!(shape_bytes(b" and a=1", b"WHERE", b"", &over, &[], true), b"WHERE a=1".to_vec());
    assert_eq!(shape_bytes(b" and a=1", b"WHERE", b"", &over, &[], false), b"WHERE and a=1".to_vec());
    assert_eq!(shape_bytes(b"where a=1", b"WHERE", b"", &over, &[], true), b"WHERE a=1".to_vec());
}

#[test]
fn borrowed_values_as_text() {
    assert_eq!(ValueRef::Binary(b"ab").to_text(), Some(b"\"ab\"".to_vec()));
    assert_eq!(ValueRef::Binary(b"a\"b\n").to_text(), Some(b"\"a\\\"b\\n\"".to_vec()));
    assert_eq!(ValueRef::Binary(&[0xff]).to_text(), Some(b"\"\"".to_vec()));
    assert_eq!(ValueRef::String(b"ab").to_text(), Some(b"ab".to_vec()));
    assert_eq!(ValueRef::String(&[b'a', 0xff]).to_text(), Some(vec![]));
    assert_eq!(ValueRef::Nil.to_text(), Some(b"nil".to_vec()));
    assert_eq!(ValueRef::I64(-3).to_text(), Some(b"-3".to_vec()));
    assert_eq!(ValueRef::Ext(2, &[1, 2]).to_text(), Some(b"[2, [1, 2]]".to_vec()));
    assert_eq!(
        ValueRef::Array(vec![ValueRef::Binary(b"x"), ValueRef::Boolean(true)]).to_text(),
        Some(b"[\"x\", true]".to_vec())
    );
    assert_eq!(
        ValueRef::Pairs(vec![(ValueRef::String(b"k"), ValueRef::Binary(b"v"))]).to_text(),
        Some(b"{k: \"v\"}".to_vec())
    );
    assert_eq!(ValueRef::Array(vec![ValueRef::F64(0)]).to_text(), None);
    assert_eq!(Value::Binary(b"ab".to_vec()).to_text(), Some(b"[97, 98]".to_vec()));
}

#[test]
fn values_from_items() {
    assert_eq!(
        Value::from_iter(vec![1u8, 2, 3]),
        Value::Array(vec![Value::U64(1), Value::U64(2), Value::U64(3)])
    );
    assert_eq!(Value::from_iter(vec!["a"]), Value::Array(vec![string("a")]));
    assert_eq!(Value::from_iter(Vec::<bool>::new()), Value::Array(vec![]));
    let r = ValueRef::from_iter(vec![-1i32, 2]);
    assert_eq!(r.to_owned(), Value::Array(vec![Value::I64(-1), Value::I64(2)]));
    assert_eq!(Value::from(Cow::Borrowed("ab")), string("ab"));
    assert_eq!(Value::from(Cow::<str>::Owned(String::from("ab"))), string("ab"));
    assert_eq!(Value::from(Cow::Borrowed(&[1u8, 2][..])), Value::Binary(vec![1, 2]));
    assert_eq!(Value::from(Cow::<[u8]>::Owned(vec![1u8, 2])), Value::Binary(vec![1, 2]));
}

#[test]
fn borrowed_value_conversions() {
    assert_eq!(ValueRef::from(7u16).to_owned(), Value::U64(7));
    assert_eq!(ValueRef::from(7usize).to_owned(), Value::U64(7));
    assert_eq!(ValueRef::from(-7i8).to_owned(), Value::I64(-7));
    assert_eq!(ValueRef::from("ab").to_owned(), string("ab"));
    assert_eq!(ValueRef::from(&b"ab"[..]).to_owned(), Value::Binary(b"ab".to_vec()));
    assert_eq!(ValueRef::from(vec![ValueRef::Nil]).to_owned(), Value::Array(vec![Value::Nil]));
    assert_eq!(
        ValueRef::from(vec![(ValueRef::Nil, ValueRef::U64(1))]).to_owned(),
        Value::Pairs(vec![(Value::Nil, Value::U64(1))])
    );
    assert_eq!(u64::try_from(ValueRef::U64(3)).ok(), Some(3));
    assert!(u64::try_from(ValueRef::I64(3)).is_err());
    assert_eq!(bool::try_from(ValueRef::Boolean(true)).ok(), Some(true));
    assert_eq!(<&[u8]>::try_from(ValueRef::Binary(b"ab")).ok(), Some(&b"ab"[..]));
    assert!(<&[u8]>::try_from(ValueRef::String(b"ab")).is_err());
    assert_eq!(Vec::<ValueRef>::try_from(ValueRef::Array(vec![ValueRef::Nil])).ok().map(|v| v.len()), Some(1));
    assert!(Vec::<(ValueRef, ValueRef)>::try_from(ValueRef::Nil).is_err());
}
