use crate::text::copy_bytes;
use crate::value::{Value, ValueView};
use crate::value_ref::ValueRef;
use std::borrow::Cow;
use vstd::prelude::*;
use vstd::string::StringSliceAdditionalSpecFns;
use vstd::std_specs::convert::{FromSpecImpl, TryFromSpecImpl};
use vstd::utf8::{decode_utf8, encode_utf8, valid_utf8};

verus! {

impl From<bool> for Value {
    fn from(v: bool) -> (r: Value) {
        Value::Boolean(v)
    }
}

impl FromSpecImpl<bool> for Value {
    open spec fn obeys_from_spec() -> bool {
        true
    }

    open spec fn from_spec(v: bool) -> Value {
        Value::Boolean(v)
    }
}

impl From<u8> for Value {
    fn from(v: u8) -> (r: Value) {
        Value::U64(v as u64)
    }
}

impl FromSpecImpl<u8> for Value {
    open spec fn obeys_from_spec() -> bool {
        true
    }

    open spec fn from_spec(v: u8) -> Value {
        Value::U64(v as u64)
    }
}

impl From<u16> for Value {
    fn from(v: u16) -> (r: Value) {
        Value::U64(v as u64)
    }
}

impl FromSpecImpl<u16> for Value {
    open spec fn obeys_from_spec() -> bool {
        true
    }

    open spec fn from_spec(v: u16) -> Value {
        Value::U64(v as u64)
    }
}

impl From<u32> for Value {
    fn from(v: u32) -> (r: Value) {
        Value::U64(v as u64)
    }
}

impl FromSpecImpl<u32> for Value {
    open spec fn obeys_from_spec() -> bool {
        true
    }

    open spec fn from_spec(v: u32) -> Value {
        Value::U64(v as u64)
    }
}

impl From<u64> for Value {
    fn from(v: u64) -> (r: Value) {
        Value::U64(v as u64)
    }
}

impl FromSpecImpl<u64> for Value {
    open spec fn obeys_from_spec() -> bool {
        true
    }

    open spec fn from_spec(v: u64) -> Value {
        Value::U64(v as u64)
    }
}

impl From<usize> for Value {
    fn from(v: usize) -> (r: Value) {
        Value::U64(v as u64)
    }
}

impl FromSpecImpl<usize> for Value {
    open spec fn obeys_from_spec() -> bool {
        true
    }

    open spec fn from_spec(v: usize) -> Value {
        Value::U64(v as u64)
    }
}

impl From<i8> for Value {
    fn from(v: i8) -> (r: Value) {
        Value::I64(v as i64)
    }
}

impl FromSpecImpl<i8> for Value {
    open spec fn obeys_from_spec() -> bool {
        true
    }

    open spec fn from_spec(v: i8) -> Value {
        Value::I64(v as i64)
    }
}

impl From<i16> for Value {
    fn from(v: i16) -> (r: Value) {
        Value::I64(v as i64)
    }
}

impl FromSpecImpl<i16> for Value {
    open spec fn obeys_from_spec() -> bool {
        true
    }

    open spec fn from_spec(v: i16) -> Value {
        Value::I64(v as i64)
    }
}

impl From<i32> for Value {
    fn from(v: i32) -> (r: Value) {
        Value::I64(v as i64)
    }
}

impl FromSpecImpl<i32> for Value {
    open spec fn obeys_from_spec() -> bool {
        true
    }

    open spec fn from_spec(v: i32) -> Value {
        Value::I64(v as i64)
    }
}

impl From<i64> for Value {
    fn from(v: i64) -> (r: Value) {
        Value::I64(v as i64)
    }
}

impl FromSpecImpl<i64> for Value {
    open spec fn obeys_from_spec() -> bool {
        true
    }

    open spec fn from_spec(v: i64) -> Value {
        Value::I64(v as i64)
    }
}

impl From<isize> for Value {
    fn from(v: isize) -> (r: Value) {
        Value::I64(v as i64)
    }
}

impl FromSpecImpl<isize> for Value {
    open spec fn obeys_from_spec() -> bool {
        true
    }

    open spec fn from_spec(v: isize) -> Value {
        Value::I64(v as i64)
    }
}

impl From<Vec<u8>> for Value {
    fn from(v: Vec<u8>) -> (r: Value) {
        Value::Binary(v)
    }
}

impl FromSpecImpl<Vec<u8>> for Value {
    open spec fn obeys_from_spec() -> bool {
        true
    }

    open spec fn from_spec(v: Vec<u8>) -> Value {
        Value::Binary(v)
    }
}

impl From<Vec<Value>> for Value {
    fn from(v: Vec<Value>) -> (r: Value) {
        Value::Array(v)
    }
}

impl FromSpecImpl<Vec<Value>> for Value {
    open spec fn obeys_from_spec() -> bool {
        true
    }

    open spec fn from_spec(v: Vec<Value>) -> Value {
        Value::Array(v)
    }
}

impl From<Vec<(Value, Value)>> for Value {
    fn from(v: Vec<(Value, Value)>) -> (r: Value) {
        Value::Pairs(v)
    }
}

impl FromSpecImpl<Vec<(Value, Value)>> for Value {
    open spec fn obeys_from_spec() -> bool {
        true
    }

    open spec fn from_spec(v: Vec<(Value, Value)>) -> Value {
        Value::Pairs(v)
    }
}

/// The bytes are copied, so the conversion is stated of what the value stands for.
impl From<String> for Value {
    fn from(v: String) -> (r: Value)
        ensures
            r@ == ValueView::String(encode_utf8(v@)),
    {
        Value::String(copy_bytes(v.as_str().as_bytes()))
    }
}

impl FromSpecImpl<String> for Value {
    open spec fn obeys_from_spec() -> bool {
        false
    }

    open spec fn from_spec(v: String) -> Value {
        arbitrary()
    }
}

/// The bytes are copied, so the conversion is stated of what the value stands for.
impl<'a> From<&'a str> for Value {
    fn from(v: &'a str) -> (r: Value)
        ensures
            r@ == ValueView::String(v.spec_bytes()),
    {
        Value::String(copy_bytes(v.as_bytes()))
    }
}

impl<'a> FromSpecImpl<&'a str> for Value {
    open spec fn obeys_from_spec() -> bool {
        false
    }

    open spec fn from_spec(v: &'a str) -> Value {
        arbitrary()
    }
}

/// The bytes are copied, so the conversion is stated of what the value stands for.
impl<'a> From<&'a [u8]> for Value {
    fn from(v: &'a [u8]) -> (r: Value)
        ensures
            r@ == ValueView::Binary(v@),
    {
        Value::Binary(copy_bytes(v))
    }
}

impl<'a> FromSpecImpl<&'a [u8]> for Value {
    open spec fn obeys_from_spec() -> bool {
        false
    }

    open spec fn from_spec(v: &'a [u8]) -> Value {
        arbitrary()
    }
}

impl TryFrom<Value> for u64 {
    type Error = Value;

    fn try_from(val: Value) -> (r: Result<u64, Value>) {
        match val {
            Value::U64(v) => Ok(v),
            v => Err(v),
        }
    }
}

impl TryFromSpecImpl<Value> for u64 {
    open spec fn obeys_try_from_spec() -> bool {
        true
    }

    open spec fn try_from_spec(val: Value) -> Result<u64, Value> {
        match val {
            Value::U64(v) => Ok(v),
            v => Err(v),
        }
    }
}

impl TryFrom<Value> for i64 {
    type Error = Value;

    fn try_from(val: Value) -> (r: Result<i64, Value>) {
        match val {
            Value::I64(v) => Ok(v),
            v => Err(v),
        }
    }
}

impl TryFromSpecImpl<Value> for i64 {
    open spec fn obeys_try_from_spec() -> bool {
        true
    }

    open spec fn try_from_spec(val: Value) -> Result<i64, Value> {
        match val {
            Value::I64(v) => Ok(v),
            v => Err(v),
        }
    }
}

impl TryFrom<Value> for bool {
    type Error = Value;

    fn try_from(val: Value) -> (r: Result<bool, Value>) {
        match val {
            Value::Boolean(v) => Ok(v),
            v => Err(v),
        }
    }
}

impl TryFromSpecImpl<Value> for bool {
    open spec fn obeys_try_from_spec() -> bool {
        true
    }

    open spec fn try_from_spec(val: Value) -> Result<bool, Value> {
        match val {
            Value::Boolean(v) => Ok(v),
            v => Err(v),
        }
    }
}

impl TryFrom<Value> for Vec<Value> {
    type Error = Value;

    fn try_from(val: Value) -> (r: Result<Vec<Value>, Value>) {
        match val {
            Value::Array(v) => Ok(v),
            v => Err(v),
        }
    }
}

impl TryFromSpecImpl<Value> for Vec<Value> {
    open spec fn obeys_try_from_spec() -> bool {
        true
    }

    open spec fn try_from_spec(val: Value) -> Result<Vec<Value>, Value> {
        match val {
            Value::Array(v) => Ok(v),
            v => Err(v),
        }
    }
}

impl TryFrom<Value> for Vec<(Value, Value)> {
    type Error = Value;

    fn try_from(val: Value) -> (r: Result<Vec<(Value, Value)>, Value>) {
        match val {
            Value::Pairs(v) => Ok(v),
            v => Err(v),
        }
    }
}

impl TryFromSpecImpl<Value> for Vec<(Value, Value)> {
    open spec fn obeys_try_from_spec() -> bool {
        true
    }

    open spec fn try_from_spec(val: Value) -> Result<Vec<(Value, Value)>, Value> {
        match val {
            Value::Pairs(v) => Ok(v),
            v => Err(v),
        }
    }
}

impl TryFrom<Value> for Vec<u8> {
    type Error = Value;

    fn try_from(val: Value) -> (r: Result<Vec<u8>, Value>) {
        match val {
            Value::Binary(v) => Ok(v),
            v => Err(v),
        }
    }
}

impl TryFromSpecImpl<Value> for Vec<u8> {
    open spec fn obeys_try_from_spec() -> bool {
        true
    }

    open spec fn try_from_spec(val: Value) -> Result<Vec<u8>, Value> {
        match val {
            Value::Binary(v) => Ok(v),
            v => Err(v),
        }
    }
}

/// `String::from_utf8`: the text that the bytes encode, where they are valid
/// UTF-8, and nothing where they are not.
#[verifier::external_body]
pub(crate) fn string_from_utf8(bytes: Vec<u8>) -> (r: Option<String>)
    ensures
        match r {
            Some(s) => valid_utf8(bytes@) && s@ == decode_utf8(bytes@),
            None => !valid_utf8(bytes@),
        },
{
    String::from_utf8(bytes).ok()
}

/// The text of a text value; the empty text where its bytes are not valid
/// UTF-8. Any other value is handed back.
impl TryFrom<Value> for String {
    type Error = Value;

    fn try_from(val: Value) -> (r: Result<String, Value>)
        ensures
            match val {
                Value::String(u) => r matches Ok(s) && s@ == (if valid_utf8(u@) {
                    decode_utf8(u@)
                } else {
                    Seq::<char>::empty()
                }),
                v => r == Err::<String, Value>(v),
            },
    {
        match val {
            Value::String(u) => match string_from_utf8(u) {
                Some(s) => Ok(s),
                None => Ok(String::new()),
            },
            v => Err(v),
        }
    }
}

impl TryFromSpecImpl<Value> for String {
    open spec fn obeys_try_from_spec() -> bool {
        false
    }

    open spec fn try_from_spec(val: Value) -> Result<String, Value> {
        arbitrary()
    }
}

/// The bytes are copied, so the conversion is stated of what the value stands for.
impl<'a> From<Cow<'a, str>> for Value {
    fn from(v: Cow<'a, str>) -> (r: Value)
        ensures
            r@ == ValueView::String(encode_utf8(v@)),
    {
        match v {
            Cow::Borrowed(b) => Value::String(copy_bytes(b.as_bytes())),
            Cow::Owned(o) => Value::String(copy_bytes(o.as_str().as_bytes())),
        }
    }
}

impl<'a> FromSpecImpl<Cow<'a, str>> for Value {
    open spec fn obeys_from_spec() -> bool {
        false
    }

    open spec fn from_spec(v: Cow<'a, str>) -> Value {
        arbitrary()
    }
}

/// Borrowed bytes are copied, so the conversion is stated of what the value
/// stands for.
impl<'a> From<Cow<'a, [u8]>> for Value {
    fn from(v: Cow<'a, [u8]>) -> (r: Value)
        ensures
            r@ == ValueView::Binary(v@),
    {
        match v {
            Cow::Borrowed(b) => Value::Binary(copy_bytes(b)),
            Cow::Owned(o) => Value::Binary(o),
        }
    }
}

impl<'a> FromSpecImpl<Cow<'a, [u8]>> for Value {
    open spec fn obeys_from_spec() -> bool {
        false
    }

    open spec fn from_spec(v: Cow<'a, [u8]>) -> Value {
        arbitrary()
    }
}

impl Value {
    /// The array of the values that the items convert to, in their order.
    pub fn from_iter<V>(items: Vec<V>) -> (r: Value) where Value: From<V>
        ensures
            r is Array,
            r->Array_0@.len() == items@.len(),
            forall|i: int|
                0 <= i < items@.len() ==> call_ensures(
                    <Value as From<V>>::from,
                    (items@[i],),
                    #[trigger] r->Array_0@[i],
                ),
    {
        let ghost src = items@;
        let mut out: Vec<Value> = Vec::new();
        for x in it: items
            invariant
                it.seq() == src,
                out@.len() == it.index(),
                forall|i: int|
                    0 <= i < out@.len() ==> call_ensures(
                        <Value as From<V>>::from,
                        (src[i],),
                        #[trigger] out@[i],
                    ),
        {
            out.push(Value::from(x));
        }
        Value::Array(out)
    }
}

impl<'a> ValueRef<'a> {
    /// The array of the values that the items convert to, in their order.
    pub fn from_iter<V>(items: Vec<V>) -> (r: ValueRef<'a>) where ValueRef<'a>: From<V>
        ensures
            r is Array,
            r->Array_0@.len() == items@.len(),
            forall|i: int|
                0 <= i < items@.len() ==> call_ensures(
                    <ValueRef<'a> as From<V>>::from,
                    (items@[i],),
                    #[trigger] r->Array_0@[i],
                ),
    {
        let ghost src = items@;
        let mut out: Vec<ValueRef<'a>> = Vec::new();
        for x in it: items
            invariant
                it.seq() == src,
                out@.len() == it.index(),
                forall|i: int|
                    0 <= i < out@.len() ==> call_ensures(
                        <ValueRef<'a> as From<V>>::from,
                        (src[i],),
                        #[trigger] out@[i],
                    ),
        {
            out.push(ValueRef::from(x));
        }
        ValueRef::Array(out)
    }
}

impl<'a> From<u8> for ValueRef<'a> {
    fn from(v: u8) -> (r: ValueRef<'a>) {
        ValueRef::U64(v as u64)
    }
}

impl<'a> FromSpecImpl<u8> for ValueRef<'a> {
    open spec fn obeys_from_spec() -> bool {
        true
    }

    open spec fn from_spec(v: u8) -> ValueRef<'a> {
        ValueRef::U64(v as u64)
    }
}

impl<'a> From<u16> for ValueRef<'a> {
    fn from(v: u16) -> (r: ValueRef<'a>) {
        ValueRef::U64(v as u64)
    }
}

impl<'a> FromSpecImpl<u16> for ValueRef<'a> {
    open spec fn obeys_from_spec() -> bool {
        true
    }

    open spec fn from_spec(v: u16) -> ValueRef<'a> {
        ValueRef::U64(v as u64)
    }
}

impl<'a> From<u32> for ValueRef<'a> {
    fn from(v: u32) -> (r: ValueRef<'a>) {
        ValueRef::U64(v as u64)
    }
}

impl<'a> FromSpecImpl<u32> for ValueRef<'a> {
    open spec fn obeys_from_spec() -> bool {
        true
    }

    open spec fn from_spec(v: u32) -> ValueRef<'a> {
        ValueRef::U64(v as u64)
    }
}

impl<'a> From<u64> for ValueRef<'a> {
    fn from(v: u64) -> (r: ValueRef<'a>) {
        ValueRef::U64(v as u64)
    }
}

impl<'a> FromSpecImpl<u64> for ValueRef<'a> {
    open spec fn obeys_from_spec() -> bool {
        true
    }

    open spec fn from_spec(v: u64) -> ValueRef<'a> {
        ValueRef::U64(v as u64)
    }
}

impl<'a> From<usize> for ValueRef<'a> {
    fn from(v: usize) -> (r: ValueRef<'a>) {
        ValueRef::U64(v as u64)
    }
}

impl<'a> FromSpecImpl<usize> for ValueRef<'a> {
    open spec fn obeys_from_spec() -> bool {
        true
    }

    open spec fn from_spec(v: usize) -> ValueRef<'a> {
        ValueRef::U64(v as u64)
    }
}

impl<'a> From<i8> for ValueRef<'a> {
    fn from(v: i8) -> (r: ValueRef<'a>) {
        ValueRef::I64(v as i64)
    }
}

impl<'a> FromSpecImpl<i8> for ValueRef<'a> {
    open spec fn obeys_from_spec() -> bool {
        true
    }

    open spec fn from_spec(v: i8) -> ValueRef<'a> {
        ValueRef::I64(v as i64)
    }
}

impl<'a> From<i16> for ValueRef<'a> {
    fn from(v: i16) -> (r: ValueRef<'a>) {
        ValueRef::I64(v as i64)
    }
}

impl<'a> FromSpecImpl<i16> for ValueRef<'a> {
    open spec fn obeys_from_spec() -> bool {
        true
    }

    open spec fn from_spec(v: i16) -> ValueRef<'a> {
        ValueRef::I64(v as i64)
    }
}

impl<'a> From<i32> for ValueRef<'a> {
    fn from(v: i32) -> (r: ValueRef<'a>) {
        ValueRef::I64(v as i64)
    }
}

impl<'a> FromSpecImpl<i32> for ValueRef<'a> {
    open spec fn obeys_from_spec() -> bool {
        true
    }

    open spec fn from_spec(v: i32) -> ValueRef<'a> {
        ValueRef::I64(v as i64)
    }
}

impl<'a> From<i64> for ValueRef<'a> {
    fn from(v: i64) -> (r: ValueRef<'a>) {
        ValueRef::I64(v as i64)
    }
}

impl<'a> FromSpecImpl<i64> for ValueRef<'a> {
    open spec fn obeys_from_spec() -> bool {
        true
    }

    open spec fn from_spec(v: i64) -> ValueRef<'a> {
        ValueRef::I64(v as i64)
    }
}

impl<'a> From<isize> for ValueRef<'a> {
    fn from(v: isize) -> (r: ValueRef<'a>) {
        ValueRef::I64(v as i64)
    }
}

impl<'a> FromSpecImpl<isize> for ValueRef<'a> {
    open spec fn obeys_from_spec() -> bool {
        true
    }

    open spec fn from_spec(v: isize) -> ValueRef<'a> {
        ValueRef::I64(v as i64)
    }
}

impl<'a> From<&'a [u8]> for ValueRef<'a> {
    fn from(v: &'a [u8]) -> (r: ValueRef<'a>) {
        ValueRef::Binary(v)
    }
}

impl<'a> FromSpecImpl<&'a [u8]> for ValueRef<'a> {
    open spec fn obeys_from_spec() -> bool {
        true
    }

    open spec fn from_spec(v: &'a [u8]) -> ValueRef<'a> {
        ValueRef::Binary(v)
    }
}

impl<'a> From<Vec<ValueRef<'a>>> for ValueRef<'a> {
    fn from(v: Vec<ValueRef<'a>>) -> (r: ValueRef<'a>) {
        ValueRef::Array(v)
    }
}

impl<'a> FromSpecImpl<Vec<ValueRef<'a>>> for ValueRef<'a> {
    open spec fn obeys_from_spec() -> bool {
        true
    }

    open spec fn from_spec(v: Vec<ValueRef<'a>>) -> ValueRef<'a> {
        ValueRef::Array(v)
    }
}

impl<'a> From<Vec<(ValueRef<'a>, ValueRef<'a>)>> for ValueRef<'a> {
    fn from(v: Vec<(ValueRef<'a>, ValueRef<'a>)>) -> (r: ValueRef<'a>) {
        ValueRef::Pairs(v)
    }
}

impl<'a> FromSpecImpl<Vec<(ValueRef<'a>, ValueRef<'a>)>> for ValueRef<'a> {
    open spec fn obeys_from_spec() -> bool {
        true
    }

    open spec fn from_spec(v: Vec<(ValueRef<'a>, ValueRef<'a>)>) -> ValueRef<'a> {
        ValueRef::Pairs(v)
    }
}

/// The text is borrowed as its bytes, so the conversion is stated of what the
/// value stands for.
impl<'a> From<&'a str> for ValueRef<'a> {
    fn from(v: &'a str) -> (r: ValueRef<'a>)
        ensures
            r@ == ValueView::String(v.spec_bytes()),
    {
        ValueRef::String(v.as_bytes())
    }
}

impl<'a> FromSpecImpl<&'a str> for ValueRef<'a> {
    open spec fn obeys_from_spec() -> bool {
        false
    }

    open spec fn from_spec(v: &'a str) -> ValueRef<'a> {
        arbitrary()
    }
}

impl<'a> TryFrom<ValueRef<'a>> for u64 {
    type Error = ValueRef<'a>;

    fn try_from(val: ValueRef<'a>) -> (r: Result<u64, ValueRef<'a>>) {
        match val {
            ValueRef::U64(v) => Ok(v),
            v => Err(v),
        }
    }
}

impl<'a> TryFromSpecImpl<ValueRef<'a>> for u64 {
    open spec fn obeys_try_from_spec() -> bool {
        true
    }

    open spec fn try_from_spec(val: ValueRef<'a>) -> Result<u64, ValueRef<'a>> {
        match val {
            ValueRef::U64(v) => Ok(v),
            v => Err(v),
        }
    }
}

impl<'a> TryFrom<ValueRef<'a>> for bool {
    type Error = ValueRef<'a>;

    fn try_from(val: ValueRef<'a>) -> (r: Result<bool, ValueRef<'a>>) {
        match val {
            ValueRef::Boolean(v) => Ok(v),
            v => Err(v),
        }
    }
}

impl<'a> TryFromSpecImpl<ValueRef<'a>> for bool {
    open spec fn obeys_try_from_spec() -> bool {
        true
    }

    open spec fn try_from_spec(val: ValueRef<'a>) -> Result<bool, ValueRef<'a>> {
        match val {
            ValueRef::Boolean(v) => Ok(v),
            v => Err(v),
        }
    }
}

impl<'a> TryFrom<ValueRef<'a>> for Vec<ValueRef<'a>> {
    type Error = ValueRef<'a>;

    fn try_from(val: ValueRef<'a>) -> (r: Result<Vec<ValueRef<'a>>, ValueRef<'a>>) {
        match val {
            ValueRef::Array(v) => Ok(v),
            v => Err(v),
        }
    }
}

impl<'a> TryFromSpecImpl<ValueRef<'a>> for Vec<ValueRef<'a>> {
    open spec fn obeys_try_from_spec() -> bool {
        true
    }

    open spec fn try_from_spec(val: ValueRef<'a>) -> Result<Vec<ValueRef<'a>>, ValueRef<'a>> {
        match val {
            ValueRef::Array(v) => Ok(v),
            v => Err(v),
        }
    }
}

impl<'a> TryFrom<ValueRef<'a>> for Vec<(ValueRef<'a>, ValueRef<'a>)> {
    type Error = ValueRef<'a>;

    fn try_from(val: ValueRef<'a>) -> (r: Result<Vec<(ValueRef<'a>, ValueRef<'a>)>, ValueRef<'a>>) {
        match val {
            ValueRef::Pairs(v) => Ok(v),
            v => Err(v),
        }
    }
}

impl<'a> TryFromSpecImpl<ValueRef<'a>> for Vec<(ValueRef<'a>, ValueRef<'a>)> {
    open spec fn obeys_try_from_spec() -> bool {
        true
    }

    open spec fn try_from_spec(val: ValueRef<'a>) -> Result<Vec<(ValueRef<'a>, ValueRef<'a>)>, ValueRef<'a>> {
        match val {
            ValueRef::Pairs(v) => Ok(v),
            v => Err(v),
        }
    }
}

impl<'a> TryFrom<ValueRef<'a>> for &'a [u8] {
    type Error = ValueRef<'a>;

    fn try_from(val: ValueRef<'a>) -> (r: Result<&'a [u8], ValueRef<'a>>) {
        match val {
            ValueRef::Binary(v) => Ok(v),
            v => Err(v),
        }
    }
}

impl<'a> TryFromSpecImpl<ValueRef<'a>> for &'a [u8] {
    open spec fn obeys_try_from_spec() -> bool {
        true
    }

    open spec fn try_from_spec(val: ValueRef<'a>) -> Result<&'a [u8], ValueRef<'a>> {
        match val {
            ValueRef::Binary(v) => Ok(v),
            v => Err(v),
        }
    }
}

} // verus!
