//! The values that statements are given and give back.

use crate::decimal::{i64_text, int_text, u64_text};
use crate::text::{bytes_eq, copy_bytes, literal_bytes, push_bytes};
use vstd::prelude::*;
use vstd::string::StringSliceAdditionalSpecFns;
use vstd::utf8::{decode_utf8, decode_utf8_encode_utf8, encode_utf8, valid_utf8};

verus! {

/// A value that a statement is given or gives back.
///
/// The two floating-point kinds hold the bit pattern of the number, which is
/// carried and handed on as it is.
#[derive(Debug)]
pub enum Value {
    /// No value.
    Nil,
    /// True or false.
    Boolean(bool),
    /// A signed integer.
    I64(i64),
    /// An unsigned integer.
    U64(u64),
    /// The bits of a 32-bit floating-point number.
    F32(u32),
    /// The bits of a 64-bit floating-point number.
    F64(u64),
    /// A text, as its bytes.
    String(Vec<u8>),
    /// A byte array.
    Binary(Vec<u8>),
    /// A sequence of values.
    Array(Vec<Value>),
    /// Pairs of key and value, in the order in which they were given; a key may
    /// stand in more than one pair.
    Pairs(Vec<(Value, Value)>),
    /// A kind of the caller's own, with its bytes.
    Ext(i8, Vec<u8>),
}

/// What a `Value` stands for.
pub enum ValueView {
    Nil,
    Boolean(bool),
    I64(i64),
    U64(u64),
    F32(u32),
    F64(u64),
    String(Seq<u8>),
    Binary(Seq<u8>),
    Array(Seq<ValueView>),
    Pairs(Seq<(ValueView, ValueView)>),
    Ext(i8, Seq<u8>),
}

/// What a value stands for.
pub open spec fn value_view(v: Value) -> ValueView
    decreases v,
{
    match v {
        Value::Nil => ValueView::Nil,
        Value::Boolean(b) => ValueView::Boolean(b),
        Value::I64(n) => ValueView::I64(n),
        Value::U64(n) => ValueView::U64(n),
        Value::F32(n) => ValueView::F32(n),
        Value::F64(n) => ValueView::F64(n),
        Value::String(s) => ValueView::String(s@),
        Value::Binary(s) => ValueView::Binary(s@),
        Value::Array(a) => ValueView::Array(views(a@)),
        Value::Pairs(m) => ValueView::Pairs(pair_views(m@)),
        Value::Ext(ty, s) => ValueView::Ext(ty, s@),
    }
}

/// What each value of a sequence stands for.
pub open spec fn views(s: Seq<Value>) -> Seq<ValueView>
    decreases s,
{
    if s.len() == 0 {
        Seq::empty()
    } else {
        views(s.drop_last()).push(value_view(s.last()))
    }
}

/// What each pair of a sequence stands for.
pub open spec fn pair_views(s: Seq<(Value, Value)>) -> Seq<(ValueView, ValueView)>
    decreases s,
{
    if s.len() == 0 {
        Seq::empty()
    } else {
        pair_views(s.drop_last()).push((value_view(s.last().0), value_view(s.last().1)))
    }
}

impl View for Value {
    type V = ValueView;

    open spec fn view(&self) -> ValueView {
        value_view(*self)
    }
}

/// The views of a sequence are the views of its values, one for one.
pub proof fn lemma_views(s: Seq<Value>)
    ensures
        views(s).len() == s.len(),
        forall|i: int| 0 <= i < s.len() ==> (#[trigger] views(s)[i]) == s[i]@,
    decreases s.len(),
{
    if s.len() > 0 {
        lemma_views(s.drop_last());
    }
}

/// A sequence in two parts stands for the views of the parts, one after the other.
pub proof fn lemma_views_concat(a: Seq<Value>, b: Seq<Value>)
    ensures
        views(a + b) == views(a) + views(b),
{
    lemma_views(a);
    lemma_views(b);
    lemma_views(a + b);
    assert(views(a + b) =~= views(a) + views(b));
}

/// A sequence with one more value at its end stands for one more view.
pub proof fn lemma_views_push(s: Seq<Value>, v: Value)
    ensures
        views(s.push(v)) == views(s).push(v@),
{
    assert(s.push(v).drop_last() =~= s);
}

/// The views of a sequence of pairs are the views of its pairs, one for one.
pub proof fn lemma_pair_views(s: Seq<(Value, Value)>)
    ensures
        pair_views(s).len() == s.len(),
        forall|i: int| 0 <= i < s.len() ==> (#[trigger] pair_views(s)[i]) == (s[i].0@, s[i].1@),
    decreases s.len(),
{
    if s.len() > 0 {
        lemma_pair_views(s.drop_last());
    }
}

impl ValueView {
    /// Whether the value is an integer of either kind.
    pub open spec fn is_integer(self) -> bool {
        self is I64 || self is U64
    }

    /// The number that an integer of either kind stands for.
    pub open spec fn integer(self) -> int {
        match self {
            ValueView::I64(n) => n as int,
            ValueView::U64(n) => n as int,
            _ => 0,
        }
    }

    /// Whether the value is a floating-point number of either width.
    pub open spec fn is_float(self) -> bool {
        self is F32 || self is F64
    }

    /// The element at `index` of an array; nil for any other value and past the end.
    pub open spec fn element(self, index: int) -> ValueView {
        match self {
            ValueView::Array(a) => if 0 <= index < a.len() {
                a[index]
            } else {
                ValueView::Nil
            },
            _ => ValueView::Nil,
        }
    }

    /// The value of the first pair whose key is the text `key`; nil where the
    /// value holds no pairs or none with that key.
    pub open spec fn entry(self, key: Seq<u8>) -> ValueView {
        match self {
            ValueView::Pairs(m) => first_entry(m, key, 0),
            _ => ValueView::Nil,
        }
    }
}

impl Clone for Value {
    fn clone(&self) -> (r: Value)
        ensures
            r@ == self@,
    {
        self.copy()
    }
}

/// The value of the first pair at or after `from` whose key is the text `key`.
pub open spec fn first_entry(m: Seq<(ValueView, ValueView)>, key: Seq<u8>, from: int) -> ValueView
    decreases m.len() - from,
{
    if 0 <= from < m.len() {
        if m[from].0 == ValueView::String(key) {
            m[from].1
        } else {
            first_entry(m, key, from + 1)
        }
    } else {
        ValueView::Nil
    }
}

impl Value {
    /// A copy of the value, with all that it holds.
    pub fn copy(&self) -> (r: Value)
        ensures
            r@ == self@,
        decreases self,
    {
        match self {
            Value::Nil => Value::Nil,
            Value::Boolean(b) => Value::Boolean(*b),
            Value::I64(n) => Value::I64(*n),
            Value::U64(n) => Value::U64(*n),
            Value::F32(n) => Value::F32(*n),
            Value::F64(n) => Value::F64(*n),
            Value::String(s) => Value::String(copy_bytes(s.as_slice())),
            Value::Binary(s) => Value::Binary(copy_bytes(s.as_slice())),
            Value::Array(a) => {
                let mut out: Vec<Value> = Vec::new();
                let mut i: usize = 0;
                while i < a.len()
                    invariant
                        i <= a.len(),
                        out@.len() == i,
                        forall|j: int| 0 <= j < i ==> out@[j]@ == a@[j]@,
                        self is Array,
                        self->Array_0 == *a,
                    decreases a.len() - i,
                {
                    let c = a[i].copy();
                    out.push(c);
                    i += 1;
                }
                proof {
                    lemma_views(out@);
                    lemma_views(a@);
                    assert(views(out@) =~= views(a@));
                }
                Value::Array(out)
            },
            Value::Pairs(m) => {
                let mut out: Vec<(Value, Value)> = Vec::new();
                let mut i: usize = 0;
                while i < m.len()
                    invariant
                        i <= m.len(),
                        out@.len() == i,
                        forall|j: int|
                            0 <= j < i ==> out@[j].0@ == m@[j].0@ && out@[j].1@ == m@[j].1@,
                        self is Pairs,
                        self->Pairs_0 == *m,
                    decreases m.len() - i,
                {
                    let k = m[i].0.copy();
                    let w = m[i].1.copy();
                    out.push((k, w));
                    i += 1;
                }
                proof {
                    lemma_pair_views(out@);
                    lemma_pair_views(m@);
                    assert(pair_views(out@) =~= pair_views(m@));
                }
                Value::Pairs(out)
            },
            Value::Ext(ty, s) => Value::Ext(*ty, copy_bytes(s.as_slice())),
        }
    }

    /// Whether the value is nil.
    pub fn is_nil(&self) -> (r: bool)
        ensures
            r == (self@ is Nil),
    {
        match self {
            Value::Nil => true,
            _ => false,
        }
    }

    /// Whether the value is true or false.
    pub fn is_bool(&self) -> (r: bool)
        ensures
            r == (self@ is Boolean),
    {
        self.as_bool().is_some()
    }

    /// Whether the value is a signed integer.
    pub fn is_i64(&self) -> (r: bool)
        ensures
            r == (self@ is I64),
    {
        match self {
            Value::I64(_) => true,
            _ => false,
        }
    }

    /// Whether the value is an unsigned integer.
    pub fn is_u64(&self) -> (r: bool)
        ensures
            r == (self@ is U64),
    {
        match self {
            Value::U64(_) => true,
            _ => false,
        }
    }

    /// Whether the value is a 32-bit floating-point number.
    pub fn is_f32(&self) -> (r: bool)
        ensures
            r == (self@ is F32),
    {
        match self {
            Value::F32(_) => true,
            _ => false,
        }
    }

    /// Whether the value is a 64-bit floating-point number.
    pub fn is_f64(&self) -> (r: bool)
        ensures
            r == (self@ is F64),
    {
        match self {
            Value::F64(_) => true,
            _ => false,
        }
    }

    /// Whether the value is a number of any kind.
    pub fn is_number(&self) -> (r: bool)
        ensures
            r == (self@.is_integer() || self@.is_float()),
    {
        match self {
            Value::I64(_) | Value::U64(_) | Value::F32(_) | Value::F64(_) => true,
            _ => false,
        }
    }

    /// Whether the value is a text.
    pub fn is_str(&self) -> (r: bool)
        ensures
            r == (self@ is String),
    {
        match self {
            Value::String(_) => true,
            _ => false,
        }
    }

    /// Whether the value holds bytes: a byte array or a text.
    pub fn is_bin(&self) -> (r: bool)
        ensures
            r == (self@ is Binary || self@ is String),
    {
        self.as_slice().is_some()
    }

    /// Whether the value is an array.
    pub fn is_array(&self) -> (r: bool)
        ensures
            r == (self@ is Array),
    {
        self.as_array().is_some()
    }

    /// Whether the value holds pairs of key and value.
    pub fn is_map(&self) -> (r: bool)
        ensures
            r == (self@ is Pairs),
    {
        self.as_map().is_some()
    }

    /// Whether the value is of a kind of the caller's own.
    pub fn is_ext(&self) -> (r: bool)
        ensures
            r == (self@ is Ext),
    {
        self.as_ext().is_some()
    }

    /// The truth value that the value holds, where it holds one.
    pub fn as_bool(&self) -> (r: Option<bool>)
        ensures
            r == (match self@ {
                ValueView::Boolean(b) => Some(b),
                _ => None,
            }),
    {
        match self {
            Value::Boolean(b) => Some(*b),
            _ => None,
        }
    }

    /// The signed integer that the value holds, where it holds one.
    pub fn as_i64(&self) -> (r: Option<i64>)
        ensures
            r == (match self@ {
                ValueView::I64(n) => Some(n),
                _ => None,
            }),
    {
        match self {
            Value::I64(n) => Some(*n),
            _ => None,
        }
    }

    /// The unsigned integer that the value holds, where it holds one.
    pub fn as_u64(&self) -> (r: Option<u64>)
        ensures
            r == (match self@ {
                ValueView::U64(n) => Some(n),
                _ => None,
            }),
    {
        match self {
            Value::U64(n) => Some(*n),
            _ => None,
        }
    }

    /// The text that the value holds, where it holds one: its bytes read as
    /// UTF-8, with what is not valid in them replaced.
    pub fn as_str(&self) -> (r: Option<String>)
        ensures
            match self@ {
                ValueView::String(s) => r matches Some(t) && t@ == lossy_text_of(s) && (valid_utf8(
                    s,
                ) ==> t@ == decode_utf8(s)),
                _ => r is None,
            },
    {
        match self {
            Value::String(s) => Some(lossy_text(s.as_slice())),
            _ => None,
        }
    }

    /// The bytes of a byte array or of a text.
    pub fn as_slice(&self) -> (r: Option<&[u8]>)
        ensures
            match self@ {
                ValueView::Binary(s) => r matches Some(t) && t@ == s,
                ValueView::String(s) => r matches Some(t) && t@ == s,
                _ => r is None,
            },
    {
        match self {
            Value::Binary(s) => Some(s.as_slice()),
            Value::String(s) => Some(s.as_slice()),
            _ => None,
        }
    }

    /// The values of an array.
    pub fn as_array(&self) -> (r: Option<&Vec<Value>>)
        ensures
            match self@ {
                ValueView::Array(a) => r matches Some(v) && views(v@) == a,
                _ => r is None,
            },
    {
        match self {
            Value::Array(a) => {
                Some(a)
            },
            _ => None,
        }
    }

    /// The pairs of key and value that the value holds.
    pub fn as_map(&self) -> (r: Option<&Vec<(Value, Value)>>)
        ensures
            match self@ {
                ValueView::Pairs(m) => r matches Some(v) && pair_views(v@) == m,
                _ => r is None,
            },
    {
        match self {
            Value::Pairs(m) => {
                proof {
                    lemma_pair_views(m@);
                }
                Some(m)
            },
            _ => None,
        }
    }

    /// The kind and bytes of a value of a kind of the caller's own.
    pub fn as_ext(&self) -> (r: Option<(i8, &[u8])>)
        ensures
            match self@ {
                ValueView::Ext(ty, s) => r matches Some(p) && p.0 == ty && p.1@ == s,
                _ => r is None,
            },
    {
        match self {
            Value::Ext(ty, s) => Some((*ty, s.as_slice())),
            _ => None,
        }
    }

    /// The element at `index` of an array; none stands for nil, which any other
    /// value and an index past the end give.
    pub fn index(&self, index: usize) -> (r: Option<&Value>)
        ensures
            match r {
                Some(v) => v@ == self@.element(index as int),
                None => self@.element(index as int) is Nil,
            },
    {
        match self {
            Value::Array(a) => {
                proof {
                    lemma_views(a@);
                }
                if index < a.len() {
                    Some(&a[index])
                } else {
                    None
                }
            },
            _ => None,
        }
    }

    /// The value of the first pair whose key is the text `key`; none stands for
    /// nil, which a value without pairs and a key that no pair has give.
    pub fn index_key(&self, key: &[u8]) -> (r: Option<&Value>)
        ensures
            match r {
                Some(v) => v@ == self@.entry(key@),
                None => self@.entry(key@) is Nil,
            },
    {
        match self {
            Value::Pairs(m) => {
                proof {
                    lemma_pair_views(m@);
                }
                let mut i: usize = 0;
                while i < m.len()
                    invariant
                        i <= m.len(),
                        self@ is Pairs,
                        self@->Pairs_0.len() == m@.len(),
                        forall|j: int|
                            0 <= j < m@.len() ==> self@->Pairs_0[j] == (
                                #[trigger] m@[j].0@,
                                m@[j].1@,
                            ),
                        first_entry(self@->Pairs_0, key@, 0) == first_entry(
                            self@->Pairs_0,
                            key@,
                            i as int,
                        ),
                    decreases m.len() - i,
                {
                    let found = match &m[i].0 {
                        Value::String(s) => bytes_eq(s.as_slice(), key),
                        _ => false,
                    };
                    assert(found == (m@[i as int].0@ == ValueView::String(key@)));
                    if found {
                        return Some(&m[i].1);
                    }
                    i += 1;
                }
                None
            },
            _ => None,
        }
    }
}

} // verus!


verus! {

/// The bytes of a list, each as its decimal number, with `, ` between them.
pub open spec fn byte_list_text(b: Seq<u8>) -> Seq<u8>
    decreases b.len(),
{
    if b.len() == 0 {
        Seq::empty()
    } else if b.len() == 1 {
        int_text(b.last() as int)
    } else {
        byte_list_text(b.drop_last()) + ", ".spec_bytes() + int_text(b.last() as int)
    }
}

/// A byte array as text: its bytes as a list between square brackets.
pub open spec fn bytes_text(b: Seq<u8>) -> Seq<u8> {
    "[".spec_bytes() + byte_list_text(b) + "]".spec_bytes()
}

/// The text that bytes are read as where what is not valid UTF-8 in them is
/// replaced.
pub uninterp spec fn lossy_text_of(bytes: Seq<u8>) -> Seq<char>;

/// `String::from_utf8_lossy`: the text that the bytes are read as; where they
/// are valid UTF-8, the text that they encode.
#[verifier::external_body]
pub(crate) fn lossy_text(bytes: &[u8]) -> (r: String)
    ensures
        r@ == lossy_text_of(bytes@),
        valid_utf8(bytes@) ==> r@ == decode_utf8(bytes@),
{
    String::from_utf8_lossy(bytes).into_owned()
}

/// A text value as text. Valid UTF-8 is written as it is. Of bytes that are
/// not, an owning value writes the lossy reading and a borrowing one nothing.
pub open spec fn string_text(s: Seq<u8>, borrowed: bool) -> Seq<u8> {
    if valid_utf8(s) {
        s
    } else if borrowed {
        Seq::empty()
    } else {
        encode_utf8(lossy_text_of(s))
    }
}

/// A text in the form in which it is written for inspection: between quotes,
/// with what is not printable escaped.
pub uninterp spec fn debug_text_of(text: Seq<char>) -> Seq<u8>;

/// The `Debug` form of `str`, as `format!` writes it: the text between quotes,
/// with what is not printable escaped.
#[verifier::external_body]
pub(crate) fn debug_text(text: &str) -> (r: Vec<u8>)
    ensures
        r@ == debug_text_of(text@),
{
    format!("{:?}", text).into_bytes()
}

/// A byte array as text. An owning value writes the list of its bytes; a
/// borrowing one reads the bytes as UTF-8, as no text where they are not
/// valid, and writes that text in its quoted form.
pub open spec fn binary_text(b: Seq<u8>, borrowed: bool) -> Seq<u8> {
    if borrowed {
        debug_text_of(
            if valid_utf8(b) {
                decode_utf8(b)
            } else {
                Seq::empty()
            },
        )
    } else {
        bytes_text(b)
    }
}

/// A value as text, in the owning or in the borrowing form, where it holds no
/// floating-point number.
///
/// Nil is `nil`, an integer its decimal digits, an array its values between
/// square brackets and pairs `key: value` between braces.
pub open spec fn text_of(v: ValueView, borrowed: bool) -> Option<Seq<u8>>
    decreases v,
{
    match v {
        ValueView::Nil => Some("nil".spec_bytes()),
        ValueView::Boolean(b) => Some(
            if b {
                "true".spec_bytes()
            } else {
                "false".spec_bytes()
            },
        ),
        ValueView::I64(n) => Some(int_text(n as int)),
        ValueView::U64(n) => Some(int_text(n as int)),
        ValueView::F32(_) => None,
        ValueView::F64(_) => None,
        ValueView::String(s) => Some(string_text(s, borrowed)),
        ValueView::Binary(b) => Some(binary_text(b, borrowed)),
        ValueView::Array(a) => match list_text(a, borrowed) {
            Some(t) => Some("[".spec_bytes() + t + "]".spec_bytes()),
            None => None,
        },
        ValueView::Pairs(m) => match pairs_text(m, borrowed) {
            Some(t) => Some("{".spec_bytes() + t + "}".spec_bytes()),
            None => None,
        },
        ValueView::Ext(ty, b) => Some(
            "[".spec_bytes() + int_text(ty as int) + ", ".spec_bytes() + bytes_text(b)
                + "]".spec_bytes(),
        ),
    }
}

/// An owning value as text.
pub open spec fn value_text(v: ValueView) -> Option<Seq<u8>> {
    text_of(v, false)
}

/// A borrowing value as text.
pub open spec fn ref_text(v: ValueView) -> Option<Seq<u8>> {
    text_of(v, true)
}

/// The texts of the values of a list with `, ` between them.
pub open spec fn list_text(a: Seq<ValueView>, borrowed: bool) -> Option<Seq<u8>>
    decreases a,
{
    if a.len() == 0 {
        Some(Seq::empty())
    } else {
        match (list_text(a.drop_last(), borrowed), text_of(a.last(), borrowed)) {
            (Some(p), Some(t)) => Some(
                if a.len() == 1 {
                    t
                } else {
                    p + ", ".spec_bytes() + t
                },
            ),
            _ => None,
        }
    }
}

/// The texts of the pairs of a list, each as `key: value`, with `, ` between them.
pub open spec fn pairs_text(m: Seq<(ValueView, ValueView)>, borrowed: bool) -> Option<Seq<u8>>
    decreases m,
{
    if m.len() == 0 {
        Some(Seq::empty())
    } else {
        match (
            pairs_text(m.drop_last(), borrowed),
            text_of(m.last().0, borrowed),
            text_of(m.last().1, borrowed),
        ) {
            (Some(p), Some(k), Some(t)) => Some(
                if m.len() == 1 {
                    k + ": ".spec_bytes() + t
                } else {
                    p + ", ".spec_bytes() + k + ": ".spec_bytes() + t
                },
            ),
            _ => None,
        }
    }
}

/// A list with a value that has no text has none.
pub proof fn lemma_list_text_none(a: Seq<ValueView>, k: int, borrowed: bool)
    requires
        0 <= k < a.len(),
        text_of(a[k], borrowed) is None,
    ensures
        list_text(a, borrowed) is None,
    decreases a.len(),
{
    if k < a.len() - 1 {
        lemma_list_text_none(a.drop_last(), k, borrowed);
    }
}

/// A list of pairs with a key or a value that has no text has none.
pub proof fn lemma_pairs_text_none(m: Seq<(ValueView, ValueView)>, k: int, borrowed: bool)
    requires
        0 <= k < m.len(),
        text_of(m[k].0, borrowed) is None || text_of(m[k].1, borrowed) is None,
    ensures
        pairs_text(m, borrowed) is None,
    decreases m.len(),
{
    if k < m.len() - 1 {
        lemma_pairs_text_none(m.drop_last(), k, borrowed);
    }
}

/// A byte array as text.
pub fn bytes_to_text(b: &[u8]) -> (r: Vec<u8>)
    ensures
        r@ == bytes_text(b@),
{
    let mut out: Vec<u8> = Vec::new();
    push_bytes(&mut out, "[".as_bytes());
    let mut i: usize = 0;
    while i < b.len()
        invariant
            i <= b.len(),
            out@ == "[".spec_bytes() + byte_list_text(b@.subrange(0, i as int)),
        decreases b.len() - i,
    {
        let ghost before = b@.subrange(0, i as int);
        let ghost next = b@.subrange(0, i + 1);
        assert(next.drop_last() =~= before);
        assert(next.last() == b@[i as int]);
        if i > 0 {
            push_bytes(&mut out, ", ".as_bytes());
        }
        let digits = u64_text(b[i] as u64);
        push_bytes(&mut out, digits.as_slice());
        i += 1;
        assert(out@ =~= "[".spec_bytes() + byte_list_text(next));
    }
    assert(b@.subrange(0, b@.len() as int) =~= b@);
    push_bytes(&mut out, "]".as_bytes());
    out
}

impl Value {
    /// The value as text; none where it holds a floating-point number.
    pub fn to_text(&self) -> (r: Option<Vec<u8>>)
        ensures
            match r {
                Some(t) => value_text(self@) == Some(t@),
                None => value_text(self@) is None,
            },
        decreases self,
    {
        match self {
            Value::Nil => Some(literal_bytes("nil")),
            Value::Boolean(b) => Some(
                if *b {
                    literal_bytes("true")
                } else {
                    literal_bytes("false")
                },
            ),
            Value::I64(n) => Some(i64_text(*n)),
            Value::U64(n) => Some(u64_text(*n)),
            Value::F32(_) => None,
            Value::F64(_) => None,
            Value::String(s) => {
                let read = lossy_text(s.as_slice());
                proof {
                    if valid_utf8(s@) {
                        decode_utf8_encode_utf8(s@);
                    }
                }
                Some(copy_bytes(read.as_str().as_bytes()))
            },
            Value::Binary(b) => Some(bytes_to_text(b.as_slice())),
            Value::Array(a) => {
                proof {
                    lemma_views(a@);
                }
                let mut out: Vec<u8> = Vec::new();
                let mut i: usize = 0;
                while i < a.len()
                    invariant
                        i <= a.len(),
                        self is Array,
                        self->Array_0 == *a,
                        views(a@).len() == a@.len(),
                        forall|j: int| 0 <= j < a@.len() ==> (#[trigger] views(a@)[j]) == a@[j]@,
                        list_text(views(a@).subrange(0, i as int), false) == Some(out@),
                    decreases a.len() - i,
                {
                    let ghost before = views(a@).subrange(0, i as int);
                    let ghost next = views(a@).subrange(0, i + 1);
                    assert(next.drop_last() =~= before);
                    assert(next.last() == a@[i as int]@);
                    match a[i].to_text() {
                        Some(t) => {
                            if i > 0 {
                                push_bytes(&mut out, ", ".as_bytes());
                            }
                            push_bytes(&mut out, t.as_slice());
                        },
                        None => {
                            proof {
                                lemma_list_text_none(views(a@), i as int, false);
                            }
                            return None;
                        },
                    }
                    i += 1;
                    assert(list_text(next, false) == Some(out@)) by {
                        if next.len() > 1 {
                            assert(out@ =~= list_text(before, false).unwrap() + ", ".spec_bytes()
                                + value_text(next.last()).unwrap());
                        }
                    }
                }
                assert(views(a@).subrange(0, a@.len() as int) =~= views(a@));
                let mut whole: Vec<u8> = Vec::new();
                push_bytes(&mut whole, "[".as_bytes());
                push_bytes(&mut whole, out.as_slice());
                push_bytes(&mut whole, "]".as_bytes());
                Some(whole)
            },
            Value::Pairs(m) => {
                proof {
                    lemma_pair_views(m@);
                }
                let mut out: Vec<u8> = Vec::new();
                let mut i: usize = 0;
                while i < m.len()
                    invariant
                        i <= m.len(),
                        self is Pairs,
                        self->Pairs_0 == *m,
                        pair_views(m@).len() == m@.len(),
                        forall|j: int|
                            0 <= j < m@.len() ==> (#[trigger] pair_views(m@)[j]) == (
                                m@[j].0@,
                                m@[j].1@,
                            ),
                        pairs_text(pair_views(m@).subrange(0, i as int), false) == Some(out@),
                    decreases m.len() - i,
                {
                    let ghost before = pair_views(m@).subrange(0, i as int);
                    let ghost next = pair_views(m@).subrange(0, i + 1);
                    assert(next.drop_last() =~= before);
                    assert(next.last() == (m@[i as int].0@, m@[i as int].1@));
                    let key = m[i].0.to_text();
                    let val = m[i].1.to_text();
                    match (key, val) {
                        (Some(k), Some(t)) => {
                            if i > 0 {
                                push_bytes(&mut out, ", ".as_bytes());
                            }
                            push_bytes(&mut out, k.as_slice());
                            push_bytes(&mut out, ": ".as_bytes());
                            push_bytes(&mut out, t.as_slice());
                        },
                        _ => {
                            proof {
                                lemma_pairs_text_none(pair_views(m@), i as int, false);
                            }
                            return None;
                        },
                    }
                    i += 1;
                    assert(pairs_text(next, false) == Some(out@)) by {
                        let k = value_text(next.last().0).unwrap();
                        let t = value_text(next.last().1).unwrap();
                        if next.len() > 1 {
                            assert(out@ =~= pairs_text(before, false).unwrap() + ", ".spec_bytes() + k
                                + ": ".spec_bytes() + t);
                        } else {
                            assert(out@ =~= k + ": ".spec_bytes() + t);
                        }
                    }
                }
                assert(pair_views(m@).subrange(0, m@.len() as int) =~= pair_views(m@));
                let mut whole: Vec<u8> = Vec::new();
                push_bytes(&mut whole, "{".as_bytes());
                push_bytes(&mut whole, out.as_slice());
                push_bytes(&mut whole, "}".as_bytes());
                Some(whole)
            },
            Value::Ext(ty, b) => {
                let mut whole: Vec<u8> = Vec::new();
                push_bytes(&mut whole, "[".as_bytes());
                let kind = i64_text(*ty as i64);
                push_bytes(&mut whole, kind.as_slice());
                push_bytes(&mut whole, ", ".as_bytes());
                let bytes = bytes_to_text(b.as_slice());
                push_bytes(&mut whole, bytes.as_slice());
                push_bytes(&mut whole, "]".as_bytes());
                Some(whole)
            },
        }
    }
}

} // verus!

verus! {

impl Value {
    /// Whether two values stand for the same thing: the same kind, holding the
    /// same; floating-point numbers are the same where their bits are.
    pub fn same(&self, other: &Value) -> (r: bool)
        ensures
            r == (self@ == other@),
        decreases self,
    {
        match (self, other) {
            (Value::Nil, Value::Nil) => true,
            (Value::Boolean(a), Value::Boolean(b)) => *a == *b,
            (Value::I64(a), Value::I64(b)) => *a == *b,
            (Value::U64(a), Value::U64(b)) => *a == *b,
            (Value::F32(a), Value::F32(b)) => *a == *b,
            (Value::F64(a), Value::F64(b)) => *a == *b,
            (Value::String(a), Value::String(b)) => bytes_eq(a.as_slice(), b.as_slice()),
            (Value::Binary(a), Value::Binary(b)) => bytes_eq(a.as_slice(), b.as_slice()),
            (Value::Ext(s, a), Value::Ext(t, b)) => *s == *t && bytes_eq(
                a.as_slice(),
                b.as_slice(),
            ),
            (Value::Array(a), Value::Array(b)) => {
                proof {
                    lemma_views(a@);
                    lemma_views(b@);
                }
                if a.len() != b.len() {
                    return false;
                }
                let mut i: usize = 0;
                while i < a.len()
                    invariant
                        i <= a.len(),
                        a.len() == b.len(),
                        self is Array,
                        self->Array_0 == *a,
                        other is Array,
                        other->Array_0 == *b,
                        views(a@).len() == a@.len(),
                        views(b@).len() == b@.len(),
                        forall|j: int| 0 <= j < a@.len() ==> (#[trigger] views(a@)[j]) == a@[j]@,
                        forall|j: int| 0 <= j < b@.len() ==> (#[trigger] views(b@)[j]) == b@[j]@,
                        forall|j: int| 0 <= j < i ==> a@[j]@ == b@[j]@,
                    decreases a.len() - i,
                {
                    if !a[i].same(&b[i]) {
                        assert(views(a@)[i as int] != views(b@)[i as int]);
                        return false;
                    }
                    i += 1;
                }
                assert(views(a@) =~= views(b@));
                true
            },
            (Value::Pairs(a), Value::Pairs(b)) => {
                proof {
                    lemma_pair_views(a@);
                    lemma_pair_views(b@);
                }
                if a.len() != b.len() {
                    return false;
                }
                let mut i: usize = 0;
                while i < a.len()
                    invariant
                        i <= a.len(),
                        a.len() == b.len(),
                        self is Pairs,
                        self->Pairs_0 == *a,
                        other is Pairs,
                        other->Pairs_0 == *b,
                        pair_views(a@).len() == a@.len(),
                        pair_views(b@).len() == b@.len(),
                        forall|j: int|
                            0 <= j < a@.len() ==> (#[trigger] pair_views(a@)[j]) == (
                                a@[j].0@,
                                a@[j].1@,
                            ),
                        forall|j: int|
                            0 <= j < b@.len() ==> (#[trigger] pair_views(b@)[j]) == (
                                b@[j].0@,
                                b@[j].1@,
                            ),
                        forall|j: int| 0 <= j < i ==> a@[j].0@ == b@[j].0@ && a@[j].1@ == b@[j].1@,
                    decreases a.len() - i,
                {
                    if !a[i].0.same(&b[i].0) || !a[i].1.same(&b[i].1) {
                        assert(pair_views(a@)[i as int] != pair_views(b@)[i as int]);
                        return false;
                    }
                    i += 1;
                }
                assert(pair_views(a@) =~= pair_views(b@));
                true
            },
            _ => false,
        }
    }
}

impl PartialEq for Value {
    fn eq(&self, other: &Value) -> (r: bool) {
        self.same(other)
    }
}

impl vstd::std_specs::cmp::PartialEqSpecImpl for Value {
    open spec fn obeys_eq_spec() -> bool {
        true
    }

    open spec fn eq_spec(&self, other: &Value) -> bool {
        self@ == other@
    }
}

} // verus!
