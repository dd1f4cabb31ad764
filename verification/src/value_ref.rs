use crate::convert::string_from_utf8;
use crate::decimal::{i64_text, u64_text};
use crate::text::{copy_bytes, literal_bytes, push_bytes};
use crate::value::{
    bytes_to_text, debug_text, lemma_list_text_none, lemma_pair_views, lemma_pairs_text_none,
    lemma_views, list_text, lossy_text, lossy_text_of, pair_views, pairs_text, ref_text, views,
    Value, ValueView,
};
use vstd::prelude::*;
use vstd::string::StringSliceAdditionalSpecFns;
use vstd::utf8::{decode_utf8, valid_utf8};

verus! {

/// A value that borrows its texts and byte arrays.
#[derive(Debug)]
pub enum ValueRef<'a> {
    /// No value.
    Nil,
    /// True or false.
    Boolean(bool),
    /// A signed integer.
    I64(i64),
    /// An unsigned integer.
    U64(u64),
    /// The bits of a 32-bit floating-point number.
    F32(u32),
    /// The bits of a 64-bit floating-point number.
    F64(u64),
    /// A text, as its bytes.
    String(&'a [u8]),
    /// A byte array.
    Binary(&'a [u8]),
    /// A sequence of values.
    Array(Vec<ValueRef<'a>>),
    /// Pairs of key and value, in the order in which they were given.
    Pairs(Vec<(ValueRef<'a>, ValueRef<'a>)>),
    /// A kind of the caller's own, with its bytes.
    Ext(i8, &'a [u8]),
}

/// What a borrowing value stands for.
pub open spec fn ref_view(v: ValueRef<'_>) -> ValueView
    decreases v,
{
    match v {
        ValueRef::Nil => ValueView::Nil,
        ValueRef::Boolean(b) => ValueView::Boolean(b),
        ValueRef::I64(n) => ValueView::I64(n),
        ValueRef::U64(n) => ValueView::U64(n),
        ValueRef::F32(n) => ValueView::F32(n),
        ValueRef::F64(n) => ValueView::F64(n),
        ValueRef::String(s) => ValueView::String(s@),
        ValueRef::Binary(s) => ValueView::Binary(s@),
        ValueRef::Array(a) => ValueView::Array(ref_views(a@)),
        ValueRef::Pairs(m) => ValueView::Pairs(ref_pair_views(m@)),
        ValueRef::Ext(ty, s) => ValueView::Ext(ty, s@),
    }
}

/// What each borrowing value of a sequence stands for.
pub open spec fn ref_views(s: Seq<ValueRef<'_>>) -> Seq<ValueView>
    decreases s,
{
    if s.len() == 0 {
        Seq::empty()
    } else {
        ref_views(s.drop_last()).push(ref_view(s.last()))
    }
}

/// What each borrowing pair of a sequence stands for.
pub open spec fn ref_pair_views(s: Seq<(ValueRef<'_>, ValueRef<'_>)>) -> Seq<
    (ValueView, ValueView),
>
    decreases s,
{
    if s.len() == 0 {
        Seq::empty()
    } else {
        ref_pair_views(s.drop_last()).push((ref_view(s.last().0), ref_view(s.last().1)))
    }
}

impl<'a> View for ValueRef<'a> {
    type V = ValueView;

    open spec fn view(&self) -> ValueView {
        ref_view(*self)
    }
}

/// The views of a sequence are the views of its values, one for one.
pub proof fn lemma_ref_views(s: Seq<ValueRef<'_>>)
    ensures
        ref_views(s).len() == s.len(),
        forall|i: int| 0 <= i < s.len() ==> (#[trigger] ref_views(s)[i]) == s[i]@,
    decreases s.len(),
{
    if s.len() > 0 {
        lemma_ref_views(s.drop_last());
    }
}

/// The views of a sequence of pairs are the views of its pairs, one for one.
pub proof fn lemma_ref_pair_views(s: Seq<(ValueRef<'_>, ValueRef<'_>)>)
    ensures
        ref_pair_views(s).len() == s.len(),
        forall|i: int|
            0 <= i < s.len() ==> (#[trigger] ref_pair_views(s)[i]) == (s[i].0@, s[i].1@),
    decreases s.len(),
{
    if s.len() > 0 {
        lemma_ref_pair_views(s.drop_last());
    }
}

impl Value {
    /// The same value, borrowing the texts and byte arrays of this one.
    pub fn as_ref(&self) -> (r: ValueRef<'_>)
        ensures
            r@ == self@,
        decreases self,
    {
        match self {
            Value::Nil => ValueRef::Nil,
            Value::Boolean(b) => ValueRef::Boolean(*b),
            Value::I64(n) => ValueRef::I64(*n),
            Value::U64(n) => ValueRef::U64(*n),
            Value::F32(n) => ValueRef::F32(*n),
            Value::F64(n) => ValueRef::F64(*n),
            Value::String(s) => ValueRef::String(s.as_slice()),
            Value::Binary(s) => ValueRef::Binary(s.as_slice()),
            Value::Array(a) => {
                let mut out: Vec<ValueRef<'_>> = Vec::new();
                let mut i: usize = 0;
                while i < a.len()
                    invariant
                        i <= a.len(),
                        out@.len() == i,
                        forall|j: int| 0 <= j < i ==> out@[j]@ == a@[j]@,
                        self is Array,
                        self->Array_0 == *a,
                    decreases a.len() - i,
                {
                    let c = a[i].as_ref();
                    out.push(c);
                    i += 1;
                }
                proof {
                    lemma_ref_views(out@);
                    lemma_views(a@);
                    assert(ref_views(out@) =~= views(a@));
                }
                ValueRef::Array(out)
            },
            Value::Pairs(m) => {
                let mut out: Vec<(ValueRef<'_>, ValueRef<'_>)> = Vec::new();
                let mut i: usize = 0;
                while i < m.len()
                    invariant
                        i <= m.len(),
                        out@.len() == i,
                        forall|j: int|
                            0 <= j < i ==> out@[j].0@ == m@[j].0@ && out@[j].1@ == m@[j].1@,
                        self is Pairs,
                        self->Pairs_0 == *m,
                    decreases m.len() - i,
                {
                    let k = m[i].0.as_ref();
                    let w = m[i].1.as_ref();
                    out.push((k, w));
                    i += 1;
                }
                proof {
                    lemma_ref_pair_views(out@);
                    lemma_pair_views(m@);
                    assert(ref_pair_views(out@) =~= pair_views(m@));
                }
                ValueRef::Pairs(out)
            },
            Value::Ext(ty, s) => ValueRef::Ext(*ty, s.as_slice()),
        }
    }
}

impl<'a> ValueRef<'a> {
    /// The same value, owning a copy of all that this one borrows.
    pub fn to_owned(&self) -> (r: Value)
        ensures
            r@ == self@,
        decreases self,
    {
        match self {
            ValueRef::Nil => Value::Nil,
            ValueRef::Boolean(b) => Value::Boolean(*b),
            ValueRef::I64(n) => Value::I64(*n),
            ValueRef::U64(n) => Value::U64(*n),
            ValueRef::F32(n) => Value::F32(*n),
            ValueRef::F64(n) => Value::F64(*n),
            ValueRef::String(s) => Value::String(copy_bytes(s)),
            ValueRef::Binary(s) => Value::Binary(copy_bytes(s)),
            ValueRef::Array(a) => {
                let mut out: Vec<Value> = Vec::new();
                let mut i: usize = 0;
                while i < a.len()
                    invariant
                        i <= a.len(),
                        out@.len() == i,
                        forall|j: int| 0 <= j < i ==> out@[j]@ == a@[j]@,
                        self is Array,
                        self->Array_0 == *a,
                    decreases a.len() - i,
                {
                    let c = a[i].to_owned();
                    out.push(c);
                    i += 1;
                }
                proof {
                    lemma_views(out@);
                    lemma_ref_views(a@);
                    assert(views(out@) =~= ref_views(a@));
                }
                Value::Array(out)
            },
            ValueRef::Pairs(m) => {
                let mut out: Vec<(Value, Value)> = Vec::new();
                let mut i: usize = 0;
                while i < m.len()
                    invariant
                        i <= m.len(),
                        out@.len() == i,
                        forall|j: int|
                            0 <= j < i ==> out@[j].0@ == m@[j].0@ && out@[j].1@ == m@[j].1@,
                        self is Pairs,
                        self->Pairs_0 == *m,
                    decreases m.len() - i,
                {
                    let k = m[i].0.to_owned();
                    let w = m[i].1.to_owned();
                    out.push((k, w));
                    i += 1;
                }
                proof {
                    lemma_pair_views(out@);
                    lemma_ref_pair_views(m@);
                    assert(pair_views(out@) =~= ref_pair_views(m@));
                }
                Value::Pairs(out)
            },
            ValueRef::Ext(ty, s) => Value::Ext(*ty, copy_bytes(s)),
        }
    }

    /// The element at `index` of an array; none stands for nil, which any other
    /// value and an index past the end give.
    pub fn index(&self, index: usize) -> (r: Option<&ValueRef<'a>>)
        ensures
            match r {
                Some(v) => v@ == self@.element(index as int),
                None => self@.element(index as int) is Nil,
            },
    {
        match self {
            ValueRef::Array(a) => {
                proof {
                    lemma_ref_views(a@);
                }
                if index < a.len() {
                    Some(&a[index])
                } else {
                    None
                }
            },
            _ => None,
        }
    }

    /// The unsigned integer that the value holds, where it holds one.
    pub fn as_u64(&self) -> (r: Option<u64>)
        ensures
            r == (match self@ {
                ValueView::U64(n) => Some(n),
                _ => None,
            }),
    {
        match self {
            ValueRef::U64(n) => Some(*n),
            _ => None,
        }
    }

    /// The values of an array.
    pub fn as_array(&self) -> (r: Option<&Vec<ValueRef<'a>>>)
        ensures
            match self@ {
                ValueView::Array(a) => r matches Some(v) && ref_views(v@) == a,
                _ => r is None,
            },
    {
        match self {
            ValueRef::Array(a) => Some(a),
            _ => None,
        }
    }

    /// The values of an array, taken out of it.
    pub fn into_array(self) -> (r: Option<Vec<ValueRef<'a>>>)
        ensures
            match self@ {
                ValueView::Array(a) => r matches Some(v) && ref_views(v@) == a,
                _ => r is None,
            },
    {
        match self {
            ValueRef::Array(a) => Some(a),
            _ => None,
        }
    }

    /// The text that the value holds, where it holds one: its bytes read as
    /// UTF-8, with what is not valid in them replaced.
    pub fn as_str(&self) -> (r: Option<String>)
        ensures
            match self@ {
                ValueView::String(s) => r matches Some(t) && t@ == lossy_text_of(s) && (valid_utf8(
                    s,
                ) ==> t@ == decode_utf8(s)),
                _ => r is None,
            },
    {
        match self {
            ValueRef::String(s) => Some(lossy_text(s)),
            _ => None,
        }
    }

    /// The value as text, in the borrowing form; none where it holds a
    /// floating-point number.
    pub fn to_text(&self) -> (r: Option<Vec<u8>>)
        ensures
            match r {
                Some(t) => ref_text(self@) == Some(t@),
                None => ref_text(self@) is None,
            },
        decreases self,
    {
        match self {
            ValueRef::Nil => Some(literal_bytes("nil")),
            ValueRef::Boolean(b) => Some(
                if *b {
                    literal_bytes("true")
                } else {
                    literal_bytes("false")
                },
            ),
            ValueRef::I64(n) => Some(i64_text(*n)),
            ValueRef::U64(n) => Some(u64_text(*n)),
            ValueRef::F32(_) => None,
            ValueRef::F64(_) => None,
            ValueRef::String(s) => match string_from_utf8(copy_bytes(s)) {
                Some(_) => Some(copy_bytes(s)),
                None => Some(Vec::new()),
            },
            ValueRef::Binary(b) => match string_from_utf8(copy_bytes(b)) {
                Some(read) => Some(debug_text(read.as_str())),
                None => {
                    let none = String::new();
                    Some(debug_text(none.as_str()))
                },
            },
            ValueRef::Array(a) => {
                proof {
                    lemma_ref_views(a@);
                }
                let mut out: Vec<u8> = Vec::new();
                let mut i: usize = 0;
                while i < a.len()
                    invariant
                        i <= a.len(),
                        self is Array,
                        self->Array_0 == *a,
                        ref_views(a@).len() == a@.len(),
                        forall|j: int|
                            0 <= j < a@.len() ==> (#[trigger] ref_views(a@)[j]) == a@[j]@,
                        list_text(ref_views(a@).subrange(0, i as int), true) == Some(out@),
                    decreases a.len() - i,
                {
                    let ghost before = ref_views(a@).subrange(0, i as int);
                    let ghost next = ref_views(a@).subrange(0, i + 1);
                    assert(next.drop_last() =~= before);
                    assert(next.last() == a@[i as int]@);
                    match a[i].to_text() {
                        Some(t) => {
                            if i > 0 {
                                push_bytes(&mut out, ", ".as_bytes());
                            }
                            push_bytes(&mut out, t.as_slice());
                        },
                        None => {
                            proof {
                                lemma_list_text_none(ref_views(a@), i as int, true);
                            }
                            return None;
                        },
                    }
                    i += 1;
                    assert(list_text(next, true) == Some(out@)) by {
                        if next.len() > 1 {
                            assert(out@ =~= list_text(before, true).unwrap() + ", ".spec_bytes()
                                + ref_text(next.last()).unwrap());
                        }
                    }
                }
                assert(ref_views(a@).subrange(0, a@.len() as int) =~= ref_views(a@));
                let mut whole: Vec<u8> = Vec::new();
                push_bytes(&mut whole, "[".as_bytes());
                push_bytes(&mut whole, out.as_slice());
                push_bytes(&mut whole, "]".as_bytes());
                Some(whole)
            },
            ValueRef::Pairs(m) => {
                proof {
                    lemma_ref_pair_views(m@);
                }
                let mut out: Vec<u8> = Vec::new();
                let mut i: usize = 0;
                while i < m.len()
                    invariant
                        i <= m.len(),
                        self is Pairs,
                        self->Pairs_0 == *m,
                        ref_pair_views(m@).len() == m@.len(),
                        forall|j: int|
                            0 <= j < m@.len() ==> (#[trigger] ref_pair_views(m@)[j]) == (
                                m@[j].0@,
                                m@[j].1@,
                            ),
                        pairs_text(ref_pair_views(m@).subrange(0, i as int), true) == Some(out@),
                    decreases m.len() - i,
                {
                    let ghost before = ref_pair_views(m@).subrange(0, i as int);
                    let ghost next = ref_pair_views(m@).subrange(0, i + 1);
                    assert(next.drop_last() =~= before);
                    assert(next.last() == (m@[i as int].0@, m@[i as int].1@));
                    let key = m[i].0.to_text();
                    let val = m[i].1.to_text();
                    match (key, val) {
                        (Some(k), Some(t)) => {
                            if i > 0 {
                                push_bytes(&mut out, ", ".as_bytes());
                            }
                            push_bytes(&mut out, k.as_slice());
                            push_bytes(&mut out, ": ".as_bytes());
                            push_bytes(&mut out, t.as_slice());
                        },
                        _ => {
                            proof {
                                lemma_pairs_text_none(ref_pair_views(m@), i as int, true);
                            }
                            return None;
                        },
                    }
                    i += 1;
                    assert(pairs_text(next, true) == Some(out@)) by {
                        let k = ref_text(next.last().0).unwrap();
                        let t = ref_text(next.last().1).unwrap();
                        if next.len() > 1 {
                            assert(out@ =~= pairs_text(before, true).unwrap() + ", ".spec_bytes()
                                + k + ": ".spec_bytes() + t);
                        } else {
                            assert(out@ =~= k + ": ".spec_bytes() + t);
                        }
                    }
                }
                assert(ref_pair_views(m@).subrange(0, m@.len() as int) =~= ref_pair_views(m@));
                let mut whole: Vec<u8> = Vec::new();
                push_bytes(&mut whole, "{".as_bytes());
                push_bytes(&mut whole, out.as_slice());
                push_bytes(&mut whole, "}".as_bytes());
                Some(whole)
            },
            ValueRef::Ext(ty, b) => {
                let mut whole: Vec<u8> = Vec::new();
                push_bytes(&mut whole, "[".as_bytes());
                let kind = i64_text(*ty as i64);
                push_bytes(&mut whole, kind.as_slice());
                push_bytes(&mut whole, ", ".as_bytes());
                let bytes = bytes_to_text(b);
                push_bytes(&mut whole, bytes.as_slice());
                push_bytes(&mut whole, "]".as_bytes());
                Some(whole)
            },
        }
    }
}

} // verus!
