//! The PACK binary format: SoftEther's key-value serialization.
//!
//! A PACK is a list of named elements; each element holds one or more values
//! of a single type. All integers on the wire are big-endian; Unicode strings
//! are UTF-16 little-endian.

use vstd::prelude::*;
use vstd::utf8::*;
use crate::error::{Result, VpnError};
use crate::net::IpAddress;
use crate::unicode::{
    encode_utf16, le16_bytes, le16_units, lemma_le16_roundtrip, lemma_utf16_injective,
    str_eq, str_to_utf16, string_from_utf16, string_from_utf8,
};
use crate::wire::{
    be32, be32_value, be64, be64_value, copy_range, get_u32, get_u64, lemma_be32_roundtrip,
    lemma_be64_roundtrip, put_slice, put_u32, put_u64,
};

verus! {

/// PACK element types.
#[derive(Debug, Clone, Copy, PartialEq, Eq, Structural)]
pub enum ElementType {
    Int,
    Data,
    Str,
    UniStr,
    Int64,
}

/// The number that stands for an element type on the wire.
pub open spec fn type_code(t: ElementType) -> u32 {
    match t {
        ElementType::Int => 0,
        ElementType::Data => 1,
        ElementType::Str => 2,
        ElementType::UniStr => 3,
        ElementType::Int64 => 4,
    }
}

/// The element type read from a wire number: the five known numbers map to
/// their types, numbers above 10000 are refused, and any other number is read
/// as `Data`.
pub open spec fn type_from_code(value: u32) -> Option<ElementType> {
    if value == 0 {
        Some(ElementType::Int)
    } else if value == 1 {
        Some(ElementType::Data)
    } else if value == 2 {
        Some(ElementType::Str)
    } else if value == 3 {
        Some(ElementType::UniStr)
    } else if value == 4 {
        Some(ElementType::Int64)
    } else if value > 10000 {
        None
    } else {
        Some(ElementType::Data)
    }
}

impl ElementType {
    /// The wire number of this type.
    pub fn code(&self) -> (r: u32)
        ensures
            r == type_code(*self),
    {
        match self {
            ElementType::Int => 0,
            ElementType::Data => 1,
            ElementType::Str => 2,
            ElementType::UniStr => 3,
            ElementType::Int64 => 4,
        }
    }

    /// Reads an element type from its wire number (see [`type_from_code`]).
    pub fn from_code(value: u32) -> (r: Result<ElementType>)
        ensures
            r is Ok <==> type_from_code(value) is Some,
            r matches Ok(t) ==> type_from_code(value) == Some(t),
            r matches Err(e) ==> e is Protocol,
    {
        if value == 0 {
            Ok(ElementType::Int)
        } else if value == 1 {
            Ok(ElementType::Data)
        } else if value == 2 {
            Ok(ElementType::Str)
        } else if value == 3 {
            Ok(ElementType::UniStr)
        } else if value == 4 {
            Ok(ElementType::Int64)
        } else if value > 10000 {
            Err(VpnError::Protocol("Element type is too large, likely corrupted data".to_owned()))
        } else {
            Ok(ElementType::Data)
        }
    }
}

impl TryFrom<u32> for ElementType {
    type Error = VpnError;

    /// Same as [`ElementType::from_code`].
    fn try_from(value: u32) -> (r: Result<Self>)
        ensures
            r is Ok <==> type_from_code(value) is Some,
            r matches Ok(t) ==> type_from_code(value) == Some(t),
            r matches Err(e) ==> e is Protocol,
    {
        ElementType::from_code(value)
    }
}

impl vstd::std_specs::convert::TryFromSpecImpl<u32> for ElementType {
    /// The error values carry text that no spec value pins down, so the
    /// generic law is not claimed; `try_from` states its result itself.
    open spec fn obeys_try_from_spec() -> bool {
        false
    }

    open spec fn try_from_spec(v: u32) -> std::result::Result<Self, VpnError> {
        match type_from_code(v) {
            Some(t) => Ok(t),
            None => Err(VpnError::Other(vstd::pervasive::arbitrary())),
        }
    }
}

/// PACK value variants.
#[derive(Debug, Clone)]
pub enum Value {
    Int(u32),
    Int64(u64),
    Data(Vec<u8>),
    Str(String),
    /// A Unicode string, carried as UTF-16 on the wire.
    UniStr(String),
}

/// The mathematical content of a [`Value`].
pub enum ValueView {
    Int(u32),
    Int64(u64),
    Data(Seq<u8>),
    Str(Seq<char>),
    UniStr(Seq<char>),
}

impl View for Value {
    type V = ValueView;

    open spec fn view(&self) -> ValueView {
        match self {
            Value::Int(i) => ValueView::Int(*i),
            Value::Int64(i) => ValueView::Int64(*i),
            Value::Data(d) => ValueView::Data(d@),
            Value::Str(s) => ValueView::Str(s@),
            Value::UniStr(s) => ValueView::UniStr(s@),
        }
    }
}

impl ValueView {
    /// The element type of a value.
    pub open spec fn kind(self) -> ElementType {
        match self {
            ValueView::Int(_) => ElementType::Int,
            ValueView::Int64(_) => ElementType::Int64,
            ValueView::Data(_) => ElementType::Data,
            ValueView::Str(_) => ElementType::Str,
            ValueView::UniStr(_) => ElementType::UniStr,
        }
    }

    /// The bytes of a value on the wire (without its length prefix).
    pub open spec fn bytes(self) -> Seq<u8> {
        match self {
            ValueView::Int(i) => be32(i),
            ValueView::Int64(i) => be64(i),
            ValueView::Data(d) => d,
            ValueView::Str(s) => encode_utf8(s),
            ValueView::UniStr(s) => le16_bytes(encode_utf16(s)),
        }
    }
}

/// The value of the given type that the given bytes hold, if any.
pub open spec fn value_from_bytes(t: ElementType, b: Seq<u8>) -> Option<ValueView> {
    match t {
        ElementType::Int => if b.len() == 4 {
            Some(ValueView::Int(be32_value(b)))
        } else {
            None
        },
        ElementType::Int64 => if b.len() == 8 {
            Some(ValueView::Int64(be64_value(b)))
        } else {
            None
        },
        ElementType::Data => Some(ValueView::Data(b)),
        ElementType::Str => if valid_utf8(b) {
            Some(ValueView::Str(decode_utf8(b)))
        } else {
            None
        },
        ElementType::UniStr => if b.len() % 2 == 0 && exists|cs: Seq<char>|
            encode_utf16(cs) == le16_units(b) {
            Some(
                ValueView::UniStr(choose|cs: Seq<char>| encode_utf16(cs) == le16_units(b)),
            )
        } else {
            None
        },
    }
}

/// Every value reads back from its own bytes.
pub proof fn lemma_value_roundtrip(v: ValueView)
    ensures
        value_from_bytes(v.kind(), v.bytes()) == Some(v),
{
    match v {
        ValueView::Int(i) => {
            lemma_be32_roundtrip(i);
        },
        ValueView::Int64(i) => {
            lemma_be64_roundtrip(i);
        },
        ValueView::Data(_) => {},
        ValueView::Str(s) => {
            encode_utf8_valid_utf8(s);
            encode_utf8_decode_utf8(s);
        },
        ValueView::UniStr(s) => {
            let units = encode_utf16(s);
            lemma_le16_roundtrip(units);
            let b = le16_bytes(units);
            assert(b.len() % 2 == 0);
            assert(encode_utf16(s) == le16_units(b));
            let c = choose|cs: Seq<char>| encode_utf16(cs) == le16_units(b);
            lemma_utf16_injective(c, s);
        },
    }
}

impl Value {
    /// Get the element type for this value.
    pub fn element_type(&self) -> (r: ElementType)
        ensures
            r == self@.kind(),
    {
        match self {
            Value::Int(_) => ElementType::Int,
            Value::Int64(_) => ElementType::Int64,
            Value::Data(_) => ElementType::Data,
            Value::Str(_) => ElementType::Str,
            Value::UniStr(_) => ElementType::UniStr,
        }
    }

    /// Serialize the value to its wire bytes.
    pub fn to_bytes(&self) -> (r: Vec<u8>)
        ensures
            r@ == self@.bytes(),
    {
        match self {
            Value::Int(i) => {
                let mut b: Vec<u8> = Vec::new();
                put_u32(&mut b, *i);
                assert(b@ =~= be32(*i));
                b
            },
            Value::Int64(i) => {
                let mut b: Vec<u8> = Vec::new();
                put_u64(&mut b, *i);
                assert(b@ =~= be64(*i));
                b
            },
            Value::Data(d) => copy_range(d.as_slice(), 0, d.len()),
            Value::Str(s) => {
                let sb = s.as_str().as_bytes();
                let r = copy_range(sb, 0, sb.len());
                assert(r@ =~= encode_utf8(s@));
                r
            },
            Value::UniStr(s) => {
                let units = str_to_utf16(s.as_str());
                let mut b: Vec<u8> = Vec::new();
                let mut i: usize = 0;
                while i < units.len()
                    invariant
                        i <= units@.len(),
                        units@ == encode_utf16(s@),
                        b@ == le16_bytes(units@.subrange(0, i as int)),
                    decreases units@.len() - i,
                {
                    let u = units[i];
                    b.push(u as u8);
                    b.push((u >> 8u16) as u8);
                    i = i + 1;
                    assert(b@ =~= le16_bytes(units@.subrange(0, i as int)));
                }
                assert(units@.subrange(0, units@.len() as int) =~= units@);
                b
            },
        }
    }

    /// Deserialize a value of the given type from its wire bytes.
    pub fn from_bytes(element_type: ElementType, data: &[u8]) -> (r: Result<Value>)
        ensures
            r is Ok <==> value_from_bytes(element_type, data@) is Some,
            r matches Ok(v) ==> value_from_bytes(element_type, data@) == Some(v@),
            r matches Err(e) ==> e is Protocol,
    {
        match element_type {
            ElementType::Int => {
                if data.len() != 4 {
                    return Err(VpnError::Protocol("Invalid Int data length".to_owned()));
                }
                let v = get_u32(data, 0);
                assert(data@.subrange(0, 4) =~= data@);
                Ok(Value::Int(v))
            },
            ElementType::Int64 => {
                if data.len() != 8 {
                    return Err(VpnError::Protocol("Invalid Int64 data length".to_owned()));
                }
                let v = get_u64(data, 0);
                assert(data@.subrange(0, 8) =~= data@);
                Ok(Value::Int64(v))
            },
            ElementType::Data => {
                let d = copy_range(data, 0, data.len());
                assert(d@ =~= data@);
                Ok(Value::Data(d))
            },
            ElementType::Str => {
                let d = copy_range(data, 0, data.len());
                assert(d@ =~= data@);
                match string_from_utf8(d) {
                    Some(s) => Ok(Value::Str(s)),
                    None => Err(VpnError::Protocol("Invalid UTF-8 string".to_owned())),
                }
            },
            ElementType::UniStr => {
                if data.len() % 2 != 0 {
                    return Err(VpnError::Protocol("Invalid UniStr data length".to_owned()));
                }
                let mut units: Vec<u16> = Vec::new();
                let mut i: usize = 0;
                let n = data.len() / 2;
                while i < n
                    invariant
                        n == data@.len() / 2,
                        data@.len() <= usize::MAX,
                        i <= n,
                        units@ == le16_units(data@).subrange(0, i as int),
                    decreases n - i,
                {
                    let code = (data[2 * i] as u16) | ((data[2 * i + 1] as u16) << 8u16);
                    units.push(code);
                    i = i + 1;
                    assert(units@ =~= le16_units(data@).subrange(0, i as int));
                }
                assert(units@ =~= le16_units(data@));
                match string_from_utf16(units.as_slice()) {
                    Some(s) => {
                        proof {
                            let c = choose|cs: Seq<char>| encode_utf16(cs) == le16_units(data@);
                            lemma_utf16_injective(c, s@);
                        }
                        Ok(Value::UniStr(s))
                    },
                    None => Err(VpnError::Protocol("Invalid UTF-16 string".to_owned())),
                }
            },
        }
    }
}

/// PACK element containing name and values.
#[derive(Debug, Clone)]
pub struct Element {
    pub name: String,
    pub values: Vec<Value>,
}

/// The mathematical content of an [`Element`].
pub struct ElementView {
    pub name: Seq<char>,
    pub values: Seq<ValueView>,
}

impl View for Element {
    type V = ElementView;

    open spec fn view(&self) -> ElementView {
        ElementView { name: self.name@, values: self.values@.map_values(|v: Value| v@) }
    }
}

impl ElementView {
    /// The common type of the values: none when there are no values or when
    /// two values differ in type.
    pub open spec fn element_type(self) -> Option<ElementType> {
        if self.values.len() == 0 {
            None
        } else if forall|i: int|
            0 <= i < self.values.len() ==> #[trigger] self.values[i].kind() == self.values[0].kind() {
            Some(self.values[0].kind())
        } else {
            None
        }
    }
}

/// The data payloads among the values, in order.
pub open spec fn data_payloads(vs: Seq<ValueView>) -> Seq<Seq<u8>>
    decreases vs.len(),
{
    if vs.len() == 0 {
        seq![]
    } else {
        let rest = data_payloads(vs.drop_last());
        match vs.last() {
            ValueView::Data(d) => rest.push(d),
            _ => rest,
        }
    }
}

impl Element {
    /// Create a new element with a single value.
    pub fn new(name: String, value: Value) -> (r: Self)
        ensures
            r@.name == name@,
            r@.values == seq![value@],
    {
        let mut values: Vec<Value> = Vec::new();
        values.push(value);
        let r = Self { name, values };
        assert(r@.values =~= seq![value@]);
        r
    }

    /// Create a new element with multiple values (array).
    pub fn new_array(name: String, values: Vec<Value>) -> (r: Self)
        ensures
            r@.name == name@,
            r@.values == values@.map_values(|v: Value| v@),
    {
        Self { name, values }
    }

    /// Get the element type (all values must be the same type).
    pub fn element_type(&self) -> (r: Result<ElementType>)
        ensures
            r is Ok <==> self@.element_type() is Some,
            r matches Ok(t) ==> self@.element_type() == Some(t),
            r matches Err(e) ==> e is Protocol,
    {
        if self.values.len() == 0 {
            return Err(VpnError::Protocol("Element has no values".to_owned()));
        }
        let element_type = self.values[0].element_type();
        let mut i: usize = 0;
        while i < self.values.len()
            invariant
                i <= self.values@.len(),
                self.values@.len() > 0,
                element_type == self@.values[0].kind(),
                forall|j: int| 0 <= j < i ==> #[trigger] self@.values[j].kind() == element_type,
            decreases self.values@.len() - i,
        {
            if self.values[i].element_type() != element_type {
                assert(self@.values[i as int].kind() != self@.values[0].kind());
                return Err(
                    VpnError::Protocol("All values in element must have the same type".to_owned()),
                );
            }
            i = i + 1;
        }
        Ok(element_type)
    }

    /// Get all data values from this element.
    pub fn get_data_values(&self) -> (r: Vec<&Vec<u8>>)
        ensures
            r@.map_values(|d: &Vec<u8>| d@) == data_payloads(self@.values),
    {
        let mut out: Vec<&Vec<u8>> = Vec::new();
        let mut i: usize = 0;
        while i < self.values.len()
            invariant
                i <= self.values@.len(),
                out@.map_values(|d: &Vec<u8>| d@) == data_payloads(
                    self@.values.subrange(0, i as int),
                ),
            decreases self.values@.len() - i,
        {
            let ghost before = out@;
            match &self.values[i] {
                Value::Data(d) => {
                    out.push(d);
                },
                _ => {},
            }
            assert(self@.values.subrange(0, i + 1).drop_last() =~= self@.values.subrange(
                0,
                i as int,
            ));
            i = i + 1;
            assert(out@.map_values(|d: &Vec<u8>| d@) =~= data_payloads(
                self@.values.subrange(0, i as int),
            ));
        }
        assert(self@.values.subrange(0, self@.values.len() as int) =~= self@.values);
        out
    }
}

/// PACK structure containing elements.
#[derive(Debug, Clone)]
pub struct Pack {
    pub elements: Vec<Element>,
}

impl View for Pack {
    type V = Seq<ElementView>;

    open spec fn view(&self) -> Seq<ElementView> {
        self.elements@.map_values(|e: Element| e@)
    }
}

/// `i` is the first position of an element named `name`.
pub open spec fn is_first_named(es: Seq<ElementView>, name: Seq<char>, i: int) -> bool {
    &&& 0 <= i < es.len()
    &&& es[i].name == name
    &&& forall|j: int| 0 <= j < i ==> #[trigger] es[j].name != name
}

/// The position of the first element named `name`, if any.
pub open spec fn first_named(es: Seq<ElementView>, name: Seq<char>) -> Option<int> {
    if exists|i: int| is_first_named(es, name, i) {
        Some(choose|i: int| is_first_named(es, name, i))
    } else {
        None
    }
}

/// The first value of the first element named `name`.
pub open spec fn first_value_named(es: Seq<ElementView>, name: Seq<char>) -> Option<ValueView> {
    match first_named(es, name) {
        Some(i) => if es[i].values.len() > 0 {
            Some(es[i].values[0])
        } else {
            None
        },
        None => None,
    }
}

/// `get_int`: the first value of the first element so named, when it is an `Int`.
pub open spec fn lookup_int(es: Seq<ElementView>, name: Seq<char>) -> Option<u32> {
    match first_value_named(es, name) {
        Some(ValueView::Int(x)) => Some(x),
        _ => None,
    }
}

/// `get_int64`: as [`lookup_int`], for `Int64`.
pub open spec fn lookup_int64(es: Seq<ElementView>, name: Seq<char>) -> Option<u64> {
    match first_value_named(es, name) {
        Some(ValueView::Int64(x)) => Some(x),
        _ => None,
    }
}

/// `get_data`: as [`lookup_int`], for `Data`.
pub open spec fn lookup_data(es: Seq<ElementView>, name: Seq<char>) -> Option<Seq<u8>> {
    match first_value_named(es, name) {
        Some(ValueView::Data(d)) => Some(d),
        _ => None,
    }
}

/// `get_str`: as [`lookup_int`], for `Str` or `UniStr`.
pub open spec fn lookup_str(es: Seq<ElementView>, name: Seq<char>) -> Option<Seq<char>> {
    match first_value_named(es, name) {
        Some(ValueView::Str(s)) => Some(s),
        Some(ValueView::UniStr(s)) => Some(s),
        _ => None,
    }
}

proof fn lemma_first_named_unique(es: Seq<ElementView>, name: Seq<char>, i: int)
    requires
        is_first_named(es, name, i),
    ensures
        first_named(es, name) == Some(i),
{
    let k = choose|k: int| is_first_named(es, name, k);
    assert(is_first_named(es, name, k));
    if k < i {
        assert(es[k].name != name);
    } else if i < k {
        assert(es[i].name != name);
    }
}

/// Some element after position `i` has the same name as element `i`.
pub open spec fn named_again_later(es: Seq<ElementView>, i: int) -> bool {
    exists|j: int| i < j < es.len() && #[trigger] es[j].name == es[i].name
}

/// The elements among the first `hi` that are the last of their name, in order.
pub open spec fn last_of_each_name(es: Seq<ElementView>, hi: int) -> Seq<ElementView>
    decreases hi,
{
    if hi <= 0 {
        seq![]
    } else {
        let rest = last_of_each_name(es, hi - 1);
        if named_again_later(es, hi - 1) {
            rest
        } else {
            rest.push(es[hi - 1])
        }
    }
}

impl Pack {
    /// Create a new empty PACK.
    pub fn new() -> (r: Self)
        ensures
            r@ == Seq::<ElementView>::empty(),
    {
        let r = Self { elements: Vec::new() };
        assert(r@ =~= Seq::<ElementView>::empty());
        r
    }

    /// Add an element to the PACK.
    pub fn add_element(&mut self, element: Element)
        ensures
            final(self)@ == old(self)@.push(element@),
    {
        self.elements.push(element);
        assert(self@ =~= old(self)@.push(element@));
    }

    /// Add an integer value.
    pub fn add_int(&mut self, name: &str, value: u32)
        ensures
            final(self)@ == old(self)@.push(
                ElementView { name: name@, values: seq![ValueView::Int(value)] },
            ),
    {
        self.add_element(Element::new(name.to_owned(), Value::Int(value)));
    }

    /// Add an integer array.
    pub fn add_int_array(&mut self, name: &str, values: Vec<u32>)
        ensures
            final(self)@ == old(self)@.push(
                ElementView {
                    name: name@,
                    values: values@.map_values(|x: u32| ValueView::Int(x)),
                },
            ),
    {
        let mut vs: Vec<Value> = Vec::new();
        let mut i: usize = 0;
        while i < values.len()
            invariant
                i <= values@.len(),
                vs@.map_values(|v: Value| v@) == values@.subrange(0, i as int).map_values(
                    |x: u32| ValueView::Int(x),
                ),
            decreases values@.len() - i,
        {
            let ghost prev = vs@;
            vs.push(Value::Int(values[i]));
            assert(vs@.map_values(|v: Value| v@) =~= prev.map_values(|v: Value| v@).push(
                ValueView::Int(values@[i as int]),
            ));
            assert(values@.subrange(0, i + 1).map_values(|x: u32| ValueView::Int(x)) =~= values@.subrange(
                0,
                i as int,
            ).map_values(|x: u32| ValueView::Int(x)).push(ValueView::Int(values@[i as int])));
            i = i + 1;
            assert(vs@.map_values(|v: Value| v@) =~= values@.subrange(0, i as int).map_values(
                |x: u32| ValueView::Int(x),
            ));
        }
        assert(values@.subrange(0, values@.len() as int) =~= values@);
        self.add_element(Element::new_array(name.to_owned(), vs));
    }

    /// Add a 64-bit integer value.
    pub fn add_int64(&mut self, name: &str, value: u64)
        ensures
            final(self)@ == old(self)@.push(
                ElementView { name: name@, values: seq![ValueView::Int64(value)] },
            ),
    {
        self.add_element(Element::new(name.to_owned(), Value::Int64(value)));
    }

    /// Add binary data.
    pub fn add_data(&mut self, name: &str, data: Vec<u8>)
        ensures
            final(self)@ == old(self)@.push(
                ElementView { name: name@, values: seq![ValueView::Data(data@)] },
            ),
    {
        self.add_element(Element::new(name.to_owned(), Value::Data(data)));
    }

    /// Add a string value.
    pub fn add_str(&mut self, name: &str, value: &str)
        ensures
            final(self)@ == old(self)@.push(
                ElementView { name: name@, values: seq![ValueView::Str(value@)] },
            ),
    {
        self.add_element(Element::new(name.to_owned(), Value::Str(value.to_owned())));
    }

    /// Add a Unicode string value.
    pub fn add_unistr(&mut self, name: &str, value: &str)
        ensures
            final(self)@ == old(self)@.push(
                ElementView { name: name@, values: seq![ValueView::UniStr(value@)] },
            ),
    {
        self.add_element(Element::new(name.to_owned(), Value::UniStr(value.to_owned())));
    }

    /// Add an IP address: an IPv4 address as an integer, an IPv6 address as
    /// its sixteen bytes.
    pub fn add_ip(&mut self, name: &str, ip: IpAddress)
        ensures
            final(self)@ == old(self)@.push(
                ElementView {
                    name: name@,
                    values: seq![
                        match ip {
                            IpAddress::V4(x) => ValueView::Int(x),
                            IpAddress::V6(x) => ValueView::Data(
                                be64((x >> 64u128) as u64) + be64(x as u64),
                            ),
                        },
                    ],
                },
            ),
    {
        match ip {
            IpAddress::V4(x) => self.add_int(name, x),
            IpAddress::V6(x) => {
                let mut b: Vec<u8> = Vec::new();
                put_u64(&mut b, (x >> 64u128) as u64);
                put_u64(&mut b, x as u64);
                assert(b@ =~= be64((x >> 64u128) as u64) + be64(x as u64));
                self.add_data(name, b);
            },
        }
    }

    /// Get an element by name: the first one so named.
    pub fn get_element(&self, name: &str) -> (r: Option<&Element>)
        ensures
            r is None <==> first_named(self@, name@) is None,
            r matches Some(e) ==> first_named(self@, name@) matches Some(i) && *e
                == self.elements@[i],
    {
        let mut i: usize = 0;
        while i < self.elements.len()
            invariant
                i <= self.elements@.len(),
                forall|j: int| 0 <= j < i ==> #[trigger] self@[j].name != name@,
            decreases self.elements@.len() - i,
        {
            if str_eq(self.elements[i].name.as_str(), name) {
                proof {
                    assert(is_first_named(self@, name@, i as int));
                    lemma_first_named_unique(self@, name@, i as int);
                }
                return Some(&self.elements[i]);
            }
            i = i + 1;
        }
        proof {
            if exists|k: int| is_first_named(self@, name@, k) {
                let k = choose|k: int| is_first_named(self@, name@, k);
                assert(self@[k].name != name@);
            }
        }
        None
    }

    /// The first value of the first element named `name`.
    fn first_value(&self, name: &str) -> (r: Option<&Value>)
        ensures
            r is None <==> first_value_named(self@, name@) is None,
            r matches Some(v) ==> first_value_named(self@, name@) == Some(v@),
    {
        match self.get_element(name) {
            Some(e) => {
                if e.values.len() > 0 {
                    Some(&e.values[0])
                } else {
                    None
                }
            },
            None => None,
        }
    }

    /// Get an integer value.
    pub fn get_int(&self, name: &str) -> (r: Option<u32>)
        ensures
            r == lookup_int(self@, name@),
    {
        match self.first_value(name) {
            Some(Value::Int(i)) => Some(*i),
            _ => None,
        }
    }

    /// Get a 64-bit integer value.
    pub fn get_int64(&self, name: &str) -> (r: Option<u64>)
        ensures
            r == lookup_int64(self@, name@),
    {
        match self.first_value(name) {
            Some(Value::Int64(i)) => Some(*i),
            _ => None,
        }
    }

    /// Get binary data.
    pub fn get_data(&self, name: &str) -> (r: Option<&Vec<u8>>)
        ensures
            r is None <==> lookup_data(self@, name@) is None,
            r matches Some(d) ==> lookup_data(self@, name@) == Some(d@),
    {
        match self.first_value(name) {
            Some(Value::Data(d)) => Some(d),
            _ => None,
        }
    }

    /// Get a string value (plain or Unicode).
    pub fn get_str(&self, name: &str) -> (r: Option<&String>)
        ensures
            r is None <==> lookup_str(self@, name@) is None,
            r matches Some(s) ==> lookup_str(self@, name@) == Some(s@),
    {
        match self.first_value(name) {
            Some(Value::Str(s)) => Some(s),
            Some(Value::UniStr(s)) => Some(s),
            _ => None,
        }
    }

    /// All elements by name: for each name, the last element that carries it,
    /// listed in the order of those elements.
    pub fn get_elements(&self) -> (r: Vec<(String, &Element)>)
        ensures
            r@.map_values(|p: (String, &Element)| p.1@) == last_of_each_name(
                self@,
                self@.len() as int,
            ),
            forall|k: int| 0 <= k < r@.len() ==> #[trigger] r@[k].0@ == r@[k].1@.name,
    {
        let mut out: Vec<(String, &Element)> = Vec::new();
        let n = self.elements.len();
        let mut i: usize = 0;
        while i < n
            invariant
                n == self@.len(),
                i <= n,
                out@.map_values(|p: (String, &Element)| p.1@) == last_of_each_name(
                    self@,
                    i as int,
                ),
                forall|k: int| 0 <= k < out@.len() ==> #[trigger] out@[k].0@ == out@[k].1@.name,
            decreases n - i,
        {
            let mut later = false;
            let mut j = i + 1;
            while j < n
                invariant
                    n == self@.len(),
                    i < n,
                    i + 1 <= j <= n,
                    later <==> exists|k: int| i < k < j && #[trigger] self@[k].name == self@[i as int].name,
                decreases n - j,
            {
                assert(self@[j as int] == self.elements@[j as int]@);
                assert(self@[i as int] == self.elements@[i as int]@);
                let ghost was = later;
                let same = str_eq(self.elements[j].name.as_str(), self.elements[i].name.as_str());
                if same {
                    later = true;
                }
                proof {
                    if same {
                        assert(i < j < j + 1 && self@[j as int].name == self@[i as int].name);
                    } else if was {
                        let k = choose|k: int| i < k < j && #[trigger] self@[k].name == self@[i as int].name;
                        assert(i < k < j + 1 && self@[k].name == self@[i as int].name);
                    } else {
                        assert forall|k: int| i < k < j + 1 implies #[trigger] self@[k].name
                            != self@[i as int].name by {
                            if k < j {
                            }
                        }
                    }
                }
                j = j + 1;
            }
            assert(later == named_again_later(self@, i as int));
            if !later {
                let e = &self.elements[i];
                out.push((e.name.clone(), e));
            }
            i = i + 1;
            assert(out@.map_values(|p: (String, &Element)| p.1@) =~= last_of_each_name(
                self@,
                i as int,
            ));
        }
        out
    }
}

// ---------------------------------------------------------------------------
// The wire layout
// ---------------------------------------------------------------------------

/// One value on the wire: its length, then its bytes.
pub open spec fn value_entry(v: ValueView) -> Seq<u8> {
    be32(v.bytes().len() as u32) + v.bytes()
}

/// The values of an element on the wire, in order.
pub open spec fn values_bytes(vs: Seq<ValueView>) -> Seq<u8>
    decreases vs.len(),
{
    if vs.len() == 0 {
        seq![]
    } else {
        value_entry(vs[0]) + values_bytes(vs.drop_first())
    }
}

/// One element of type `t` on the wire: name length (counting a closing NUL),
/// name, NUL, type number, value count, values.
pub open spec fn element_bytes(e: ElementView, t: ElementType) -> Seq<u8> {
    let nb = encode_utf8(e.name);
    be32((nb.len() + 1) as u32) + nb + seq![0u8] + be32(type_code(t)) + be32(
        e.values.len() as u32,
    ) + values_bytes(e.values)
}

/// The elements on the wire, in order.
pub open spec fn elements_bytes(es: Seq<ElementView>) -> Seq<u8>
    decreases es.len(),
{
    if es.len() == 0 {
        seq![]
    } else {
        element_bytes(es[0], es[0].element_type().unwrap()) + elements_bytes(es.drop_first())
    }
}

/// A PACK on the wire: the element count, then the elements.
pub open spec fn pack_bytes(es: Seq<ElementView>) -> Seq<u8> {
    be32(es.len() as u32) + elements_bytes(es)
}

/// Every element has values of one type.
pub open spec fn all_typed(es: Seq<ElementView>) -> bool {
    forall|i: int| 0 <= i < es.len() ==> (#[trigger] es[i]).element_type() is Some
}

/// Every length that the layout writes as a 32-bit number fits in one.
pub open spec fn element_fits(e: ElementView) -> bool {
    &&& encode_utf8(e.name).len() + 1 <= u32::MAX
    &&& e.values.len() <= u32::MAX
    &&& forall|i: int| 0 <= i < e.values.len() ==> (#[trigger] e.values[i]).bytes().len() <= u32::MAX
}

/// Every length that the layout writes as a 32-bit number fits in one.
pub open spec fn pack_fits(es: Seq<ElementView>) -> bool {
    &&& es.len() <= u32::MAX
    &&& forall|i: int| 0 <= i < es.len() ==> element_fits(#[trigger] es[i])
}

proof fn lemma_values_bytes_push(vs: Seq<ValueView>, v: ValueView)
    ensures
        values_bytes(vs.push(v)) == values_bytes(vs) + value_entry(v),
    decreases vs.len(),
{
    if vs.len() == 0 {
        assert(vs.push(v).drop_first() =~= Seq::<ValueView>::empty());
        assert(values_bytes(vs.push(v).drop_first()) == Seq::<u8>::empty());
        assert(vs.push(v)[0] == v);
        assert(values_bytes(vs) == Seq::<u8>::empty());
        assert(values_bytes(vs.push(v)) =~= values_bytes(vs) + value_entry(v));
    } else {
        assert(vs.push(v).drop_first() =~= vs.drop_first().push(v));
        lemma_values_bytes_push(vs.drop_first(), v);
        assert(values_bytes(vs.push(v)) =~= values_bytes(vs) + value_entry(v));
    }
}

proof fn lemma_elements_bytes_push(es: Seq<ElementView>, e: ElementView)
    ensures
        elements_bytes(es.push(e)) == elements_bytes(es) + element_bytes(
            e,
            e.element_type().unwrap(),
        ),
    decreases es.len(),
{
    if es.len() == 0 {
        assert(es.push(e).drop_first() =~= Seq::<ElementView>::empty());
        assert(elements_bytes(es.push(e).drop_first()) == Seq::<u8>::empty());
        assert(es.push(e)[0] == e);
        assert(elements_bytes(es) == Seq::<u8>::empty());
        assert(elements_bytes(es.push(e)) =~= elements_bytes(es) + element_bytes(
            e,
            e.element_type().unwrap(),
        ));
    } else {
        assert(es.push(e).drop_first() =~= es.drop_first().push(e));
        lemma_elements_bytes_push(es.drop_first(), e);
        assert(elements_bytes(es.push(e)) =~= elements_bytes(es) + element_bytes(
            e,
            e.element_type().unwrap(),
        ));
    }
}

impl Pack {
    /// Serialize the PACK to its binary form.
    ///
    /// Fails, with a protocol error, exactly when some element has no values
    /// or values of different types.
    pub fn to_bytes(&self) -> (r: Result<Vec<u8>>)
        requires
            pack_fits(self@),
        ensures
            r is Ok <==> all_typed(self@),
            r matches Ok(b) ==> b@ == pack_bytes(self@),
            r matches Err(e) ==> e is Protocol,
    {
        let mut buf: Vec<u8> = Vec::new();
        put_u32(&mut buf, self.elements.len() as u32);
        let n = self.elements.len();
        let mut i: usize = 0;
        while i < n
            invariant
                n == self@.len(),
                i <= n,
                pack_fits(self@),
                forall|j: int| 0 <= j < i ==> (#[trigger] self@[j]).element_type() is Some,
                buf@ == be32(n as u32) + elements_bytes(self@.subrange(0, i as int)),
            decreases n - i,
        {
            assert(self@[i as int] == self.elements@[i as int]@);
            assert(element_fits(self@[i as int]));
            let ghost before = buf@;
            match Self::write_element(&mut buf, &self.elements[i]) {
                Ok(()) => {},
                Err(e) => {
                    return Err(e);
                },
            }
            proof {
                assert(self@.subrange(0, i + 1) =~= self@.subrange(0, i as int).push(self@[i as int]));
                lemma_elements_bytes_push(self@.subrange(0, i as int), self@[i as int]);
            }
            i = i + 1;
            assert(buf@ =~= be32(n as u32) + elements_bytes(self@.subrange(0, i as int)));
        }
        assert(self@.subrange(0, n as int) =~= self@);
        Ok(buf)
    }

    /// Write a single element to the buffer.
    fn write_element(buf: &mut Vec<u8>, element: &Element) -> (r: Result<()>)
        requires
            element_fits(element@),
        ensures
            r is Ok <==> element@.element_type() is Some,
            r is Ok ==> final(buf)@ == old(buf)@ + element_bytes(
                element@,
                element@.element_type().unwrap(),
            ),
            r matches Err(e) ==> e is Protocol,
    {
        let element_type = element.element_type()?;
        let name_bytes = element.name.as_str().as_bytes();
        let ghost start = buf@;
        put_u32(buf, name_bytes.len() as u32 + 1);
        put_slice(buf, name_bytes);
        buf.push(0u8);
        put_u32(buf, element_type.code());
        put_u32(buf, element.values.len() as u32);
        let ghost header = buf@;
        assert(header =~= start + be32((encode_utf8(element@.name).len() + 1) as u32) + encode_utf8(
            element@.name,
        ) + seq![0u8] + be32(type_code(element_type)) + be32(element@.values.len() as u32));
        let n = element.values.len();
        let mut j: usize = 0;
        while j < n
            invariant
                n == element@.values.len(),
                j <= n,
                element_fits(element@),
                buf@ == header + values_bytes(element@.values.subrange(0, j as int)),
            decreases n - j,
        {
            assert(element@.values[j as int] == element.values@[j as int]@);
            let vb = element.values[j].to_bytes();
            assert(vb@.len() <= u32::MAX);
            put_u32(buf, vb.len() as u32);
            put_slice(buf, vb.as_slice());
            proof {
                assert(element@.values.subrange(0, j + 1) =~= element@.values.subrange(
                    0,
                    j as int,
                ).push(element@.values[j as int]));
                lemma_values_bytes_push(
                    element@.values.subrange(0, j as int),
                    element@.values[j as int],
                );
            }
            j = j + 1;
            assert(buf@ =~= header + values_bytes(element@.values.subrange(0, j as int)));
        }
        assert(element@.values.subrange(0, n as int) =~= element@.values);
        assert(buf@ =~= start + element_bytes(element@, element_type));
        Ok(())
    }
}

// ---------------------------------------------------------------------------
// Reading the wire layout
// ---------------------------------------------------------------------------

/// Largest element count that a PACK may announce.
pub const MAX_ELEMENTS: u32 = 10000;

/// Largest name length (counting its NUL) that an element may announce.
pub const MAX_NAME_LEN: u32 = 1000;

/// Largest value length that a value may announce.
pub const MAX_VALUE_LEN: u32 = 10_000_000;

/// `pre` followed by the sequence in `r`, keeping the end position.
pub open spec fn prefixed_values(pre: Seq<ValueView>, r: Option<(Seq<ValueView>, int)>) -> Option<
    (Seq<ValueView>, int),
> {
    match r {
        Some((rest, end)) => Some((pre + rest, end)),
        None => None,
    }
}

/// `pre` followed by the sequence in `r`.
pub open spec fn prefixed_elements(pre: Seq<ElementView>, r: Option<Seq<ElementView>>) -> Option<
    Seq<ElementView>,
> {
    match r {
        Some(rest) => Some(pre + rest),
        None => None,
    }
}

/// Reads `count` values of type `t` starting at `pos`: each is a length (at
/// most [`MAX_VALUE_LEN`]) and that many bytes, which must hold a value of the
/// type. Gives the values and the position after them.
pub open spec fn parse_values(data: Seq<u8>, pos: int, t: ElementType, count: nat) -> Option<
    (Seq<ValueView>, int),
>
    decreases count,
{
    if count == 0 {
        Some((seq![], pos))
    } else if pos + 4 > data.len() {
        None
    } else {
        let len = be32_value(data.subrange(pos, pos + 4)) as int;
        if len > MAX_VALUE_LEN {
            None
        } else if pos + 4 + len > data.len() {
            None
        } else {
            match value_from_bytes(t, data.subrange(pos + 4, pos + 4 + len)) {
                None => None,
                Some(v) => prefixed_values(
                    seq![v],
                    parse_values(data, pos + 4 + len, t, (count - 1) as nat),
                ),
            }
        }
    }
}

/// Reads one element at `pos`: the name length (1 to [`MAX_NAME_LEN`]), the
/// name (UTF-8, its last byte being the terminator and not part of it), the
/// type number, the value count and the values.
#[verifier::opaque]
pub open spec fn parse_element(data: Seq<u8>, pos: int) -> Option<(ElementView, int)> {
    if pos + 4 > data.len() {
        None
    } else {
        let nl = be32_value(data.subrange(pos, pos + 4)) as int;
        if nl > MAX_NAME_LEN || nl == 0 {
            None
        } else if pos + 4 + nl > data.len() {
            None
        } else {
            let nb = data.subrange(pos + 4, pos + 4 + nl - 1);
            let p = pos + 4 + nl;
            if !valid_utf8(nb) {
                None
            } else if p + 8 > data.len() {
                None
            } else {
                match type_from_code(be32_value(data.subrange(p, p + 4))) {
                    None => None,
                    Some(t) => match parse_values(
                        data,
                        p + 8,
                        t,
                        be32_value(data.subrange(p + 4, p + 8)) as nat,
                    ) {
                        None => None,
                        Some((vs, end)) => Some((ElementView { name: decode_utf8(nb), values: vs }, end)),
                    },
                }
            }
        }
    }
}

/// Reads `remaining` elements from `pos`, the first of them having number
/// `index`. A damaged first element fails the whole read; a damaged later
/// element ends the read, keeping the elements before it.
pub open spec fn parse_elements(data: Seq<u8>, pos: int, index: nat, remaining: nat) -> Option<
    Seq<ElementView>,
>
    decreases remaining,
{
    if remaining == 0 {
        Some(seq![])
    } else {
        match parse_element(data, pos) {
            Some((e, end)) => prefixed_elements(
                seq![e],
                parse_elements(data, end, index + 1, (remaining - 1) as nat),
            ),
            None => if index > 0 {
                Some(seq![])
            } else {
                None
            },
        }
    }
}

/// Reads a PACK: the element count (at most [`MAX_ELEMENTS`]), then the
/// elements. Bytes after the last element are ignored.
pub open spec fn parse_pack(data: Seq<u8>) -> Option<Seq<ElementView>> {
    if data.len() < 4 {
        None
    } else {
        let n = be32_value(data.subrange(0, 4));
        if n > MAX_ELEMENTS {
            None
        } else {
            parse_elements(data, 4, 0, n as nat)
        }
    }
}

impl Pack {
    /// Read `count` values of type `t` starting at `start`.
    fn read_values(data: &[u8], start: usize, t: ElementType, count: u32) -> (r: Result<
        (Vec<Value>, usize),
    >)
        requires
            start <= data@.len(),
        ensures
            r is Ok <==> parse_values(data@, start as int, t, count as nat) is Some,
            r matches Ok((vs, end)) ==> parse_values(data@, start as int, t, count as nat) == Some(
                (vs@.map_values(|v: Value| v@), end as int),
            ) && end <= data@.len(),
            r matches Err(e) ==> e is Protocol,
    {
        let mut values: Vec<Value> = Vec::new();
        let mut pos = start;
        let mut j: u32 = 0;
        assert(values@.map_values(|v: Value| v@) =~= Seq::<ValueView>::empty());
        assert(prefixed_values(Seq::<ValueView>::empty(), parse_values(data@, start as int, t, count as nat))
            =~= parse_values(data@, start as int, t, count as nat)) by {
            match parse_values(data@, start as int, t, count as nat) {
                Some((rest, end)) => {
                    assert(Seq::<ValueView>::empty() + rest =~= rest);
                },
                None => {},
            }
        }
        while j < count
            invariant
                start <= pos <= data@.len(),
                j <= count,
                parse_values(data@, start as int, t, count as nat) == prefixed_values(
                    values@.map_values(|v: Value| v@),
                    parse_values(data@, pos as int, t, (count - j) as nat),
                ),
            decreases count - j,
        {
            let ghost c = (count - j) as nat;
            if data.len() - pos < 4 {
                return Err(VpnError::Protocol("Not enough data for value length".to_owned()));
            }
            let value_len = get_u32(data, pos);
            if value_len > MAX_VALUE_LEN {
                return Err(VpnError::Protocol("Value length exceeds safety limit".to_owned()));
            }
            let vstart = pos + 4;
            if data.len() - vstart < value_len as usize {
                return Err(VpnError::Protocol("Not enough data for value".to_owned()));
            }
            let vend = vstart + value_len as usize;
            let bytes = copy_range(data, vstart, vend);
            let v = match Value::from_bytes(t, bytes.as_slice()) {
                Ok(v) => v,
                Err(e) => {
                    return Err(e);
                },
            };
            let ghost before = values@.map_values(|v: Value| v@);
            values.push(v);
            proof {
                assert(values@.map_values(|v: Value| v@) =~= before + seq![v@]);
                let next = parse_values(data@, vend as int, t, (c - 1) as nat);
                match next {
                    Some((rest, end)) => {
                        assert(before + (seq![v@] + rest) =~= (before + seq![v@]) + rest);
                    },
                    None => {},
                }
            }
            pos = vend;
            j = j + 1;
        }
        assert(parse_values(data@, pos as int, t, 0) == Some((Seq::<ValueView>::empty(), pos as int)));
        assert(values@.map_values(|v: Value| v@) + Seq::<ValueView>::empty() =~= values@.map_values(
            |v: Value| v@,
        ));
        Ok((values, pos))
    }

    /// Read a single element starting at `pos`.
    fn read_element(data: &[u8], pos: usize) -> (r: Result<(Element, usize)>)
        requires
            pos <= data@.len(),
        ensures
            r is Ok <==> parse_element(data@, pos as int) is Some,
            r matches Ok((e, end)) ==> parse_element(data@, pos as int) == Some((e@, end as int))
                && end <= data@.len(),
            r matches Err(e) ==> e is Protocol,
    {
        reveal(parse_element);
        if data.len() - pos < 4 {
            return Err(VpnError::Protocol("Not enough data for element name length".to_owned()));
        }
        let name_len = get_u32(data, pos);
        if name_len > MAX_NAME_LEN {
            return Err(VpnError::Protocol("Element name length is unreasonably large".to_owned()));
        }
        if name_len == 0 {
            return Err(VpnError::Protocol("Element name length is zero".to_owned()));
        }
        let name_start = pos + 4;
        if data.len() - name_start < name_len as usize {
            return Err(VpnError::Protocol("Not enough data for element name".to_owned()));
        }
        let name_bytes = copy_range(data, name_start, name_start + name_len as usize - 1);
        let name = match string_from_utf8(name_bytes) {
            Some(s) => s,
            None => {
                return Err(VpnError::Protocol("Invalid element name UTF-8".to_owned()));
            },
        };
        let p = name_start + name_len as usize;
        if data.len() - p < 8 {
            return Err(
                VpnError::Protocol("Not enough data for element type and value count".to_owned()),
            );
        }
        let element_type = ElementType::from_code(get_u32(data, p))?;
        let num_values = get_u32(data, p + 4);
        let (values, end) = Self::read_values(data, p + 8, element_type, num_values)?;
        Ok((Element { name, values }, end))
    }

    /// Deserialize a PACK from its binary form.
    ///
    /// Fails, with a protocol error, when the data is shorter than the count,
    /// the count exceeds [`MAX_ELEMENTS`], or the first element cannot be read.
    /// When a later element cannot be read, the elements read before it are
    /// kept and the rest is ignored.
    pub fn from_bytes(data: Vec<u8>) -> (r: Result<Self>)
        ensures
            r is Ok <==> parse_pack(data@) is Some,
            r matches Ok(p) ==> parse_pack(data@) == Some(p@),
            r matches Err(e) ==> e is Protocol,
    {
        let d = data.as_slice();
        if d.len() < 4 {
            return Err(VpnError::Protocol("PACK data too short".to_owned()));
        }
        let num_elements = get_u32(d, 0);
        if num_elements > MAX_ELEMENTS {
            return Err(VpnError::Protocol("Element count seems too large".to_owned()));
        }
        let mut elements: Vec<Element> = Vec::new();
        let mut pos: usize = 4;
        let mut i: u32 = 0;
        let mut stopped = false;
        let ghost total = parse_elements(d@, 4, 0, num_elements as nat);
        assert(elements@.map_values(|e: Element| e@) =~= Seq::<ElementView>::empty());
        assert(prefixed_elements(Seq::<ElementView>::empty(), total) =~= total) by {
            match total {
                Some(rest) => {
                    assert(Seq::<ElementView>::empty() + rest =~= rest);
                },
                None => {},
            }
        }
        while i < num_elements && !stopped
            invariant
                pos <= d@.len(),
                d@ == data@,
                d@.len() >= 4,
                num_elements == be32_value(d@.subrange(0, 4)),
                num_elements <= MAX_ELEMENTS,
                i <= num_elements,
                total == parse_elements(d@, 4, 0, num_elements as nat),
                !stopped ==> total == prefixed_elements(
                    elements@.map_values(|e: Element| e@),
                    parse_elements(d@, pos as int, i as nat, (num_elements - i) as nat),
                ),
                stopped ==> total == Some(elements@.map_values(|e: Element| e@)),
            decreases num_elements - i + (if stopped { 0int } else { 1int }),
        {
            let ghost c = (num_elements - i) as nat;
            match Self::read_element(d, pos) {
                Ok((e, end)) => {
                    let ghost before = elements@.map_values(|e: Element| e@);
                    elements.push(e);
                    proof {
                        assert(elements@.map_values(|e: Element| e@) =~= before + seq![e@]);
                        match parse_elements(d@, end as int, (i + 1) as nat, (c - 1) as nat) {
                            Some(rest) => {
                                assert(before + (seq![e@] + rest) =~= (before + seq![e@]) + rest);
                            },
                            None => {},
                        }
                    }
                    pos = end;
                    i = i + 1;
                },
                Err(err) => {
                    if i > 0 {
                        assert(elements@.map_values(|e: Element| e@) + Seq::<ElementView>::empty()
                            =~= elements@.map_values(|e: Element| e@));
                        stopped = true;
                    } else {
                        assert(parse_elements(d@, pos as int, i as nat, c) is None);
                        assert(total is None);
                        assert(parse_pack(data@) == total);
                        return Err(err);
                    }
                },
            }
        }
        if !stopped {
            assert(elements@.map_values(|e: Element| e@) + Seq::<ElementView>::empty()
                =~= elements@.map_values(|e: Element| e@));
        }
        let r = Pack { elements };
        assert(parse_pack(data@) == total);
        Ok(r)
    }
}

// ---------------------------------------------------------------------------
// Writing then reading gives the PACK back
// ---------------------------------------------------------------------------

/// An element that the reader accepts back: values of one type, a name whose
/// UTF-8 form with its terminator fits [`MAX_NAME_LEN`], and values that fit
/// [`MAX_VALUE_LEN`].
pub open spec fn element_well_formed(e: ElementView) -> bool {
    &&& e.element_type() is Some
    &&& encode_utf8(e.name).len() + 1 <= MAX_NAME_LEN
    &&& e.values.len() <= u32::MAX
    &&& forall|i: int|
        0 <= i < e.values.len() ==> (#[trigger] e.values[i]).bytes().len() <= MAX_VALUE_LEN
}

/// A PACK that the reader accepts back: at most [`MAX_ELEMENTS`] elements,
/// each well formed.
pub open spec fn pack_well_formed(es: Seq<ElementView>) -> bool {
    &&& es.len() <= MAX_ELEMENTS
    &&& forall|i: int| 0 <= i < es.len() ==> element_well_formed(#[trigger] es[i])
}

proof fn lemma_parse_values_roundtrip(vs: Seq<ValueView>, t: ElementType, pre: Seq<u8>, suf: Seq<u8>)
    requires
        forall|i: int| 0 <= i < vs.len() ==> (#[trigger] vs[i]).kind() == t,
        forall|i: int| 0 <= i < vs.len() ==> (#[trigger] vs[i]).bytes().len() <= MAX_VALUE_LEN,
    ensures
        parse_values(pre + values_bytes(vs) + suf, pre.len() as int, t, vs.len()) == Some(
            (vs, (pre.len() + values_bytes(vs).len()) as int),
        ),
    decreases vs.len(),
{
    let data = pre + values_bytes(vs) + suf;
    if vs.len() == 0 {
        assert(vs =~= Seq::<ValueView>::empty());
    } else {
        let v = vs[0];
        let rest = vs.drop_first();
        let b = v.bytes();
        let l = b.len();
        let p = pre.len() as int;
        assert(vs[0].bytes().len() <= MAX_VALUE_LEN);
        lemma_be32_roundtrip(l as u32);
        assert(data.subrange(p, p + 4) =~= be32(l as u32));
        assert(data.subrange(p + 4, p + 4 + l) =~= b);
        assert(vs[0].kind() == t);
        lemma_value_roundtrip(v);
        let pre2 = pre + value_entry(v);
        assert(data =~= pre2 + values_bytes(rest) + suf);
        assert forall|i: int| 0 <= i < rest.len() implies (#[trigger] rest[i]).kind() == t
            && rest[i].bytes().len() <= MAX_VALUE_LEN by {
            assert(rest[i] == vs[i + 1]);
        }
        lemma_parse_values_roundtrip(rest, t, pre2, suf);
        assert(seq![v] + rest =~= vs);
    }
}

#[verifier::rlimit(40)]
proof fn lemma_parse_element_roundtrip(e: ElementView, pre: Seq<u8>, suf: Seq<u8>)
    requires
        element_well_formed(e),
    ensures
        parse_element(pre + element_bytes(e, e.element_type().unwrap()) + suf, pre.len() as int)
            == Some((e, (pre.len() + element_bytes(e, e.element_type().unwrap()).len()) as int)),
{
    reveal(parse_element);
    let t = e.element_type().unwrap();
    let data = pre + element_bytes(e, t) + suf;
    let nb = encode_utf8(e.name);
    let nl = nb.len() + 1;
    let p = pre.len() as int;
    lemma_be32_roundtrip(nl as u32);
    assert(data.subrange(p, p + 4) =~= be32(nl as u32));
    assert(data.subrange(p + 4, p + 4 + nl - 1) =~= nb);
    encode_utf8_valid_utf8(e.name);
    encode_utf8_decode_utf8(e.name);
    let q = p + 4 + nl;
    lemma_be32_roundtrip(type_code(t));
    lemma_be32_roundtrip(e.values.len() as u32);
    assert(data.subrange(q, q + 4) =~= be32(type_code(t)));
    assert(data.subrange(q + 4, q + 8) =~= be32(e.values.len() as u32));
    let header = pre + be32(nl as u32) + nb + seq![0u8] + be32(type_code(t)) + be32(
        e.values.len() as u32,
    );
    assert(data =~= header + values_bytes(e.values) + suf);
    assert forall|i: int| 0 <= i < e.values.len() implies (#[trigger] e.values[i]).kind() == t by {
    }
    lemma_parse_values_roundtrip(e.values, t, header, suf);
}

proof fn lemma_parse_elements_roundtrip(es: Seq<ElementView>, pre: Seq<u8>, suf: Seq<u8>, index: nat)
    requires
        forall|i: int| 0 <= i < es.len() ==> element_well_formed(#[trigger] es[i]),
    ensures
        parse_elements(pre + elements_bytes(es) + suf, pre.len() as int, index, es.len()) == Some(
            es,
        ),
    decreases es.len(),
{
    if es.len() == 0 {
        assert(es =~= Seq::<ElementView>::empty());
    } else {
        let e = es[0];
        let rest = es.drop_first();
        let eb = element_bytes(e, e.element_type().unwrap());
        assert(element_well_formed(es[0]));
        lemma_parse_element_roundtrip(e, pre, elements_bytes(rest) + suf);
        assert(pre + elements_bytes(es) + suf =~= pre + eb + (elements_bytes(rest) + suf));
        assert(pre + elements_bytes(es) + suf =~= (pre + eb) + elements_bytes(rest) + suf);
        assert forall|i: int| 0 <= i < rest.len() implies element_well_formed(#[trigger] rest[i]) by {
            assert(rest[i] == es[i + 1]);
        }
        lemma_parse_elements_roundtrip(rest, pre + eb, suf, index + 1);
        assert(seq![e] + rest =~= es);
    }
}

/// Reading back what a PACK was written as gives the PACK: every well-formed
/// PACK can be written (all elements typed, all lengths fit) and
/// [`parse_pack`] of its bytes is the PACK itself.
pub proof fn lemma_pack_roundtrip(es: Seq<ElementView>)
    requires
        pack_well_formed(es),
    ensures
        all_typed(es),
        pack_fits(es),
        parse_pack(pack_bytes(es)) == Some(es),
{
    let data = pack_bytes(es);
    lemma_be32_roundtrip(es.len() as u32);
    assert(data.subrange(0, 4) =~= be32(es.len() as u32));
    assert(data =~= be32(es.len() as u32) + elements_bytes(es) + Seq::<u8>::empty());
    lemma_parse_elements_roundtrip(es, be32(es.len() as u32), Seq::<u8>::empty(), 0);
    assert forall|i: int| 0 <= i < es.len() implies element_fits(#[trigger] es[i]) by {
        assert(element_well_formed(es[i]));
    }
}

impl Default for Pack {
    fn default() -> (r: Self)
        ensures
            r@ == Seq::<ElementView>::empty(),
    {
        Self::new()
    }
}

} // verus!
