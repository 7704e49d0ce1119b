//! The dynamic msgpack value and its mathematical model.
//!
//! A value is an `rmpv::Value`. The protocol carries most values through
//! without looking inside; where it does look, it goes through the few
//! functions of this module, whose contracts are stated over the model.
//! None of these contracts is proved: each says in its doc comment what it
//! takes on trust from `rmpv`.

use vstd::prelude::*;

verus! {

#[verifier::external_type_specification]
#[verifier::external_body]
pub struct ExValue(rmpv::Value);

/// What a msgpack value is, as mathematics.
pub enum ValueModel {
    Nil,
    Bool(bool),
    /// An integer from -(2^63) up to 2^64 - 1.
    Int(int),
    /// A 32-bit float, by its bits.
    F32(u32),
    /// A 64-bit float, by its bits.
    F64(u64),
    /// A string of valid UTF-8.
    Str(Seq<char>),
    /// A string whose bytes are not valid UTF-8.
    BrokenStr(Seq<u8>),
    Bin(Seq<u8>),
    Array(Seq<ValueModel>),
    Pairs(Seq<(ValueModel, ValueModel)>),
    Ext(i8, Seq<u8>),
}

/// The model of a value: which variant of `rmpv::Value` it is, and what
/// that variant holds.
pub uninterp spec fn model_of(v: rmpv::Value) -> ValueModel;

/// The models of a sequence of values, item by item.
pub open spec fn models_of(vs: Seq<rmpv::Value>) -> Seq<ValueModel> {
    vs.map_values(|v: rmpv::Value| model_of(v))
}

/// `rmpv::Value::Nil`. Trusted: the variant `Nil` is the nil value.
#[verifier::external_body]
pub(crate) fn nil() -> (v: rmpv::Value)
    ensures
        model_of(v) == ValueModel::Nil,
{
    rmpv::Value::Nil
}

/// `<rmpv::Value as From<u64>>::from`. Trusted: the result is the integer
/// `n`.
#[verifier::external_body]
pub(crate) fn uint(n: u64) -> (v: rmpv::Value)
    ensures
        model_of(v) == ValueModel::Int(n as int),
{
    rmpv::Value::from(n)
}

/// `<rmpv::Value as From<&str>>::from`. Trusted: the result is the string
/// `s`.
#[verifier::external_body]
pub(crate) fn string(s: &str) -> (v: rmpv::Value)
    ensures
        model_of(v) == ValueModel::Str(s@),
{
    rmpv::Value::from(s)
}

/// `rmpv::Value::Array`. Trusted: the result is the array of `items`, in
/// their order.
#[verifier::external_body]
pub(crate) fn array(items: Vec<rmpv::Value>) -> (v: rmpv::Value)
    ensures
        model_of(v) == ValueModel::Array(models_of(items@)),
{
    rmpv::Value::Array(items)
}

/// Takes an `rmpv::Value::Array` apart. Trusted: an array gives its items,
/// in their order, and any other value gives `None`.
#[verifier::external_body]
pub(crate) fn into_array(v: rmpv::Value) -> (r: Option<Vec<rmpv::Value>>)
    ensures
        match r {
            Some(items) => model_of(v) == ValueModel::Array(models_of(items@)),
            None => !(model_of(v) is Array),
        },
{
    match v {
        rmpv::Value::Array(items) => Some(items),
        _ => None,
    }
}

/// `rmpv::Value::is_nil`. Trusted: it is true of the nil value alone.
pub assume_specification[ rmpv::Value::is_nil ](v: &rmpv::Value) -> (b: bool)
    ensures
        b == (model_of(*v) is Nil),
;

/// `rmpv::Value::as_u64`. Trusted: an integer that is not negative gives
/// itself, and any other value gives `None`.
pub assume_specification[ rmpv::Value::as_u64 ](v: &rmpv::Value) -> (r: Option<u64>)
    ensures
        r == (match model_of(*v) {
            ValueModel::Int(n) if 0 <= n <= u64::MAX => Some(n as u64),
            _ => None,
        }),
;

/// `rmpv::Value::as_str`. Trusted: a string of valid UTF-8 gives its text,
/// and any other value gives `None`.
pub assume_specification<'a>[ rmpv::Value::as_str ](v: &'a rmpv::Value) -> (r: Option<&'a str>)
    ensures
        match r {
            Some(s) => model_of(*v) == ValueModel::Str(s@),
            None => !(model_of(*v) is Str),
        },
;

/// `<rmpv::Value as Clone>::clone`. Trusted: the copy is the same value.
pub assume_specification[ <rmpv::Value as Clone>::clone ](v: &rmpv::Value) -> (r: rmpv::Value)
    ensures
        model_of(r) == model_of(*v),
;

/// Why reading a value from bytes failed.
#[derive(Clone, Copy, Debug, PartialEq, Eq, Structural)]
pub enum ReadError {
    /// The bytes end before the value does.
    Truncated,
    /// The value nests deeper than the reader follows.
    TooDeep,
    /// The reader failed in another way.
    Io,
}

/// The bytes that `rmpv::encode::write_value` writes for a value.
pub uninterp spec fn msgpack_bytes(v: ValueModel) -> Seq<u8>;

/// What `rmpv::decode::read_value` makes of a byte string: the value at
/// its start and the number of bytes that the value takes, or the reason
/// why there is none.
pub uninterp spec fn msgpack_read(bytes: Seq<u8>) -> Result<(ValueModel, nat), ReadError>;

/// `rmpv::encode::write_value`, into an empty buffer. Trusted: the bytes
/// depend on the value alone. Writing into memory cannot fail. The
/// function walks the value by recursion, as dropping and comparing a
/// value do: a nesting too deep for the stack is beyond all of them.
#[verifier::external_body]
pub(crate) fn write_value(v: &rmpv::Value) -> (out: Vec<u8>)
    ensures
        out@ == msgpack_bytes(model_of(*v)),
{
    let mut out = Vec::new();
    rmpv::encode::write_value(&mut out, v).unwrap();
    out
}

/// `rmpv::decode::read_value`, from the start of `bytes`. Trusted: the
/// outcome depends on the bytes alone, and a value that was read took no
/// more bytes than there are.
#[verifier::external_body]
pub(crate) fn read_value(bytes: &[u8]) -> (r: Result<(rmpv::Value, usize), ReadError>)
    ensures
        match r {
            Ok((v, n)) => msgpack_read(bytes@) == Ok::<(ValueModel, nat), ReadError>(
                (model_of(v), n as nat),
            ) && n <= bytes@.len(),
            Err(e) => msgpack_read(bytes@) == Err::<(ValueModel, nat), ReadError>(e),
        },
{
    let mut reader = std::io::Cursor::new(bytes);
    match rmpv::decode::read_value(&mut reader) {
        Ok(v) => Ok((v, reader.position() as usize)),
        Err(rmpv::decode::Error::DepthLimitExceeded) => Err(ReadError::TooDeep),
        Err(e) if e.kind() == std::io::ErrorKind::UnexpectedEof => Err(ReadError::Truncated),
        Err(_) => Err(ReadError::Io),
    }
}

} // verus!
