use crate::error::DAError;
use crate::json::{JsonNumber, JsonTree, JsonValue, NumberValue};
use crate::wire::{float_text_is_valid, float_text_valid};
use vstd::prelude::*;

verus! {

/// The scalar kinds that an extracted value can be read as.
#[derive(Debug, Clone, Copy, PartialEq, Eq, Structural)]
pub enum ScalarKind {
    Integer,
    Float,
    Text,
    Boolean,
}

/// A scalar read out of a response.
///
/// A floating-point reading keeps the number as the response carried it: an
/// integer stays exact, a fraction keeps its decimal text.
#[derive(Debug, Clone, PartialEq)]
pub enum TypedValue {
    Integer(i64),
    Float(JsonNumber),
    Text(String),
    Boolean(bool),
}

/// The mathematical value of a [`TypedValue`].
pub enum ScalarValue {
    Integer(i64),
    Float(NumberValue),
    Text(Seq<char>),
    Boolean(bool),
}

impl TypedValue {
    pub open spec fn view(&self) -> ScalarValue {
        match self {
            TypedValue::Integer(i) => ScalarValue::Integer(*i),
            TypedValue::Float(n) => ScalarValue::Float(n@),
            TypedValue::Text(s) => ScalarValue::Text(s@),
            TypedValue::Boolean(b) => ScalarValue::Boolean(*b),
        }
    }
}

/// The integer that a number denotes, if it is an integer.
pub open spec fn integer_value(n: NumberValue) -> Option<int> {
    match n {
        NumberValue::PosInt(u) => Some(u as int),
        NumberValue::NegInt(i) => Some(i as int),
        NumberValue::Float(_) => None,
    }
}

/// Whether a number is well formed: an integer, or a floating-point number
/// whose text is a JSON number.
pub open spec fn number_valid(n: NumberValue) -> bool {
    match n {
        NumberValue::Float(s) => float_text_valid(s),
        _ => true,
    }
}

/// Whether `v` has the shape that `kind` asks for: an integer within the
/// range of `i64`, any well-formed number, a string, or a boolean.
pub open spec fn shape_matches(v: JsonValue, kind: ScalarKind) -> bool {
    match kind {
        ScalarKind::Integer => v is Number && integer_value(v->Number_0) is Some && i64::MIN
            <= integer_value(v->Number_0)->0 <= i64::MAX,
        ScalarKind::Float => v is Number && number_valid(v->Number_0),
        ScalarKind::Text => v is Text,
        ScalarKind::Boolean => v is Bool,
    }
}

/// The reading of `v` as `kind`, if it has that shape.
pub open spec fn converted(v: JsonValue, kind: ScalarKind) -> Option<ScalarValue> {
    match (kind, v) {
        (ScalarKind::Integer, JsonValue::Number(NumberValue::PosInt(u))) => if u <= i64::MAX {
            Some(ScalarValue::Integer(u as i64))
        } else {
            None
        },
        (ScalarKind::Integer, JsonValue::Number(NumberValue::NegInt(i))) => Some(
            ScalarValue::Integer(i),
        ),
        (ScalarKind::Float, JsonValue::Number(n)) => if number_valid(n) {
            Some(ScalarValue::Float(n))
        } else {
            None
        },
        (ScalarKind::Text, JsonValue::Text(s)) => Some(ScalarValue::Text(s)),
        (ScalarKind::Boolean, JsonValue::Bool(b)) => Some(ScalarValue::Boolean(b)),
        _ => None,
    }
}

/// What a call `convert(raw, kind)` returns: the reading, or
/// `ValueConversionError` where there is none.
pub open spec fn conversion_outcome(
    raw: JsonValue,
    kind: ScalarKind,
    r: Result<TypedValue, DAError>,
) -> bool {
    match converted(raw, kind) {
        Some(s) => r is Ok && r->Ok_0@ == s,
        None => r == Err::<TypedValue, DAError>(DAError::ValueConversionError),
    }
}

/// A conversion succeeds exactly when the raw value has the requested shape.
pub proof fn lemma_converts_iff_shape(raw: JsonValue, kind: ScalarKind)
    ensures
        converted(raw, kind) is Some <==> shape_matches(raw, kind),
{
}

/// Converting the same raw value to the same kind twice gives the same
/// outcome both times.
pub proof fn lemma_conversion_repeatable(
    raw: JsonValue,
    kind: ScalarKind,
    r1: Result<TypedValue, DAError>,
    r2: Result<TypedValue, DAError>,
)
    requires
        conversion_outcome(raw, kind, r1),
        conversion_outcome(raw, kind, r2),
    ensures
        r1 is Ok <==> r2 is Ok,
        r1 is Ok ==> r1->Ok_0@ == r2->Ok_0@,
        r1 is Err ==> r1 == r2,
{
}

/// Reads `raw` as a scalar of kind `kind`.
///
/// Fails with `ValueConversionError` exactly when `raw` does not have that
/// shape; no other coercion is made.
pub fn convert(raw: &JsonTree, kind: ScalarKind) -> (r: Result<TypedValue, DAError>)
    ensures
        conversion_outcome(raw@, kind, r),
{
    match (kind, raw) {
        (ScalarKind::Integer, JsonTree::Number(JsonNumber::PosInt(u))) => {
            if *u <= i64::MAX as u64 {
                Ok(TypedValue::Integer(*u as i64))
            } else {
                Err(DAError::ValueConversionError)
            }
        },
        (ScalarKind::Integer, JsonTree::Number(JsonNumber::NegInt(i))) => Ok(
            TypedValue::Integer(*i),
        ),
        (ScalarKind::Float, JsonTree::Number(n)) => {
            let valid = match n {
                JsonNumber::Float(text) => float_text_is_valid(text),
                _ => true,
            };
            if valid {
                Ok(TypedValue::Float(n.duplicate()))
            } else {
                Err(DAError::ValueConversionError)
            }
        },
        (ScalarKind::Text, JsonTree::Text(s)) => Ok(TypedValue::Text(s.clone())),
        (ScalarKind::Boolean, JsonTree::Bool(b)) => Ok(TypedValue::Boolean(*b)),
        _ => Err(DAError::ValueConversionError),
    }
}

/// A Rust type that an extracted value can be read into.
pub trait FromJsonValue<T>: Sized {
    /// The scalar kind that values of `T` are read as.
    spec fn kind() -> ScalarKind;

    /// Whether `t` carries the scalar `s`.
    spec fn carries(t: T, s: ScalarValue) -> bool;

    /// Reads `value` as a `T`, failing with `ValueConversionError` when it
    /// does not have the shape of `Self::kind()`.
    fn from_json_value(value: &JsonTree) -> (r: Result<T, DAError>)
        ensures
            match converted(value@, Self::kind()) {
                Some(s) => r is Ok && Self::carries(r->Ok_0, s),
                None => r == Err::<T, DAError>(DAError::ValueConversionError),
            },
    ;
}

impl FromJsonValue<i64> for i64 {
    open spec fn kind() -> ScalarKind {
        ScalarKind::Integer
    }

    open spec fn carries(t: i64, s: ScalarValue) -> bool {
        s == ScalarValue::Integer(t)
    }

    fn from_json_value(value: &JsonTree) -> (r: Result<i64, DAError>) {
        match convert(value, ScalarKind::Integer) {
            Ok(TypedValue::Integer(i)) => Ok(i),
            _ => Err(DAError::ValueConversionError),
        }
    }
}

impl FromJsonValue<JsonNumber> for JsonNumber {
    open spec fn kind() -> ScalarKind {
        ScalarKind::Float
    }

    open spec fn carries(t: JsonNumber, s: ScalarValue) -> bool {
        s == ScalarValue::Float(t@)
    }

    fn from_json_value(value: &JsonTree) -> (r: Result<JsonNumber, DAError>) {
        match convert(value, ScalarKind::Float) {
            Ok(TypedValue::Float(n)) => Ok(n),
            _ => Err(DAError::ValueConversionError),
        }
    }
}

impl FromJsonValue<String> for String {
    open spec fn kind() -> ScalarKind {
        ScalarKind::Text
    }

    open spec fn carries(t: String, s: ScalarValue) -> bool {
        s == ScalarValue::Text(t@)
    }

    fn from_json_value(value: &JsonTree) -> (r: Result<String, DAError>) {
        match convert(value, ScalarKind::Text) {
            Ok(TypedValue::Text(s)) => Ok(s),
            _ => Err(DAError::ValueConversionError),
        }
    }
}

impl FromJsonValue<bool> for bool {
    open spec fn kind() -> ScalarKind {
        ScalarKind::Boolean
    }

    open spec fn carries(t: bool, s: ScalarValue) -> bool {
        s == ScalarValue::Boolean(t)
    }

    fn from_json_value(value: &JsonTree) -> (r: Result<bool, DAError>) {
        match convert(value, ScalarKind::Boolean) {
            Ok(TypedValue::Boolean(b)) => Ok(b),
            _ => Err(DAError::ValueConversionError),
        }
    }
}

} // verus!
