//! Untyped payload values and the typed parameters they are bound as.
//!
//! A payload value has one of the shapes of a JSON document. The mapping to a
//! typed parameter is total and looks at the value alone: nothing is coerced
//! towards the type that a column declares.

use vstd::prelude::*;

verus! {

/// A number of a payload. A floating-point number is held by the 64 bits of
/// its IEEE 754 representation.
#[derive(Debug)]
pub enum JsonNumber {
    /// A whole number that 64 signed bits hold.
    Integer(i64),
    /// A number that the parser read as no integer and that a 64-bit float
    /// holds.
    Float(u64),
    /// A whole number beyond 64 signed bits, or a number beyond a 64-bit
    /// float: its literal, digit for digit.
    Oversized(String),
}

/// One member of an object.
#[derive(Debug)]
pub struct JsonMember {
    pub name: String,
    pub value: JsonValue,
}

/// An untyped payload value.
#[derive(Debug)]
pub enum JsonValue {
    Null,
    Bool(bool),
    Number(JsonNumber),
    String(String),
    Array(Vec<JsonValue>),
    Object(Vec<JsonMember>),
}

/// A value of the closed set of kinds that a statement binds.
#[derive(Debug)]
pub enum TypedParam {
    /// SQL NULL, of no particular type.
    Null,
    Bool(bool),
    BigInt(i64),
    /// A 64-bit float, by its bits.
    Double(u64),
    String(String),
    /// An array or an object, handed on as it is.
    Json(JsonValue),
}

/// The model of a [`JsonNumber`].
pub enum NumberModel {
    Integer(i64),
    Float(u64),
    Oversized(Seq<char>),
}

/// The model of a [`JsonValue`].
pub enum JsonModel {
    Null,
    Bool(bool),
    Number(NumberModel),
    Text(Seq<char>),
    Array(Seq<JsonModel>),
    Object(Seq<(Seq<char>, JsonModel)>),
}

/// The model of a [`TypedParam`].
pub enum ParamModel {
    Null,
    Bool(bool),
    BigInt(i64),
    Double(u64),
    Text(Seq<char>),
    Json(JsonModel),
}

impl View for JsonNumber {
    type V = NumberModel;

    open spec fn view(&self) -> NumberModel {
        match self {
            JsonNumber::Integer(i) => NumberModel::Integer(*i),
            JsonNumber::Float(bits) => NumberModel::Float(*bits),
            JsonNumber::Oversized(literal) => NumberModel::Oversized(literal@),
        }
    }
}

impl JsonValue {
    /// The value as a mathematical document.
    pub open spec fn model(self) -> JsonModel
        decreases self,
    {
        match self {
            JsonValue::Null => JsonModel::Null,
            JsonValue::Bool(b) => JsonModel::Bool(b),
            JsonValue::Number(n) => JsonModel::Number(n@),
            JsonValue::String(s) => JsonModel::Text(s@),
            JsonValue::Array(items) => JsonModel::Array(
                Seq::new(
                    items@.len(),
                    |i: int|
                        if 0 <= i < items@.len() {
                            items@[i].model()
                        } else {
                            JsonModel::Null
                        },
                ),
            ),
            JsonValue::Object(members) => JsonModel::Object(
                Seq::new(
                    members@.len(),
                    |i: int|
                        if 0 <= i < members@.len() {
                            (members@[i].name@, members@[i].value.model())
                        } else {
                            (Seq::empty(), JsonModel::Null)
                        },
                ),
            ),
        }
    }
}

impl View for JsonValue {
    type V = JsonModel;

    open spec fn view(&self) -> JsonModel {
        self.model()
    }
}

impl View for TypedParam {
    type V = ParamModel;

    open spec fn view(&self) -> ParamModel {
        match self {
            TypedParam::Null => ParamModel::Null,
            TypedParam::Bool(b) => ParamModel::Bool(*b),
            TypedParam::BigInt(i) => ParamModel::BigInt(*i),
            TypedParam::Double(bits) => ParamModel::Double(*bits),
            TypedParam::String(s) => ParamModel::Text(s@),
            TypedParam::Json(v) => ParamModel::Json(v@),
        }
    }
}

/// The models of a list of parameters.
pub open spec fn param_models(params: Seq<TypedParam>) -> Seq<ParamModel> {
    params.map_values(|p: TypedParam| p@)
}

/// The number that stands for what a parser read of a literal.
///
/// A literal that 64 signed bits hold is that integer. A whole number that
/// only 64 unsigned bits hold is oversized even where a float comes near it:
/// a float would not keep its digits. Any other number is the float that 64
/// bits hold, and oversized where they hold none.
pub open spec fn classified(
    as_integer: Option<i64>,
    as_unsigned: Option<u64>,
    as_float_bits: Option<u64>,
    literal: Seq<char>,
) -> NumberModel {
    match as_integer {
        Some(i) => NumberModel::Integer(i),
        None => if as_unsigned is Some {
            NumberModel::Oversized(literal)
        } else {
            match as_float_bits {
                Some(bits) => NumberModel::Float(bits),
                None => NumberModel::Oversized(literal),
            }
        },
    }
}

/// The mapping table, shape by shape.
pub open spec fn param_of(v: JsonModel) -> ParamModel {
    match v {
        JsonModel::Null => ParamModel::Null,
        JsonModel::Bool(b) => ParamModel::Bool(b),
        JsonModel::Number(NumberModel::Integer(i)) => ParamModel::BigInt(i),
        JsonModel::Number(NumberModel::Float(bits)) => ParamModel::Double(bits),
        JsonModel::Number(NumberModel::Oversized(literal)) => ParamModel::Text(literal),
        JsonModel::Text(s) => ParamModel::Text(s),
        JsonModel::Array(_) => ParamModel::Json(v),
        JsonModel::Object(_) => ParamModel::Json(v),
    }
}

/// The document that a parameter is written back as.
pub open spec fn json_of(p: ParamModel) -> JsonModel {
    match p {
        ParamModel::Null => JsonModel::Null,
        ParamModel::Bool(b) => JsonModel::Bool(b),
        ParamModel::BigInt(i) => JsonModel::Number(NumberModel::Integer(i)),
        ParamModel::Double(bits) => JsonModel::Number(NumberModel::Float(bits)),
        ParamModel::Text(s) => JsonModel::Text(s),
        ParamModel::Json(v) => v,
    }
}

/// The one shape that does not come back from its parameter as it went in.
pub open spec fn is_oversized(v: JsonModel) -> bool {
    v matches JsonModel::Number(NumberModel::Oversized(_))
}

impl JsonNumber {
    /// Decides what a number is from what a parser says of its literal:
    /// the signed integer it is, the unsigned integer it is, and the bits of
    /// the float it is, each where there is one.
    pub fn classify(
        as_integer: Option<i64>,
        as_unsigned: Option<u64>,
        as_float_bits: Option<u64>,
        literal: String,
    ) -> (n: JsonNumber)
        ensures
            n@ == classified(as_integer, as_unsigned, as_float_bits, literal@),
    {
        if let Some(i) = as_integer {
            JsonNumber::Integer(i)
        } else if as_unsigned.is_some() {
            JsonNumber::Oversized(literal)
        } else if let Some(bits) = as_float_bits {
            JsonNumber::Float(bits)
        } else {
            JsonNumber::Oversized(literal)
        }
    }

    /// A copy of the number.
    pub fn duplicate(&self) -> (n: JsonNumber)
        ensures
            n@ == self@,
    {
        match self {
            JsonNumber::Integer(i) => JsonNumber::Integer(*i),
            JsonNumber::Float(bits) => JsonNumber::Float(*bits),
            JsonNumber::Oversized(literal) => JsonNumber::Oversized(literal.clone()),
        }
    }
}

impl JsonValue {
    /// A copy of the whole document.
    pub fn duplicate(&self) -> (out: JsonValue)
        ensures
            out@ == self@,
        decreases self,
    {
        match self {
            JsonValue::Null => JsonValue::Null,
            JsonValue::Bool(b) => JsonValue::Bool(*b),
            JsonValue::Number(n) => JsonValue::Number(n.duplicate()),
            JsonValue::String(s) => JsonValue::String(s.clone()),
            JsonValue::Array(items) => {
                let mut copy: Vec<JsonValue> = Vec::new();
                let n: usize = items.len();
                let mut i: usize = 0;
                while i < n
                    invariant
                        n == items@.len(),
                        i <= n,
                        copy@.len() == i,
                        *self == JsonValue::Array(*items),
                        forall|j: int| 0 <= j < i ==> (#[trigger] copy@[j])@ == items@[j]@,
                    decreases n - i,
                {
                    assert(decreases_to!(*self => (self->Array_0)@[i as int]));
                    let item = items[i].duplicate();
                    copy.push(item);
                    i += 1;
                }
                let out = JsonValue::Array(copy);
                assert(out@ == self@) by {
                    assert(out.model()->Array_0 =~= self.model()->Array_0);
                }
                out
            },
            JsonValue::Object(members) => {
                let mut copy: Vec<JsonMember> = Vec::new();
                let n: usize = members.len();
                let mut i: usize = 0;
                while i < n
                    invariant
                        n == members@.len(),
                        i <= n,
                        copy@.len() == i,
                        *self == JsonValue::Object(*members),
                        forall|j: int|
                            0 <= j < i ==> (#[trigger] copy@[j]).name@ == members@[j].name@
                                && copy@[j].value@ == members@[j].value@,
                    decreases n - i,
                {
                    assert(decreases_to!(*self => (self->Object_0)@[i as int].value));
                    let member = JsonMember {
                        name: members[i].name.clone(),
                        value: members[i].value.duplicate(),
                    };
                    copy.push(member);
                    i += 1;
                }
                let out = JsonValue::Object(copy);
                assert(out@ == self@) by {
                    assert(out.model()->Object_0 =~= self.model()->Object_0);
                }
                out
            },
        }
    }
}

/// Maps a payload value to the parameter that binds it.
pub fn json_to_sea(value: &JsonValue) -> (param: TypedParam)
    ensures
        param@ == param_of(value@),
{
    match value {
        JsonValue::Null => TypedParam::Null,
        JsonValue::Bool(b) => TypedParam::Bool(*b),
        JsonValue::Number(n) => match n {
            JsonNumber::Integer(i) => TypedParam::BigInt(*i),
            JsonNumber::Float(bits) => TypedParam::Double(*bits),
            JsonNumber::Oversized(literal) => TypedParam::String(literal.clone()),
        },
        JsonValue::String(s) => TypedParam::String(s.clone()),
        JsonValue::Array(_) => TypedParam::Json(value.duplicate()),
        JsonValue::Object(_) => TypedParam::Json(value.duplicate()),
    }
}

impl TypedParam {
    /// Writes the parameter back as a payload value.
    pub fn to_json(&self) -> (value: JsonValue)
        ensures
            value@ == json_of(self@),
    {
        match self {
            TypedParam::Null => JsonValue::Null,
            TypedParam::Bool(b) => JsonValue::Bool(*b),
            TypedParam::BigInt(i) => JsonValue::Number(JsonNumber::Integer(*i)),
            TypedParam::Double(bits) => JsonValue::Number(JsonNumber::Float(*bits)),
            TypedParam::String(s) => JsonValue::String(s.clone()),
            TypedParam::Json(v) => v.duplicate(),
        }
    }

    /// A copy of the parameter.
    pub fn duplicate(&self) -> (out: TypedParam)
        ensures
            out@ == self@,
    {
        match self {
            TypedParam::Null => TypedParam::Null,
            TypedParam::Bool(b) => TypedParam::Bool(*b),
            TypedParam::BigInt(i) => TypedParam::BigInt(*i),
            TypedParam::Double(bits) => TypedParam::Double(*bits),
            TypedParam::String(s) => TypedParam::String(s.clone()),
            TypedParam::Json(v) => TypedParam::Json(v.duplicate()),
        }
    }
}

/// Every value but an oversized number comes back from its parameter as it
/// went in.
pub proof fn law_mapping_round_trip(v: JsonModel)
    requires
        !is_oversized(v),
    ensures
        json_of(param_of(v)) == v,
{
}

/// A whole number beyond 64 signed bits is bound as the text of its literal,
/// whatever float comes near it.
pub proof fn law_integer_beyond_range_keeps_its_digits(
    as_unsigned: u64,
    as_float_bits: Option<u64>,
    literal: Seq<char>,
)
    ensures
        param_of(
            JsonModel::Number(classified(None, Some(as_unsigned), as_float_bits, literal)),
        ) == ParamModel::Text(literal),
{
}

/// An oversized number comes back as the text of its literal.
pub proof fn law_oversized_comes_back_as_text(literal: Seq<char>)
    ensures
        json_of(param_of(JsonModel::Number(NumberModel::Oversized(literal)))) == JsonModel::Text(
            literal,
        ),
{
}

} // verus!
