//! Values of storyboard workflow inputs and the kinds they are edited as.

use vstd::prelude::*;
use crate::json::{
    double_bits_of_text, f64_eq_bits, f64_eq_bits_exec, json_eq, parsed_double_bits, string_eq, Num,
    as_bool, as_i64, as_str, clone_entries, clone_items, view_entries, view_items, Json, JsonNumber,
    JsonValue,
};

verus! {

/// How a workflow input is edited and stored.
#[derive(Clone, Copy, Debug, PartialEq, Eq, Structural)]
pub enum StoryboardWorkflowInputKind {
    Text { multiline: bool },
    File,
    Integer,
    Float,
    Boolean,
    Array,
    Object,
    Null,
}

/// What a workflow input means, as far as values can be carried between
/// workflows.
#[derive(Clone, Copy, Debug, PartialEq, Eq, Structural)]
pub enum WorkflowInputSemantic {
    PromptPositive,
    PromptNegative,
    PromptSingle,
    Ratio,
    AspectRatio,
    Other,
}

/// `WorkflowInputSemantic::default()`.
pub fn default_semantic() -> (r: WorkflowInputSemantic)
    ensures
        r == WorkflowInputSemantic::Other,
{
    WorkflowInputSemantic::Other
}

/// The value of a workflow input. A `Float` holds a double as a decimal
/// literal that parses back to it.
#[derive(Debug, PartialEq)]
pub enum StoryboardInputValue {
    Text(String),
    File(String),
    Integer(i64),
    Float(String),
    Boolean(bool),
    Array(Vec<JsonValue>),
    Object(Vec<(String, JsonValue)>),
    Null,
}

/// The mathematical value of a workflow input.
pub enum InputValue {
    Text(Seq<char>),
    File(Seq<char>),
    Integer(i64),
    Float(Seq<char>),
    Boolean(bool),
    Array(Seq<Json>),
    Object(Seq<(Seq<char>, Json)>),
    Null,
}

impl View for StoryboardInputValue {
    type V = InputValue;

    open spec fn view(&self) -> InputValue {
        match self {
            StoryboardInputValue::Text(s) => InputValue::Text(s@),
            StoryboardInputValue::File(s) => InputValue::File(s@),
            StoryboardInputValue::Integer(i) => InputValue::Integer(*i),
            StoryboardInputValue::Float(t) => InputValue::Float(t@),
            StoryboardInputValue::Boolean(b) => InputValue::Boolean(*b),
            StoryboardInputValue::Array(v) => InputValue::Array(view_items(v@)),
            StoryboardInputValue::Object(e) => InputValue::Object(view_entries(e@)),
            StoryboardInputValue::Null => InputValue::Null,
        }
    }
}

/// What `serde_json::Number::as_f64` returns for an integer number, written
/// as a decimal literal.
pub uninterp spec fn integer_as_f64_text(n: Num) -> Seq<char>;

/// `serde_json::Number::as_f64` on an integer number: the double nearest to
/// it, written as a decimal literal. The contract names the result; it does
/// not spell out the rounding.
#[verifier::external_body]
fn number_as_f64_text(n: &JsonNumber) -> (r: Option<String>)
    requires
        !(n is Float),
    ensures
        r is Some,
        r.unwrap()@ == integer_as_f64_text(n@),
{
    let num = match n {
        JsonNumber::PosInt(u) => serde_json::Number::from(*u),
        JsonNumber::NegInt(i) => serde_json::Number::from(*i),
        JsonNumber::Float(_) => serde_json::Number::from(0u8),
    };
    num.as_f64().map(|x| x.to_string())
}

/// `Value::as_f64`, as a decimal literal.
pub open spec fn as_f64_text(j: Json) -> Option<Seq<char>> {
    match j {
        Json::Number(Num::Float(t)) => Some(t),
        Json::Number(n) => Some(integer_as_f64_text(n)),
        _ => None,
    }
}

/// The text of the double zero.
pub open spec fn zero_float_text() -> Seq<char> {
    "0.0"@
}

/// Whether a double, given by its bits, is finite.
pub open spec fn is_finite_bits(b: u64) -> bool {
    (b >> 52) & 0x7ff != 0x7ff
}

/// `StoryboardInputValue::from_json_with_kind`: the value of `j` read as `kind`,
/// falling back to the kind's zero value.
pub open spec fn from_json_with_kind_spec(j: Json, kind: StoryboardWorkflowInputKind) -> InputValue {
    match kind {
        StoryboardWorkflowInputKind::Text { .. } => InputValue::Text(
            match as_str(j) {
                Some(s) => s,
                None => Seq::empty(),
            },
        ),
        StoryboardWorkflowInputKind::File => InputValue::File(
            match as_str(j) {
                Some(s) => s,
                None => Seq::empty(),
            },
        ),
        StoryboardWorkflowInputKind::Integer => InputValue::Integer(
            match as_i64(j) {
                Some(i) => i,
                None => 0,
            },
        ),
        StoryboardWorkflowInputKind::Float => InputValue::Float(
            match as_f64_text(j) {
                Some(t) => t,
                None => zero_float_text(),
            },
        ),
        StoryboardWorkflowInputKind::Boolean => InputValue::Boolean(
            match as_bool(j) {
                Some(b) => b,
                None => false,
            },
        ),
        StoryboardWorkflowInputKind::Array => InputValue::Array(
            match j {
                Json::Arr(a) => a,
                _ => Seq::empty(),
            },
        ),
        StoryboardWorkflowInputKind::Object => InputValue::Object(
            match j {
                Json::Obj(o) => o,
                _ => Seq::empty(),
            },
        ),
        StoryboardWorkflowInputKind::Null => InputValue::Null,
    }
}

/// `StoryboardInputValue::from_raw_json`: the value that a JSON value stands
/// for.
pub open spec fn from_raw_json_spec(j: Json) -> InputValue {
    match j {
        Json::Str(s) => InputValue::Text(s),
        Json::Number(Num::Float(t)) => InputValue::Float(t),
        Json::Number(n) => match as_i64(j) {
            Some(i) => InputValue::Integer(i),
            None => InputValue::Float(integer_as_f64_text(n)),
        },
        Json::Bool(b) => InputValue::Boolean(b),
        Json::Arr(a) => InputValue::Array(a),
        Json::Obj(o) => InputValue::Object(o),
        Json::Null => InputValue::Null,
    }
}

/// `StoryboardInputValue::default_for_kind`.
pub open spec fn default_for_kind_spec(kind: StoryboardWorkflowInputKind) -> InputValue {
    match kind {
        StoryboardWorkflowInputKind::Text { .. } => InputValue::Text(Seq::empty()),
        StoryboardWorkflowInputKind::File => InputValue::File(Seq::empty()),
        StoryboardWorkflowInputKind::Integer => InputValue::Integer(0),
        StoryboardWorkflowInputKind::Float => InputValue::Float(zero_float_text()),
        StoryboardWorkflowInputKind::Boolean => InputValue::Boolean(false),
        StoryboardWorkflowInputKind::Array => InputValue::Array(Seq::empty()),
        StoryboardWorkflowInputKind::Object => InputValue::Object(Seq::empty()),
        StoryboardWorkflowInputKind::Null => InputValue::Null,
    }
}

/// `StoryboardInputValue::matches_kind`.
pub open spec fn matches_kind_spec(v: InputValue, kind: StoryboardWorkflowInputKind) -> bool {
    match (v, kind) {
        (InputValue::Text(_), StoryboardWorkflowInputKind::Text { .. }) => true,
        (InputValue::File(_), StoryboardWorkflowInputKind::File) => true,
        (InputValue::Integer(_), StoryboardWorkflowInputKind::Integer) => true,
        (InputValue::Float(_), StoryboardWorkflowInputKind::Float) => true,
        (InputValue::Boolean(_), StoryboardWorkflowInputKind::Boolean) => true,
        (InputValue::Array(_), StoryboardWorkflowInputKind::Array) => true,
        (InputValue::Object(_), StoryboardWorkflowInputKind::Object) => true,
        (InputValue::Null, StoryboardWorkflowInputKind::Null) => true,
        _ => false,
    }
}

/// `StoryboardInputValue::to_json`: non-finite doubles become `null`.
pub open spec fn to_json_spec(v: InputValue) -> Json {
    match v {
        InputValue::Text(s) => Json::Str(s),
        InputValue::File(s) => Json::Str(s),
        InputValue::Integer(i) => Json::Number(
            if i >= 0 {
                Num::PosInt(i as u64)
            } else {
                Num::NegInt(i)
            },
        ),
        InputValue::Float(t) => if is_finite_bits(parsed_double_bits(t)) {
            Json::Number(Num::Float(t))
        } else {
            Json::Null
        },
        InputValue::Boolean(b) => Json::Bool(b),
        InputValue::Array(a) => Json::Arr(a),
        InputValue::Object(o) => Json::Obj(o),
        InputValue::Null => Json::Null,
    }
}

/// The string of a JSON value, or the empty string.
fn str_or_empty(value: &JsonValue) -> (r: String)
    ensures
        r@ == match as_str(value@) {
            Some(s) => s,
            None => Seq::<char>::empty(),
        },
{
    match value {
        JsonValue::String(s) => s.clone(),
        _ => String::new(),
    }
}

/// `Value::as_i64`.
pub fn json_as_i64(value: &JsonValue) -> (r: Option<i64>)
    ensures
        r == as_i64(value@),
{
    match value {
        JsonValue::Number(JsonNumber::PosInt(u)) => if *u <= 0x7fff_ffff_ffff_ffffu64 {
            Some(*u as i64)
        } else {
            None
        },
        JsonValue::Number(JsonNumber::NegInt(i)) => Some(*i),
        _ => None,
    }
}

/// `Value::as_str`.
pub fn json_as_str(value: &JsonValue) -> (r: Option<&String>)
    ensures
        match r {
            Some(s) => as_str(value@) == Some(s@),
            None => as_str(value@) is None,
        },
{
    match value {
        JsonValue::String(s) => Some(s),
        _ => None,
    }
}

/// `Value::as_f64`, as a decimal literal.
pub fn json_as_f64_text(value: &JsonValue) -> (r: Option<String>)
    ensures
        match r {
            Some(t) => as_f64_text(value@) == Some(t@),
            None => as_f64_text(value@) is None,
        },
{
    match value {
        JsonValue::Number(JsonNumber::Float(t)) => Some(t.clone()),
        JsonValue::Number(n) => number_as_f64_text(n),
        _ => None,
    }
}

/// The text of the double zero.
fn zero_float() -> (r: String)
    ensures
        r@ == zero_float_text(),
{
    String::from_str("0.0")
}

impl StoryboardInputValue {
    /// A deep copy with the same view.
    pub fn deep_clone(&self) -> (r: StoryboardInputValue)
        ensures
            r@ == self@,
    {
        match self {
            StoryboardInputValue::Text(s) => StoryboardInputValue::Text(s.clone()),
            StoryboardInputValue::File(s) => StoryboardInputValue::File(s.clone()),
            StoryboardInputValue::Integer(i) => StoryboardInputValue::Integer(*i),
            StoryboardInputValue::Float(t) => StoryboardInputValue::Float(t.clone()),
            StoryboardInputValue::Boolean(b) => StoryboardInputValue::Boolean(*b),
            StoryboardInputValue::Array(v) => StoryboardInputValue::Array(clone_items(v)),
            StoryboardInputValue::Object(e) => StoryboardInputValue::Object(clone_entries(e)),
            StoryboardInputValue::Null => StoryboardInputValue::Null,
        }
    }

    /// The value of `value` read as `kind`.
    pub fn from_json_with_kind(value: &JsonValue, kind: &StoryboardWorkflowInputKind) -> (r: Self)
        ensures
            r@ == from_json_with_kind_spec(value@, *kind),
    {
        match kind {
            StoryboardWorkflowInputKind::Text { .. } => StoryboardInputValue::Text(
                str_or_empty(value),
            ),
            StoryboardWorkflowInputKind::File => StoryboardInputValue::File(str_or_empty(value)),
            StoryboardWorkflowInputKind::Integer => StoryboardInputValue::Integer(
                match json_as_i64(value) {
                    Some(i) => i,
                    None => 0,
                },
            ),
            StoryboardWorkflowInputKind::Float => StoryboardInputValue::Float(
                match json_as_f64_text(value) {
                    Some(t) => t,
                    None => zero_float(),
                },
            ),
            StoryboardWorkflowInputKind::Boolean => StoryboardInputValue::Boolean(
                match value {
                    JsonValue::Bool(b) => *b,
                    _ => false,
                },
            ),
            StoryboardWorkflowInputKind::Array => StoryboardInputValue::Array(
                match value {
                    JsonValue::Array(v) => clone_items(v),
                    _ => Vec::new(),
                },
            ),
            StoryboardWorkflowInputKind::Object => StoryboardInputValue::Object(
                match value {
                    JsonValue::Object(e) => clone_entries(e),
                    _ => Vec::new(),
                },
            ),
            StoryboardWorkflowInputKind::Null => StoryboardInputValue::Null,
        }
    }

    /// The value that a JSON value stands for.
    pub fn from_raw_json(value: JsonValue) -> (r: Self)
        ensures
            r@ == from_raw_json_spec(value@),
    {
        match value {
            JsonValue::String(s) => StoryboardInputValue::Text(s),
            JsonValue::Number(JsonNumber::Float(t)) => StoryboardInputValue::Float(t),
            JsonValue::Number(n) => {
                let j = JsonValue::Number(n);
                match json_as_i64(&j) {
                    Some(i) => StoryboardInputValue::Integer(i),
                    None => match j {
                        JsonValue::Number(n) => StoryboardInputValue::Float(
                            match number_as_f64_text(&n) {
                                Some(t) => t,
                                None => zero_float(),
                            },
                        ),
                        _ => StoryboardInputValue::Null,
                    },
                }
            },
            JsonValue::Bool(b) => StoryboardInputValue::Boolean(b),
            JsonValue::Array(a) => StoryboardInputValue::Array(a),
            JsonValue::Object(o) => StoryboardInputValue::Object(o),
            JsonValue::Null => StoryboardInputValue::Null,
        }
    }

    /// The zero value of a kind.
    pub fn default_for_kind(kind: &StoryboardWorkflowInputKind) -> (r: Self)
        ensures
            r@ == default_for_kind_spec(*kind),
    {
        match kind {
            StoryboardWorkflowInputKind::Text { .. } => StoryboardInputValue::Text(String::new()),
            StoryboardWorkflowInputKind::File => StoryboardInputValue::File(String::new()),
            StoryboardWorkflowInputKind::Integer => StoryboardInputValue::Integer(0),
            StoryboardWorkflowInputKind::Float => StoryboardInputValue::Float(zero_float()),
            StoryboardWorkflowInputKind::Boolean => StoryboardInputValue::Boolean(false),
            StoryboardWorkflowInputKind::Array => {
                let v: Vec<JsonValue> = Vec::new();
                proof {
                    assert(view_items(v@) =~= Seq::<Json>::empty());
                }
                StoryboardInputValue::Array(v)
            },
            StoryboardWorkflowInputKind::Object => {
                let v: Vec<(String, JsonValue)> = Vec::new();
                proof {
                    assert(view_entries(v@) =~= Seq::<(Seq<char>, Json)>::empty());
                }
                StoryboardInputValue::Object(v)
            },
            StoryboardWorkflowInputKind::Null => StoryboardInputValue::Null,
        }
    }

    /// Whether the value is of the given kind.
    pub fn matches_kind(&self, kind: &StoryboardWorkflowInputKind) -> (r: bool)
        ensures
            r == matches_kind_spec(self@, *kind),
    {
        match (self, kind) {
            (StoryboardInputValue::Text(_), StoryboardWorkflowInputKind::Text { .. }) => true,
            (StoryboardInputValue::File(_), StoryboardWorkflowInputKind::File) => true,
            (StoryboardInputValue::Integer(_), StoryboardWorkflowInputKind::Integer) => true,
            (StoryboardInputValue::Float(_), StoryboardWorkflowInputKind::Float) => true,
            (StoryboardInputValue::Boolean(_), StoryboardWorkflowInputKind::Boolean) => true,
            (StoryboardInputValue::Array(_), StoryboardWorkflowInputKind::Array) => true,
            (StoryboardInputValue::Object(_), StoryboardWorkflowInputKind::Object) => true,
            (StoryboardInputValue::Null, StoryboardWorkflowInputKind::Null) => true,
            _ => false,
        }
    }

    /// The JSON value that the input is sent as.
    pub fn to_json(&self) -> (r: JsonValue)
        ensures
            r@ == to_json_spec(self@),
    {
        match self {
            StoryboardInputValue::Text(s) => JsonValue::String(s.clone()),
            StoryboardInputValue::File(s) => JsonValue::String(s.clone()),
            StoryboardInputValue::Integer(i) => JsonValue::Number(
                if *i >= 0 {
                    JsonNumber::PosInt(*i as u64)
                } else {
                    JsonNumber::NegInt(*i)
                },
            ),
            StoryboardInputValue::Float(t) => {
                let b = double_bits_of_text(t.as_str());
                if (b >> 52u64) & 0x7ff != 0x7ff {
                    JsonValue::Number(JsonNumber::Float(t.clone()))
                } else {
                    JsonValue::Null
                }
            },
            StoryboardInputValue::Boolean(b) => JsonValue::Bool(*b),
            StoryboardInputValue::Array(v) => JsonValue::Array(clone_items(v)),
            StoryboardInputValue::Object(e) => JsonValue::Object(clone_entries(e)),
            StoryboardInputValue::Null => JsonValue::Null,
        }
    }
}

} // verus!

verus! {

/// `StoryboardInputValue ==`: strings and integers by value, doubles as
/// `f64 ==` does, arrays and objects as `serde_json::Value ==` does.
pub open spec fn input_value_eq(a: InputValue, b: InputValue) -> bool {
    match (a, b) {
        (InputValue::Text(x), InputValue::Text(y)) => x == y,
        (InputValue::File(x), InputValue::File(y)) => x == y,
        (InputValue::Integer(x), InputValue::Integer(y)) => x == y,
        (InputValue::Float(x), InputValue::Float(y)) => f64_eq_bits(parsed_double_bits(x), parsed_double_bits(y)),
        (InputValue::Boolean(x), InputValue::Boolean(y)) => x == y,
        (InputValue::Array(x), InputValue::Array(y)) => json_eq(Json::Arr(x), Json::Arr(y)),
        (InputValue::Object(x), InputValue::Object(y)) => json_eq(Json::Obj(x), Json::Obj(y)),
        (InputValue::Null, InputValue::Null) => true,
        _ => false,
    }
}

/// `HashMap<String, StoryboardInputValue> ==`.
pub open spec fn inputs_eq(a: Map<Seq<char>, InputValue>, b: Map<Seq<char>, InputValue>) -> bool {
    a.dom() == b.dom() && forall|k: Seq<char>| #[trigger] a.dom().contains(k) ==> input_value_eq(a[k], b[k])
}

impl StoryboardInputValue {
    /// `StoryboardInputValue ==`.
    pub fn value_eq(&self, other: &StoryboardInputValue) -> (r: bool)
        ensures
            r == input_value_eq(self@, other@),
    {
        match (self, other) {
            (StoryboardInputValue::Text(x), StoryboardInputValue::Text(y)) => string_eq(x, y),
            (StoryboardInputValue::File(x), StoryboardInputValue::File(y)) => string_eq(x, y),
            (StoryboardInputValue::Integer(x), StoryboardInputValue::Integer(y)) => *x == *y,
            (StoryboardInputValue::Float(x), StoryboardInputValue::Float(y)) => f64_eq_bits_exec(
                double_bits_of_text(x.as_str()),
                double_bits_of_text(y.as_str()),
            ),
            (StoryboardInputValue::Boolean(x), StoryboardInputValue::Boolean(y)) => *x == *y,
            (StoryboardInputValue::Array(x), StoryboardInputValue::Array(y)) => {
                let a = JsonValue::Array(clone_items(x));
                let b = JsonValue::Array(clone_items(y));
                a.json_eq(&b)
            },
            (StoryboardInputValue::Object(x), StoryboardInputValue::Object(y)) => {
                let a = JsonValue::Object(clone_entries(x));
                let b = JsonValue::Object(clone_entries(y));
                a.json_eq(&b)
            },
            (StoryboardInputValue::Null, StoryboardInputValue::Null) => true,
            _ => false,
        }
    }
}

} // verus!
