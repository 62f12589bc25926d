//! How workflow input values are shown and edited: a short text preview of
//! a JSON value, and a text input's value made text before it is edited.

use vstd::prelude::*;
use crate::json::{lemma_view_items, Json, JsonNumber, JsonValue, Num};
use crate::text::{cat, cat3, i64_decimal, i64_decimal_exec, u64_decimal, u64_decimal_string};
use crate::workflow_input::{InputValue, StoryboardInputValue};
use crate::workflow_preset::StoryboardWorkflowInputSpec;

verus! {

/// `Number::to_string`: an integer in decimal; a double as the text kept
/// for it.
pub open spec fn number_text(n: Num) -> Seq<char> {
    match n {
        Num::PosInt(u) => u64_decimal(u),
        Num::NegInt(i) => i64_decimal(i),
        Num::Float(t) => t,
    }
}

/// `format_workflow_input_value`: a string as itself, a number or boolean
/// as written, an array as its first three items (and `…` when there are
/// more) in brackets, an object as `<object>`, null as `null`.
pub open spec fn value_preview(j: Json) -> Seq<char>
    decreases j,
{
    match j {
        Json::Str(s) => s,
        Json::Number(n) => number_text(n),
        Json::Bool(b) => if b {
            "true"@
        } else {
            "false"@
        },
        Json::Arr(items) => {
            let suffix = if items.len() > 3 {
                ", …"@
            } else {
                Seq::<char>::empty()
            };
            let shown = if items.len() == 0 {
                Seq::<char>::empty()
            } else if items.len() == 1 {
                value_preview(items[0])
            } else if items.len() == 2 {
                value_preview(items[0]) + ", "@ + value_preview(items[1])
            } else {
                value_preview(items[0]) + ", "@ + value_preview(items[1]) + ", "@ + value_preview(items[2])
            };
            "["@ + shown + suffix + "]"@
        },
        Json::Obj(_) => "<object>"@,
        Json::Null => "null"@,
    }
}

/// `format_workflow_input_value`; see `value_preview`.
pub fn format_workflow_input_value(value: &JsonValue) -> (r: String)
    ensures
        r@ == value_preview(value@),
    decreases value,
{
    match value {
        JsonValue::String(s) => s.clone(),
        JsonValue::Number(n) => match n {
            JsonNumber::PosInt(u) => u64_decimal_string(*u),
            JsonNumber::NegInt(i) => i64_decimal_exec(*i),
            JsonNumber::Float(t) => t.clone(),
        },
        JsonValue::Bool(b) => if *b {
            String::from_str("true")
        } else {
            String::from_str("false")
        },
        JsonValue::Array(items) => {
            proof {
                lemma_view_items(items@);
            }
            let n = items.len();
            let shown = if n == 0 {
                String::new()
            } else if n == 1 {
                format_workflow_input_value(&items[0])
            } else if n == 2 {
                let a = format_workflow_input_value(&items[0]);
                let b = format_workflow_input_value(&items[1]);
                cat3(a.as_str(), ", ", b.as_str())
            } else {
                let a = format_workflow_input_value(&items[0]);
                let b = format_workflow_input_value(&items[1]);
                let c = format_workflow_input_value(&items[2]);
                let ab = cat3(a.as_str(), ", ", b.as_str());
                cat3(ab.as_str(), ", ", c.as_str())
            };
            let inner = if n > 3 {
                cat(shown.as_str(), ", …")
            } else {
                shown
            };
            cat3("[", inner.as_str(), "]")
        },
        JsonValue::Object(_) => String::from_str("<object>"),
        JsonValue::Null => String::from_str("null"),
    }
}

/// The text a text input starts from when its value is not text: the
/// spec's default when that is text, else nothing.
pub open spec fn text_fallback(spec: StoryboardWorkflowInputSpec) -> Seq<char> {
    match spec.default_value {
        Some(StoryboardInputValue::Text(t)) => t@,
        _ => Seq::empty(),
    }
}

/// `ensure_text_input_value`: a value that is text stays; any other becomes
/// the text of `text_fallback`.
pub fn ensure_text_input_value(entry: &mut StoryboardInputValue, spec: &StoryboardWorkflowInputSpec)
    ensures
        match *old(entry) {
            StoryboardInputValue::Text(_) => *final(entry) == *old(entry),
            _ => final(entry)@ == InputValue::Text(text_fallback(*spec)),
        },
{
    if let StoryboardInputValue::Text(_) = entry {
        return;
    }
    let replacement = match &spec.default_value {
        Some(StoryboardInputValue::Text(t)) => t.clone(),
        _ => String::new(),
    };
    *entry = StoryboardInputValue::Text(replacement);
}

} // verus!
