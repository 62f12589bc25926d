//! Asking a local Ollama server for text: where the request goes, what it
//! carries, and what its answer means.

use vstd::prelude::*;
use crate::cloud_job::strip_trailing_slashes;
use crate::json::{lemma_view_entries, member, obj_get, view_entries, Json, JsonNumber, JsonValue};
use crate::json_text::{parse_json, parsed_json};
use crate::text::{chars_of, ends_with, nat_decimal, string_of, trim, trim_vec, u64_decimal_string};

verus! {

/// The model asked for: the trimmed name, or `llama3.2:latest`.
pub open spec fn ollama_model_spec(model: Seq<char>) -> Seq<char> {
    if trim(model).len() == 0 {
        "llama3.2:latest"@
    } else {
        trim(model)
    }
}

/// The generate endpoint: the trimmed base (or the local default) when it
/// already ends with `/api/generate`, else that path under it.
pub open spec fn ollama_endpoint_spec(base: Seq<char>) -> Seq<char> {
    let b = if trim(base).len() == 0 {
        "http://localhost:11434"@
    } else {
        trim(base)
    };
    if ends_with(b, "/api/generate"@) {
        b
    } else {
        strip_trailing_slashes(b) + "/api/generate"@
    }
}

/// Whether the characters end with the literal `lit`.
fn ends_with_lit(s: &Vec<char>, lit: &str) -> (r: bool)
    ensures
        r == ends_with(s@, lit@),
{
    let p = chars_of(lit);
    if p.len() > s.len() {
        return false;
    }
    let slen = s.len();
    let off = slen - p.len();
    let mut i: usize = 0;
    while i < p.len()
        invariant
            slen == s@.len(),
            p@ == lit@,
            off + p@.len() == s@.len(),
            i <= p@.len(),
            forall|k: int| 0 <= k < i ==> s@[off + k] == p@[k],
        decreases p@.len() - i,
    {
        if s[off + i] != p[i] {
            assert(s@.subrange(off as int, s@.len() as int)[i as int] != p@[i as int]);
            return false;
        }
        i = i + 1;
    }
    assert(s@.subrange(off as int, s@.len() as int) =~= p@);
    true
}

/// Where a local model is asked: the generate endpoint and the model; see
/// `ollama_endpoint_spec` and `ollama_model_spec`.
pub fn ollama_target(base_url: &str, model: &str) -> (r: (String, String))
    ensures
        r.0@ == ollama_endpoint_spec(base_url@),
        r.1@ == ollama_model_spec(model@),
{
    let m = trim_vec(chars_of(model).as_slice());
    let model_name = if m.len() == 0 {
        String::from_str("llama3.2:latest")
    } else {
        string_of(m.as_slice())
    };
    let t = trim_vec(chars_of(base_url).as_slice());
    let b = if t.len() == 0 {
        chars_of("http://localhost:11434")
    } else {
        t
    };
    let endpoint = if ends_with_lit(&b, "/api/generate") {
        string_of(b.as_slice())
    } else {
        let mut j: usize = b.len();
        assert(b@.subrange(0, j as int) =~= b@);
        while j > 0 && b[j - 1] == '/'
            invariant
                j <= b@.len(),
                strip_trailing_slashes(b@) == strip_trailing_slashes(b@.subrange(0, j as int)),
            decreases j,
        {
            assert(b@.subrange(0, j as int).drop_last() =~= b@.subrange(0, j - 1));
            j = j - 1;
        }
        let mut kept: Vec<char> = Vec::new();
        let mut k: usize = 0;
        while k < j
            invariant
                k <= j <= b@.len(),
                kept@ == b@.subrange(0, k as int),
            decreases j - k,
        {
            kept.push(b[k]);
            k = k + 1;
            assert(kept@ =~= b@.subrange(0, k as int));
        }
        let base_text = string_of(kept.as_slice());
        crate::text::cat(base_text.as_str(), "/api/generate")
    };
    (endpoint, model_name)
}

/// The request body: the model, the prompt, no streaming, and the options
/// (the temperature as given, at most 1024 tokens).
pub open spec fn ollama_payload_spec(model: Seq<char>, prompt: Seq<char>, temperature: crate::json::Num) -> Json {
    Json::Obj(
        seq![
            ("model"@, Json::Str(model)),
            ("prompt"@, Json::Str(prompt)),
            ("stream"@, Json::Bool(false)),
            ("options"@, Json::Obj(
                seq![
                    ("temperature"@, Json::Number(temperature)),
                    ("num_predict"@, Json::Number(crate::json::Num::PosInt(1024))),
                ],
            )),
        ],
    )
}

/// The request body for a local model, for a temperature already clamped to
/// `[0, 2]` as a JSON number; see `ollama_payload_spec`.
pub fn ollama_payload(model: &str, prompt: &str, temperature: JsonNumber) -> (r: JsonValue)
    ensures
        r@ == ollama_payload_spec(model@, prompt@, temperature@),
{
    let ghost tv = temperature@;
    let options = vec![
        (String::from_str("temperature"), JsonValue::Number(temperature)),
        (String::from_str("num_predict"), JsonValue::Number(JsonNumber::PosInt(1024))),
    ];
    proof {
        lemma_view_entries(options@);
    }
    let ghost ov = view_entries(options@);
    assert(ov =~= seq![("temperature"@, Json::Number(tv)), ("num_predict"@, Json::Number(crate::json::Num::PosInt(1024)))]);
    let fields = vec![
        (String::from_str("model"), JsonValue::String(String::from_str(model))),
        (String::from_str("prompt"), JsonValue::String(String::from_str(prompt))),
        (String::from_str("stream"), JsonValue::Bool(false)),
        (String::from_str("options"), JsonValue::Object(options)),
    ];
    proof {
        lemma_view_entries(fields@);
        assert(view_entries(fields@) =~= ollama_payload_spec(model@, prompt@, tv)->Obj_0);
    }
    JsonValue::Object(fields)
}

/// What an answer with HTTP status `code` and body `body` means: an error
/// status gives `Ollama {code}: {body}`; otherwise the body must be JSON; its
/// `error` string is the error; its trimmed non-empty `response` is the
/// text; a `done` answer without text gives no text; anything else is an
/// error that quotes the body.
pub open spec fn ollama_answer_spec(code: u16, body: Seq<char>) -> Result<Seq<char>, Seq<char>> {
    if code >= 400 {
        Err("Ollama "@ + nat_decimal(code as nat) + ": "@ + body)
    } else {
        match parsed_json(body) {
            Err(_) => Err("Ollama returned invalid JSON: "@ + body),
            Ok(v) => match member(v, "error"@) {
                Some(Json::Str(e)) => Err(e),
                _ => {
                    let text = match member(v, "response"@) {
                        Some(Json::Str(t)) => trim(t),
                        _ => Seq::empty(),
                    };
                    if text.len() > 0 {
                        Ok(text)
                    } else if member(v, "done"@) == Some(Json::Bool(true)) {
                        Ok(Seq::empty())
                    } else {
                        Err("Ollama response missing expected content: "@ + body)
                    }
                },
            },
        }
    }
}

/// A member of an object value.
fn member_of<'a>(v: &'a JsonValue, k: &str) -> (r: Option<&'a JsonValue>)
    ensures
        crate::json::opt_view(r) == member(v@, k@),
{
    match v {
        JsonValue::Object(e) => obj_get(e, k),
        _ => None,
    }
}

/// The reply text of a local model's answer, or the error; see
/// `ollama_answer_spec`.
pub fn ollama_answer(code: u16, body: &str) -> (r: Result<String, String>)
    ensures
        match r {
            Ok(t) => ollama_answer_spec(code, body@) == Ok::<Seq<char>, Seq<char>>(t@),
            Err(e) => ollama_answer_spec(code, body@) == Err::<Seq<char>, Seq<char>>(e@),
        },
{
    if code >= 400 {
        let c = u64_decimal_string(code as u64);
        let head = crate::text::cat3("Ollama ", c.as_str(), ": ");
        return Err(crate::text::cat(head.as_str(), body));
    }
    let v = match parse_json(body) {
        Ok(v) => v,
        Err(_) => {
            return Err(crate::text::cat("Ollama returned invalid JSON: ", body));
        },
    };
    if let Some(JsonValue::String(e)) = member_of(&v, "error") {
        return Err(e.clone());
    }
    let text = match member_of(&v, "response") {
        Some(JsonValue::String(t)) => trim_vec(chars_of(t.as_str()).as_slice()),
        _ => Vec::new(),
    };
    if text.len() > 0 {
        return Ok(string_of(text.as_slice()));
    }
    let done = match member_of(&v, "done") {
        Some(JsonValue::Bool(b)) => *b,
        _ => false,
    };
    if done {
        Ok(String::new())
    } else {
        Err(crate::text::cat("Ollama response missing expected content: ", body))
    }
}

} // verus!
