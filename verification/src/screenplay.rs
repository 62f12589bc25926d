//! Screenplay drafts: the shapes a language model's draft is turned into,
//! and the helpers that read its metadata and trim its text.
//!
//! Durations and frame rates are single-precision floats in the editor; the
//! library holds them as their bit patterns.

use vstd::prelude::*;
use crate::json::{get, lemma_view_items, obj_get, view_items, Json, JsonValue};
use crate::text::{
    chars_of, concat_chars, string_of, trim, trim_vec, utf8_len, utf8_width,
};
use crate::workflow_input::json_as_str;
use crate::workflow_preset::as_str_opt;

verus! {

/// The language-model back ends a screenplay session can use.
#[derive(Debug, PartialEq)]
pub enum ProviderKind {
    OpenAi,
    Gemini,
    Mock,
    Custom(String),
}

/// A draft as the language model returns it.
pub struct LlmScreenplayDraft {
    pub script: String,
    pub synopsis: Option<String>,
    pub metadata: JsonValue,
}

/// `Option::<String>` by view.
pub open spec fn opt_string_view(o: Option<String>) -> Option<Seq<char>> {
    match o {
        Some(s) => Some(s@),
        None => None,
    }
}

/// The strings of a vector, by view.
pub open spec fn strings_view(v: Seq<String>) -> Seq<Seq<char>> {
    v.map_values(|s: String| s@)
}

/// `clean_optional_string`: the trimmed text, when it is not blank.
pub open spec fn clean_spec(value: Option<Seq<char>>) -> Option<Seq<char>> {
    match value {
        Some(s) => if trim(s).len() > 0 {
            Some(trim(s))
        } else {
            None
        },
        None => None,
    }
}

/// `clean_optional_string`: trims the text and drops it when blank.
pub fn clean_optional_string(value: Option<String>) -> (r: Option<String>)
    ensures
        opt_string_view(r) == clean_spec(opt_string_view(value)),
{
    match value {
        Some(raw) => {
            let t = trim_vec(chars_of(raw.as_str()).as_slice());
            if t.len() == 0 {
                None
            } else {
                Some(string_of(t.as_slice()))
            }
        },
        None => None,
    }
}

/// Byte offset `b` of the UTF-8 encoding of `s` falls between two
/// characters (`str::is_char_boundary`).
pub open spec fn char_boundary(s: Seq<char>, b: int) -> bool {
    exists|k: int| 0 <= k <= s.len() && utf8_len(s.subrange(0, k)) == b
}

/// The number of characters whose encoding takes the first `b` bytes.
pub open spec fn chars_in_bytes(s: Seq<char>, b: int) -> int {
    choose|k: int| 0 <= k <= s.len() && utf8_len(s.subrange(0, k)) == b
}

/// `truncate_preview`: the trimmed text, or its first `max_len` bytes
/// followed by `...` when it is longer.
pub open spec fn preview_spec(text: Seq<char>, max_len: int) -> Seq<char> {
    let t = trim(text);
    if utf8_len(t) <= max_len {
        t
    } else {
        t.subrange(0, chars_in_bytes(t, max_len)) + "..."@
    }
}

/// The text can be cut for a preview of `max_len` bytes: it fits, or the
/// cut falls between two characters.
pub open spec fn previewable(text: Seq<char>, max_len: int) -> bool {
    utf8_len(trim(text)) <= max_len || char_boundary(trim(text), max_len)
}

/// The byte length of a prefix grows with each character.
proof fn lemma_utf8_prefix_step(s: Seq<char>, k: int)
    requires
        0 <= k < s.len(),
    ensures
        utf8_len(s.subrange(0, k + 1)) == utf8_len(s.subrange(0, k)) + utf8_width(s[k]),
        utf8_width(s[k]) >= 1,
{
    assert(s.subrange(0, k + 1).drop_last() =~= s.subrange(0, k));
}

/// The byte length of prefixes is strictly increasing.
proof fn lemma_utf8_prefix_mono(s: Seq<char>, i: int, j: int)
    requires
        0 <= i < j <= s.len(),
    ensures
        utf8_len(s.subrange(0, i)) < utf8_len(s.subrange(0, j)),
    decreases j - i,
{
    lemma_utf8_prefix_step(s, j - 1);
    if i < j - 1 {
        lemma_utf8_prefix_mono(s, i, j - 1);
    }
}

/// Byte length of the whole text, from its prefixes.
proof fn lemma_utf8_whole(s: Seq<char>)
    ensures
        utf8_len(s.subrange(0, s.len() as int)) == utf8_len(s),
{
    assert(s.subrange(0, s.len() as int) =~= s);
}

/// The UTF-8 width of one character.
fn utf8_width_exec(c: char) -> (r: usize)
    ensures
        r == utf8_width(c),
{
    if (c as u32) < 0x80 {
        1
    } else if (c as u32) < 0x800 {
        2
    } else if (c as u32) < 0x10000 {
        3
    } else {
        4
    }
}

/// `truncate_preview`: the trimmed text, cut to `max_len` bytes with `...`
/// appended when it is longer.
pub fn truncate_preview(text: &str, max_len: usize) -> (r: String)
    requires
        previewable(text@, max_len as int),
    ensures
        r@ == preview_spec(text@, max_len as int),
{
    let t = trim_vec(chars_of(text).as_slice());
    let ghost tv = t@;
    let mut acc: usize = 0;
    let mut i: usize = 0;
    while i < t.len()
        invariant
            tv == t@,
            tv == trim(text@),
            previewable(text@, max_len as int),
            i <= t@.len(),
            acc == utf8_len(tv.subrange(0, i as int)),
            acc <= max_len,
        decreases t@.len() - i,
    {
        let w = utf8_width_exec(t[i]);
        proof {
            lemma_utf8_prefix_step(tv, i as int);
        }
        if w > max_len - acc {
            proof {
                lemma_utf8_whole(tv);
                if i + 1 < tv.len() {
                    lemma_utf8_prefix_mono(tv, i + 1, tv.len() as int);
                }
                assert(utf8_len(tv) > max_len);
                assert(char_boundary(tv, max_len as int));
                let k = chars_in_bytes(tv, max_len as int);
                assert(0 <= k <= tv.len() && utf8_len(tv.subrange(0, k)) == max_len);
                if k < i {
                    lemma_utf8_prefix_mono(tv, k, i as int);
                } else if k > i {
                    lemma_utf8_prefix_mono(tv, i + 1, k);
                    if k > i + 1 {
                    }
                }
                assert(k == i);
            }
            let head = crate::text::copy_chars(vstd::slice::slice_subrange(t.as_slice(), 0, i));
            let out = concat_chars(head.as_slice(), chars_of("...").as_slice());
            return string_of(out.as_slice());
        }
        acc = acc + w;
        i = i + 1;
    }
    proof {
        lemma_utf8_whole(tv);
    }
    string_of(t.as_slice())
}


/// The strings among the items of an array, in order.
pub open spec fn string_items(a: Seq<Json>) -> Seq<Seq<char>>
    decreases a.len(),
{
    if a.len() == 0 {
        Seq::empty()
    } else {
        match a.last() {
            Json::Str(t) => string_items(a.drop_last()).push(t),
            _ => string_items(a.drop_last()),
        }
    }
}

/// The string member `k`, or `default` when it is missing or not a string.
pub open spec fn str_or(e: Seq<(Seq<char>, Json)>, k: Seq<char>, default: Seq<char>) -> Seq<char> {
    match as_str_opt(get(e, k)) {
        Some(s) => s,
        None => default,
    }
}

/// `extract_draft_metadata`: title, genre, style tags and visual style read
/// from the draft's metadata object, with their defaults.
pub open spec fn metadata_spec(m: Json) -> (Seq<char>, Seq<char>, Seq<Seq<char>>, Seq<char>) {
    match m {
        Json::Obj(e) => (
            str_or(e, "title"@, "Generated Screenplay"@),
            str_or(e, "genre"@, "Drama"@),
            match get(e, "style_tags"@) {
                Some(Json::Arr(a)) => string_items(a),
                _ => Seq::empty(),
            },
            "Generated via "@ + str_or(e, "source"@, "LLM"@),
        ),
        _ => ("Generated Screenplay"@, "Drama"@, Seq::empty(), "Generated via LLM"@),
    }
}

/// The string member `k`, or the literal `default`.
fn str_member_or(e: &Vec<(String, JsonValue)>, k: &str, default: &str) -> (r: String)
    ensures
        r@ == str_or(crate::json::view_entries(e@), k@, default@),
{
    match obj_get(e, k) {
        Some(v) => match json_as_str(v) {
            Some(s) => s.clone(),
            None => String::from_str(default),
        },
        None => String::from_str(default),
    }
}

/// `extract_draft_metadata`.
pub fn extract_draft_metadata(draft: &LlmScreenplayDraft) -> (r: (String, String, Vec<String>, String))
    ensures
        (r.0@, r.1@, strings_view(r.2@), r.3@) == metadata_spec(draft.metadata@),
{
    match &draft.metadata {
        JsonValue::Object(e) => {
            let title = str_member_or(e, "title", "Generated Screenplay");
            let genre = str_member_or(e, "genre", "Drama");
            let mut tags: Vec<String> = Vec::new();
            if let Some(JsonValue::Array(a)) = obj_get(e, "style_tags") {
                proof {
                    lemma_view_items(a@);
                }
                let mut i: usize = 0;
                while i < a.len()
                    invariant
                        i <= a@.len(),
                        view_items(a@).len() == a@.len(),
                        forall|j: int| 0 <= j < a@.len() ==> #[trigger] view_items(a@)[j] == a@[j]@,
                        strings_view(tags@) == string_items(view_items(a@).subrange(0, i as int)),
                    decreases a@.len() - i,
                {
                    proof {
                        let p = view_items(a@).subrange(0, i + 1);
                        assert(p.drop_last() =~= view_items(a@).subrange(0, i as int));
                        assert(p.last() == a@[i as int]@);
                    }
                    if let JsonValue::String(t) = &a[i] {
                        let ghost before = tags@;
                        tags.push(t.clone());
                        assert(strings_view(tags@) =~= strings_view(before).push(t@));
                    }
                    i = i + 1;
                }
                assert(view_items(a@).subrange(0, a@.len() as int) =~= view_items(a@));
            }
            let source = str_member_or(e, "source", "LLM");
            let style = concat_chars(chars_of("Generated via ").as_slice(), chars_of(source.as_str()).as_slice());
            (title, genre, tags, string_of(style.as_slice()))
        },
        _ => {
            let tags: Vec<String> = Vec::new();
            assert(strings_view(tags@) =~= Seq::<Seq<char>>::empty());
            (
                String::from_str("Generated Screenplay"),
                String::from_str("Drama"),
                tags,
                String::from_str("Generated via LLM"),
            )
        },
    }
}

/// The models offered for a back end.
pub open spec fn model_options(kind: ProviderKind) -> Seq<Seq<char>> {
    match kind {
        ProviderKind::OpenAi => seq!["gpt-5"@, "gpt-4o"@, "gpt-4o-mini"@, "o1-mini"@],
        ProviderKind::Gemini => seq!["gemini-2.5-flash"@, "gemini-2.5-pro"@],
        ProviderKind::Mock => seq!["mock-screenwriter"@],
        ProviderKind::Custom(_) => Seq::<Seq<char>>::empty(),
    }
}

/// `provider_model_options`: the models offered for a back end.
pub fn provider_model_options(kind: &ProviderKind) -> (r: Vec<&'static str>)
    ensures
        crate::comfy_prompt::lits_view(r@) == model_options(*kind),
{
    let r: Vec<&'static str> = match kind {
        ProviderKind::OpenAi => vec!["gpt-5", "gpt-4o", "gpt-4o-mini", "o1-mini"],
        ProviderKind::Gemini => vec!["gemini-2.5-flash", "gemini-2.5-pro"],
        ProviderKind::Mock => vec!["mock-screenwriter"],
        ProviderKind::Custom(_) => Vec::new(),
    };
    proof {
        let expected = match kind {
            ProviderKind::OpenAi => seq!["gpt-5"@, "gpt-4o"@, "gpt-4o-mini"@, "o1-mini"@],
            ProviderKind::Gemini => seq!["gemini-2.5-flash"@, "gemini-2.5-pro"@],
            ProviderKind::Mock => seq!["mock-screenwriter"@],
            ProviderKind::Custom(_) => Seq::<Seq<char>>::empty(),
        };
        assert(crate::comfy_prompt::lits_view(r@) =~= expected);
    }
    r
}

/// `provider_options`: the back ends offered in the editor, with their labels.
pub fn provider_options() -> (r: Vec<(&'static str, ProviderKind)>)
    ensures
        r@.len() == 3,
        r@[0].0@ == "OpenAI"@ && r@[0].1 == ProviderKind::OpenAi,
        r@[1].0@ == "Gemini"@ && r@[1].1 == ProviderKind::Gemini,
        r@[2].0@ == "Mock"@ && r@[2].1 == ProviderKind::Mock,
{
    vec![("OpenAI", ProviderKind::OpenAi), ("Gemini", ProviderKind::Gemini), ("Mock", ProviderKind::Mock)]
}

/// `provider_label`: the name shown for a back end.
pub fn provider_label(kind: &ProviderKind) -> (r: &'static str)
    ensures
        r@ == match kind {
            ProviderKind::OpenAi => "OpenAI"@,
            ProviderKind::Gemini => "Gemini"@,
            ProviderKind::Mock => "Mock"@,
            ProviderKind::Custom(_) => "Custom"@,
        },
{
    match kind {
        ProviderKind::OpenAi => "OpenAI",
        ProviderKind::Gemini => "Gemini",
        ProviderKind::Mock => "Mock",
        ProviderKind::Custom(_) => "Custom",
    }
}

/// `screenplay_provider_base`: the base address requests to a back end go to.
pub fn screenplay_provider_base(kind: &ProviderKind) -> (r: String)
    ensures
        r@ == match kind {
            ProviderKind::OpenAi => "https://api.openai.com/v1"@,
            ProviderKind::Gemini => "https://generativelanguage.googleapis.com"@,
            ProviderKind::Mock => "http://localhost:3001/api/screenplay"@,
            ProviderKind::Custom(url) => url@,
        },
{
    match kind {
        ProviderKind::OpenAi => String::from_str("https://api.openai.com/v1"),
        ProviderKind::Gemini => String::from_str("https://generativelanguage.googleapis.com"),
        ProviderKind::Mock => String::from_str("http://localhost:3001/api/screenplay"),
        ProviderKind::Custom(url) => url.clone(),
    }
}

/// The model kept after `ensure_screenplay_model`: the current one when the
/// back end offers it or offers nothing, else the first it offers.
pub open spec fn settled_model(offered: Seq<Seq<char>>, current: Seq<char>) -> Seq<char> {
    if offered.len() == 0 || offered.contains(current) {
        current
    } else {
        offered[0]
    }
}

/// `ensure_screenplay_model`: the model to use with a back end, given the
/// one chosen so far; see `settled_model`.
pub fn ensure_screenplay_model(kind: &ProviderKind, current: &str) -> (r: String)
    ensures
        r@ == settled_model(model_options(*kind), current@),
{
    let options = provider_model_options(kind);
    let ghost offered = crate::comfy_prompt::lits_view(options@);
    if options.len() == 0 {
        return String::from_str(current);
    }
    let cur = chars_of(current);
    let mut i: usize = 0;
    while i < options.len()
        invariant
            i <= options@.len(),
            offered == crate::comfy_prompt::lits_view(options@),
            offered == model_options(*kind),
            offered.len() == options@.len(),
            cur@ == current@,
            forall|j: int| 0 <= j < i ==> offered[j] != current@,
        decreases options@.len() - i,
    {
        let o = chars_of(options[i]);
        if crate::text::chars_eq(o.as_slice(), cur.as_slice()) {
            assert(offered[i as int] == current@);
            assert(offered.contains(current@));
            return String::from_str(current);
        }
        i = i + 1;
    }
    assert(!offered.contains(current@));
    String::from_str(options[0])
}

/// A follow-up question put to the writer in a screenplay session.
#[derive(Debug)]
pub struct ScreenplayQuestion {
    pub id: String,
    pub label: String,
    pub question: String,
}

/// The question made of the follow-up at position `i`: a fresh id, the label
/// `Follow-up {i + 1}` and the follow-up's text.
pub open spec fn follow_up_question(q: ScreenplayQuestion, i: int, text: Seq<char>) -> bool {
    &&& exists|id: u128| q.id@ == crate::ids::uuid_text(id)
    &&& q.label@ == "Follow-up "@ + crate::text::nat_decimal((i + 1) as nat)
    &&& q.question@ == text
}

/// `dialog_turn_to_questions`: one question for each follow-up of a dialogue
/// turn, in order.
pub fn dialog_turn_to_questions(follow_up_questions: &Vec<String>) -> (r: Vec<ScreenplayQuestion>)
    ensures
        r@.len() == follow_up_questions@.len(),
        forall|i: int| 0 <= i < r@.len() ==> #[trigger] follow_up_question(r@[i], i, follow_up_questions@[i]@),
{
    let mut out: Vec<ScreenplayQuestion> = Vec::new();
    let mut i: usize = 0;
    while i < follow_up_questions.len()
        invariant
            i <= follow_up_questions@.len(),
            out@.len() == i,
            forall|k: int| 0 <= k < i ==> #[trigger] follow_up_question(out@[k], k, follow_up_questions@[k]@),
        decreases follow_up_questions@.len() - i,
    {
        let id = crate::ids::random_uuid();
        let n: u64 = (i + 1) as u64;
        let label = concat_chars(chars_of("Follow-up ").as_slice(), crate::text::u64_decimal_exec(n).as_slice());
        let q = ScreenplayQuestion {
            id: crate::ids::uuid_string(id),
            label: string_of(label.as_slice()),
            question: follow_up_questions[i].clone(),
        };
        assert(q.id@ == crate::ids::uuid_text(id));
        assert(follow_up_question(q, i as int, follow_up_questions@[i as int]@));
        out.push(q);
        i = i + 1;
    }
    out
}

/// The configuration a built-in back end is started with.
#[derive(Debug, PartialEq)]
pub enum LlmProviderConfig {
    OpenAi { api_key: String, model: String },
    Gemini { api_key: String, model: String },
    Mock,
}

/// `build_llm_provider`: the configuration for a built-in back end, holding
/// the key and model given; a custom back end is refused.
pub fn build_llm_provider(provider_kind: &ProviderKind, api_key: &str, model: &str) -> (r: Result<LlmProviderConfig, String>)
    ensures
        match provider_kind {
            ProviderKind::OpenAi => r matches Ok(LlmProviderConfig::OpenAi { api_key: k, model: m })
                && k@ == api_key@ && m@ == model@,
            ProviderKind::Gemini => r matches Ok(LlmProviderConfig::Gemini { api_key: k, model: m })
                && k@ == api_key@ && m@ == model@,
            ProviderKind::Mock => r matches Ok(LlmProviderConfig::Mock),
            ProviderKind::Custom(name) => r matches Err(e)
                && e@ == "Custom provider '"@ + name@ + "' is not supported via the built-in LLM adapters."@,
        },
{
    match provider_kind {
        ProviderKind::OpenAi => Ok(LlmProviderConfig::OpenAi { api_key: String::from_str(api_key), model: String::from_str(model) }),
        ProviderKind::Gemini => Ok(LlmProviderConfig::Gemini { api_key: String::from_str(api_key), model: String::from_str(model) }),
        ProviderKind::Mock => Ok(LlmProviderConfig::Mock),
        ProviderKind::Custom(name) => {
            let msg = crate::text::concat3(
                chars_of("Custom provider '").as_slice(),
                chars_of(name.as_str()).as_slice(),
                chars_of("' is not supported via the built-in LLM adapters.").as_slice(),
            );
            Err(string_of(msg.as_slice()))
        },
    }
}

} // verus!
