//! Filling a workflow's prompt in for one storyboard card: the reference
//! image, frame rate and length, output naming and encoding, the card's
//! description for positive prompts, and the card's own input values.

use vstd::prelude::*;
use crate::comfy_prompt::{
    convert_result, convert_workflow_to_prompt, num_of_i64, obj_member, opt_obj, opt_str, strip_ui_only,
    strip_ui_only_prompt_nodes, text_result,
};
use crate::json_text::{parse_json, parse_view, parsed_json};
use crate::json::{
    get, has_key, insert, lemma_view_entries, obj_contains_key, obj_get, obj_index, obj_insert,
    view_entries, Json, JsonNumber, JsonValue,
};
use crate::keyed_map::{map_of, KeyedMap};
use crate::storyboard::StoryboardCard;
use crate::structured::first_index_of;
use crate::text::{chars_of, contains, lower, lower_contains, string_of, trim, trim_vec};
use crate::workflow_input::{to_json_spec, InputValue, StoryboardInputValue};
use crate::workflow_preset::as_str_opt;

verus! {

/// What a card brings to its prompt.
pub struct PatchCtx {
    pub image: Seq<char>,
    pub fps: i64,
    pub frames: i64,
    pub prefix: Seq<char>,
    pub format: Option<Seq<char>>,
    pub codec: Option<Seq<char>>,
    pub description: Seq<char>,
}

/// `key` set to `v` when the inputs have it.
pub open spec fn set_if_present(m: Seq<(Seq<char>, Json)>, key: Seq<char>, v: Json) -> Seq<(Seq<char>, Json)> {
    if has_key(m, key) {
        insert(m, key, v)
    } else {
        m
    }
}

/// `key` set to `v` when the inputs have it as `null` or a string.
pub open spec fn set_if_textual(m: Seq<(Seq<char>, Json)>, key: Seq<char>, v: Json) -> Seq<(Seq<char>, Json)> {
    match get(m, key) {
        Some(Json::Null) => insert(m, key, v),
        Some(Json::Str(_)) => insert(m, key, v),
        _ => m,
    }
}

/// `key` set to the text when there is one and the inputs have the key.
pub open spec fn set_override(m: Seq<(Seq<char>, Json)>, key: Seq<char>, o: Option<Seq<char>>) -> Seq<(Seq<char>, Json)> {
    match o {
        Some(t) => set_if_present(m, key, Json::Str(t)),
        None => m,
    }
}

/// The inputs of one node after the card's settings are applied.
pub open spec fn patch_inputs(m: Seq<(Seq<char>, Json)>, positive: bool, ctx: PatchCtx) -> Seq<(Seq<char>, Json)> {
    let m1 = set_if_present(m, "filename_prefix"@, Json::Str(ctx.prefix));
    let m2 = set_if_textual(m1, "image"@, Json::Str(ctx.image));
    let m3 = set_if_textual(m2, "image_path"@, Json::Str(ctx.image));
    let m4 = set_if_present(m3, "frame_rate"@, Json::Number(num_of_i64(ctx.fps)));
    let m5 = set_if_present(m4, "fps"@, Json::Number(num_of_i64(ctx.fps)));
    let m6 = set_if_present(m5, "length"@, Json::Number(num_of_i64(ctx.frames)));
    let m7 = set_override(m6, "format"@, ctx.format);
    let m8 = set_override(m7, "codec"@, ctx.codec);
    if positive && trim(ctx.description).len() > 0 {
        set_if_present(m8, "text"@, Json::Str(trim(ctx.description)))
    } else {
        m8
    }
}

/// The node's `_meta.title` mentions `positive`, in any case. (Lower-casing
/// the whole of Unicode, as the editor does, finds the same: no other
/// character lower-cases to the letters of `positive` on their own.)
pub open spec fn is_positive_node(o: Seq<(Seq<char>, Json)>) -> bool {
    match obj_member(o, "_meta"@) {
        Some(m) => match as_str_opt(get(m, "title"@)) {
            Some(t) => contains(lower(t), "positive"@),
            None => false,
        },
        None => false,
    }
}

/// One prompt node after the card's settings are applied to its inputs.
pub open spec fn patch_node(node: Json, ctx: PatchCtx) -> Json {
    match node {
        Json::Obj(o) => match get(o, "inputs"@) {
            Some(Json::Obj(inp)) => Json::Obj(insert(o, "inputs"@, Json::Obj(patch_inputs(inp, is_positive_node(o), ctx)))),
            _ => node,
        },
        _ => node,
    }
}

/// Every node of the prompt after the card's settings are applied.
pub open spec fn patch_nodes(p: Seq<(Seq<char>, Json)>, ctx: PatchCtx) -> Seq<(Seq<char>, Json)> {
    p.map_values(|e: (Seq<char>, Json)| (e.0, patch_node(e.1, ctx)))
}

/// `str::split_once(':')`.
pub open spec fn split_colon(s: Seq<char>) -> Option<(Seq<char>, Seq<char>)> {
    match first_index_of(s, ':') {
        Some(i) => Some((s.subrange(0, i), s.subrange(i + 1, s.len() as int))),
        None => None,
    }
}

/// The value a card input is sent as: a file input's resolved path (or its
/// own path), unless blank; any other value as its JSON.
pub open spec fn raw_value(key: Seq<char>, v: InputValue, resolved: Map<Seq<char>, Seq<char>>) -> Option<Json> {
    match v {
        InputValue::File(path) => {
            let ov = if resolved.dom().contains(key) {
                resolved[key]
            } else {
                path
            };
            if trim(ov).len() > 0 {
                Some(Json::Str(ov))
            } else {
                None
            }
        },
        _ => Some(to_json_spec(v)),
    }
}

/// One card input applied to the prompt: `node:input` names the node and
/// its input; a node that is missing or has no input object is left alone.
pub open spec fn apply_raw(p: Seq<(Seq<char>, Json)>, key: Seq<char>, v: InputValue, resolved: Map<Seq<char>, Seq<char>>) -> Seq<(Seq<char>, Json)> {
    match split_colon(key) {
        Some((nid, ik)) => match get(p, nid) {
            Some(Json::Obj(n)) => match get(n, "inputs"@) {
                Some(Json::Obj(inp)) => match raw_value(key, v, resolved) {
                    Some(val) => insert(p, nid, Json::Obj(insert(n, "inputs"@, Json::Obj(insert(inp, ik, val))))),
                    None => p,
                },
                _ => p,
            },
            _ => p,
        },
        None => p,
    }
}

/// The card inputs applied to the prompt in turn.
pub open spec fn apply_raws(p: Seq<(Seq<char>, Json)>, raws: Seq<(String, StoryboardInputValue)>, resolved: Map<Seq<char>, Seq<char>>) -> Seq<(Seq<char>, Json)>
    decreases raws.len(),
{
    if raws.len() == 0 {
        p
    } else {
        let prev = apply_raws(p, raws.drop_last(), resolved);
        apply_raw(prev, raws.last().0@, raws.last().1@, resolved)
    }
}

/// The trimmed text, when it is not blank.
pub open spec fn nonblank_trimmed(t: Seq<char>) -> Option<Seq<char>> {
    if trim(t).len() > 0 {
        Some(trim(t))
    } else {
        None
    }
}

/// The encoding settings of a card that override the workflow's.
pub open spec fn card_ctx(card: StoryboardCard, image: Seq<char>, fps: i64, frames: i64, prefix: Seq<char>) -> PatchCtx {
    PatchCtx {
        image,
        fps,
        frames,
        prefix,
        format: match card.video_settings {
            Some(s) => nonblank_trimmed(s.format@),
            None => None,
        },
        codec: match card.video_settings {
            Some(s) => nonblank_trimmed(s.codec@),
            None => None,
        },
        description: card.description@,
    }
}

/// `patch_storyboard_prompt`.
pub open spec fn patched_prompt_spec(
    p: Seq<(Seq<char>, Json)>,
    card: StoryboardCard,
    image: Seq<char>,
    fps: i64,
    frames: i64,
    prefix: Seq<char>,
    resolved: Map<Seq<char>, Seq<char>>,
    raws: Seq<(String, StoryboardInputValue)>,
) -> Seq<(Seq<char>, Json)> {
    apply_raws(patch_nodes(p, card_ctx(card, image, fps, frames, prefix)), raws, resolved)
}

/// The value of an `i64` as a JSON number.
fn number_value(i: i64) -> (r: JsonValue)
    ensures
        r@ == Json::Number(num_of_i64(i)),
{
    if i >= 0 {
        JsonValue::Number(JsonNumber::PosInt(i as u64))
    } else {
        JsonValue::Number(JsonNumber::NegInt(i))
    }
}

/// Sets `key` to `v` when present.
fn set_if_present_exec(m: &mut Vec<(String, JsonValue)>, key: &str, v: JsonValue)
    ensures
        view_entries(final(m)@) == set_if_present(view_entries(old(m)@), key@, v@),
{
    if obj_contains_key(m, key) {
        obj_insert(m, String::from_str(key), v);
    }
}

/// Sets `key` to `v` when present as `null` or a string.
fn set_if_textual_exec(m: &mut Vec<(String, JsonValue)>, key: &str, v: JsonValue)
    ensures
        view_entries(final(m)@) == set_if_textual(view_entries(old(m)@), key@, v@),
{
    let textual = match obj_get(m, key) {
        Some(JsonValue::Null) => true,
        Some(JsonValue::String(_)) => true,
        _ => false,
    };
    if textual {
        obj_insert(m, String::from_str(key), v);
    }
}

/// The trimmed text, when it is not blank.
fn nonblank_trimmed_exec(t: &String) -> (r: Option<String>)
    ensures
        crate::screenplay::opt_string_view(r) == nonblank_trimmed(t@),
{
    let c = trim_vec(chars_of(t.as_str()).as_slice());
    if c.len() > 0 {
        Some(string_of(c.as_slice()))
    } else {
        None
    }
}

/// The inputs of one node after the card's settings are applied.
fn patch_inputs_exec(
    m: &mut Vec<(String, JsonValue)>,
    positive: bool,
    image: &str,
    fps: i64,
    frames: i64,
    prefix: &str,
    format: &Option<String>,
    codec: &Option<String>,
    description: &String,
)
    ensures
        view_entries(final(m)@) == patch_inputs(
            view_entries(old(m)@),
            positive,
            PatchCtx {
                image: image@,
                fps,
                frames,
                prefix: prefix@,
                format: crate::screenplay::opt_string_view(*format),
                codec: crate::screenplay::opt_string_view(*codec),
                description: description@,
            },
        ),
{
    set_if_present_exec(m, "filename_prefix", JsonValue::String(String::from_str(prefix)));
    set_if_textual_exec(m, "image", JsonValue::String(String::from_str(image)));
    set_if_textual_exec(m, "image_path", JsonValue::String(String::from_str(image)));
    set_if_present_exec(m, "frame_rate", number_value(fps));
    set_if_present_exec(m, "fps", number_value(fps));
    set_if_present_exec(m, "length", number_value(frames));
    if let Some(f) = format {
        set_if_present_exec(m, "format", JsonValue::String(f.clone()));
    }
    if let Some(c) = codec {
        set_if_present_exec(m, "codec", JsonValue::String(c.clone()));
    }
    if positive {
        if let Some(d) = nonblank_trimmed_exec(description) {
            set_if_present_exec(m, "text", JsonValue::String(d));
        }
    }
}

/// Whether a node's title mentions `positive`.
fn is_positive_node_exec(o: &Vec<(String, JsonValue)>) -> (r: bool)
    ensures
        r == is_positive_node(view_entries(o@)),
{
    if let Some(meta) = opt_obj(obj_get(o, "_meta")) {
        if let Some(t) = opt_str(obj_get(meta, "title")) {
            return lower_contains(chars_of(t.as_str()).as_slice(), "positive");
        }
    }
    false
}

/// One card input applied to the prompt.
fn apply_raw_exec(
    p: &mut Vec<(String, JsonValue)>,
    key: &String,
    v: &StoryboardInputValue,
    resolved: &KeyedMap<String>,
)
    ensures
        view_entries(final(p)@) == apply_raw(view_entries(old(p)@), key@, v@, resolved@),
{
    let kc = chars_of(key.as_str());
    let mut i: usize = 0;
    while i < kc.len() && kc[i] != ':'
        invariant
            i <= kc@.len(),
            forall|k: int| 0 <= k < i ==> kc@[k] != ':',
        decreases kc@.len() - i,
    {
        i = i + 1;
    }
    proof {
        crate::structured::lemma_first_index_pub(kc@, ':', i as int);
    }
    if i == kc.len() {
        return;
    }
    let nid = string_of(vstd::slice::slice_subrange(kc.as_slice(), 0, i));
    let ik = string_of(vstd::slice::slice_subrange(kc.as_slice(), i + 1, kc.len()));
    assert(split_colon(key@) == Some((nid@, ik@)));
    let idx = match obj_index(p, nid.as_str()) {
        Some(x) => x,
        None => {
            return;
        },
    };
    proof {
        lemma_view_entries(p@);
    }
    let (node_key, node) = (p[idx].0.clone(), p[idx].1.deep_clone());
    let value = match v {
        StoryboardInputValue::File(path) => {
            let ov = match resolved.get(key.as_str()) {
                Some(r) => r.clone(),
                None => path.clone(),
            };
            if trim_vec(chars_of(ov.as_str()).as_slice()).len() > 0 {
                JsonValue::String(ov)
            } else {
                return;
            }
        },
        _ => v.to_json(),
    };
    let mut n = match node {
        JsonValue::Object(n) => n,
        _ => {
            return;
        },
    };
    let inputs_idx = match obj_index(&n, "inputs") {
        Some(x) => x,
        None => {
            return;
        },
    };
    proof {
        lemma_view_entries(n@);
    }
    let mut inputs = match &n[inputs_idx].1 {
        JsonValue::Object(inp) => crate::json::clone_entries(inp),
        _ => {
            return;
        },
    };
    assert(raw_value(key@, v@, resolved@) == Some(value@));
    assert(get(view_entries(old(p)@), nid@) == Some(Json::Obj(view_entries(n@))));
    assert(node_key@ == nid@);
    obj_insert(&mut inputs, ik, value);
    obj_insert(&mut n, String::from_str("inputs"), JsonValue::Object(inputs));
    obj_insert(p, node_key, JsonValue::Object(n));
}

/// One prompt node after the card's settings are applied.
fn patch_node_exec(
    node: JsonValue,
    image: &str,
    fps: i64,
    frames: i64,
    prefix: &str,
    format: &Option<String>,
    codec: &Option<String>,
    description: &String,
) -> (r: JsonValue)
    ensures
        r@ == patch_node(
            node@,
            PatchCtx {
                image: image@,
                fps,
                frames,
                prefix: prefix@,
                format: crate::screenplay::opt_string_view(*format),
                codec: crate::screenplay::opt_string_view(*codec),
                description: description@,
            },
        ),
{
    match node {
        JsonValue::Object(mut o) => {
            let positive = is_positive_node_exec(&o);
            if let Some(ix) = obj_index(&o, "inputs") {
                proof {
                    lemma_view_entries(o@);
                }
                let inner = match &o[ix].1 {
                    JsonValue::Object(inp) => Some(crate::json::clone_entries(inp)),
                    _ => None,
                };
                if let Some(mut inputs) = inner {
                    patch_inputs_exec(&mut inputs, positive, image, fps, frames, prefix, format, codec, description);
                    obj_insert(&mut o, String::from_str("inputs"), JsonValue::Object(inputs));
                }
            }
            JsonValue::Object(o)
        },
        other => other,
    }
}

/// Patches a prompt for a card: applies the card's settings to every
/// node, then the card's input values. `fps` and `frames` are the timeline's
/// frame rate and the card's length in frames.
pub fn patch_storyboard_prompt(
    prompt: &mut Vec<(String, JsonValue)>,
    card: &StoryboardCard,
    image_name: &str,
    fps: i64,
    frames: i64,
    filename_prefix: &str,
    resolved_file_inputs: &KeyedMap<String>,
    raw_inputs: &KeyedMap<StoryboardInputValue>,
)
    ensures
        view_entries(final(prompt)@) == patched_prompt_spec(
            view_entries(old(prompt)@),
            *card,
            image_name@,
            fps,
            frames,
            filename_prefix@,
            resolved_file_inputs@,
            raw_inputs.members(),
        ),
{
    let format = match &card.video_settings {
        Some(s) => nonblank_trimmed_exec(&s.format),
        None => None,
    };
    let codec = match &card.video_settings {
        Some(s) => nonblank_trimmed_exec(&s.codec),
        None => None,
    };
    let ghost ctx = card_ctx(*card, image_name@, fps, frames, filename_prefix@);
    let ghost orig = view_entries(prompt@);
    proof {
        lemma_view_entries(prompt@);
    }
    let n = prompt.len();
    let mut i: usize = 0;
    while i < n
        invariant
            n == prompt@.len(),
            orig.len() == n,
            i <= n,
            ctx == card_ctx(*card, image_name@, fps, frames, filename_prefix@),
            crate::screenplay::opt_string_view(format) == ctx.format,
            crate::screenplay::opt_string_view(codec) == ctx.codec,
            view_entries(prompt@).len() == n,
            forall|j: int| 0 <= j < n ==> #[trigger] view_entries(prompt@)[j] == (prompt@[j].0@, prompt@[j].1@),
            forall|j: int| 0 <= j < i ==> #[trigger] view_entries(prompt@)[j] == (orig[j].0, patch_node(orig[j].1, ctx)),
            forall|j: int| i <= j < n ==> #[trigger] view_entries(prompt@)[j] == orig[j],
        decreases n - i,
    {
        let key = prompt[i].0.clone();
        let node = patch_node_exec(prompt[i].1.deep_clone(), image_name, fps, frames, filename_prefix, &format, &codec, &card.description);
        assert(view_entries(prompt@)[i as int] == orig[i as int]);
        let ghost before = prompt@;
        let ghost kv = key@;
        let ghost nv = node@;
        assert(kv == orig[i as int].0);
        assert(nv == patch_node(orig[i as int].1, ctx));
        prompt.set(i, (key, node));
        proof {
            lemma_view_entries(prompt@);
            assert forall|j: int| 0 <= j < n && j != i implies #[trigger] view_entries(prompt@)[j] == view_entries(before)[j] by {
                assert(prompt@[j] == before[j]);
            }
            assert(view_entries(prompt@)[i as int] == (kv, nv));
        }
        i = i + 1;
    }
    proof {
        lemma_view_entries(prompt@);
        assert(view_entries(prompt@) =~= patch_nodes(orig, ctx));
    }
    let ghost patched = view_entries(prompt@);
    let m = raw_inputs.len();
    let ghost raws = raw_inputs.members();
    let mut k: usize = 0;
    assert(raws.subrange(0, 0) =~= Seq::<(String, StoryboardInputValue)>::empty());
    while k < m
        invariant
            m == raws.len(),
            raws == raw_inputs.members(),
            k <= m,
            view_entries(prompt@) == apply_raws(patched, raws.subrange(0, k as int), resolved_file_inputs@),
        decreases m - k,
    {
        let (key, value) = raw_inputs.member_at(k);
        proof {
            assert(raws.subrange(0, k + 1).drop_last() =~= raws.subrange(0, k as int));
        }
        apply_raw_exec(prompt, key, value, resolved_file_inputs);
        k = k + 1;
    }
    assert(raws.subrange(0, m as int) =~= raws);
}


/// The workflow document a card's request starts from: the text itself
/// when it holds a `prompt`, else its conversion (`id1` and `id2` are the
/// client ids the two conversions may draw).
pub open spec fn body_spec(data: Seq<char>, id1: u128, id2: u128) -> Result<Json, Seq<char>> {
    let first = match parsed_json(data) {
        Ok(v) => Ok(v),
        Err(e) => match convert_result(data, id1) {
            Err(err) => Err("Workflow JSON invalid ("@ + e + "); conversion also failed: "@ + err),
            Ok(t) => match parsed_json(t) {
                Ok(v) => Ok(v),
                Err(e2) => Err("Converted workflow parse failed: "@ + e2),
            },
        },
    };
    match first {
        Err(m) => Err(m),
        Ok(v) => if crate::json::member(v, "prompt"@) is Some {
            Ok(v)
        } else {
            match convert_result(data, id2) {
                Err(err) => Err("Workflow convert failed: "@ + err),
                Ok(t) => match parsed_json(t) {
                    Ok(v2) => Ok(v2),
                    Err(e3) => Err("Converted workflow parse failed: "@ + e3),
                },
            }
        },
    }
}

/// The request body for a card: the prompt stripped of UI-only nodes and
/// patched for the card, with the client id added.
pub open spec fn finish_spec(
    body: Json,
    card: StoryboardCard,
    image: Seq<char>,
    fps: i64,
    frames: i64,
    prefix: Seq<char>,
    resolved: Map<Seq<char>, Seq<char>>,
    raws: Seq<(String, StoryboardInputValue)>,
    client_id: Seq<char>,
) -> Result<Json, Seq<char>> {
    match body {
        Json::Obj(e) => match obj_member(e, "prompt"@) {
            Some(p) => Ok(
                Json::Obj(
                    insert(
                        insert(
                            e,
                            "prompt"@,
                            Json::Obj(patched_prompt_spec(strip_ui_only(p), card, image, fps, frames, prefix, resolved, raws)),
                        ),
                        "client_id"@,
                        Json::Str(client_id),
                    ),
                ),
            ),
            None => Err("Workflow prompt is not an object."@),
        },
        _ => Err("Workflow prompt is not an object."@),
    }
}

/// A message and an error text, joined.
fn join_err(a: &str, b: &String) -> (r: String)
    ensures
        r@ == a@ + b@,
{
    crate::text::cat(a, b.as_str())
}

/// The view of a document outcome.
pub open spec fn doc_result(r: Result<JsonValue, String>) -> Result<Json, Seq<char>> {
    parse_view(r)
}

/// The workflow document a card's request starts from.
fn storyboard_body(workflow_json: &str) -> (r: Result<JsonValue, String>)
    ensures
        exists|id1: u128, id2: u128| doc_result(r) == body_spec(workflow_json@, id1, id2),
{
    let first = match parse_json(workflow_json) {
        Ok(v) => v,
        Err(e) => {
            let conv = convert_workflow_to_prompt(workflow_json);
            let ghost id1 = choose|id: u128| text_result(conv) == convert_result(workflow_json@, id);
            match conv {
                Err(err) => {
                    let head = crate::text::cat3("Workflow JSON invalid (", e.as_str(), "); conversion also failed: ");
                    let m = join_err(head.as_str(), &err);
                    assert(doc_result(Err(m)) == body_spec(workflow_json@, id1, 0));
                    return Err(m);
                },
                Ok(t) => match parse_json(t.as_str()) {
                    Ok(v) => {
                        return finish_body(workflow_json, v, Ghost(id1));
                    },
                    Err(e2) => {
                        let m = join_err("Converted workflow parse failed: ", &e2);
                        assert(doc_result(Err(m)) == body_spec(workflow_json@, id1, 0));
                        return Err(m);
                    },
                },
            }
        },
    };
    finish_body(workflow_json, first, Ghost(0))
}

/// The second step of `storyboard_body`: a document without a `prompt` is
/// converted again.
fn finish_body(workflow_json: &str, v: JsonValue, Ghost(id1): Ghost<u128>) -> (r: Result<JsonValue, String>)
    requires
        (match body_first(workflow_json@, id1) {
            Ok(f) => f == v@,
            Err(_) => false,
        }),
    ensures
        exists|id2: u128| doc_result(r) == body_spec(workflow_json@, id1, id2),
{
    let has_prompt = match &v {
        JsonValue::Object(e) => crate::json::obj_contains_key(e, "prompt"),
        _ => false,
    };
    if has_prompt {
        assert(doc_result(Ok(v)) == body_spec(workflow_json@, id1, 0));
        return Ok(v);
    }
    let conv = convert_workflow_to_prompt(workflow_json);
    let ghost id2 = choose|id: u128| text_result(conv) == convert_result(workflow_json@, id);
    match conv {
        Err(err) => {
            let m = join_err("Workflow convert failed: ", &err);
            assert(doc_result(Err(m)) == body_spec(workflow_json@, id1, id2));
            Err(m)
        },
        Ok(t) => match parse_json(t.as_str()) {
            Ok(v2) => {
                assert(doc_result(Ok(v2)) == body_spec(workflow_json@, id1, id2));
                Ok(v2)
            },
            Err(e3) => {
                let m = join_err("Converted workflow parse failed: ", &e3);
                assert(doc_result(Err(m)) == body_spec(workflow_json@, id1, id2));
                Err(m)
            },
        },
    }
}

/// The first step of `body_spec`: the document read or converted.
pub open spec fn body_first(data: Seq<char>, id1: u128) -> Result<Json, Seq<char>> {
    match parsed_json(data) {
        Ok(v) => Ok(v),
        Err(e) => match convert_result(data, id1) {
            Err(err) => Err("Workflow JSON invalid ("@ + e + "); conversion also failed: "@ + err),
            Ok(t) => match parsed_json(t) {
                Ok(v) => Ok(v),
                Err(e2) => Err("Converted workflow parse failed: "@ + e2),
            },
        },
    }
}

/// The request body for a card, from its workflow document: the prompt
/// stripped and patched for the card, with the client id added; or why
/// there is none.
pub fn finish_storyboard_prompt(
    body: JsonValue,
    card: &StoryboardCard,
    image_name: &str,
    fps: i64,
    frames: i64,
    filename_prefix: &str,
    resolved_file_inputs: &KeyedMap<String>,
    raw_inputs: &KeyedMap<StoryboardInputValue>,
    client_id: &str,
) -> (r: Result<JsonValue, String>)
    ensures
        doc_result(r) == finish_spec(
            body@,
            *card,
            image_name@,
            fps,
            frames,
            filename_prefix@,
            resolved_file_inputs@,
            raw_inputs.members(),
            client_id@,
        ),
{
    let mut e = match body {
        JsonValue::Object(e) => e,
        _ => {
            return Err(String::from_str("Workflow prompt is not an object."));
        },
    };
    let idx = match crate::json::obj_index(&e, "prompt") {
        Some(i) => i,
        None => {
            return Err(String::from_str("Workflow prompt is not an object."));
        },
    };
    proof {
        lemma_view_entries(e@);
    }
    let mut prompt = match &e[idx].1 {
        JsonValue::Object(p) => crate::json::clone_entries(p),
        _ => {
            return Err(String::from_str("Workflow prompt is not an object."));
        },
    };
    strip_ui_only_prompt_nodes(&mut prompt);
    patch_storyboard_prompt(&mut prompt, card, image_name, fps, frames, filename_prefix, resolved_file_inputs, raw_inputs);
    obj_insert(&mut e, String::from_str("prompt"), JsonValue::Object(prompt));
    obj_insert(&mut e, String::from_str("client_id"), JsonValue::String(String::from_str(client_id)));
    Ok(JsonValue::Object(e))
}

/// The request body for a card, from the workflow text, given the client
/// ids its conversions draw.
pub open spec fn build_spec(
    data: Seq<char>,
    card: StoryboardCard,
    image: Seq<char>,
    fps: i64,
    frames: i64,
    prefix: Seq<char>,
    resolved: Map<Seq<char>, Seq<char>>,
    raws: Seq<(String, StoryboardInputValue)>,
    client_id: Seq<char>,
    id1: u128,
    id2: u128,
) -> Result<Json, Seq<char>> {
    match body_spec(data, id1, id2) {
        Ok(b) => finish_spec(b, card, image, fps, frames, prefix, resolved, raws, client_id),
        Err(m) => Err(m),
    }
}

/// The body of a request outcome.
pub open spec fn build_outcome(r: Result<(JsonValue, String), String>) -> Result<Json, Seq<char>> {
    match r {
        Ok((b, _)) => Ok(b@),
        Err(m) => Err(m@),
    }
}

/// The request body for a card and the
/// client id it carries. `fps` and `frames` are the timeline's frame rate
/// and the card's length in frames.
pub fn build_storyboard_prompt(
    workflow_json: &str,
    card: &StoryboardCard,
    image_name: &str,
    resolved_file_inputs: &KeyedMap<String>,
    raw_inputs: &KeyedMap<StoryboardInputValue>,
    filename_prefix: &str,
    fps: i64,
    frames: i64,
    client_id: &str,
) -> (r: Result<(JsonValue, String), String>)
    ensures
        exists|id1: u128, id2: u128| build_outcome(r) == #[trigger] build_spec(
            workflow_json@,
            *card,
            image_name@,
            fps,
            frames,
            filename_prefix@,
            resolved_file_inputs@,
            raw_inputs.members(),
            client_id@,
            id1,
            id2,
        ),
        r matches Ok((_, c)) ==> c@ == client_id@,
{
    let body = storyboard_body(workflow_json);
    let ghost (id1, id2) = choose|id1: u128, id2: u128| doc_result(body) == body_spec(workflow_json@, id1, id2);
    let r = match body {
        Err(m) => Err(m),
        Ok(b) => match finish_storyboard_prompt(
            b,
            card,
            image_name,
            fps,
            frames,
            filename_prefix,
            resolved_file_inputs,
            raw_inputs,
            client_id,
        ) {
            Ok(done) => Ok((done, String::from_str(client_id))),
            Err(m) => Err(m),
        },
    };
    assert(build_outcome(r) == build_spec(
        workflow_json@,
        *card,
        image_name@,
        fps,
        frames,
        filename_prefix@,
        resolved_file_inputs@,
        raw_inputs.members(),
        client_id@,
        id1,
        id2,
    ));
    r
}

} // verus!
