//! Conversion of a ComfyUI workflow document into the payload the `/prompt`
//! endpoint takes.
//!
//! A document is accepted in three shapes: a payload that already holds a
//! `prompt` object, a bare prompt (node id to node), or the editor's graph
//! format with `nodes` and `links` arrays. Nodes that only annotate the graph
//! (notes, UI-only nodes) are dropped in every shape.

use vstd::prelude::*;
use crate::json::{
    as_i64, as_str, get, has_key, insert, lemma_view_entries, lemma_view_items, obj_get,
    obj_insert, view_entries, view_items, Json, JsonNumber, JsonValue, Num,
};
use crate::json_text::{json_text, json_to_string, parse_json, parsed_json};
use crate::text::{
    chars_of, concat3, eq_ignore_case, eq_ignore_case_lit, eq_lit, i64_decimal,
    i64_decimal_exec, lower, lower_vec, string_of, trim, trim_vec,
};
use crate::workflow_input::{json_as_i64, json_as_str};
use crate::workflow_preset::as_str_opt;

verus! {

/// The member `k` of an object, read as a string.
pub open spec fn str_member(e: Seq<(Seq<char>, Json)>, k: Seq<char>) -> Option<Seq<char>> {
    as_str_opt(get(e, k))
}

/// The member `k` of an object, read as an object.
pub open spec fn obj_member(e: Seq<(Seq<char>, Json)>, k: Seq<char>) -> Option<Seq<(Seq<char>, Json)>> {
    match get(e, k) {
        Some(Json::Obj(m)) => Some(m),
        _ => None,
    }
}

/// The view of an optional borrowed object.
pub open spec fn opt_entries(m: Option<&Vec<(String, JsonValue)>>) -> Option<Seq<(Seq<char>, Json)>> {
    match m {
        Some(e) => Some(view_entries(e@)),
        None => None,
    }
}

/// A node class of the note family, compared trimmed and case-folded.
pub open spec fn is_note_class(class: Seq<char>) -> bool {
    let l = lower(trim(class));
    ||| l == "markdownnote"@
    ||| l == "markdown_note"@
    ||| l == "markdown note"@
    ||| l == "note"@
}

/// `is_ui_only_node`: a note class, a `_meta.category` of `ui` (any case),
/// or `_meta.ui_only` set to `true`.
pub open spec fn is_ui_only_spec(class: Option<Seq<char>>, meta: Option<Seq<(Seq<char>, Json)>>) -> bool {
    ||| (class matches Some(c) && is_note_class(c))
    ||| (meta matches Some(m) && str_member(m, "category"@) matches Some(cat) && eq_ignore_case(cat, "ui"@))
    ||| (meta matches Some(m) && get(m, "ui_only"@) == Some(Json::Bool(true)))
}

/// Whether a prompt node is one that only annotates the graph.
pub open spec fn node_is_ui_only(node: Json) -> bool {
    match node {
        Json::Obj(e) => is_ui_only_spec(str_member(e, "class_type"@), obj_member(e, "_meta"@)),
        _ => false,
    }
}

/// `strip_ui_only_prompt_nodes`: the prompt without its UI-only nodes, the
/// others in their order.
pub open spec fn strip_ui_only(p: Seq<(Seq<char>, Json)>) -> Seq<(Seq<char>, Json)>
    decreases p.len(),
{
    if p.len() == 0 {
        p
    } else if node_is_ui_only(p.last().1) {
        strip_ui_only(p.drop_last())
    } else {
        strip_ui_only(p.drop_last()).push(p.last())
    }
}

/// `str::trim` followed by `str::to_ascii_lowercase`.
fn folded(s: &str) -> (r: Vec<char>)
    ensures
        r@ == lower(trim(s@)),
{
    let t = trim_vec(chars_of(s).as_slice());
    lower_vec(t.as_slice())
}

/// `is_ui_only_node`.
pub fn is_ui_only_node(class_type: Option<&str>, meta: Option<&Vec<(String, JsonValue)>>) -> (r: bool)
    ensures
        r == is_ui_only_spec(crate::input_spec::opt_str_view(class_type), opt_entries(meta)),
{
    if let Some(class) = class_type {
        let l = folded(class);
        let ls = l.as_slice();
        if eq_lit(ls, "markdownnote") || eq_lit(ls, "markdown_note") || eq_lit(ls, "markdown note")
            || eq_lit(ls, "note") {
            return true;
        }
    }
    if let Some(m) = meta {
        if let Some(cat) = opt_str(obj_get(m, "category")) {
            if eq_ignore_case_lit(chars_of(cat.as_str()).as_slice(), "ui") {
                return true;
            }
        }
        if let Some(JsonValue::Bool(true)) = obj_get(m, "ui_only") {
            return true;
        }
    }
    false
}

/// The string of an optional value.
pub(crate) fn opt_str(v: Option<&JsonValue>) -> (r: Option<&String>)
    ensures
        match r {
            Some(s) => as_str_opt(crate::json::opt_view(v)) == Some(s@),
            None => as_str_opt(crate::json::opt_view(v)) is None,
        },
{
    match v {
        Some(x) => json_as_str(x),
        None => None,
    }
}

/// The object of an optional value.
pub(crate) fn opt_obj(v: Option<&JsonValue>) -> (r: Option<&Vec<(String, JsonValue)>>)
    ensures
        match crate::json::opt_view(v) {
            Some(Json::Obj(m)) => r matches Some(e) && view_entries(e@) == m,
            _ => r is None,
        },
{
    match v {
        Some(JsonValue::Object(e)) => Some(e),
        _ => None,
    }
}

/// Whether a prompt node only annotates the graph.
fn node_ui_only(node: &JsonValue) -> (r: bool)
    ensures
        r == node_is_ui_only(node@),
{
    match node {
        JsonValue::Object(e) => {
            let class = opt_str(obj_get(e, "class_type"));
            let meta = opt_obj(obj_get(e, "_meta"));
            match class {
                Some(c) => is_ui_only_node(Some(c.as_str()), meta),
                None => is_ui_only_node(None, meta),
            }
        },
        _ => false,
    }
}

/// `strip_ui_only_prompt_nodes`: drops the UI-only nodes of a prompt.
pub fn strip_ui_only_prompt_nodes(prompt: &mut Vec<(String, JsonValue)>)
    ensures
        view_entries(final(prompt)@) == strip_ui_only(view_entries(old(prompt)@)),
{
    let mut rest: Vec<(String, JsonValue)> = Vec::new();
    std::mem::swap(prompt, &mut rest);
    let ghost orig = rest@;
    let ghost n = orig.len();
    let total = rest.len();
    let mut i: usize = 0;
    while rest.len() > 0
        invariant
            i <= n,
            n == orig.len(),
            total == n,
            rest@ == orig.subrange(i as int, n as int),
            view_entries(prompt@) == strip_ui_only(view_entries(orig.subrange(0, i as int))),
        decreases rest@.len(),
    {
        let x = rest.remove(0);
        proof {
            let p = orig.subrange(0, i + 1);
            assert(p.drop_last() =~= orig.subrange(0, i as int));
            lemma_view_entries(p);
            assert(view_entries(p).drop_last() =~= view_entries(orig.subrange(0, i as int)));
            assert(view_entries(p).last() == (x.0@, x.1@));
        }
        if !node_ui_only(&x.1) {
            let ghost before = prompt@;
            let ghost ex = (x.0@, x.1@);
            prompt.push(x);
            proof {
                assert(prompt@.drop_last() =~= before);
                assert(view_entries(prompt@) == view_entries(before).push(ex));
            }
        }
        i = i + 1;
        assert(rest@ =~= orig.subrange(i as int, n as int));
    }
    assert(orig.subrange(0, n as int) =~= orig);
}


/// The names the graph format gives, in order, to the widget values of a
/// node of class `class`; a class outside the table has none.
pub open spec fn widget_keys(class: Seq<char>) -> Seq<Seq<char>> {
    if class == "SaveVideo"@ {
        seq!["filename_prefix"@, "format"@, "codec"@]
    } else if class == "SaveImage"@ || class == "ImageSave"@ || class == "SaveImageBuiltin"@ {
        seq!["filename_prefix"@]
    } else if class == "CreateVideo"@ {
        seq!["fps"@]
    } else if class == "WanImageToVideo"@ || class == "Wan22ImageToVideoLatent"@ {
        seq!["width"@, "height"@, "length"@, "batch_size"@]
    } else if class == "ModelSamplingSD3"@ {
        seq!["shift"@]
    } else if class == "UNETLoader"@ {
        seq!["unet_name"@, "weight_dtype"@]
    } else if class == "LoraLoaderModelOnly"@ {
        seq!["lora_name"@, "strength_model"@]
    } else if class == "CLIPLoader"@ {
        seq!["clip_name"@, "type"@, "device"@]
    } else if class == "CLIPTextEncode"@ {
        seq!["text"@, "clip_skip"@]
    } else if class == "VAELoader"@ {
        seq!["vae_name"@]
    } else if class == "LoadImage"@ {
        seq!["image"@]
    } else if class == "KSamplerAdvanced"@ {
        seq![
            "add_noise"@,
            "noise_seed"@,
            "noise_seed_behavior"@,
            "steps"@,
            "cfg"@,
            "sampler_name"@,
            "scheduler"@,
            "start_at_step"@,
            "end_at_step"@,
            "return_with_leftover_noise"@,
        ]
    } else if class == "KSampler"@ {
        seq!["seed"@, "steps"@, "cfg"@, "sampler_name"@, "scheduler"@, "denoise"@]
    } else {
        Seq::empty()
    }
}

/// The members of a widget object that are neither `null` nor objects.
pub open spec fn object_widget_pairs(e: Seq<(Seq<char>, Json)>) -> Seq<(Seq<char>, Json)>
    decreases e.len(),
{
    if e.len() == 0 {
        e
    } else if e.last().1 is Null || e.last().1 is Obj {
        object_widget_pairs(e.drop_last())
    } else {
        object_widget_pairs(e.drop_last()).push(e.last())
    }
}

/// The first `n` named widget values of an array, each paired with its
/// name; a missing or `null` value gives no pair.
pub open spec fn array_widget_pairs(keys: Seq<Seq<char>>, values: Seq<Json>, n: nat) -> Seq<(Seq<char>, Json)>
    decreases n,
{
    if n == 0 {
        Seq::empty()
    } else {
        let prev = array_widget_pairs(keys, values, (n - 1) as nat);
        let i = n - 1;
        if i < values.len() && !(values[i] is Null) {
            prev.push((keys[i], values[i]))
        } else {
            prev
        }
    }
}

/// `node_widget_inputs`: the inputs a node's `widgets_values` provide.
pub open spec fn widget_pairs(class: Seq<char>, widgets: Json) -> Seq<(Seq<char>, Json)> {
    match widgets {
        Json::Obj(e) => object_widget_pairs(e),
        Json::Arr(a) => array_widget_pairs(widget_keys(class), a, widget_keys(class).len()),
        _ => Seq::empty(),
    }
}

/// The views of a sequence of string literals.
pub open spec fn lits_view(s: Seq<&str>) -> Seq<Seq<char>> {
    s.map_values(|x: &str| x@)
}

/// The widget names of a node class.
fn widget_keys_exec(class: &[char]) -> (r: Vec<&'static str>)
    ensures
        lits_view(r@) == widget_keys(class@),
{
    let r: Vec<&'static str> = if eq_lit(class, "SaveVideo") {
        vec!["filename_prefix", "format", "codec"]
    } else if eq_lit(class, "SaveImage") || eq_lit(class, "ImageSave") || eq_lit(class, "SaveImageBuiltin") {
        vec!["filename_prefix"]
    } else if eq_lit(class, "CreateVideo") {
        vec!["fps"]
    } else if eq_lit(class, "WanImageToVideo") || eq_lit(class, "Wan22ImageToVideoLatent") {
        vec!["width", "height", "length", "batch_size"]
    } else if eq_lit(class, "ModelSamplingSD3") {
        vec!["shift"]
    } else if eq_lit(class, "UNETLoader") {
        vec!["unet_name", "weight_dtype"]
    } else if eq_lit(class, "LoraLoaderModelOnly") {
        vec!["lora_name", "strength_model"]
    } else if eq_lit(class, "CLIPLoader") {
        vec!["clip_name", "type", "device"]
    } else if eq_lit(class, "CLIPTextEncode") {
        vec!["text", "clip_skip"]
    } else if eq_lit(class, "VAELoader") {
        vec!["vae_name"]
    } else if eq_lit(class, "LoadImage") {
        vec!["image"]
    } else if eq_lit(class, "KSamplerAdvanced") {
        vec![
            "add_noise",
            "noise_seed",
            "noise_seed_behavior",
            "steps",
            "cfg",
            "sampler_name",
            "scheduler",
            "start_at_step",
            "end_at_step",
            "return_with_leftover_noise",
        ]
    } else if eq_lit(class, "KSampler") {
        vec!["seed", "steps", "cfg", "sampler_name", "scheduler", "denoise"]
    } else {
        Vec::new()
    };
    assert(lits_view(r@) =~= widget_keys(class@));
    r
}

/// `node_widget_inputs`: the inputs a node's widget values provide, named
/// by the widget object's keys or, for an array, by the class's table.
pub fn node_widget_inputs(class_type: &str, widgets: &JsonValue) -> (r: Vec<(String, JsonValue)>)
    ensures
        view_entries(r@) == widget_pairs(class_type@, widgets@),
{
    let mut pairs: Vec<(String, JsonValue)> = Vec::new();
    match widgets {
        JsonValue::Object(e) => {
            let mut i: usize = 0;
            while i < e.len()
                invariant
                    i <= e@.len(),
                    view_entries(pairs@) == object_widget_pairs(view_entries(e@.subrange(0, i as int))),
                decreases e@.len() - i,
            {
                proof {
                    let p = e@.subrange(0, i + 1);
                    assert(p.drop_last() =~= e@.subrange(0, i as int));
                    lemma_view_entries(p);
                    assert(view_entries(p).drop_last() =~= view_entries(e@.subrange(0, i as int)));
                    assert(view_entries(p).last() == (e@[i as int].0@, e@[i as int].1@));
                }
                let v = &e[i].1;
                let skip = match v {
                    JsonValue::Null => true,
                    JsonValue::Object(_) => true,
                    _ => false,
                };
                if !skip {
                    let ghost before = pairs@;
                    let item = (e[i].0.clone(), v.deep_clone());
                    let ghost ex = (item.0@, item.1@);
                    pairs.push(item);
                    proof {
                        assert(pairs@.drop_last() =~= before);
                        assert(view_entries(pairs@) == view_entries(before).push(ex));
                    }
                }
                i = i + 1;
            }
            assert(e@.subrange(0, e@.len() as int) =~= e@);
        },
        JsonValue::Array(values) => {
            let keys = widget_keys_exec(chars_of(class_type).as_slice());
            let ghost kv = lits_view(keys@);
            proof {
                lemma_view_items(values@);
            }
            let mut i: usize = 0;
            while i < keys.len()
                invariant
                    i <= keys@.len(),
                    kv == lits_view(keys@),
                    kv == widget_keys(class_type@),
                    view_items(values@).len() == values@.len(),
                    forall|j: int| 0 <= j < values@.len() ==> #[trigger] view_items(values@)[j] == values@[j]@,
                    view_entries(pairs@) == array_widget_pairs(kv, view_items(values@), i as nat),
                decreases keys@.len() - i,
            {
                if i < values.len() {
                    let v = &values[i];
                    let is_null = match v {
                        JsonValue::Null => true,
                        _ => false,
                    };
                    if !is_null {
                        let ghost before = pairs@;
                        let item = (String::from_str(keys[i]), v.deep_clone());
                        let ghost ex = (item.0@, item.1@);
                        assert(kv[i as int] == keys@[i as int]@);
                        pairs.push(item);
                        proof {
                            assert(pairs@.drop_last() =~= before);
                            lemma_view_entries(pairs@);
                            assert(view_entries(pairs@) == view_entries(before).push(ex));
                        }
                    }
                }
                i = i + 1;
            }
        },
        _ => {},
    }
    pairs
}


/// A link of the graph format, `[id, source node, source slot, ..]`, when
/// its first three entries are integers.
pub open spec fn link_of(l: Json) -> Option<(i64, i64, i64)> {
    match l {
        Json::Arr(a) => if a.len() >= 3 && as_i64(a[0]) is Some && as_i64(a[1]) is Some && as_i64(a[2]) is Some {
            Some((as_i64(a[0]).unwrap(), as_i64(a[1]).unwrap(), as_i64(a[2]).unwrap()))
        } else {
            None
        },
        _ => None,
    }
}

/// The well-formed links of a `links` array, in order.
pub open spec fn link_table(links: Seq<Json>) -> Seq<(i64, i64, i64)>
    decreases links.len(),
{
    if links.len() == 0 {
        Seq::empty()
    } else {
        match link_of(links.last()) {
            Some(t) => link_table(links.drop_last()).push(t),
            None => link_table(links.drop_last()),
        }
    }
}

/// The source `(node, slot)` of link `id`; of several links with one id the
/// last one counts, as it overwrites the others in the lookup table.
pub open spec fn link_source(t: Seq<(i64, i64, i64)>, id: i64) -> Option<(i64, i64)>
    decreases t.len(),
{
    if t.len() == 0 {
        None
    } else if t.last().0 == id {
        Some((t.last().1, t.last().2))
    } else {
        link_source(t.drop_last(), id)
    }
}

/// The `links` array of a document, or nothing.
pub open spec fn links_of(doc: Json) -> Seq<Json> {
    match crate::json::member(doc, "links"@) {
        Some(Json::Arr(a)) => a,
        _ => Seq::empty(),
    }
}

/// `serde_json::Number::from(i64)`.
pub open spec fn num_of_i64(i: i64) -> Num {
    if i >= 0 {
        Num::PosInt(i as u64)
    } else {
        Num::NegInt(i)
    }
}

/// An optional value read as an `i64`.
pub open spec fn i64_of(o: Option<Json>) -> Option<i64> {
    match o {
        Some(j) => as_i64(j),
        None => None,
    }
}

/// The prompt's reference to output `slot` of node `src`.
pub open spec fn link_ref(src: i64, slot: i64) -> Json {
    Json::Arr(seq![Json::Str(i64_decimal(src)), Json::Number(num_of_i64(slot))])
}

/// One entry of a node's `inputs` array applied to the inputs built so far:
/// a linked input refers to the link's source (and is left out when the
/// link is unknown), an unlinked one takes its `value`.
pub open spec fn apply_input(m: Seq<(Seq<char>, Json)>, input: Json, t: Seq<(i64, i64, i64)>) -> Seq<(Seq<char>, Json)> {
    match input {
        Json::Obj(e) => match str_member(e, "name"@) {
            None => m,
            Some(name) => match i64_of(get(e, "link"@)) {
                Some(lid) => match link_source(t, lid) {
                    Some((src, slot)) => insert(m, name, link_ref(src, slot)),
                    None => m,
                },
                None => match get(e, "value"@) {
                    Some(v) => insert(m, name, v),
                    None => m,
                },
            },
        },
        _ => m,
    }
}

/// The inputs built from a node's `inputs` array.
pub open spec fn inputs_from(inputs: Seq<Json>, t: Seq<(i64, i64, i64)>) -> Seq<(Seq<char>, Json)>
    decreases inputs.len(),
{
    if inputs.len() == 0 {
        Seq::empty()
    } else {
        apply_input(inputs_from(inputs.drop_last(), t), inputs.last(), t)
    }
}

/// Pairs added to `m` where their name is not set yet, in order.
pub open spec fn add_absent(m: Seq<(Seq<char>, Json)>, pairs: Seq<(Seq<char>, Json)>) -> Seq<(Seq<char>, Json)>
    decreases pairs.len(),
{
    if pairs.len() == 0 {
        m
    } else {
        let prev = add_absent(m, pairs.drop_last());
        if has_key(prev, pairs.last().0) {
            prev
        } else {
            prev.push(pairs.last())
        }
    }
}

/// The inputs of a converted node: its `inputs` array, then its widget
/// values for the names still unset.
pub open spec fn node_inputs(e: Seq<(Seq<char>, Json)>, class: Seq<char>, t: Seq<(i64, i64, i64)>) -> Seq<(Seq<char>, Json)> {
    let base = match get(e, "inputs"@) {
        Some(Json::Arr(a)) => inputs_from(a, t),
        _ => Seq::empty(),
    };
    match get(e, "widgets_values"@) {
        Some(w) => add_absent(base, widget_pairs(class, w)),
        None => base,
    }
}

/// The prompt node for a graph node: `class_type`, `inputs`, the title (the
/// node's own, else its `_meta` one) and the `_meta` object, which takes the
/// node's title and is left out when empty.
pub open spec fn node_object(e: Seq<(Seq<char>, Json)>, class: Seq<char>, t: Seq<(i64, i64, i64)>) -> Json {
    let meta0 = match obj_member(e, "_meta"@) {
        Some(m) => m,
        None => Seq::empty(),
    };
    let meta_title = crate::input_spec::trimmed_text(get(meta0, "title"@));
    let node_title = crate::input_spec::trimmed_text(get(e, "title"@));
    let meta = match node_title {
        Some(tt) => insert(meta0, "title"@, Json::Str(tt)),
        None => meta0,
    };
    let title = if node_title is Some {
        node_title
    } else {
        meta_title
    };
    let base = seq![("class_type"@, Json::Str(class)), ("inputs"@, Json::Obj(node_inputs(e, class, t)))];
    let with_title = match title {
        Some(tt) => insert(base, "title"@, Json::Str(tt)),
        None => base,
    };
    Json::Obj(
        if meta.len() > 0 {
            insert(with_title, "_meta"@, Json::Obj(meta))
        } else {
            with_title
        },
    )
}

/// A node id as the prompt keys it: an integer in decimal, a string as it
/// is, anything else as the empty text.
pub open spec fn node_id_text(id: Json) -> Seq<char> {
    match as_i64(id) {
        Some(n) => i64_decimal(n),
        None => match as_str(id) {
            Some(s) => s,
            None => Seq::empty(),
        },
    }
}

/// The class of a graph node: the first of `class_type`, `type` and `class`
/// that is present, read as a string.
pub open spec fn class_member(e: Seq<(Seq<char>, Json)>) -> Option<Seq<char>> {
    if has_key(e, "class_type"@) {
        str_member(e, "class_type"@)
    } else if has_key(e, "type"@) {
        str_member(e, "type"@)
    } else {
        str_member(e, "class"@)
    }
}

/// What becomes of one graph node.
pub enum NodeOutcome {
    Failed(Seq<char>),
    Skipped,
    Converted(Seq<char>, Json),
}

/// The members of a node; a value that is not an object has none.
pub open spec fn members_of(node: Json) -> Seq<(Seq<char>, Json)> {
    match node {
        Json::Obj(e) => e,
        _ => Seq::empty(),
    }
}

/// One graph node: an error when it has no usable id or class, skipped
/// when it only annotates the graph, else its id and prompt node.
pub open spec fn node_outcome(node: Json, t: Seq<(i64, i64, i64)>) -> NodeOutcome {
    let e = members_of(node);
    match get(e, "id"@) {
        None => NodeOutcome::Failed("Node missing 'id'"@),
        Some(idv) => {
            let id = node_id_text(idv);
            if id.len() == 0 {
                NodeOutcome::Failed("Node id is empty"@)
            } else {
                match class_member(e) {
                    None => NodeOutcome::Failed("Node "@ + id + " missing class_type"@),
                    Some(class) => if is_ui_only_spec(Some(class), obj_member(e, "_meta"@)) {
                        NodeOutcome::Skipped
                    } else {
                        NodeOutcome::Converted(id, node_object(e, class, t))
                    },
                }
            }
        },
    }
}

/// The prompt built from the graph nodes in order; the first failing node
/// ends the conversion with its error.
pub open spec fn nodes_prompt(nodes: Seq<Json>, t: Seq<(i64, i64, i64)>) -> Result<Seq<(Seq<char>, Json)>, Seq<char>>
    decreases nodes.len(),
{
    if nodes.len() == 0 {
        Ok(Seq::empty())
    } else {
        match nodes_prompt(nodes.drop_last(), t) {
            Err(m) => Err(m),
            Ok(p) => match node_outcome(nodes.last(), t) {
                NodeOutcome::Failed(m) => Err(m),
                NodeOutcome::Skipped => Ok(p),
                NodeOutcome::Converted(id, o) => Ok(insert(p, id, o)),
            },
        }
    }
}

/// The well-formed links of a `links` array.
fn collect_links(links: Option<&JsonValue>) -> (r: Vec<(i64, i64, i64)>)
    ensures
        r@ == link_table(links_json(links)),
{
    let mut r: Vec<(i64, i64, i64)> = Vec::new();
    if let Some(JsonValue::Array(a)) = links {
        proof {
            lemma_view_items(a@);
        }
        let mut i: usize = 0;
        while i < a.len()
            invariant
                i <= a@.len(),
                view_items(a@).len() == a@.len(),
                forall|j: int| 0 <= j < a@.len() ==> #[trigger] view_items(a@)[j] == a@[j]@,
                r@ == link_table(view_items(a@).subrange(0, i as int)),
            decreases a@.len() - i,
        {
            proof {
                let p = view_items(a@).subrange(0, i + 1);
                assert(p.drop_last() =~= view_items(a@).subrange(0, i as int));
                assert(p.last() == a@[i as int]@);
            }
            if let JsonValue::Array(l) = &a[i] {
                proof {
                    lemma_view_items(l@);
                }
                if l.len() >= 3 {
                    let x = json_as_i64(&l[0]);
                    let y = json_as_i64(&l[1]);
                    let z = json_as_i64(&l[2]);
                    if let (Some(id), Some(src), Some(slot)) = (x, y, z) {
                        r.push((id, src, slot));
                    }
                }
            }
            i = i + 1;
        }
        assert(view_items(a@).subrange(0, a@.len() as int) =~= view_items(a@));
    }
    r
}

/// The items of an optional array value.
pub open spec fn links_json(links: Option<&JsonValue>) -> Seq<Json> {
    match crate::json::opt_view(links) {
        Some(Json::Arr(a)) => a,
        _ => Seq::empty(),
    }
}

/// The source of link `id`.
fn find_link(t: &Vec<(i64, i64, i64)>, id: i64) -> (r: Option<(i64, i64)>)
    ensures
        r == link_source(t@, id),
{
    let mut j: usize = t.len();
    assert(t@.subrange(0, j as int) =~= t@);
    while j > 0
        invariant
            j <= t@.len(),
            link_source(t@, id) == link_source(t@.subrange(0, j as int), id),
        decreases j,
    {
        let ghost p = t@.subrange(0, j as int);
        assert(p.drop_last() =~= t@.subrange(0, j - 1));
        let (k, n, s) = t[j - 1];
        if k == id {
            return Some((n, s));
        }
        j = j - 1;
    }
    None
}

/// `serde_json::Number::from(i64)` as a value.
fn number_of_i64(i: i64) -> (r: JsonValue)
    ensures
        r@ == Json::Number(num_of_i64(i)),
{
    if i >= 0 {
        JsonValue::Number(JsonNumber::PosInt(i as u64))
    } else {
        JsonValue::Number(JsonNumber::NegInt(i))
    }
}

/// One entry of an `inputs` array applied to the node's inputs.
fn apply_input_exec(m: &mut Vec<(String, JsonValue)>, input: &JsonValue, t: &Vec<(i64, i64, i64)>)
    ensures
        view_entries(final(m)@) == apply_input(view_entries(old(m)@), input@, t@),
{
    if let JsonValue::Object(e) = input {
        if let Some(name) = opt_str(obj_get(e, "name")) {
            let link = match obj_get(e, "link") {
                Some(l) => json_as_i64(l),
                None => None,
            };
            match link {
                Some(lid) => {
                    if let Some((src, slot)) = find_link(t, lid) {
                        let mut items: Vec<JsonValue> = Vec::new();
                        items.push(JsonValue::String(i64_decimal_exec(src)));
                        items.push(number_of_i64(slot));
                        let v = JsonValue::Array(items);
                        proof {
                            lemma_view_items(items@);
                            assert(view_items(items@) =~= seq![Json::Str(i64_decimal(src)), Json::Number(num_of_i64(slot))]);
                        }
                        obj_insert(m, name.clone(), v);
                    }
                },
                None => {
                    if let Some(v) = obj_get(e, "value") {
                        obj_insert(m, name.clone(), v.deep_clone());
                    }
                },
            }
        }
    }
}

/// Pairs added where their name is not set yet (`entry().or_insert`).
fn add_absent_exec(m: &mut Vec<(String, JsonValue)>, pairs: Vec<(String, JsonValue)>)
    ensures
        view_entries(final(m)@) == add_absent(view_entries(old(m)@), view_entries(pairs@)),
{
    let ghost m0 = view_entries(m@);
    let ghost pv = view_entries(pairs@);
    proof {
        lemma_view_entries(pairs@);
    }
    let mut rest = pairs;
    let ghost orig = rest@;
    let ghost n = orig.len();
    let total = rest.len();
    let mut i: usize = 0;
    while rest.len() > 0
        invariant
            i <= n,
            n == orig.len(),
            total == n,
            pv == view_entries(orig),
            pv.len() == n,
            forall|j: int| 0 <= j < n ==> #[trigger] pv[j] == (orig[j].0@, orig[j].1@),
            rest@ == orig.subrange(i as int, n as int),
            view_entries(m@) == add_absent(m0, pv.subrange(0, i as int)),
        decreases rest@.len(),
    {
        let x = rest.remove(0);
        proof {
            assert(pv.subrange(0, i + 1).drop_last() =~= pv.subrange(0, i as int));
            assert(pv.subrange(0, i + 1).last() == (x.0@, x.1@));
        }
        if !crate::json::obj_contains_key(m, x.0.as_str()) {
            let ghost before = m@;
            let ghost ex = (x.0@, x.1@);
            m.push(x);
            proof {
                assert(m@.drop_last() =~= before);
                assert(view_entries(m@) == view_entries(before).push(ex));
            }
        }
        i = i + 1;
        assert(rest@ =~= orig.subrange(i as int, n as int));
    }
    assert(pv.subrange(0, n as int) =~= pv);
}


/// What becomes of one graph node, as executable values.
pub enum ConvertedNode {
    Failed(String),
    Skipped,
    Converted(String, JsonValue),
}

impl View for ConvertedNode {
    type V = NodeOutcome;

    open spec fn view(&self) -> NodeOutcome {
        match self {
            ConvertedNode::Failed(m) => NodeOutcome::Failed(m@),
            ConvertedNode::Skipped => NodeOutcome::Skipped,
            ConvertedNode::Converted(id, o) => NodeOutcome::Converted(id@, o@),
        }
    }
}

/// The class of a graph node.
fn node_class(e: &Vec<(String, JsonValue)>) -> (r: Option<&String>)
    ensures
        match r {
            Some(c) => class_member(view_entries(e@)) == Some(c@),
            None => class_member(view_entries(e@)) is None,
        },
{
    if crate::json::obj_contains_key(e, "class_type") {
        opt_str(obj_get(e, "class_type"))
    } else if crate::json::obj_contains_key(e, "type") {
        opt_str(obj_get(e, "type"))
    } else {
        opt_str(obj_get(e, "class"))
    }
}

/// The prompt key of a node id.
pub(crate) fn node_id_string(id: &JsonValue) -> (r: String)
    ensures
        r@ == node_id_text(id@),
{
    match json_as_i64(id) {
        Some(n) => i64_decimal_exec(n),
        None => match json_as_str(id) {
            Some(s) => s.clone(),
            None => String::new(),
        },
    }
}

/// The inputs of a converted node.
fn build_node_inputs(e: &Vec<(String, JsonValue)>, class: &str, t: &Vec<(i64, i64, i64)>) -> (r: Vec<(String, JsonValue)>)
    ensures
        view_entries(r@) == node_inputs(view_entries(e@), class@, t@),
{
    let mut m: Vec<(String, JsonValue)> = Vec::new();
    if let Some(JsonValue::Array(a)) = obj_get(e, "inputs") {
        proof {
            lemma_view_items(a@);
        }
        let mut i: usize = 0;
        while i < a.len()
            invariant
                i <= a@.len(),
                view_items(a@).len() == a@.len(),
                forall|j: int| 0 <= j < a@.len() ==> #[trigger] view_items(a@)[j] == a@[j]@,
                view_entries(m@) == inputs_from(view_items(a@).subrange(0, i as int), t@),
            decreases a@.len() - i,
        {
            proof {
                let p = view_items(a@).subrange(0, i + 1);
                assert(p.drop_last() =~= view_items(a@).subrange(0, i as int));
                assert(p.last() == a@[i as int]@);
            }
            apply_input_exec(&mut m, &a[i], t);
            i = i + 1;
        }
        assert(view_items(a@).subrange(0, a@.len() as int) =~= view_items(a@));
    }
    if let Some(w) = obj_get(e, "widgets_values") {
        let pairs = node_widget_inputs(class, w);
        add_absent_exec(&mut m, pairs);
    }
    m
}

/// The prompt node for a graph node of class `class`.
fn build_node_object(e: &Vec<(String, JsonValue)>, class: &String, t: &Vec<(i64, i64, i64)>) -> (r: JsonValue)
    ensures
        r@ == node_object(view_entries(e@), class@, t@),
{
    let mut meta: Vec<(String, JsonValue)> = match opt_obj(obj_get(e, "_meta")) {
        Some(m) => crate::json::clone_entries(m),
        None => Vec::new(),
    };
    proof {
        lemma_view_entries(meta@);
    }
    let meta_title = crate::input_spec::trimmed_text_exec(obj_get(&meta, "title"));
    let node_title = crate::input_spec::trimmed_text_exec(obj_get(e, "title"));
    if let Some(tt) = &node_title {
        obj_insert(&mut meta, String::from_str("title"), JsonValue::String(tt.clone()));
    }
    let title = if node_title.is_some() {
        node_title
    } else {
        meta_title
    };
    let inputs = build_node_inputs(e, class.as_str(), t);
    let mut nobj: Vec<(String, JsonValue)> = Vec::new();
    nobj.push((String::from_str("class_type"), JsonValue::String(class.clone())));
    nobj.push((String::from_str("inputs"), JsonValue::Object(inputs)));
    proof {
        lemma_view_entries(nobj@);
        assert(view_entries(nobj@) =~= seq![
            ("class_type"@, Json::Str(class@)),
            ("inputs"@, Json::Obj(node_inputs(view_entries(e@), class@, t@))),
        ]);
    }
    if let Some(tt) = title {
        obj_insert(&mut nobj, String::from_str("title"), JsonValue::String(tt));
    }
    proof {
        lemma_view_entries(meta@);
    }
    if meta.len() > 0 {
        obj_insert(&mut nobj, String::from_str("_meta"), JsonValue::Object(meta));
    }
    JsonValue::Object(nobj)
}

/// One graph node converted to a prompt node, skipped, or refused.
fn convert_node(node: &JsonValue, t: &Vec<(i64, i64, i64)>) -> (r: ConvertedNode)
    ensures
        r@ == node_outcome(node@, t@),
{
    let e = match node {
        JsonValue::Object(e) => e,
        _ => {
            return ConvertedNode::Failed(String::from_str("Node missing 'id'"));
        },
    };
    let idv = match obj_get(e, "id") {
        Some(v) => v,
        None => {
            return ConvertedNode::Failed(String::from_str("Node missing 'id'"));
        },
    };
    let id = node_id_string(idv);
    let id_chars = chars_of(id.as_str());
    if id_chars.len() == 0 {
        return ConvertedNode::Failed(String::from_str("Node id is empty"));
    }
    let class = match node_class(e) {
        Some(c) => c,
        None => {
            let msg = concat3(
                chars_of("Node ").as_slice(),
                id_chars.as_slice(),
                chars_of(" missing class_type").as_slice(),
            );
            return ConvertedNode::Failed(string_of(msg.as_slice()));
        },
    };
    if is_ui_only_node(Some(class.as_str()), opt_obj(obj_get(e, "_meta"))) {
        return ConvertedNode::Skipped;
    }
    let o = build_node_object(e, class, t);
    ConvertedNode::Converted(id, o)
}

/// An error of an earlier node is the error of the whole conversion.
proof fn lemma_nodes_err_prefix(s: Seq<Json>, t: Seq<(i64, i64, i64)>, k: int)
    requires
        0 <= k <= s.len(),
        nodes_prompt(s.subrange(0, k), t) is Err,
    ensures
        nodes_prompt(s, t) == nodes_prompt(s.subrange(0, k), t),
    decreases s.len() - k,
{
    if k < s.len() {
        let p = s.subrange(0, k + 1);
        assert(p.drop_last() =~= s.subrange(0, k));
        lemma_nodes_err_prefix(s, t, k + 1);
    } else {
        assert(s.subrange(0, k) =~= s);
    }
}

/// The prompt built from the graph nodes, or the first node's error.
fn nodes_to_prompt(nodes: &Vec<JsonValue>, t: &Vec<(i64, i64, i64)>) -> (r: Result<Vec<(String, JsonValue)>, String>)
    ensures
        match nodes_prompt(view_items(nodes@), t@) {
            Ok(p) => r matches Ok(x) && view_entries(x@) == p,
            Err(m) => r matches Err(x) && x@ == m,
        },
{
    proof {
        lemma_view_items(nodes@);
    }
    let ghost all = view_items(nodes@);
    let mut prompt: Vec<(String, JsonValue)> = Vec::new();
    let mut i: usize = 0;
    assert(all.subrange(0, 0) =~= Seq::<Json>::empty());
    while i < nodes.len()
        invariant
            i <= nodes@.len(),
            all == view_items(nodes@),
            all.len() == nodes@.len(),
            forall|j: int| 0 <= j < nodes@.len() ==> #[trigger] all[j] == nodes@[j]@,
            nodes_prompt(all.subrange(0, i as int), t@) == Ok::<Seq<(Seq<char>, Json)>, Seq<char>>(view_entries(prompt@)),
        decreases nodes@.len() - i,
    {
        proof {
            let p = all.subrange(0, i + 1);
            assert(p.drop_last() =~= all.subrange(0, i as int));
            assert(p.last() == nodes@[i as int]@);
        }
        match convert_node(&nodes[i], t) {
            ConvertedNode::Failed(m) => {
                proof {
                    lemma_nodes_err_prefix(all, t@, i + 1);
                }
                return Err(m);
            },
            ConvertedNode::Skipped => {},
            ConvertedNode::Converted(id, o) => {
                obj_insert(&mut prompt, id, o);
            },
        }
        i = i + 1;
    }
    assert(all.subrange(0, nodes@.len() as int) =~= all);
    Ok(prompt)
}

/// The payload a workflow document becomes, before a client id is chosen.
pub enum PayloadView {
    /// The document already is a payload; it is sent as it is, its prompt
    /// stripped.
    Complete(Json),
    /// A prompt that still needs a client id.
    NeedsClientId(Seq<(Seq<char>, Json)>),
}

/// The payload a workflow document becomes, as executable values.
pub enum PromptPayload {
    Complete(JsonValue),
    NeedsClientId(Vec<(String, JsonValue)>),
}

impl View for PromptPayload {
    type V = PayloadView;

    open spec fn view(&self) -> PayloadView {
        match self {
            PromptPayload::Complete(d) => PayloadView::Complete(d@),
            PromptPayload::NeedsClientId(p) => PayloadView::NeedsClientId(view_entries(p@)),
        }
    }
}

/// Every member of the object is a node with a `class_type`.
pub open spec fn all_nodes_typed(e: Seq<(Seq<char>, Json)>) -> bool {
    forall|i: int| 0 <= i < e.len() ==> (#[trigger] crate::json::member(e[i].1, "class_type"@)) is Some
}

/// The payload built from the graph format, or why there is none.
pub open spec fn graph_payload(doc: Json) -> Result<PayloadView, Seq<char>> {
    match crate::json::member(doc, "nodes"@) {
        Some(Json::Arr(nodes)) => match nodes_prompt(nodes, link_table(links_of(doc))) {
            Ok(p) => Ok(PayloadView::NeedsClientId(strip_ui_only(p))),
            Err(m) => Err(m),
        },
        _ => Err(
            "Workflow JSON doesn't contain a 'prompt' or a 'nodes' array; please paste a ComfyUI API prompt (Copy API)"@,
        ),
    }
}

/// What `convert_workflow_to_prompt` makes of a parsed document: a payload
/// with a `prompt` object is kept, its prompt stripped; an object of typed
/// nodes is taken as the prompt; otherwise the graph format is converted.
pub open spec fn workflow_payload_spec(doc: Json) -> Result<PayloadView, Seq<char>> {
    match doc {
        Json::Obj(e) => if obj_member(e, "prompt"@) is Some {
            Ok(PayloadView::Complete(Json::Obj(insert(e, "prompt"@, Json::Obj(strip_ui_only(obj_member(e, "prompt"@).unwrap()))))))
        } else if all_nodes_typed(e) {
            Ok(PayloadView::NeedsClientId(strip_ui_only(e)))
        } else {
            graph_payload(doc)
        },
        _ => graph_payload(doc),
    }
}

/// A prompt wrapped with its client id.
pub open spec fn with_client_id(prompt: Seq<(Seq<char>, Json)>, client_id: Seq<char>) -> Json {
    Json::Obj(seq![("prompt"@, Json::Obj(prompt)), ("client_id"@, Json::Str(client_id))])
}

/// Every member of the object is a node with a `class_type`.
fn all_typed_exec(e: &Vec<(String, JsonValue)>) -> (r: bool)
    ensures
        r == all_nodes_typed(view_entries(e@)),
{
    proof {
        lemma_view_entries(e@);
    }
    let ghost ev = view_entries(e@);
    let mut i: usize = 0;
    while i < e.len()
        invariant
            i <= e@.len(),
            ev == view_entries(e@),
            ev.len() == e@.len(),
            forall|j: int| 0 <= j < e@.len() ==> #[trigger] ev[j] == (e@[j].0@, e@[j].1@),
            forall|j: int| 0 <= j < i ==> (#[trigger] crate::json::member(ev[j].1, "class_type"@)) is Some,
        decreases e@.len() - i,
    {
        assert(ev[i as int] == (e@[i as int].0@, e@[i as int].1@));
        let typed = match &e[i].1 {
            JsonValue::Object(m) => crate::json::obj_contains_key(m, "class_type"),
            _ => false,
        };
        if !typed {
            assert(crate::json::member(ev[i as int].1, "class_type"@) is None);
            return false;
        }
        i = i + 1;
    }
    true
}

/// The payload built from the graph format.
fn graph_payload_exec(doc: &JsonValue) -> (r: Result<PromptPayload, String>)
    ensures
        match graph_payload(doc@) {
            Ok(pv) => r matches Ok(x) && x@ == pv,
            Err(m) => r matches Err(x) && x@ == m,
        },
{
    let no_nodes = "Workflow JSON doesn't contain a 'prompt' or a 'nodes' array; please paste a ComfyUI API prompt (Copy API)";
    if let JsonValue::Object(e) = doc {
        if let Some(JsonValue::Array(nodes)) = obj_get(e, "nodes") {
            let links = collect_links(obj_get(e, "links"));
            return match nodes_to_prompt(nodes, &links) {
                Ok(mut p) => {
                    strip_ui_only_prompt_nodes(&mut p);
                    Ok(PromptPayload::NeedsClientId(p))
                },
                Err(m) => Err(m),
            };
        }
    }
    Err(String::from_str(no_nodes))
}

/// What a parsed workflow document becomes: the payload to send, or a
/// prompt that still needs a client id, or the reason it cannot be sent.
pub fn prompt_payload(doc: &JsonValue) -> (r: Result<PromptPayload, String>)
    ensures
        match workflow_payload_spec(doc@) {
            Ok(pv) => r matches Ok(x) && x@ == pv,
            Err(m) => r matches Err(x) && x@ == m,
        },
{
    if let JsonValue::Object(e) = doc {
        proof {
            lemma_view_entries(e@);
        }
        if let Some(idx) = crate::json::obj_index(e, "prompt") {
            if let JsonValue::Object(p) = &e[idx].1 {
                let mut stripped = crate::json::clone_entries(p);
                strip_ui_only_prompt_nodes(&mut stripped);
                let mut whole = crate::json::clone_entries(e);
                obj_insert(&mut whole, String::from_str("prompt"), JsonValue::Object(stripped));
                return Ok(PromptPayload::Complete(JsonValue::Object(whole)));
            }
        }
        if all_typed_exec(e) {
            let mut p = crate::json::clone_entries(e);
            strip_ui_only_prompt_nodes(&mut p);
            return Ok(PromptPayload::NeedsClientId(p));
        }
    }
    graph_payload_exec(doc)
}

/// The prompt wrapped with its client id.
pub fn attach_client_id(prompt: Vec<(String, JsonValue)>, client_id: String) -> (r: JsonValue)
    ensures
        r@ == with_client_id(view_entries(prompt@), client_id@),
{
    let mut root: Vec<(String, JsonValue)> = Vec::new();
    root.push((String::from_str("prompt"), JsonValue::Object(prompt)));
    root.push((String::from_str("client_id"), JsonValue::String(client_id)));
    proof {
        lemma_view_entries(root@);
    }
    assert(view_entries(root@) =~= seq![
        ("prompt"@, Json::Obj(view_entries(prompt@))),
        ("client_id"@, Json::Str(client_id@)),
    ]);
    JsonValue::Object(root)
}

/// The outcome of `convert_workflow_to_prompt` when a wrapped prompt gets
/// client id `id`.
pub open spec fn convert_result(data: Seq<char>, id: u128) -> Result<Seq<char>, Seq<char>> {
    match parsed_json(data) {
        Err(e) => Err("Invalid JSON: "@ + e),
        Ok(doc) => match workflow_payload_spec(doc) {
            Err(msg) => Err(msg),
            Ok(PayloadView::Complete(d)) => Ok(json_text(d)),
            Ok(PayloadView::NeedsClientId(p)) => Ok(json_text(with_client_id(p, crate::ids::uuid_text(id)))),
        },
    }
}

/// The view of a text outcome.
pub open spec fn text_result(r: Result<String, String>) -> Result<Seq<char>, Seq<char>> {
    match r {
        Ok(t) => Ok(t@),
        Err(e) => Err(e@),
    }
}

/// `convert_workflow_to_prompt`: the `/prompt` payload text for a workflow
/// document, or why it cannot be made. A wrapped prompt gets a fresh random
/// client id.
pub fn convert_workflow_to_prompt(workflow_json: &str) -> (r: Result<String, String>)
    ensures
        match parsed_json(workflow_json@) {
            Err(e) => r matches Err(m) && m@ == "Invalid JSON: "@ + e,
            Ok(doc) => match workflow_payload_spec(doc) {
                Err(msg) => r matches Err(m) && m@ == msg,
                Ok(PayloadView::Complete(d)) => r matches Ok(text) && text@ == json_text(d),
                Ok(PayloadView::NeedsClientId(p)) => r matches Ok(text) && exists|id: u128|
                    text@ == json_text(with_client_id(p, crate::ids::uuid_text(id))),
            },
        },
        exists|id: u128| text_result(r) == convert_result(workflow_json@, id),
{
    let doc = match parse_json(workflow_json) {
        Ok(d) => d,
        Err(e) => {
            let msg = crate::text::concat_chars(chars_of("Invalid JSON: ").as_slice(), chars_of(e.as_str()).as_slice());
            let r = string_of(msg.as_slice());
            assert(text_result(Err(r)) == convert_result(workflow_json@, 0));
            return Err(r);
        },
    };
    match prompt_payload(&doc) {
        Err(m) => {
            assert(text_result(Err(m)) == convert_result(workflow_json@, 0));
            Err(m)
        },
        Ok(PromptPayload::Complete(d)) => {
            let t = json_to_string(&d);
            assert(text_result(Ok(t)) == convert_result(workflow_json@, 0));
            Ok(t)
        },
        Ok(PromptPayload::NeedsClientId(p)) => {
            let ghost pv = view_entries(p@);
            let id = crate::ids::random_uuid();
            let root = attach_client_id(p, crate::ids::uuid_string(id));
            let text = json_to_string(&root);
            assert(text@ == json_text(with_client_id(pv, crate::ids::uuid_text(id))));
            assert(text_result(Ok(text)) == convert_result(workflow_json@, id));
            Ok(text)
        },
    }
}

} // verus!
