//! What a workflow file says of itself: the outputs it produces, its video
//! settings, and its prompt graph.

use vstd::prelude::*;
use crate::comfy_prompt::{
    convert_workflow_to_prompt, obj_member, with_client_id, workflow_payload_spec, PayloadView,
};
use crate::ids::uuid_text;
use crate::input_spec::node_title_spec;
use crate::json::{
    get, lemma_view_entries, lemma_view_items, obj_get, view_entries, view_items, Json, JsonValue,
};
use crate::json_text::{json_text, json_to_string, parse_json, parsed_json};
use crate::storyboard::{StoryboardVideoSettings, StoryboardWorkflowOutputKind};
use crate::text::{chars_of, contains, lower, lower_contains};
use crate::workflow_preset::{as_str_opt, collect_input_specs, collect_specs, view_specs, StoryboardWorkflowInputSpec};

verus! {

/// Both flags, or'ed.
pub open spec fn or2(a: (bool, bool), b: (bool, bool)) -> (bool, bool) {
    (a.0 || b.0, a.1 || b.1)
}

/// Whether a name or text mentions saving an image,
/// and saving a video, in any case.
pub open spec fn inspect_spec(text: Seq<char>) -> (bool, bool) {
    let l = lower(text);
    (
        contains(l, "save image"@) || contains(l, "saveimage"@),
        contains(l, "save video"@) || contains(l, "savevideo"@) || contains(l, "vhs_videocombine"@),
    )
}

/// `scan_value_for_outputs`: the flags of every key and string in a value.
pub open spec fn value_flags(j: Json) -> (bool, bool)
    decreases j,
{
    match j {
        Json::Obj(e) => members_flags(e),
        Json::Arr(a) => items_flags(a),
        Json::Str(t) => inspect_spec(t),
        _ => (false, false),
    }
}

/// The flags of the items of an array.
pub open spec fn items_flags(a: Seq<Json>) -> (bool, bool)
    decreases a,
{
    if a.len() == 0 {
        (false, false)
    } else {
        or2(items_flags(a.drop_last()), value_flags(a.last()))
    }
}

/// The flags of the members of an object: keys and values.
pub open spec fn members_flags(e: Seq<(Seq<char>, Json)>) -> (bool, bool)
    decreases e,
{
    if e.len() == 0 {
        (false, false)
    } else {
        or2(members_flags(e.drop_last()), or2(inspect_spec(e.last().0), value_flags(e.last().1)))
    }
}

/// The flags of one prompt node: its id, class, title and inputs.
pub open spec fn node_flags(id: Seq<char>, node: Json) -> (bool, bool) {
    or2(
        inspect_spec(id),
        match node {
            Json::Obj(o) => or2(
                or2(
                    match as_str_opt(get(o, "class_type"@)) {
                        Some(c) => inspect_spec(c),
                        None => (false, false),
                    },
                    match node_title_spec(o) {
                        Some(t) => inspect_spec(t),
                        None => (false, false),
                    },
                ),
                match get(o, "inputs"@) {
                    Some(i) => value_flags(i),
                    None => (false, false),
                },
            ),
            _ => (false, false),
        },
    )
}

/// `scan_prompt_for_outputs`: the flags of every node of a prompt.
pub open spec fn prompt_flags(p: Seq<(Seq<char>, Json)>) -> (bool, bool)
    decreases p.len(),
{
    if p.len() == 0 {
        (false, false)
    } else {
        or2(prompt_flags(p.drop_last()), node_flags(p.last().0, p.last().1))
    }
}

/// Whether a name or text mentions saving an image or a video; see
/// `inspect_spec`.
fn inspect_exec(text: &str) -> (r: (bool, bool))
    ensures
        r == inspect_spec(text@),
{
    let c = chars_of(text);
    let s = c.as_slice();
    let image = lower_contains(s, "save image") || lower_contains(s, "saveimage");
    let video = lower_contains(s, "save video") || lower_contains(s, "savevideo") || lower_contains(s, "vhs_videocombine");
    (image, video)
}

/// `scan_value_for_outputs`.
#[verifier::loop_isolation(false)]
pub fn scan_value_for_outputs(value: &JsonValue) -> (r: (bool, bool))
    ensures
        r == value_flags(value@),
    decreases value,
{
    match value {
        JsonValue::Object(e) => {
            proof {
                lemma_view_entries(e@);
            }
            let ghost ev = view_entries(e@);
            let mut acc = (false, false);
            let mut i: usize = 0;
            while i < e.len()
                invariant
                    i <= e@.len(),
                    acc == members_flags(ev.subrange(0, i as int)),
                decreases e@.len() - i,
            {
                proof {
                    assert(decreases_to!(*e => e[i as int]));
                    assert(decreases_to!(e[i as int] => e[i as int].1));
                    assert(ev.subrange(0, i + 1).drop_last() =~= ev.subrange(0, i as int));
                }
                let k = inspect_exec(e[i].0.as_str());
                let v = scan_value_for_outputs(&e[i].1);
                acc = (acc.0 || k.0 || v.0, acc.1 || k.1 || v.1);
                i = i + 1;
            }
            assert(ev.subrange(0, e@.len() as int) =~= ev);
            acc
        },
        JsonValue::Array(a) => {
            proof {
                lemma_view_items(a@);
            }
            let ghost av = view_items(a@);
            let mut acc = (false, false);
            let mut i: usize = 0;
            while i < a.len()
                invariant
                    i <= a@.len(),
                    acc == items_flags(av.subrange(0, i as int)),
                decreases a@.len() - i,
            {
                proof {
                    assert(decreases_to!(*a => a[i as int]));
                    assert(av.subrange(0, i + 1).drop_last() =~= av.subrange(0, i as int));
                }
                let v = scan_value_for_outputs(&a[i]);
                acc = (acc.0 || v.0, acc.1 || v.1);
                i = i + 1;
            }
            assert(av.subrange(0, a@.len() as int) =~= av);
            acc
        },
        JsonValue::String(t) => inspect_exec(t.as_str()),
        _ => (false, false),
    }
}

/// `scan_prompt_for_outputs`.
pub fn scan_prompt_for_outputs(prompt: &Vec<(String, JsonValue)>) -> (r: (bool, bool))
    ensures
        r == prompt_flags(view_entries(prompt@)),
{
    proof {
        lemma_view_entries(prompt@);
    }
    let ghost pv = view_entries(prompt@);
    let mut acc = (false, false);
    let mut i: usize = 0;
    while i < prompt.len()
        invariant
            pv == view_entries(prompt@),
            pv.len() == prompt@.len(),
            forall|j: int| 0 <= j < prompt@.len() ==> #[trigger] pv[j] == (prompt@[j].0@, prompt@[j].1@),
            i <= prompt@.len(),
            acc == prompt_flags(pv.subrange(0, i as int)),
        decreases prompt@.len() - i,
    {
        proof {
            assert(pv.subrange(0, i + 1).drop_last() =~= pv.subrange(0, i as int));
            assert(pv[i as int] == (prompt@[i as int].0@, prompt@[i as int].1@));
        }
        let id_flags = inspect_exec(prompt[i].0.as_str());
        let mut nf = (false, false);
        if let JsonValue::Object(o) = &prompt[i].1 {
            let cf = match crate::comfy_prompt::opt_str(obj_get(o, "class_type")) {
                Some(c) => inspect_exec(c.as_str()),
                None => (false, false),
            };
            let tf = match crate::input_spec::extract_node_title(o) {
                Some(t) => inspect_exec(t.as_str()),
                None => (false, false),
            };
            let vf = match obj_get(o, "inputs") {
                Some(inputs) => scan_value_for_outputs(inputs),
                None => (false, false),
            };
            nf = (cf.0 || tf.0 || vf.0, cf.1 || tf.1 || vf.1);
        }
        acc = (acc.0 || id_flags.0 || nf.0, acc.1 || id_flags.1 || nf.1);
        i = i + 1;
    }
    assert(pv.subrange(0, prompt@.len() as int) =~= pv);
    acc
}

/// The `prompt` object of a parse outcome.
pub open spec fn prompt_of(parsed: Result<Json, Seq<char>>) -> Option<Seq<(Seq<char>, Json)>> {
    match parsed {
        Ok(Json::Obj(e)) => obj_member(e, "prompt"@),
        _ => None,
    }
}

/// `prompt_map_from_str` when the text holds no `prompt` object: the prompt
/// of the converted payload, read back from its text. A wrapped prompt gets
/// a random client id, `id`.
pub open spec fn converted_prompt(data: Seq<char>, id: u128) -> Option<Seq<(Seq<char>, Json)>> {
    match parsed_json(data) {
        Ok(doc) => match workflow_payload_spec(doc) {
            Ok(PayloadView::Complete(d)) => prompt_of(parsed_json(json_text(d))),
            Ok(PayloadView::NeedsClientId(p)) => prompt_of(parsed_json(json_text(with_client_id(p, uuid_text(id))))),
            Err(_) => None,
        },
        Err(_) => None,
    }
}

/// `prompt_map_from_str`: the prompt object of a workflow text, as it
/// stands or after conversion.
pub open spec fn prompt_map_spec(data: Seq<char>, id: u128) -> Option<Seq<(Seq<char>, Json)>> {
    match prompt_of(parsed_json(data)) {
        Some(p) => Some(p),
        None => converted_prompt(data, id),
    }
}

/// The view of an optional object.
pub open spec fn opt_entries_view(o: Option<Vec<(String, JsonValue)>>) -> Option<Seq<(Seq<char>, Json)>> {
    match o {
        Some(e) => Some(view_entries(e@)),
        None => None,
    }
}

/// The `prompt` object of a parsed document, copied.
fn prompt_member(parsed: &Result<JsonValue, String>) -> (r: Option<Vec<(String, JsonValue)>>)
    ensures
        opt_entries_view(r) == prompt_of(crate::json_text::parse_view(*parsed)),
{
    if let Ok(JsonValue::Object(e)) = parsed {
        if let Some(p) = crate::comfy_prompt::opt_obj(obj_get(e, "prompt")) {
            return Some(crate::json::clone_entries(p));
        }
    }
    None
}

/// The prompt object of a
/// workflow text, as it stands or after conversion.
pub fn prompt_map_from_str(data: &str) -> (r: Option<Vec<(String, JsonValue)>>)
    ensures
        exists|id: u128| opt_entries_view(r) == prompt_map_spec(data@, id),
{
    let first = parse_json(data);
    if let Some(p) = prompt_member(&first) {
        proof {
            assert(opt_entries_view(Some(p)) == prompt_map_spec(data@, 0));
        }
        return Some(p);
    }
    match convert_workflow_to_prompt(data) {
        Ok(text) => {
            let second = parse_json(text.as_str());
            let r = prompt_member(&second);
            proof {
                match parsed_json(data@) {
                    Ok(doc) => match workflow_payload_spec(doc) {
                        Ok(PayloadView::NeedsClientId(p)) => {
                            let id = choose|id: u128| text@ == json_text(with_client_id(p, uuid_text(id)));
                            assert(opt_entries_view(r) == prompt_map_spec(data@, id));
                        },
                        _ => {
                            assert(opt_entries_view(r) == prompt_map_spec(data@, 0));
                        },
                    },
                    Err(_) => {},
                }
            }
            r
        },
        Err(_) => {
            proof {
                assert(opt_entries_view(None) == prompt_map_spec(data@, 0));
            }
            None
        },
    }
}

/// `parse_output_kind`: what a workflow produces, from the names and texts
/// of its document and, unless both kinds were found there, of its prompt.
pub open spec fn output_flags(data: Seq<char>, id: u128) -> (bool, bool) {
    let doc_flags = match parsed_json(data) {
        Ok(v) => value_flags(v),
        Err(_) => (false, false),
    };
    if doc_flags.0 && doc_flags.1 {
        doc_flags
    } else {
        match prompt_map_spec(data, id) {
            Some(p) => or2(doc_flags, prompt_flags(p)),
            None => doc_flags,
        }
    }
}

/// The kind of a workflow from its flags.
pub open spec fn kind_of_flags(f: (bool, bool)) -> StoryboardWorkflowOutputKind {
    if f.0 && f.1 {
        StoryboardWorkflowOutputKind::ImageAndVideo
    } else if f.1 {
        StoryboardWorkflowOutputKind::Video
    } else {
        StoryboardWorkflowOutputKind::Image
    }
}

/// What a workflow text produces; see `output_flags`.
pub fn parse_output_kind(data: &str) -> (r: StoryboardWorkflowOutputKind)
    ensures
        exists|id: u128| r == kind_of_flags(output_flags(data@, id)),
{
    let mut flags = match parse_json(data) {
        Ok(v) => scan_value_for_outputs(&v),
        Err(_) => (false, false),
    };
    if !flags.0 || !flags.1 {
        let pm = prompt_map_from_str(data);
        let ghost id = choose|id: u128| opt_entries_view(pm) == prompt_map_spec(data@, id);
        if let Some(prompt) = pm {
            let pf = scan_prompt_for_outputs(&prompt);
            flags = (flags.0 || pf.0, flags.1 || pf.1);
        }
        let r = StoryboardWorkflowOutputKind::from_flags(flags.0, flags.1);
        assert(r == kind_of_flags(output_flags(data@, id)));
        return r;
    }
    let r = StoryboardWorkflowOutputKind::from_flags(flags.0, flags.1);
    assert(r == kind_of_flags(output_flags(data@, 0)));
    r
}

/// The input specs of a workflow text: the
/// editable inputs of the workflow's prompt, none when it has no prompt.
pub fn input_specs_from_text(data: &str) -> (r: Vec<StoryboardWorkflowInputSpec>)
    ensures
        exists|id: u128| view_specs(r@) == specs_of_prompt(#[trigger] prompt_map_spec(data@, id)),
{
    match prompt_map_from_str(data) {
        Some(p) => collect_input_specs(p),
        None => {
            let r: Vec<StoryboardWorkflowInputSpec> = Vec::new();
            assert(view_specs(r@) =~= Seq::empty());
            r
        },
    }
}

/// The editable inputs of an optional prompt.
pub open spec fn specs_of_prompt(p: Option<Seq<(Seq<char>, Json)>>) -> Seq<crate::workflow_preset::InputSpecView> {
    match p {
        Some(e) => collect_specs(e),
        None => Seq::empty(),
    }
}


/// A settings value as text: a string as it is, anything else as its JSON
/// text.
pub open spec fn setting_text(v: Json) -> Seq<char> {
    match v {
        Json::Str(t) => t,
        _ => json_text(v),
    }
}

/// The video settings of a prompt node that saves a video and names all
/// three settings among its inputs.
pub open spec fn prompt_node_video(node: Json) -> Option<(Seq<char>, Seq<char>, Seq<char>)> {
    match node {
        Json::Obj(o) => if as_str_opt(get(o, "class_type"@)) == Some("SaveVideo"@) {
            match obj_member(o, "inputs"@) {
                Some(i) => match (get(i, "filename_prefix"@), get(i, "format"@), get(i, "codec"@)) {
                    (Some(a), Some(b), Some(c)) => Some((setting_text(a), setting_text(b), setting_text(c))),
                    _ => None,
                },
                None => None,
            }
        } else {
            None
        },
        _ => None,
    }
}

/// The settings of the first prompt node that gives them.
pub open spec fn first_prompt_video(e: Seq<(Seq<char>, Json)>) -> Option<(Seq<char>, Seq<char>, Seq<char>)>
    decreases e.len(),
{
    if e.len() == 0 {
        None
    } else {
        match prompt_node_video(e[0].1) {
            Some(v) => Some(v),
            None => first_prompt_video(e.drop_first()),
        }
    }
}

/// Widget value `i` as a string, or `default`.
pub open spec fn widget_str(w: Seq<Json>, i: int, default: Seq<char>) -> Seq<char> {
    if i < w.len() && w[i] is Str {
        w[i]->Str_0
    } else {
        default
    }
}

/// The video settings of a graph node that saves a video, from its widget
/// values, with defaults for those missing.
pub open spec fn graph_node_video(node: Json) -> Option<(Seq<char>, Seq<char>, Seq<char>)> {
    match node {
        Json::Obj(o) => if as_str_opt(get(o, "type"@)) == Some("SaveVideo"@) {
            match get(o, "widgets_values"@) {
                Some(Json::Arr(w)) => Some(
                    (widget_str(w, 0, "video/ComfyUI"@), widget_str(w, 1, "auto"@), widget_str(w, 2, "auto"@)),
                ),
                _ => None,
            }
        } else {
            None
        },
        _ => None,
    }
}

/// The settings of the first graph node that gives them.
pub open spec fn first_graph_video(nodes: Seq<Json>) -> Option<(Seq<char>, Seq<char>, Seq<char>)>
    decreases nodes.len(),
{
    if nodes.len() == 0 {
        None
    } else {
        match graph_node_video(nodes[0]) {
            Some(v) => Some(v),
            None => first_graph_video(nodes.drop_first()),
        }
    }
}

/// `parse_video_defaults`: the video settings of a workflow text, from its
/// prompt or else its graph nodes.
pub open spec fn video_defaults_spec(data: Seq<char>) -> Option<(Seq<char>, Seq<char>, Seq<char>)> {
    match parsed_json(data) {
        Ok(v) => {
            let from_prompt = match prompt_of(Ok(v)) {
                Some(p) => first_prompt_video(p),
                None => None,
            };
            if from_prompt is Some {
                from_prompt
            } else {
                match crate::json::member(v, "nodes"@) {
                    Some(Json::Arr(n)) => first_graph_video(n),
                    _ => None,
                }
            }
        },
        Err(_) => None,
    }
}

/// A settings value as text.
fn setting_text_exec(v: &JsonValue) -> (r: String)
    ensures
        r@ == setting_text(v@),
{
    match v {
        JsonValue::String(t) => t.clone(),
        _ => json_to_string(v),
    }
}

/// The video settings of one prompt node.
fn prompt_node_video_exec(node: &JsonValue) -> (r: Option<StoryboardVideoSettings>)
    ensures
        opt_settings(r) == prompt_node_video(node@),
{
    if let JsonValue::Object(o) = node {
        if let Some(c) = crate::comfy_prompt::opt_str(obj_get(o, "class_type")) {
            if crate::text::eq_lit(chars_of(c.as_str()).as_slice(), "SaveVideo") {
                if let Some(i) = crate::comfy_prompt::opt_obj(obj_get(o, "inputs")) {
                    if let (Some(a), Some(b), Some(cd)) = (obj_get(i, "filename_prefix"), obj_get(i, "format"), obj_get(i, "codec")) {
                        return Some(StoryboardVideoSettings {
                            filename_prefix: setting_text_exec(a),
                            format: setting_text_exec(b),
                            codec: setting_text_exec(cd),
                        });
                    }
                }
            }
        }
    }
    None
}

/// Widget value `i` as a string, or the literal `default`.
fn widget_str_exec(w: &Vec<JsonValue>, i: usize, default: &str) -> (r: String)
    ensures
        r@ == widget_str(view_items(w@), i as int, default@),
{
    proof {
        lemma_view_items(w@);
    }
    if i < w.len() {
        if let JsonValue::String(t) = &w[i] {
            return t.clone();
        }
    }
    String::from_str(default)
}

/// The video settings of one graph node.
fn graph_node_video_exec(node: &JsonValue) -> (r: Option<StoryboardVideoSettings>)
    ensures
        opt_settings(r) == graph_node_video(node@),
{
    if let JsonValue::Object(o) = node {
        if let Some(t) = crate::comfy_prompt::opt_str(obj_get(o, "type")) {
            if crate::text::eq_lit(chars_of(t.as_str()).as_slice(), "SaveVideo") {
                if let Some(JsonValue::Array(w)) = obj_get(o, "widgets_values") {
                    return Some(StoryboardVideoSettings {
                        filename_prefix: widget_str_exec(w, 0, "video/ComfyUI"),
                        format: widget_str_exec(w, 1, "auto"),
                        codec: widget_str_exec(w, 2, "auto"),
                    });
                }
            }
        }
    }
    None
}

/// The view of optional video settings.
pub open spec fn opt_settings(o: Option<StoryboardVideoSettings>) -> Option<(Seq<char>, Seq<char>, Seq<char>)> {
    match o {
        Some(s) => Some((s.filename_prefix@, s.format@, s.codec@)),
        None => None,
    }
}

/// The video settings of a workflow text; see `video_defaults_spec`.
pub fn parse_video_defaults(data: &str) -> (r: Option<StoryboardVideoSettings>)
    ensures
        opt_settings(r) == video_defaults_spec(data@),
{
    let value = match parse_json(data) {
        Ok(v) => v,
        Err(_) => {
            return None;
        },
    };
    if let JsonValue::Object(e) = &value {
        if let Some(p) = crate::comfy_prompt::opt_obj(obj_get(e, "prompt")) {
            proof {
                lemma_view_entries(p@);
            }
            let ghost pv = view_entries(p@);
            let mut i: usize = 0;
            assert(pv.subrange(0, pv.len() as int) =~= pv);
            while i < p.len()
                invariant
                    parsed_json(data@) == Ok::<Json, Seq<char>>(value@),
                    prompt_of(Ok(value@)) == Some(pv),
                    pv == view_entries(p@),
                    pv.len() == p@.len(),
                    forall|j: int| 0 <= j < p@.len() ==> #[trigger] pv[j] == (p@[j].0@, p@[j].1@),
                    i <= p@.len(),
                    first_prompt_video(pv) == first_prompt_video(pv.subrange(i as int, pv.len() as int)),
                decreases p@.len() - i,
            {
                let ghost rest = pv.subrange(i as int, pv.len() as int);
                assert(rest[0] == pv[i as int]);
                assert(rest.drop_first() =~= pv.subrange(i + 1, pv.len() as int));
                let found = prompt_node_video_exec(&p[i].1);
                if found.is_some() {
                    return found;
                }
                i = i + 1;
            }
            assert(pv.subrange(pv.len() as int, pv.len() as int) =~= Seq::<(Seq<char>, Json)>::empty());
        }
        let ghost from_prompt = match prompt_of(Ok(value@)) {
            Some(pp) => first_prompt_video(pp),
            None => None,
        };
        assert(from_prompt is None);
        if let Some(JsonValue::Array(nodes)) = obj_get(e, "nodes") {
            proof {
                lemma_view_items(nodes@);
            }
            let ghost nv = view_items(nodes@);
            let mut i: usize = 0;
            assert(nv.subrange(0, nv.len() as int) =~= nv);
            while i < nodes.len()
                invariant
                    parsed_json(data@) == Ok::<Json, Seq<char>>(value@),
                    from_prompt is None,
                    from_prompt == match prompt_of(Ok(value@)) {
                        Some(pp) => first_prompt_video(pp),
                        None => None,
                    },
                    crate::json::member(value@, "nodes"@) == Some(Json::Arr(nv)),
                    nv == view_items(nodes@),
                    nv.len() == nodes@.len(),
                    forall|j: int| 0 <= j < nodes@.len() ==> #[trigger] nv[j] == nodes@[j]@,
                    i <= nodes@.len(),
                    first_graph_video(nv) == first_graph_video(nv.subrange(i as int, nv.len() as int)),
                decreases nodes@.len() - i,
            {
                let ghost rest = nv.subrange(i as int, nv.len() as int);
                assert(rest[0] == nv[i as int]);
                assert(rest.drop_first() =~= nv.subrange(i + 1, nv.len() as int));
                let found = graph_node_video_exec(&nodes[i]);
                if found.is_some() {
                    return found;
                }
                i = i + 1;
            }
        }
    }
    None
}

} // verus!
