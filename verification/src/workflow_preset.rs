//! Storyboard workflow presets: the inputs a ComfyUI prompt graph exposes to
//! the storyboard, and the outputs it produces.

use vstd::prelude::*;
use crate::input_spec::{
    extract_node_title, format_group_label, format_input_label, group_label_spec, infer_input_kind,
    infer_input_semantic, input_label_spec, is_gemini_image_node, is_gemini_spec, is_output_node,
    is_output_spec, kind_spec, node_title_spec, opt_str_view, semantic_spec,
};
use crate::json::{as_str, get, lemma_view_entries, obj_get, view_entries, Json, JsonValue};
use crate::text::{
    chars_of, concat3, eq_ignore_case, eq_ignore_case_lit, starts_with, starts_with_lit, string_of,
};
use crate::workflow_input::{
    from_json_with_kind_spec, InputValue, StoryboardInputValue, StoryboardWorkflowInputKind,
    WorkflowInputSemantic,
};

verus! {

/// One editable input of a workflow.
#[derive(Debug)]
pub struct StoryboardWorkflowInputSpec {
    pub map_key: String,
    pub node_id: String,
    pub input_key: String,
    pub group_label: String,
    pub label: String,
    pub kind: StoryboardWorkflowInputKind,
    pub default_value: Option<StoryboardInputValue>,
    pub node_class: String,
    pub semantic: WorkflowInputSemantic,
}

/// The mathematical value of an input spec.
pub struct InputSpecView {
    pub map_key: Seq<char>,
    pub node_id: Seq<char>,
    pub input_key: Seq<char>,
    pub group_label: Seq<char>,
    pub label: Seq<char>,
    pub kind: StoryboardWorkflowInputKind,
    pub default_value: Option<InputValue>,
    pub node_class: Seq<char>,
    pub semantic: WorkflowInputSemantic,
}

impl StoryboardWorkflowInputSpec {
    pub open spec fn view(&self) -> InputSpecView {
        InputSpecView {
            map_key: self.map_key@,
            node_id: self.node_id@,
            input_key: self.input_key@,
            group_label: self.group_label@,
            label: self.label@,
            kind: self.kind,
            default_value: match self.default_value {
                Some(v) => Some(v@),
                None => None,
            },
            node_class: self.node_class@,
            semantic: self.semantic,
        }
    }
}

/// The views of a sequence of input specs.
pub open spec fn view_specs(s: Seq<StoryboardWorkflowInputSpec>) -> Seq<InputSpecView> {
    s.map_values(|x: StoryboardWorkflowInputSpec| x@)
}

/// The spec that a prompt input yields, if the storyboard edits it.
pub open spec fn input_spec_of(
    node_id: Seq<char>,
    class_type: Seq<char>,
    title: Option<Seq<char>>,
    gemini: bool,
    key: Seq<char>,
    value: Json,
) -> Option<InputSpecView> {
    let is_prompt = gemini && eq_ignore_case(key, "prompt"@);
    let is_aspect = gemini && (eq_ignore_case(key, "aspect_ratio"@) || eq_ignore_case(
        key,
        "aspect-ratio"@,
    ));
    let kind = if is_prompt {
        StoryboardWorkflowInputKind::Text { multiline: true }
    } else if is_aspect {
        StoryboardWorkflowInputKind::Text { multiline: false }
    } else {
        kind_spec(class_type, title, key, value)
    };
    if starts_with(key, "$$"@) || (gemini && !is_prompt && !is_aspect) || kind
        == StoryboardWorkflowInputKind::Array {
        None
    } else {
        let label = input_label_spec(title, class_type, key);
        Some(
            InputSpecView {
                map_key: node_id + ":"@ + key,
                node_id: node_id,
                input_key: key,
                group_label: group_label_spec(title, class_type, node_id),
                label: label,
                kind: kind,
                default_value: Some(from_json_with_kind_spec(value, kind)),
                node_class: class_type,
                semantic: semantic_spec(key, label, class_type),
            },
        )
    }
}

/// The specs of the inputs of one node, in the order of its inputs.
pub open spec fn inputs_specs(
    node_id: Seq<char>,
    class_type: Seq<char>,
    title: Option<Seq<char>>,
    gemini: bool,
    inputs: Seq<(Seq<char>, Json)>,
) -> Seq<InputSpecView>
    decreases inputs.len(),
{
    if inputs.len() == 0 {
        Seq::empty()
    } else {
        let prev = inputs_specs(node_id, class_type, title, gemini, inputs.drop_last());
        match input_spec_of(node_id, class_type, title, gemini, inputs.last().0, inputs.last().1) {
            Some(s) => prev.push(s),
            None => prev,
        }
    }
}

/// The `class_type` of a node, or the empty string.
pub open spec fn class_of(node: Seq<(Seq<char>, Json)>) -> Seq<char> {
    match as_str_opt(get(node, "class_type"@)) {
        Some(c) => c,
        None => Seq::empty(),
    }
}

/// The string of an optional JSON value.
pub open spec fn as_str_opt(j: Option<Json>) -> Option<Seq<char>> {
    match j {
        Some(v) => as_str(v),
        None => None,
    }
}

/// The specs of one prompt node.
pub open spec fn node_specs(node_id: Seq<char>, node: Json) -> Seq<InputSpecView> {
    match node {
        Json::Obj(e) => {
            let class_type = class_of(e);
            let title = node_title_spec(e);
            if is_output_spec(class_type) {
                Seq::empty()
            } else {
                match get(e, "inputs"@) {
                    Some(Json::Obj(inputs)) => inputs_specs(
                        node_id,
                        class_type,
                        title,
                        is_gemini_spec(class_type, title),
                        inputs,
                    ),
                    _ => Seq::empty(),
                }
            }
        },
        _ => Seq::empty(),
    }
}

/// `collect_input_specs`: the specs of all nodes, node by node.
pub open spec fn collect_specs(prompt: Seq<(Seq<char>, Json)>) -> Seq<InputSpecView>
    decreases prompt.len(),
{
    if prompt.len() == 0 {
        Seq::empty()
    } else {
        collect_specs(prompt.drop_last()) + node_specs(prompt.last().0, prompt.last().1)
    }
}


/// The spec that one prompt input yields, if the storyboard edits it.
fn input_spec_exec(
    node_id: &str,
    class_type: &str,
    title: Option<&str>,
    gemini: bool,
    input_key: &str,
    input_value: &JsonValue,
) -> (r: Option<StoryboardWorkflowInputSpec>)
    ensures
        match r {
            Some(sp) => input_spec_of(node_id@, class_type@, opt_str_view(title), gemini, input_key@, input_value@) == Some(sp@),
            None => input_spec_of(node_id@, class_type@, opt_str_view(title), gemini, input_key@, input_value@) is None,
        },
{
    let key = chars_of(input_key);
    if starts_with_lit(key.as_slice(), "$$") {
        return None;
    }
    let is_prompt_input = gemini && eq_ignore_case_lit(key.as_slice(), "prompt");
    let is_aspect_ratio_input = gemini && (eq_ignore_case_lit(key.as_slice(), "aspect_ratio")
        || eq_ignore_case_lit(key.as_slice(), "aspect-ratio"));
    if gemini && !is_prompt_input && !is_aspect_ratio_input {
        return None;
    }
    let mut kind = infer_input_kind(class_type, title, input_key, input_value);
    if is_prompt_input {
        kind = StoryboardWorkflowInputKind::Text { multiline: true };
    } else if is_aspect_ratio_input {
        kind = StoryboardWorkflowInputKind::Text { multiline: false };
    }
    if matches!(kind, StoryboardWorkflowInputKind::Array) {
        return None;
    }
    let default_value = Some(StoryboardInputValue::from_json_with_kind(input_value, &kind));
    let map_key = string_of(
        concat3(chars_of(node_id).as_slice(), chars_of(":").as_slice(), key.as_slice()).as_slice(),
    );
    let group_label = format_group_label(title, class_type, node_id);
    let label = format_input_label(title, class_type, input_key);
    let semantic = infer_input_semantic(input_key, label.as_str(), class_type);
    Some(
        StoryboardWorkflowInputSpec {
            map_key,
            node_id: string_of(chars_of(node_id).as_slice()),
            input_key: string_of(key.as_slice()),
            group_label,
            label,
            kind,
            default_value,
            node_class: string_of(chars_of(class_type).as_slice()),
            semantic,
        },
    )
}

/// Appends the specs of one prompt node to `out`.
fn push_node_specs(node_id: &String, node_value: &JsonValue, out: &mut Vec<StoryboardWorkflowInputSpec>)
    ensures
        view_specs(final(out)@) == view_specs(old(out)@) + node_specs(node_id@, node_value@),
{
    let ghost start = view_specs(out@);
    let node_obj = match node_value {
        JsonValue::Object(e) => e,
        _ => {
            assert(view_specs(out@) =~= start + node_specs(node_id@, node_value@));
            return;
        },
    };
    let class_string: String = match obj_get(node_obj, "class_type") {
        Some(JsonValue::String(c)) => c.clone(),
        _ => String::new(),
    };
    let class_type = class_string.as_str();
    if is_output_node(class_type) {
        assert(view_specs(out@) =~= start + node_specs(node_id@, node_value@));
        return;
    }
    let title_string = extract_node_title(node_obj);
    let title: Option<&str> = match &title_string {
        Some(t) => Some(t.as_str()),
        None => None,
    };
    let is_gemini_image = is_gemini_image_node(class_type, title);
    let inputs_map = match obj_get(node_obj, "inputs") {
        Some(JsonValue::Object(inputs)) => inputs,
        _ => {
            assert(view_specs(out@) =~= start + node_specs(node_id@, node_value@));
            return;
        },
    };
    let ghost title_v = opt_str_view(title);
    let ghost iv = view_entries(inputs_map@);
    proof {
        lemma_view_entries(inputs_map@);
    }
    let mut i: usize = 0;
    while i < inputs_map.len()
        invariant
            i <= inputs_map@.len(),
            iv == view_entries(inputs_map@),
            title_v == opt_str_view(title),
            iv.len() == inputs_map@.len(),
            forall|j: int| 0 <= j < inputs_map@.len() ==> #[trigger] iv[j] == (inputs_map@[j].0@, inputs_map@[j].1@),
            view_specs(out@) == start + inputs_specs(node_id@, class_type@, title_v, is_gemini_image, iv.subrange(0, i as int)),
        decreases inputs_map@.len() - i,
    {
        let entry = &inputs_map[i];
        let nid = node_id.as_str();
        let ik = entry.0.as_str();
        let r = input_spec_exec(nid, class_type, title, is_gemini_image, ik, &entry.1);

        let ghost p = iv.subrange(0, i + 1);
        proof {
            assert(p.drop_last() =~= iv.subrange(0, i as int));
            assert(p.last() == iv[i as int]);
            assert(iv[i as int] == (entry.0@, entry.1@));
        }
        match r {
            Some(sp) => {
                let ghost before = out@;
                out.push(sp);
                assert(view_specs(out@) =~= view_specs(before).push(out@.last()@));
                assert(inputs_specs(node_id@, class_type@, title_v, is_gemini_image, p) == inputs_specs(node_id@, class_type@, title_v, is_gemini_image, iv.subrange(0, i as int)).push(out@.last()@));
                assert(view_specs(out@) =~= start + inputs_specs(node_id@, class_type@, title_v, is_gemini_image, p));
            },
            None => {
                assert(view_specs(out@) =~= start + inputs_specs(node_id@, class_type@, title_v, is_gemini_image, iv.subrange(0, i + 1)));
            },
        }
        i = i + 1;
    }
    assert(iv.subrange(0, inputs_map@.len() as int) =~= iv);
}

/// The editable inputs of a
/// prompt graph, node by node and input by input. Output nodes are skipped,
/// as are inputs named `$$…`, array inputs, and every input of a Gemini image
/// node but its prompt and aspect ratio.
pub fn collect_input_specs(prompt: Vec<(String, JsonValue)>) -> (r: Vec<StoryboardWorkflowInputSpec>)
    ensures
        view_specs(r@) == collect_specs(view_entries(prompt@)),
{
    let ghost pv = view_entries(prompt@);
    proof {
        lemma_view_entries(prompt@);
    }
    let mut specs: Vec<StoryboardWorkflowInputSpec> = Vec::new();
    let mut i: usize = 0;
    while i < prompt.len()
        invariant
            i <= prompt@.len(),
            pv == view_entries(prompt@),
            pv.len() == prompt@.len(),
            forall|j: int| 0 <= j < prompt@.len() ==> #[trigger] pv[j] == (prompt@[j].0@, prompt@[j].1@),
            view_specs(specs@) == collect_specs(pv.subrange(0, i as int)),
        decreases prompt@.len() - i,
    {
        proof {
            let p = pv.subrange(0, i + 1);
            assert(p.drop_last() =~= pv.subrange(0, i as int));
            assert(p.last() == pv[i as int]);
        }
        push_node_specs(&prompt[i].0, &prompt[i].1, &mut specs);
        i = i + 1;
    }
    assert(view_specs(specs@) =~= collect_specs(pv.subrange(0, i as int)));
    assert(pv.subrange(0, prompt@.len() as int) =~= pv);
    specs
}

} // verus!
