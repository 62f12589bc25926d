//! Which nodes of a queued prompt sample and which encode video, so that
//! progress can be reported per phase.

use vstd::prelude::*;
use crate::comfy_prompt::{node_id_text, obj_member, opt_obj, opt_str};
use crate::json::{
    get, has_key, insert, lemma_view_entries, lemma_view_items, obj_get, obj_insert, view_entries,
    view_items, Json, JsonValue,
};
use crate::json_text::{parse_json, parse_view, parsed_json};
use crate::screenplay::strings_view;
use crate::sorted::{sort_dedup, sorted_unique};
use crate::text::{chars_of, contains, eq_lit, lower, lower_contains};
use crate::workflow_preset::as_str_opt;

verus! {

/// The node ids of a prompt that sample, and that encode video, each
/// sorted and once.
#[derive(Debug)]
pub struct PhasePlan {
    pub sampling: Vec<String>,
    pub encoding: Vec<String>,
}

impl View for PhasePlan {
    type V = (Seq<Seq<char>>, Seq<Seq<char>>);

    open spec fn view(&self) -> (Seq<Seq<char>>, Seq<Seq<char>>) {
        (strings_view(self.sampling@), strings_view(self.encoding@))
    }
}

/// A sampler class: its name mentions `ksampler` or `modelsampling`.
pub open spec fn is_sampling_class(class: Seq<char>) -> bool {
    contains(lower(class), "ksampler"@) || contains(lower(class), "modelsampling"@)
}

/// A video-encoding class.
pub open spec fn is_encoding_class(class: Seq<char>) -> bool {
    ||| class == "VHS_VideoCombine"@
    ||| class == "VideoCombine"@
    ||| class == "SaveVideo"@
    ||| contains(lower(class), "videocombine"@)
    ||| contains(lower(class), "savevideo"@)
}

/// The class of a prompt node.
pub open spec fn class_of_node(node: Json) -> Option<Seq<char>> {
    match node {
        Json::Obj(o) => as_str_opt(get(o, "class_type"@)),
        _ => None,
    }
}

/// The prompt-like table of a graph's nodes: each node with an id and a
/// class, keyed by its id; a later node replaces an earlier one with the
/// same id.
pub open spec fn nodes_table(nodes: Seq<Json>) -> Seq<(Seq<char>, Json)>
    decreases nodes.len(),
{
    if nodes.len() == 0 {
        Seq::empty()
    } else {
        let prev = nodes_table(nodes.drop_last());
        let n = nodes.last();
        match n {
            Json::Obj(o) => match (get(o, "id"@), as_str_opt(get(o, "class_type"@))) {
                (Some(id), Some(ct)) => insert(
                    prev,
                    node_id_text(id),
                    Json::Obj(seq![("class_type"@, Json::Str(ct))]),
                ),
                _ => prev,
            },
            _ => prev,
        }
    }
}

/// The prompt of a payload: its `prompt` object; for the graph format, the
/// table of its nodes; for a bare object, the object itself.
pub open spec fn phase_prompt(v: Json) -> Option<Seq<(Seq<char>, Json)>> {
    match v {
        Json::Obj(e) => if obj_member(e, "prompt"@) is Some {
            obj_member(e, "prompt"@)
        } else if has_key(e, "nodes"@) {
            match get(e, "nodes"@) {
                Some(Json::Arr(a)) => Some(nodes_table(a)),
                _ => None,
            }
        } else {
            Some(e)
        },
        _ => None,
    }
}

/// The ids of the nodes of `p` whose class satisfies `sampling` (or, when
/// false, encoding), in order.
pub open spec fn phase_ids(p: Seq<(Seq<char>, Json)>, sampling: bool) -> Seq<Seq<char>>
    decreases p.len(),
{
    if p.len() == 0 {
        Seq::empty()
    } else {
        let prev = phase_ids(p.drop_last(), sampling);
        match class_of_node(p.last().1) {
            Some(c) => if (sampling && is_sampling_class(c)) || (!sampling && is_encoding_class(c)) {
                prev.push(p.last().0)
            } else {
                prev
            },
            None => prev,
        }
    }
}

/// `compute_phase_plan_from_payload`: the sampling and encoding nodes of
/// the payload's prompt; none when the text is not JSON or has no prompt.
pub open spec fn phase_plan_spec(payload: Seq<char>, sampling: bool) -> Seq<Seq<char>> {
    match parsed_json(payload) {
        Ok(v) => match phase_prompt(v) {
            Some(p) => sorted_unique(phase_ids(p, sampling)),
            None => sorted_unique(Seq::empty()),
        },
        Err(_) => sorted_unique(Seq::empty()),
    }
}

/// The table of a graph's nodes.
fn nodes_table_exec(nodes: &Vec<JsonValue>) -> (r: Vec<(String, JsonValue)>)
    ensures
        view_entries(r@) == nodes_table(view_items(nodes@)),
{
    proof {
        lemma_view_items(nodes@);
    }
    let ghost nv = view_items(nodes@);
    let mut tmp: Vec<(String, JsonValue)> = Vec::new();
    let mut i: usize = 0;
    while i < nodes.len()
        invariant
            nv == view_items(nodes@),
            nv.len() == nodes@.len(),
            forall|j: int| 0 <= j < nodes@.len() ==> #[trigger] nv[j] == nodes@[j]@,
            i <= nodes@.len(),
            view_entries(tmp@) == nodes_table(nv.subrange(0, i as int)),
        decreases nodes@.len() - i,
    {
        proof {
            assert(nv.subrange(0, i + 1).drop_last() =~= nv.subrange(0, i as int));
            assert(nv[i as int] == nodes@[i as int]@);
        }
        if let JsonValue::Object(o) = &nodes[i] {
            if let (Some(id), Some(ct)) = (obj_get(o, "id"), opt_str(obj_get(o, "class_type"))) {
                let id_text = crate::comfy_prompt::node_id_string(id);
                let mut node: Vec<(String, JsonValue)> = Vec::new();
                node.push((String::from_str("class_type"), JsonValue::String(ct.clone())));
                proof {
                    lemma_view_entries(node@);
                    assert(view_entries(node@) =~= seq![("class_type"@, Json::Str(ct@))]);
                }
                obj_insert(&mut tmp, id_text, JsonValue::Object(node));
            }
        }
        i = i + 1;
    }
    assert(nv.subrange(0, nodes@.len() as int) =~= nv);
    tmp
}

/// Whether a class samples.
fn is_sampling_exec(class: &str) -> (r: bool)
    ensures
        r == is_sampling_class(class@),
{
    let c = chars_of(class);
    lower_contains(c.as_slice(), "ksampler") || lower_contains(c.as_slice(), "modelsampling")
}

/// Whether a class encodes video.
fn is_encoding_exec(class: &str) -> (r: bool)
    ensures
        r == is_encoding_class(class@),
{
    let c = chars_of(class);
    let s = c.as_slice();
    eq_lit(s, "VHS_VideoCombine") || eq_lit(s, "VideoCombine") || eq_lit(s, "SaveVideo")
        || lower_contains(s, "videocombine") || lower_contains(s, "savevideo")
}

/// The ids of the sampling (or encoding) nodes of a prompt, in order.
fn phase_ids_exec(p: &Vec<(String, JsonValue)>, sampling: bool) -> (r: Vec<String>)
    ensures
        strings_view(r@) == phase_ids(view_entries(p@), sampling),
{
    proof {
        lemma_view_entries(p@);
    }
    let ghost pv = view_entries(p@);
    let mut ids: Vec<String> = Vec::new();
    let mut i: usize = 0;
    while i < p.len()
        invariant
            pv == view_entries(p@),
            pv.len() == p@.len(),
            forall|j: int| 0 <= j < p@.len() ==> #[trigger] pv[j] == (p@[j].0@, p@[j].1@),
            i <= p@.len(),
            strings_view(ids@) == phase_ids(pv.subrange(0, i as int), sampling),
        decreases p@.len() - i,
    {
        proof {
            assert(pv.subrange(0, i + 1).drop_last() =~= pv.subrange(0, i as int));
            assert(pv[i as int] == (p@[i as int].0@, p@[i as int].1@));
        }
        if let JsonValue::Object(o) = &p[i].1 {
            if let Some(ct) = opt_str(obj_get(o, "class_type")) {
                let hit = if sampling {
                    is_sampling_exec(ct.as_str())
                } else {
                    is_encoding_exec(ct.as_str())
                };
                if hit {
                    let ghost before = strings_view(ids@);
                    ids.push(p[i].0.clone());
                    assert(strings_view(ids@) =~= before.push(p@[i as int].0@));
                }
            }
        }
        i = i + 1;
    }
    assert(pv.subrange(0, p@.len() as int) =~= pv);
    ids
}

/// The sampling and encoding nodes of a payload; see `phase_plan_spec`.
pub fn compute_phase_plan_from_payload(payload: &str) -> (r: PhasePlan)
    ensures
        strings_view(r.sampling@) == phase_plan_spec(payload@, true),
        strings_view(r.encoding@) == phase_plan_spec(payload@, false),
{
    let parsed = parse_json(payload);
    let mut table: Option<Vec<(String, JsonValue)>> = None;
    if let Ok(JsonValue::Object(e)) = &parsed {
        if let Some(p) = opt_obj(obj_get(e, "prompt")) {
            table = Some(crate::json::clone_entries(p));
        } else if crate::json::obj_contains_key(e, "nodes") {
            if let Some(JsonValue::Array(a)) = obj_get(e, "nodes") {
                table = Some(nodes_table_exec(a));
            }
        } else {
            table = Some(crate::json::clone_entries(e));
        }
    }
    let ghost expected = match parse_view(parsed) {
        Ok(v) => phase_prompt(v),
        Err(_) => None,
    };
    assert(match table {
        Some(t) => expected == Some(view_entries(t@)),
        None => expected is None,
    });
    match table {
        Some(t) => {
            let sampling = sort_dedup(phase_ids_exec(&t, true));
            let encoding = sort_dedup(phase_ids_exec(&t, false));
            PhasePlan { sampling, encoding }
        },
        None => {
            let s: Vec<String> = Vec::new();
            let e: Vec<String> = Vec::new();
            let sampling = sort_dedup(s);
            let encoding = sort_dedup(e);
            assert(strings_view(s@) =~= Seq::<Seq<char>>::empty());
            assert(strings_view(e@) =~= Seq::<Seq<char>>::empty());
            PhasePlan { sampling, encoding }
        },
    }
}

} // verus!
