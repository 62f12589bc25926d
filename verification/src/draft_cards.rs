//! Filling the storyboard from a screenplay draft: one card per shot, with
//! the shot's workflow, description, duration and workflow inputs.

use vstd::prelude::*;
use crate::board::{
    chosen_workflow, is_new_card, is_settled, last_workflow, lookup_workflow, settings_of,
    settled_inputs, clone_settings, new_card_inputs, Storyboard,
};
use crate::draft::{ScreenplayDraft, ScreenplayShot, ShotV, shots_view};
use crate::json::{lemma_view_entries, view_entries, Json, JsonValue};
use crate::keyed_map::KeyedMap;
use crate::naming::{
    autofilled_spec, is_autofilled_workflow_input, normalized_workflow_key, slug_spec,
    slugify_workflow_name,
};
use crate::storyboard::{StoryboardCard, StoryboardWorkflowOutputKind, StoryboardWorkflowPreset};
use crate::text::{chars_eq, chars_of, contains, lower, lower_contains, lower_vec, nat_decimal, trim, trim_str, trim_vec};
use crate::workflow_input::{from_json_with_kind_spec, InputValue, StoryboardInputValue};
use crate::workflow_preset::{view_specs, InputSpecView, StoryboardWorkflowInputSpec};

verus! {

/// The bit pattern of a tenth of a second as an `f32`.
pub const TENTH_SECOND_BITS: u32 = 0x3dcc_cccd;

/// `f32::max(d, 0.1)` on bit patterns: a NaN, and anything not above a
/// tenth, gives a tenth. Non-negative floats order as their bit patterns.
pub open spec fn at_least_tenth_bits(b: u32) -> u32 {
    if b < 0x8000_0000 && TENTH_SECOND_BITS < b && b <= 0x7f80_0000 {
        b
    } else {
        TENTH_SECOND_BITS
    }
}

/// `f32::max(d, 0.1)` on bit patterns.
pub fn at_least_tenth(b: u32) -> (r: u32)
    ensures
        r == at_least_tenth_bits(b),
{
    if b < 0x8000_0000 && TENTH_SECOND_BITS < b && b <= 0x7f80_0000 {
        b
    } else {
        TENTH_SECOND_BITS
    }
}

/// Nothing but whitespace.
pub open spec fn is_blank(s: Seq<char>) -> bool {
    trim(s).len() == 0
}

/// A card's title for the shot at `idx`: the shot's own, or "Shot n".
pub open spec fn shot_title(shot: ShotV, idx: int) -> Seq<char> {
    if is_blank(shot.title) {
        "Shot "@ + nat_decimal((idx + 1) as nat)
    } else {
        shot.title
    }
}

/// A card's description: the shot's visual description, else its action,
/// else its prompt (the first that is not blank), else nothing.
pub open spec fn shot_description(shot: ShotV) -> Seq<char> {
    if !is_blank(shot.visual_description) {
        shot.visual_description
    } else if !is_blank(shot.action) {
        shot.action
    } else if !is_blank(shot.prompt) {
        shot.prompt
    } else {
        Seq::empty()
    }
}

/// The key a workflow is found by from a shot: its slug, trimmed and
/// lower-cased.
pub open spec fn slug_key(p: StoryboardWorkflowPreset) -> Seq<char> {
    lower(trim(slug_spec(p.name@, p.id)))
}

/// The last workflow whose key is `key`.
pub open spec fn last_slug(ws: Seq<StoryboardWorkflowPreset>, key: Seq<char>) -> Option<int>
    decreases ws.len(),
{
    if ws.len() == 0 {
        None
    } else if slug_key(ws.last()) == key {
        Some(ws.len() - 1)
    } else {
        last_slug(ws.drop_last(), key)
    }
}

/// The workflow a shot asks for: its id when the storyboard has it, else the
/// workflow its (non-empty) key names.
pub open spec fn desired_workflow(ws: Seq<StoryboardWorkflowPreset>, shot: ShotV) -> Option<u128> {
    let by_id = match shot.workflow_id {
        Some(w) => if last_workflow(ws, w) is Some {
            Some(w)
        } else {
            None
        },
        None => None,
    };
    if by_id is Some {
        by_id
    } else {
        match shot.workflow_key {
            Some(k) => {
                let key = lower(trim(k));
                if key.len() > 0 {
                    match last_slug(ws, key) {
                        Some(i) => Some(ws[i].id),
                        None => None,
                    }
                } else {
                    None
                }
            },
            None => None,
        }
    }
}

/// The workflow a shot's card uses: the one the shot asks for, else the
/// first one.
pub open spec fn shot_workflow(ws: Seq<StoryboardWorkflowPreset>, shot: ShotV) -> Option<u128> {
    match desired_workflow(ws, shot) {
        Some(w) => Some(w),
        None => if ws.len() > 0 {
            Some(ws[0].id)
        } else {
            None
        },
    }
}

/// The video settings a shot's card starts with.
pub open spec fn shot_settings(ws: Seq<StoryboardWorkflowPreset>, shot: ShotV) -> Option<(Seq<char>, Seq<char>, Seq<char>)> {
    match desired_workflow(ws, shot) {
        Some(w) => match last_workflow(ws, w) {
            Some(i) => settings_of(&ws[i].video_defaults),
            None => None,
        },
        None => if ws.len() > 0 {
            settings_of(&ws[0].video_defaults)
        } else {
            None
        },
    }
}

/// The last input whose input key or map key, lower-cased, is `key`.
pub open spec fn last_input_named(specs: Seq<InputSpecView>, key: Seq<char>) -> Option<int>
    decreases specs.len(),
{
    if specs.len() == 0 {
        None
    } else if lower(specs.last().input_key) == key || lower(specs.last().map_key) == key {
        Some(specs.len() - 1)
    } else {
        last_input_named(specs.drop_last(), key)
    }
}

/// The values a shot gives the workflow's inputs, applied in order: each
/// named input (by key, ignoring case and surrounding blanks) that the editor
/// does not fill in itself takes the value read as the input's kind.
pub open spec fn apply_shot_inputs(
    inputs: Map<Seq<char>, InputValue>,
    specs: Seq<InputSpecView>,
    entries: Seq<(Seq<char>, Json)>,
) -> Map<Seq<char>, InputValue>
    decreases entries.len(),
{
    if entries.len() == 0 {
        inputs
    } else {
        let before = apply_shot_inputs(inputs, specs, entries.drop_last());
        let name = trim(entries.last().0);
        if name.len() == 0 {
            before
        } else {
            match last_input_named(specs, lower(name)) {
                Some(j) => if autofilled_spec(specs[j]) {
                    before
                } else {
                    before.insert(specs[j].map_key, from_json_with_kind_spec(entries.last().1, specs[j].kind))
                },
                None => before,
            }
        }
    }
}

/// The first input whose label, lower-cased, contains `pat`.
pub open spec fn first_label_with(specs: Seq<InputSpecView>, pat: Seq<char>) -> Option<int>
    decreases specs.len(),
{
    if specs.len() == 0 {
        None
    } else {
        match first_label_with(specs.drop_last(), pat) {
            Some(i) => Some(i),
            None => if contains(lower(specs.last().label), pat) {
                Some(specs.len() - 1)
            } else {
                None
            },
        }
    }
}

/// A prompt text put into the input at `at`, when the text is not blank and
/// the input has no value yet.
pub open spec fn prompt_fill(
    m: Map<Seq<char>, InputValue>,
    specs: Seq<InputSpecView>,
    at: Option<int>,
    text: Seq<char>,
) -> Map<Seq<char>, InputValue> {
    match at {
        Some(j) => if trim(text).len() > 0 && !m.dom().contains(specs[j].map_key) {
            m.insert(specs[j].map_key, InputValue::Text(trim(text)))
        } else {
            m
        },
        None => m,
    }
}

/// The inputs of a shot's card before its workflow is settled: the new
/// card's values, then the shot's values, then its positive and negative
/// prompts.
pub open spec fn shot_inputs(ws: Seq<StoryboardWorkflowPreset>, shot: ShotV, at: Option<int>) -> Map<Seq<char>, InputValue> {
    match at {
        Some(i) => {
            let specs = view_specs(ws[i].input_specs@);
            let m = apply_shot_inputs(new_card_inputs(ws), specs, shot.workflow_inputs);
            let m2 = prompt_fill(m, specs, first_label_with(specs, "positive prompt"@), shot.prompt);
            prompt_fill(m2, specs, first_label_with(specs, "negative prompt"@), shot.negative_prompt)
        },
        None => new_card_inputs(ws),
    }
}

/// `c` as the card for shot `idx` is made, before its workflow is settled.
pub open spec fn is_shot_card(c: StoryboardCard, shot: ShotV, idx: int, id: u128, ws: Seq<StoryboardWorkflowPreset>) -> bool {
    let wid = shot_workflow(ws, shot);
    let at = lookup_workflow(ws, wid);
    &&& c.id == id
    &&& c.title@ == shot_title(shot, idx)
    &&& c.description@ == shot_description(shot)
    &&& c.reference_path@ == Seq::<char>::empty()
    &&& c.duration_seconds == at_least_tenth_bits(shot.duration_bits)
    &&& c.preview_error is None
    &&& c.workflow_error is None
    &&& c.workflow_status is None
    &&& c.workflow_id == wid
    &&& settings_of(&c.video_settings) == shot_settings(ws, shot)
    &&& c.output_kind == match desired_workflow(ws, shot) {
        Some(w) => match last_workflow(ws, w) {
            Some(i) => ws[i].output_kind,
            None => StoryboardWorkflowOutputKind::Image,
        },
        None => if ws.len() > 0 {
            ws[0].output_kind
        } else {
            StoryboardWorkflowOutputKind::Image
        },
    }
    &&& c.workflow_inputs@ == shot_inputs(ws, shot, at)
    &&& c.workflow_input_errors@ == Map::<Seq<char>, Seq<char>>::empty()
}

/// `c` as the storyboard holds the card for shot `idx` of a draft, but for
/// its id: the shot's title, description and duration (at least a tenth of a
/// second), the workflow it asks for (else the first), that workflow's
/// outputs, and the shot's inputs settled on that workflow.
pub open spec fn is_draft_card_content(c: StoryboardCard, shot: ShotV, idx: int, ws: Seq<StoryboardWorkflowPreset>) -> bool {
    let wid = shot_workflow(ws, shot);
    let at = lookup_workflow(ws, wid);
    &&& c.title@ == shot_title(shot, idx)
    &&& c.description@ == shot_description(shot)
    &&& c.reference_path@ == Seq::<char>::empty()
    &&& c.duration_seconds == at_least_tenth_bits(shot.duration_bits)
    &&& c.preview_error is None
    &&& c.workflow_error is None
    &&& c.workflow_status is None
    &&& c.workflow_id == wid
    &&& settings_of(&c.video_settings) == shot_settings(ws, shot)
    &&& c.output_kind == match at {
        Some(i) => ws[i].output_kind,
        None => StoryboardWorkflowOutputKind::Image,
    }
    &&& c.workflow_inputs@ == settled_inputs(ws, wid, shot_inputs(ws, shot, at))
    &&& c.workflow_input_errors@ == Map::<Seq<char>, Seq<char>>::empty()
}

/// The card for shot `idx` of a draft, with id `id`.
pub open spec fn is_draft_card(c: StoryboardCard, shot: ShotV, idx: int, id: u128, ws: Seq<StoryboardWorkflowPreset>) -> bool {
    c.id == id && is_draft_card_content(c, shot, idx, ws)
}

/// A workflow of the list is found by its id.
proof fn lemma_last_workflow_has(ws: Seq<StoryboardWorkflowPreset>, i: int)
    requires
        0 <= i < ws.len(),
    ensures
        last_workflow(ws, ws[i].id) is Some,
    decreases ws.len(),
{
    if ws.last().id != ws[i].id {
        assert(i < ws.len() - 1);
        assert(ws.drop_last()[i] == ws[i]);
        lemma_last_workflow_has(ws.drop_last(), i);
    }
}

/// The workflow a shot's card uses is one the storyboard has.
proof fn lemma_shot_workflow_found(ws: Seq<StoryboardWorkflowPreset>, shot: ShotV)
    ensures
        shot_workflow(ws, shot) is Some ==> lookup_workflow(ws, shot_workflow(ws, shot)) is Some,
        shot_workflow(ws, shot) is None ==> ws.len() == 0,
{
    match desired_workflow(ws, shot) {
        Some(w) => {
            let by_id = match shot.workflow_id {
                Some(x) => if last_workflow(ws, x) is Some {
                    Some(x)
                } else {
                    None
                },
                None => None,
            };
            if by_id is None {
                let key = lower(trim(shot.workflow_key->0));
                let i = last_slug(ws, key)->0;
                lemma_last_slug_at(ws, key);
                lemma_last_workflow_has(ws, i);
            }
        },
        None => {
            if ws.len() > 0 {
                lemma_last_workflow_has(ws, 0);
            }
        },
    }
}

/// The last workflow with a key has that key.
proof fn lemma_last_slug_at(ws: Seq<StoryboardWorkflowPreset>, key: Seq<char>)
    ensures
        last_slug(ws, key) matches Some(i) ==> 0 <= i < ws.len() && slug_key(ws[i]) == key,
    decreases ws.len(),
{
    if ws.len() > 0 && slug_key(ws.last()) != key {
        lemma_last_slug_at(ws.drop_last(), key);
    }
}

/// A shot's card, once its workflow is settled, is the storyboard's card
/// for the shot.
proof fn lemma_settled_shot_card(after: StoryboardCard, before: StoryboardCard, shot: ShotV, idx: int, id: u128, ws: Seq<StoryboardWorkflowPreset>)
    requires
        is_shot_card(before, shot, idx, id, ws),
        is_settled(after, before, ws),
    ensures
        is_draft_card(after, shot, idx, id, ws),
{
    lemma_shot_workflow_found(ws, shot);
    let wid = shot_workflow(ws, shot);
    if wid is Some {
        assert(chosen_workflow(ws, wid) == wid);
    } else {
        assert(chosen_workflow(ws, wid) == wid);
    }
}

/// The index of the last workflow whose key is `key`.
fn find_last_slug(ws: &Vec<StoryboardWorkflowPreset>, key: &Vec<char>) -> (r: Option<usize>)
    ensures
        match r {
            Some(k) => last_slug(ws@, key@) == Some(k as int) && k < ws@.len(),
            None => last_slug(ws@, key@) is None,
        },
{
    let mut j: usize = ws.len();
    assert(ws@.subrange(0, j as int) =~= ws@);
    while j > 0
        invariant
            j <= ws@.len(),
            last_slug(ws@, key@) == last_slug(ws@.subrange(0, j as int), key@),
        decreases j,
    {
        let ghost pre = ws@.subrange(0, j as int);
        assert(pre.drop_last() =~= ws@.subrange(0, j - 1));
        let p = &ws[j - 1];
        let slug = slugify_workflow_name(p.name.as_str(), p.id);
        let k = normalized_workflow_key(slug.as_str());
        let kc = chars_of(k.as_str());
        if chars_eq(kc.as_slice(), key.as_slice()) {
            return Some(j - 1);
        }
        j = j - 1;
    }
    None
}

/// The index of the last workflow with id `id`.
fn find_workflow_index(ws: &Vec<StoryboardWorkflowPreset>, id: u128) -> (r: Option<usize>)
    ensures
        match r {
            Some(k) => last_workflow(ws@, id) == Some(k as int) && k < ws@.len(),
            None => last_workflow(ws@, id) is None,
        },
{
    let mut j: usize = ws.len();
    assert(ws@.subrange(0, j as int) =~= ws@);
    while j > 0
        invariant
            j <= ws@.len(),
            last_workflow(ws@, id) == last_workflow(ws@.subrange(0, j as int), id),
        decreases j,
    {
        let ghost pre = ws@.subrange(0, j as int);
        assert(pre.drop_last() =~= ws@.subrange(0, j - 1));
        if ws[j - 1].id == id {
            return Some(j - 1);
        }
        j = j - 1;
    }
    None
}

/// The workflow a shot asks for.
fn find_desired_workflow(ws: &Vec<StoryboardWorkflowPreset>, shot: &ScreenplayShot) -> (r: Option<u128>)
    ensures
        r == desired_workflow(ws@, shot@),
{
    if let Some(w) = shot.workflow_id {
        if find_workflow_index(ws, w).is_some() {
            return Some(w);
        }
    }
    match &shot.workflow_key {
        Some(k) => {
            let key = normalized_workflow_key(k.as_str());
            let kc = chars_of(key.as_str());
            if kc.len() > 0 {
                match find_last_slug(ws, &kc) {
                    Some(i) => Some(ws[i].id),
                    None => None,
                }
            } else {
                None
            }
        },
        None => None,
    }
}

/// The index of the last input whose input key or map key, lower-cased, is
/// `key`.
fn find_input_named(specs: &Vec<StoryboardWorkflowInputSpec>, key: &Vec<char>) -> (r: Option<usize>)
    ensures
        match r {
            Some(k) => last_input_named(view_specs(specs@), key@) == Some(k as int) && k < specs@.len(),
            None => last_input_named(view_specs(specs@), key@) is None,
        },
{
    let ghost sv = view_specs(specs@);
    let mut j: usize = specs.len();
    assert(sv.subrange(0, j as int) =~= sv);
    while j > 0
        invariant
            sv == view_specs(specs@),
            j <= specs@.len(),
            last_input_named(sv, key@) == last_input_named(sv.subrange(0, j as int), key@),
        decreases j,
    {
        let ghost pre = sv.subrange(0, j as int);
        assert(pre.drop_last() =~= sv.subrange(0, j - 1));
        assert(pre.last() == specs@[j - 1]@);
        let s = &specs[j - 1];
        let ik = lower_vec(chars_of(s.input_key.as_str()).as_slice());
        let mk = lower_vec(chars_of(s.map_key.as_str()).as_slice());
        if chars_eq(ik.as_slice(), key.as_slice()) || chars_eq(mk.as_slice(), key.as_slice()) {
            return Some(j - 1);
        }
        j = j - 1;
    }
    None
}

/// The index of the first input whose label, lower-cased, contains `pat`.
fn find_label_with(specs: &Vec<StoryboardWorkflowInputSpec>, pat: &str) -> (r: Option<usize>)
    ensures
        match r {
            Some(k) => first_label_with(view_specs(specs@), pat@) == Some(k as int) && k < specs@.len(),
            None => first_label_with(view_specs(specs@), pat@) is None,
        },
{
    let ghost sv = view_specs(specs@);
    let mut i: usize = 0;
    while i < specs.len()
        invariant
            sv == view_specs(specs@),
            i <= specs@.len(),
            first_label_with(sv.subrange(0, i as int), pat@) is None,
        decreases specs@.len() - i,
    {
        let ghost pre = sv.subrange(0, i + 1);
        assert(pre.drop_last() =~= sv.subrange(0, i as int));
        assert(pre.last() == specs@[i as int]@);
        if lower_contains(chars_of(specs[i].label.as_str()).as_slice(), pat) {
            proof {
                lemma_first_label_prefix(sv, pat@, i + 1);
            }
            return Some(i);
        }
        i = i + 1;
    }
    assert(sv.subrange(0, i as int) =~= sv);
    None
}

/// An input found in a prefix is the first of the whole list.
proof fn lemma_first_label_prefix(s: Seq<InputSpecView>, pat: Seq<char>, k: int)
    requires
        0 <= k <= s.len(),
        first_label_with(s.subrange(0, k), pat) is Some,
    ensures
        first_label_with(s, pat) == first_label_with(s.subrange(0, k), pat),
    decreases s.len() - k,
{
    if k < s.len() {
        assert(s.subrange(0, k + 1).drop_last() =~= s.subrange(0, k));
        lemma_first_label_prefix(s, pat, k + 1);
    } else {
        assert(s.subrange(0, k) =~= s);
    }
}

/// Applies a shot's values for workflow inputs to a card; see
/// `apply_shot_inputs`.
fn apply_shot_inputs_exec(
    inputs: &mut KeyedMap<StoryboardInputValue>,
    errors: &mut KeyedMap<String>,
    specs: &Vec<StoryboardWorkflowInputSpec>,
    entries: &Vec<(String, JsonValue)>,
)
    ensures
        final(inputs)@ == apply_shot_inputs(old(inputs)@, view_specs(specs@), view_entries(entries@)),
        final(errors)@.dom().subset_of(old(errors)@.dom()),
        forall|k: Seq<char>| #[trigger] final(errors)@.dom().contains(k) ==> final(errors)@[k] == old(errors)@[k],
{
    let ghost sv = view_specs(specs@);
    let ghost ev = view_entries(entries@);
    let ghost start = inputs@;
    let ghost start_errors = errors@;
    proof {
        lemma_view_entries(entries@);
    }
    let n = entries.len();
    let mut i: usize = 0;
    while i < n
        invariant
            n == entries@.len(),
            ev.len() == n,
            ev == view_entries(entries@),
            forall|t: int| 0 <= t < n ==> #[trigger] ev[t] == (entries@[t].0@, entries@[t].1.view()),
            sv == view_specs(specs@),
            i <= n,
            inputs@ == apply_shot_inputs(start, sv, ev.subrange(0, i as int)),
            errors@.dom().subset_of(start_errors.dom()),
            forall|k: Seq<char>| #[trigger] errors@.dom().contains(k) ==> errors@[k] == start_errors[k],
        decreases n - i,
    {
        let ghost pre = ev.subrange(0, i + 1);
        assert(pre.drop_last() =~= ev.subrange(0, i as int));
        assert(pre.last() == ev[i as int]);
        let (name, raw) = &entries[i];
        let trimmed = trim_vec(chars_of(name.as_str()).as_slice());
        if trimmed.len() > 0 {
            let key = lower_vec(trimmed.as_slice());
            match find_input_named(specs, &key) {
                Some(j) => {
                    let spec = &specs[j];
                    assert(sv[j as int] == spec@);
                    if !is_autofilled_workflow_input(spec) {
                        let value = StoryboardInputValue::from_json_with_kind(raw, &spec.kind);
                        inputs.insert(spec.map_key.clone(), value);
                        errors.remove(spec.map_key.as_str());
                    }
                },
                None => {},
            }
        }
        i = i + 1;
    }
    assert(ev.subrange(0, n as int) =~= ev);
}

/// Puts a prompt into the input at `at`; see `prompt_fill`.
fn prompt_fill_exec(
    inputs: &mut KeyedMap<StoryboardInputValue>,
    errors: &mut KeyedMap<String>,
    specs: &Vec<StoryboardWorkflowInputSpec>,
    at: Option<usize>,
    text: &String,
)
    requires
        at matches Some(j) ==> j < specs@.len(),
    ensures
        final(inputs)@ == prompt_fill(old(inputs)@, view_specs(specs@), match at {
            Some(j) => Some(j as int),
            None => None,
        }, text@),
        final(errors)@.dom().subset_of(old(errors)@.dom()),
        forall|k: Seq<char>| #[trigger] final(errors)@.dom().contains(k) ==> final(errors)@[k] == old(errors)@[k],
{
    if let Some(j) = at {
        let key = &specs[j].map_key;
        assert(view_specs(specs@)[j as int] == specs@[j as int]@);
        let t = trim_str(text.as_str());
        if chars_of(t.as_str()).len() > 0 && !inputs.contains_key(key.as_str()) {
            inputs.insert(key.clone(), StoryboardInputValue::Text(t));
            errors.remove(key.as_str());
        }
    }
}

/// Turns a new card into the card for shot `idx`; see `is_shot_card`.
fn apply_shot(card: &mut StoryboardCard, shot: &ScreenplayShot, idx: usize, ws: &Vec<StoryboardWorkflowPreset>)
    requires
        is_new_card(*old(card), old(card).id, idx as nat, ws@),
    ensures
        is_shot_card(*final(card), shot@, idx as int, old(card).id, ws@),
{
    let title_chars = trim_vec(chars_of(shot.title.as_str()).as_slice());
    if title_chars.len() > 0 {
        card.title = shot.title.clone();
    }
    card.description = if trim_vec(chars_of(shot.visual_description.as_str()).as_slice()).len() > 0 {
        shot.visual_description.clone()
    } else if trim_vec(chars_of(shot.action.as_str()).as_slice()).len() > 0 {
        shot.action.clone()
    } else if trim_vec(chars_of(shot.prompt.as_str()).as_slice()).len() > 0 {
        shot.prompt.clone()
    } else {
        String::new()
    };
    card.duration_seconds = at_least_tenth(shot.duration_bits);
    let desired = find_desired_workflow(ws, shot);
    if let Some(w) = desired {
        card.workflow_id = Some(w);
        if let Some(i) = find_workflow_index(ws, w) {
            card.video_settings = clone_settings(&ws[i].video_defaults);
            card.output_kind = ws[i].output_kind;
        }
    }
    proof {
        lemma_shot_workflow_found(ws@, shot@);
    }
    let at = match card.workflow_id {
        Some(w) => find_workflow_index(ws, w),
        None => None,
    };
    if let Some(i) = at {
        let specs = &ws[i].input_specs;
        let ghost sv = view_specs(specs@);
        apply_shot_inputs_exec(&mut card.workflow_inputs, &mut card.workflow_input_errors, specs, &shot.workflow_inputs);
        let pos = find_label_with(specs, "positive prompt");
        prompt_fill_exec(&mut card.workflow_inputs, &mut card.workflow_input_errors, specs, pos, &shot.prompt);
        let neg = find_label_with(specs, "negative prompt");
        prompt_fill_exec(&mut card.workflow_inputs, &mut card.workflow_input_errors, specs, neg, &shot.negative_prompt);
        assert(card.workflow_input_errors@ =~= Map::<Seq<char>, Seq<char>>::empty());
    }
}

impl Storyboard {
    /// `storyboard_replace_with_screenplay_draft`, with the new cards' ids
    /// given: the cards are replaced by one card per shot of the draft (see
    /// `is_draft_card`), the first is selected, and the number of cards is
    /// returned.
    pub fn storyboard_replace_with_screenplay_draft_with_ids(&mut self, draft: &ScreenplayDraft, ids: &Vec<u128>) -> (r: usize)
        requires
            ids@.len() == draft.shots@.len(),
        ensures
            r == draft.shots@.len(),
            final(self).cards@.len() == r,
            forall|i: int| 0 <= i < r ==> is_draft_card(#[trigger] final(self).cards@[i], draft.shots@[i]@, i, ids@[i], old(self).workflows@),
            final(self).selected == if r == 0 {
                None::<usize>
            } else {
                Some(0usize)
            },
            final(self).workflows == old(self).workflows,
    {
        self.cards = Vec::new();
        self.selected = None;
        let ghost wsg = self.workflows;
        let n = draft.shots.len();
        let mut i: usize = 0;
        while i < n
            invariant
                n == draft.shots@.len(),
                n == ids@.len(),
                i <= n,
                self.cards@.len() == i,
                self.workflows == wsg,
                forall|j: int| 0 <= j < i ==> is_shot_card(#[trigger] self.cards@[j], draft.shots@[j]@, j, ids@[j], wsg@),
            decreases n - i,
        {
            let at = self.storyboard_add_card_with_id(ids[i]);
            let mut card = self.cards.pop().unwrap();
            apply_shot(&mut card, &draft.shots[i], at, &self.workflows);
            self.cards.push(card);
            i = i + 1;
        }
        let ghost built = self.cards@;
        self.selected = if self.cards.len() == 0 {
            None
        } else {
            Some(0)
        };
        self.ensure_storyboard_card_workflow_selection();
        proof {
            assert forall|j: int| 0 <= j < n implies is_draft_card(#[trigger] self.cards@[j], draft.shots@[j]@, j, ids@[j], wsg@) by {
                lemma_settled_shot_card(self.cards@[j], built[j], draft.shots@[j]@, j, ids@[j], wsg@);
            }
        }
        self.cards.len()
    }

    /// `storyboard_replace_with_screenplay_draft`: the new cards get fresh
    /// random ids.
    pub fn storyboard_replace_with_screenplay_draft(&mut self, draft: &ScreenplayDraft) -> (r: usize)
        ensures
            r == draft.shots@.len(),
            final(self).cards@.len() == r,
            forall|i: int| 0 <= i < r ==> is_draft_card_content(#[trigger] final(self).cards@[i], draft.shots@[i]@, i, old(self).workflows@),
            final(self).selected == if r == 0 {
                None::<usize>
            } else {
                Some(0usize)
            },
            final(self).workflows == old(self).workflows,
    {
        let n = draft.shots.len();
        let mut ids: Vec<u128> = Vec::new();
        let mut i: usize = 0;
        while i < n
            invariant
                n == draft.shots@.len(),
                i <= n,
                ids@.len() == i,
            decreases n - i,
        {
            ids.push(crate::ids::random_uuid());
            i = i + 1;
        }
        self.storyboard_replace_with_screenplay_draft_with_ids(draft, &ids)
    }
}


/// The log line after shots are applied.
pub open spec fn applied_log(n: nat) -> Seq<char> {
    "Applied "@ + nat_decimal(n) + " screenplay shot"@ + (if n == 1 {
        Seq::<char>::empty()
    } else {
        "s"@
    }) + " to the storyboard workspace."@
}

impl Storyboard {
    /// `screenplay_apply_draft_to_storyboard`: without an active session, a
    /// draft, or shots in it, the error to show and the line to log, and the
    /// storyboard stays; else the cards are replaced by the draft's shots
    /// (see `storyboard_replace_with_screenplay_draft`) and the line to log
    /// says how many.
    pub fn screenplay_apply_draft_to_storyboard(&mut self, session_active: bool, draft: Option<&ScreenplayDraft>) -> (r: Result<String, (String, String)>)
        ensures
            !session_active ==> (r matches Err(e) && e.0@ == "Start a session before applying storyboard shots."@
                && e.1@ == "Cannot apply storyboard: no active session."@),
            session_active && draft is None ==> (r matches Err(e) && e.0@ == "Generate the screenplay before applying storyboard shots."@
                && e.1@ == "Cannot apply storyboard: screenplay draft missing."@),
            session_active ==> (draft matches Some(d) && d.shots@.len() == 0 ==> (r matches Err(e) && e.0@
                == "The current screenplay draft has no shots to apply."@ && e.1@ == "Cannot apply storyboard: draft contains no shots."@)),
            r is Err ==> *final(self) == *old(self),
            (session_active && draft is Some && draft.unwrap().shots@.len() > 0) ==> r is Ok,
            r matches Ok(log) ==> session_active && (draft matches Some(d) && {
                let n = d.shots@.len();
                &&& n > 0
                &&& log@ == applied_log(n)
                &&& final(self).cards@.len() == n
                &&& forall|i: int| 0 <= i < n ==> is_draft_card_content(#[trigger] final(self).cards@[i], d.shots@[i]@, i, old(self).workflows@)
                &&& final(self).selected == Some(0usize)
                &&& final(self).workflows == old(self).workflows
            }),
    {
        if !session_active {
            return Err((
                String::from_str("Start a session before applying storyboard shots."),
                String::from_str("Cannot apply storyboard: no active session."),
            ));
        }
        let d = match draft {
            Some(d) => d,
            None => {
                return Err((
                    String::from_str("Generate the screenplay before applying storyboard shots."),
                    String::from_str("Cannot apply storyboard: screenplay draft missing."),
                ));
            },
        };
        if d.shots.len() == 0 {
            return Err((
                String::from_str("The current screenplay draft has no shots to apply."),
                String::from_str("Cannot apply storyboard: draft contains no shots."),
            ));
        }
        let applied = self.storyboard_replace_with_screenplay_draft(d);
        let count = crate::text::u64_decimal_string(applied as u64);
        let head = crate::text::cat3("Applied ", count.as_str(), " screenplay shot");
        let log = if applied == 1 {
            crate::text::cat(head.as_str(), " to the storyboard workspace.")
        } else {
            crate::text::cat3(head.as_str(), "s", " to the storyboard workspace.")
        };
        Ok(log)
    }
}

} // verus!
