//! Storyboard cards and the values of their workflow inputs.
//!
//! A card holds a value for every input of the workflow it uses. When the
//! workflow changes, values move to the inputs of the new workflow: to the
//! same input, or to the input of the same meaning.

use vstd::prelude::*;
use crate::keyed_map::{map_of, KeyedMap};
use crate::text::{chars_of, eq_ignore_case, eq_ignore_case_lit, eq_lit, lower, lower_vec};
use crate::workflow_input::{
    default_for_kind_spec, input_value_eq, inputs_eq, matches_kind_spec, InputValue,
    StoryboardInputValue, StoryboardWorkflowInputKind, WorkflowInputSemantic,
};
use crate::workflow_preset::{view_specs, InputSpecView, StoryboardWorkflowInputSpec};

verus! {

/// Video output settings of a workflow or a card.
#[derive(Debug)]
pub struct StoryboardVideoSettings {
    pub filename_prefix: String,
    pub format: String,
    pub codec: String,
}

/// What a workflow produces.
#[derive(Clone, Copy, Debug, PartialEq, Eq, Structural)]
pub enum StoryboardWorkflowOutputKind {
    Image,
    Video,
    ImageAndVideo,
}

impl StoryboardWorkflowOutputKind {
    /// The label shown for a workflow's outputs.
    pub fn label(self) -> (r: &'static str)
        ensures
            r@ == match self {
                StoryboardWorkflowOutputKind::Image => "Outputs: Image"@,
                StoryboardWorkflowOutputKind::Video => "Outputs: Video"@,
                StoryboardWorkflowOutputKind::ImageAndVideo => "Outputs: Image & Video"@,
            },
    {
        match self {
            StoryboardWorkflowOutputKind::Image => "Outputs: Image",
            StoryboardWorkflowOutputKind::Video => "Outputs: Video",
            StoryboardWorkflowOutputKind::ImageAndVideo => "Outputs: Image & Video",
        }
    }

    /// The kind of a workflow from whether it produces images and videos; a
    /// workflow that shows neither counts as an image workflow.
    pub fn from_flags(image: bool, video: bool) -> (r: Self)
        ensures
            r == (if image && video {
                StoryboardWorkflowOutputKind::ImageAndVideo
            } else if video {
                StoryboardWorkflowOutputKind::Video
            } else {
                StoryboardWorkflowOutputKind::Image
            }),
    {
        match (image, video) {
            (true, true) => StoryboardWorkflowOutputKind::ImageAndVideo,
            (true, false) => StoryboardWorkflowOutputKind::Image,
            (false, true) => StoryboardWorkflowOutputKind::Video,
            (false, false) => StoryboardWorkflowOutputKind::Image,
        }
    }
}

/// A workflow that storyboard cards can use.
#[derive(Debug)]
pub struct StoryboardWorkflowPreset {
    pub id: u128,
    pub name: String,
    pub path: String,
    pub builtin: bool,
    pub video_defaults: Option<StoryboardVideoSettings>,
    pub output_kind: StoryboardWorkflowOutputKind,
    pub input_specs: Vec<StoryboardWorkflowInputSpec>,
}

/// One shot of the storyboard. `duration_seconds` holds the bit pattern of an
/// `f32`; identifiers are UUIDs as integers.
#[derive(Debug)]
pub struct StoryboardCard {
    pub id: u128,
    pub title: String,
    pub description: String,
    pub reference_path: String,
    pub duration_seconds: u32,
    pub preview_error: Option<String>,
    pub workflow_id: Option<u128>,
    pub workflow_error: Option<String>,
    pub workflow_status: Option<String>,
    pub video_settings: Option<StoryboardVideoSettings>,
    pub output_kind: StoryboardWorkflowOutputKind,
    pub workflow_inputs: KeyedMap<StoryboardInputValue>,
    pub workflow_input_errors: KeyedMap<String>,
}

/// `is_managed_storyboard_input`: inputs the editor fills in itself, whose
/// values are kept whatever their kind.
pub open spec fn is_managed_spec(s: InputSpecView) -> bool {
    if eq_ignore_case(s.node_class, "RunwayImageToVideoNodeGen4"@) {
        lower(s.input_key) == "duration"@ || lower(s.input_key) == "ratio"@
    } else {
        eq_ignore_case(s.node_class, "LoadImage"@) && eq_ignore_case(s.input_key, "image"@)
    }
}

/// The value an input starts with.
pub open spec fn default_value_of(s: InputSpecView) -> InputValue {
    match s.default_value {
        Some(v) => v,
        None => default_for_kind_spec(s.kind),
    }
}

/// The value that an input keeps after a sync: the card's value if the input
/// is managed or the value has the input's kind, else the default.
pub open spec fn synced_value(s: InputSpecView, old: Map<Seq<char>, InputValue>) -> InputValue {
    if old.dom().contains(s.map_key) && (is_managed_spec(s) || matches_kind_spec(old[s.map_key], s.kind)) {
        old[s.map_key]
    } else {
        default_value_of(s)
    }
}

/// The inputs of a card after a sync with `specs`: one value per spec key.
pub open spec fn synced_inputs(specs: Seq<InputSpecView>, old: Map<Seq<char>, InputValue>) -> Map<Seq<char>, InputValue>
    decreases specs.len(),
{
    if specs.len() == 0 {
        Map::empty()
    } else {
        synced_inputs(specs.drop_last(), old).insert(specs.last().map_key, synced_value(specs.last(), old))
    }
}

/// The keys of a sequence of specs.
pub open spec fn spec_keys(specs: Seq<InputSpecView>) -> Set<Seq<char>> {
    Set::new(|k: Seq<char>| exists|i: int| 0 <= i < specs.len() && specs[i].map_key == k)
}

/// Whether the editor fills the input in itself; see `is_managed_spec`.
pub fn is_managed_storyboard_input(spec: &StoryboardWorkflowInputSpec) -> (r: bool)
    ensures
        r == is_managed_spec(spec@),
{
    let class = chars_of(spec.node_class.as_str());
    let key = chars_of(spec.input_key.as_str());
    if eq_ignore_case_lit(class.as_slice(), "RunwayImageToVideoNodeGen4") {
        let lk = lower_vec(key.as_slice());
        return eq_lit(lk.as_slice(), "duration") || eq_lit(lk.as_slice(), "ratio");
    }
    eq_ignore_case_lit(class.as_slice(), "LoadImage") && eq_ignore_case_lit(key.as_slice(), "image")
}

/// The value an input starts with.
pub(crate) fn default_value_exec(spec: &StoryboardWorkflowInputSpec) -> (r: StoryboardInputValue)
    ensures
        r@ == default_value_of(spec@),
{
    match &spec.default_value {
        Some(v) => v.deep_clone(),
        None => StoryboardInputValue::default_for_kind(&spec.kind),
    }
}

/// `HashMap<String, StoryboardInputValue> ==`.
pub fn inputs_equal(a: &KeyedMap<StoryboardInputValue>, b: &KeyedMap<StoryboardInputValue>) -> (r: bool)
    ensures
        r == inputs_eq(a@, b@),
{
    let n = a.len();
    let m = b.len();
    if n != m {
        return false;
    }
    let mut i: usize = 0;
    while i < n
        invariant
            n == a.members().len(),
            n == a@.dom().len(),
            m == b@.dom().len(),
            b@.dom().finite(),
            a@.dom().finite(),
            n == m,
            i <= n,
            forall|k: Seq<char>| #[trigger] a@.dom().contains(k) <==> exists|j: int| 0 <= j < a.members().len() && a.members()[j].0@ == k,
            forall|j: int| 0 <= j < a.members().len() ==> #[trigger] a@[a.members()[j].0@] == a.members()[j].1@,
            forall|j: int| 0 <= j < i ==> b@.dom().contains(#[trigger] a.members()[j].0@) && input_value_eq(a@[a.members()[j].0@], b@[a.members()[j].0@]),
        decreases n - i,
    {
        let (k, v) = a.member_at(i);
        match b.get(k.as_str()) {
            Some(w) => {
                if !v.value_eq(w) {
                    assert(!input_value_eq(a@[a.members()[i as int].0@], b@[a.members()[i as int].0@]));
                    return false;
                }
            },
            None => {
                assert(a@.dom().contains(a.members()[i as int].0@));
                return false;
            },
        }
        i = i + 1;
    }
    proof {
        assert forall|k: Seq<char>| #[trigger] a@.dom().contains(k) implies b@.dom().contains(k) by {
            let j = choose|j: int| 0 <= j < a.members().len() && a.members()[j].0@ == k;
            assert(b@.dom().contains(a.members()[j].0@));
        }
        assert(a@.dom().finite());
        vstd::set_lib::lemma_subset_equality(a@.dom(), b@.dom());
        assert(a@.dom() =~= b@.dom());
    }
    true
}


/// All fields of two cards but the inputs and their errors agree.
pub open spec fn same_card_but_inputs(a: StoryboardCard, b: StoryboardCard) -> bool {
    &&& a.id == b.id
    &&& a.title == b.title
    &&& a.description == b.description
    &&& a.reference_path == b.reference_path
    &&& a.duration_seconds == b.duration_seconds
    &&& a.preview_error == b.preview_error
    &&& a.workflow_id == b.workflow_id
    &&& a.workflow_error == b.workflow_error
    &&& a.workflow_status == b.workflow_status
    &&& a.video_settings == b.video_settings
    &&& a.output_kind == b.output_kind
}

/// The synced inputs have exactly the spec keys.
pub proof fn lemma_synced_dom(specs: Seq<InputSpecView>, old: Map<Seq<char>, InputValue>)
    ensures
        synced_inputs(specs, old).dom() == spec_keys(specs),
    decreases specs.len(),
{
    if specs.len() > 0 {
        let p = specs.drop_last();
        lemma_synced_dom(p, old);
        assert forall|k: Seq<char>| #[trigger] spec_keys(specs).contains(k) <==> spec_keys(p).insert(specs.last().map_key).contains(k) by {
            if spec_keys(specs).contains(k) {
                let i = choose|i: int| 0 <= i < specs.len() && specs[i].map_key == k;
                if i < specs.len() - 1 {
                    assert(p[i] == specs[i]);
                }
            }
            if spec_keys(p).contains(k) {
                let i = choose|i: int| 0 <= i < p.len() && p[i].map_key == k;
                assert(specs[i] == p[i]);
            }
            if k == specs.last().map_key {
                assert(specs[specs.len() - 1].map_key == k);
            }
        }
        assert(spec_keys(specs) =~= spec_keys(p).insert(specs.last().map_key));
    } else {
        assert(spec_keys(specs) =~= Set::<Seq<char>>::empty());
    }
}

/// Syncs a card's inputs with its workflow: with a workflow, every input of the
/// workflow gets a value (the card's own where it still fits, else the
/// default), other values are dropped, and the input errors are cleared; the
/// result says whether the inputs changed. Without a workflow, the inputs and
/// errors are cleared, and the result says whether there were any.
pub fn sync_storyboard_inputs(card: &mut StoryboardCard, preset: Option<&StoryboardWorkflowPreset>) -> (r: bool)
    ensures
        same_card_but_inputs(*final(card), *old(card)),
        final(card).workflow_input_errors@ == Map::<Seq<char>, Seq<char>>::empty(),
        match preset {
            Some(p) => {
                let synced = synced_inputs(view_specs(p.input_specs@), old(card).workflow_inputs@);
                &&& r == !inputs_eq(synced, old(card).workflow_inputs@)
                &&& final(card).workflow_inputs@ == if r {
                    synced
                } else {
                    old(card).workflow_inputs@
                }
            },
            None => {
                &&& final(card).workflow_inputs@ == Map::<Seq<char>, InputValue>::empty()
                &&& r == (old(card).workflow_inputs@ != Map::<Seq<char>, InputValue>::empty()
                    || old(card).workflow_input_errors@ != Map::<Seq<char>, Seq<char>>::empty())
            },
        },
{
    match preset {
        Some(preset) => {
            let ghost sv = view_specs(preset.input_specs@);
            let ghost old_in = card.workflow_inputs@;
            let mut errors: KeyedMap<String> = KeyedMap::new();
            std::mem::swap(&mut errors, &mut card.workflow_input_errors);
            let ghost old_err = errors@;
            let mut new_inputs: KeyedMap<StoryboardInputValue> = KeyedMap::new();
            let n = preset.input_specs.len();
            let mut i: usize = 0;
            while i < n
                invariant
                    n == preset.input_specs@.len(),
                    sv == view_specs(preset.input_specs@),
                    i <= n,
                    old_in == card.workflow_inputs@,
                    new_inputs@ == synced_inputs(sv.subrange(0, i as int), old_in),
                    errors@ == old_err.remove_keys(spec_keys(sv.subrange(0, i as int))),
                decreases n - i,
            {
                let spec = &preset.input_specs[i];
                let ghost sp = sv.subrange(0, i + 1);
                proof {
                    assert(sp.drop_last() =~= sv.subrange(0, i as int));
                    assert(sp.last() == spec@);
                }
                let managed = is_managed_storyboard_input(spec);
                let value = if managed {
                    match card.workflow_inputs.get(spec.map_key.as_str()) {
                        Some(v) => v.deep_clone(),
                        None => default_value_exec(spec),
                    }
                } else {
                    match card.workflow_inputs.get(spec.map_key.as_str()) {
                        Some(existing) => if existing.matches_kind(&spec.kind) {
                            existing.deep_clone()
                        } else {
                            default_value_exec(spec)
                        },
                        None => default_value_exec(spec),
                    }
                };
                new_inputs.insert(spec.map_key.clone(), value);
                errors.remove(spec.map_key.as_str());
                proof {
                    assert(errors@ =~= old_err.remove_keys(spec_keys(sp))) by {
                        assert forall|k: Seq<char>| spec_keys(sp).contains(k) <==> (spec_keys(sv.subrange(0, i as int)).contains(k) || k == spec@.map_key) by {
                            if spec_keys(sp).contains(k) {
                                let j = choose|j: int| 0 <= j < sp.len() && sp[j].map_key == k;
                                if j < i {
                                    assert(sv.subrange(0, i as int)[j] == sp[j]);
                                }
                            }
                            if spec_keys(sv.subrange(0, i as int)).contains(k) {
                                let j = choose|j: int| 0 <= j < i && sv.subrange(0, i as int)[j].map_key == k;
                                assert(sp[j] == sv.subrange(0, i as int)[j]);
                            }
                            if k == spec@.map_key {
                                assert(sp[i as int].map_key == k);
                            }
                        }
                    }
                }
                i = i + 1;
            }
            proof {
                assert(sv.subrange(0, n as int) =~= sv);
                lemma_synced_dom(sv, old_in);
            }
            let changed = !inputs_equal(&new_inputs, &card.workflow_inputs);
            if changed {
                card.workflow_inputs = new_inputs;
            }
            errors.retain_keys_of(&card.workflow_inputs);
            proof {
                assert(card.workflow_inputs@.dom() == spec_keys(sv));
                assert(errors@ =~= Map::<Seq<char>, Seq<char>>::empty());
            }
            card.workflow_input_errors = errors;
            changed
        },
        None => {
            let had_inputs = !card.workflow_inputs.is_empty();
            let had_errors = !card.workflow_input_errors.is_empty();
            if had_inputs {
                card.workflow_inputs.clear();
            }
            if had_errors {
                card.workflow_input_errors.clear();
            }
            had_inputs || had_errors
        },
    }
}


/// An old input whose value goes to a new input of the same meaning.
pub open spec fn exact_match(s: InputSpecView, target: InputSpecView) -> bool {
    s.semantic == target.semantic && s.semantic != WorkflowInputSemantic::Other
}

/// Meanings close enough to carry a value over when no input of the same
/// meaning has one: a positive prompt and a single prompt, either way, and a
/// ratio and an aspect ratio, either way. A single prompt does not feed a
/// negative prompt.
pub open spec fn compatible(s: WorkflowInputSemantic, t: WorkflowInputSemantic) -> bool {
    ||| (s == WorkflowInputSemantic::PromptPositive && t == WorkflowInputSemantic::PromptSingle)
    ||| (s == WorkflowInputSemantic::PromptSingle && t == WorkflowInputSemantic::PromptPositive)
    ||| (s == WorkflowInputSemantic::Ratio && t == WorkflowInputSemantic::AspectRatio)
    ||| (s == WorkflowInputSemantic::AspectRatio && t == WorkflowInputSemantic::Ratio)
}

/// The key of the first old spec with a value and the target's meaning.
pub open spec fn first_exact(specs: Seq<InputSpecView>, keys: Set<Seq<char>>, target: InputSpecView) -> Option<Seq<char>>
    decreases specs.len(),
{
    if specs.len() == 0 {
        None
    } else {
        let p = first_exact(specs.drop_last(), keys, target);
        if p is Some {
            p
        } else if keys.contains(specs.last().map_key) && exact_match(specs.last(), target) {
            Some(specs.last().map_key)
        } else {
            None
        }
    }
}

/// The key of the first old spec with a value and a compatible meaning.
pub open spec fn first_compatible(specs: Seq<InputSpecView>, keys: Set<Seq<char>>, target: InputSpecView) -> Option<Seq<char>>
    decreases specs.len(),
{
    if specs.len() == 0 {
        None
    } else {
        let p = first_compatible(specs.drop_last(), keys, target);
        if p is Some {
            p
        } else if keys.contains(specs.last().map_key) && compatible(specs.last().semantic, target.semantic) {
            Some(specs.last().map_key)
        } else {
            None
        }
    }
}

/// `find_transfer_source`: the old input whose value a new input takes.
pub open spec fn transfer_source(target: InputSpecView, old_specs: Seq<InputSpecView>, keys: Set<Seq<char>>) -> Option<Seq<char>> {
    let e = first_exact(old_specs, keys, target);
    if e is Some {
        e
    } else {
        first_compatible(old_specs, keys, target)
    }
}

/// The value a new input takes from the old values, if any: its own key's,
/// else the transfer source's, when the value has the input's kind.
pub open spec fn transfer_value(s: InputSpecView, old_specs: Seq<InputSpecView>, ov: Map<Seq<char>, InputValue>) -> Option<InputValue> {
    if ov.dom().contains(s.map_key) && matches_kind_spec(ov[s.map_key], s.kind) {
        Some(ov[s.map_key])
    } else {
        match transfer_source(s, old_specs, ov.dom()) {
            Some(src) => if ov.dom().contains(src) && matches_kind_spec(ov[src], s.kind) {
                Some(ov[src])
            } else {
                None
            },
            None => None,
        }
    }
}

/// The values carried over to the new inputs.
pub open spec fn transfers(new_specs: Seq<InputSpecView>, old_specs: Seq<InputSpecView>, ov: Map<Seq<char>, InputValue>) -> Map<Seq<char>, InputValue>
    decreases new_specs.len(),
{
    if new_specs.len() == 0 {
        Map::empty()
    } else {
        let t = transfers(new_specs.drop_last(), old_specs, ov);
        match transfer_value(new_specs.last(), old_specs, ov) {
            Some(v) => t.insert(new_specs.last().map_key, v),
            None => t,
        }
    }
}

/// The specs of an optional preset.
pub open spec fn preset_specs(p: Option<&StoryboardWorkflowPreset>) -> Seq<InputSpecView> {
    match p {
        Some(q) => view_specs(q.input_specs@),
        None => Seq::empty(),
    }
}

proof fn lemma_first_exact_prefix(s: Seq<InputSpecView>, keys: Set<Seq<char>>, t: InputSpecView, j: int)
    requires
        0 <= j <= s.len(),
        first_exact(s.subrange(0, j), keys, t) is Some,
    ensures
        first_exact(s, keys, t) == first_exact(s.subrange(0, j), keys, t),
    decreases s.len(),
{
    if j < s.len() {
        assert(s.drop_last().subrange(0, j) =~= s.subrange(0, j));
        lemma_first_exact_prefix(s.drop_last(), keys, t, j);
    } else {
        assert(s.subrange(0, j) =~= s);
    }
}

proof fn lemma_transfers_empty(new_specs: Seq<InputSpecView>, old_specs: Seq<InputSpecView>)
    ensures
        transfers(new_specs, old_specs, Map::empty()) == Map::<Seq<char>, InputValue>::empty(),
    decreases new_specs.len(),
{
    if new_specs.len() > 0 {
        lemma_transfers_empty(new_specs.drop_last(), old_specs);
        lemma_first_none(old_specs, new_specs.last());
    }
}

proof fn lemma_first_none(s: Seq<InputSpecView>, t: InputSpecView)
    ensures
        first_exact(s, Set::empty(), t) is None,
        first_compatible(s, Set::empty(), t) is None,
    decreases s.len(),
{
    if s.len() > 0 {
        lemma_first_none(s.drop_last(), t);
    }
}

/// The old input a new one takes its value from: among the old inputs that have a value, the
/// first of the target's meaning, else the first of a compatible meaning.
pub fn find_transfer_source(
    target_spec: &StoryboardWorkflowInputSpec,
    old_preset: Option<&StoryboardWorkflowPreset>,
    old_values: &KeyedMap<StoryboardInputValue>,
) -> (r: Option<String>)
    ensures
        match r {
            Some(k) => transfer_source(target_spec@, preset_specs(old_preset), old_values@.dom()) == Some(k@),
            None => transfer_source(target_spec@, preset_specs(old_preset), old_values@.dom()) is None,
        },
{
    let old = match old_preset {
        Some(o) => o,
        None => {
            proof {
                lemma_first_none(Seq::empty(), target_spec@);
            }
            return None;
        },
    };
    let ghost sv = view_specs(old.input_specs@);
    let ghost keys = old_values@.dom();
    let ghost t = target_spec@;
    let mut best_match: Option<String> = None;
    let n = old.input_specs.len();
    let mut i: usize = 0;
    while i < n
        invariant
            n == old.input_specs@.len(),
            old_preset == Some(old),
            sv == view_specs(old.input_specs@),
            keys == old_values@.dom(),
            t == target_spec@,
            i <= n,
            first_exact(sv.subrange(0, i as int), keys, t) is None,
            match best_match {
                Some(k) => first_compatible(sv.subrange(0, i as int), keys, t) == Some(k@),
                None => first_compatible(sv.subrange(0, i as int), keys, t) is None,
            },
        decreases n - i,
    {
        let spec = &old.input_specs[i];
        let ghost sp = sv.subrange(0, i + 1);
        proof {
            assert(sp.drop_last() =~= sv.subrange(0, i as int));
            assert(sp.last() == spec@);
        }
        if !old_values.contains_key(spec.map_key.as_str()) {
            i = i + 1;
            continue;
        }
        if spec.semantic == target_spec.semantic && spec.semantic != WorkflowInputSemantic::Other {
            proof {
                assert(first_exact(sp, keys, t) == Some(spec@.map_key));
                lemma_first_exact_prefix(sv, keys, t, i + 1);
                assert(sv.subrange(0, n as int) =~= sv);
                assert(preset_specs(old_preset) == sv);
            }
            let k = spec.map_key.clone();
            return Some(k);
        }
        if best_match.is_none() && spec.semantic == WorkflowInputSemantic::PromptPositive
            && target_spec.semantic == WorkflowInputSemantic::PromptSingle {
            best_match = Some(spec.map_key.clone());
        }
        if best_match.is_none() && spec.semantic == WorkflowInputSemantic::PromptSingle
            && target_spec.semantic == WorkflowInputSemantic::PromptPositive {
            best_match = Some(spec.map_key.clone());
        }
        if best_match.is_none() && ((spec.semantic == WorkflowInputSemantic::Ratio
            && target_spec.semantic == WorkflowInputSemantic::AspectRatio) || (spec.semantic
            == WorkflowInputSemantic::AspectRatio && target_spec.semantic
            == WorkflowInputSemantic::Ratio)) {
            best_match = Some(spec.map_key.clone());
        }
        i = i + 1;
    }
    assert(sv.subrange(0, n as int) =~= sv);
    best_match
}


/// The card's values of the old workflow's inputs.
pub open spec fn old_values_of(old_preset: Option<&StoryboardWorkflowPreset>, inputs: Map<Seq<char>, InputValue>) -> Map<Seq<char>, InputValue> {
    match old_preset {
        Some(o) => inputs.restrict(spec_keys(view_specs(o.input_specs@))),
        None => Map::empty(),
    }
}

/// Moves a card to a new workflow: the card is synced with the
/// new workflow, then each new input takes the card's value of the old
/// workflow's input with its key, or else of the old input of the same (or a
/// compatible) meaning, when that value has the input's kind. The result
/// says whether the inputs changed in the sync or any value was carried over.
pub fn sync_storyboard_inputs_with_transfer(
    card: &mut StoryboardCard,
    new_preset: &StoryboardWorkflowPreset,
    old_preset: Option<&StoryboardWorkflowPreset>,
) -> (r: bool)
    ensures
        same_card_but_inputs(*final(card), *old(card)),
        final(card).workflow_input_errors@ == Map::<Seq<char>, Seq<char>>::empty(),
        ({
            let old_in = old(card).workflow_inputs@;
            let synced = synced_inputs(view_specs(new_preset.input_specs@), old_in);
            let changed = !inputs_eq(synced, old_in);
            let base = if changed {
                synced
            } else {
                old_in
            };
            let t = transfers(
                view_specs(new_preset.input_specs@),
                preset_specs(old_preset),
                old_values_of(old_preset, old_in),
            );
            &&& final(card).workflow_inputs@ == base.union_prefer_right(t)
            &&& r == (changed || t != Map::<Seq<char>, InputValue>::empty())
        }),
{
    let ghost old_in = card.workflow_inputs@;
    let ghost osv = preset_specs(old_preset);
    let mut old_values: KeyedMap<StoryboardInputValue> = KeyedMap::new();
    if let Some(old) = old_preset {
        let ghost okeys = spec_keys(view_specs(old.input_specs@));
        let ghost sv = view_specs(old.input_specs@);
        let n = old.input_specs.len();
        let mut i: usize = 0;
        while i < n
            invariant
                n == old.input_specs@.len(),
                sv == view_specs(old.input_specs@),
                i <= n,
                old_in == card.workflow_inputs@,
                old_values@ == old_in.restrict(spec_keys(sv.subrange(0, i as int))),
            decreases n - i,
        {
            let spec = &old.input_specs[i];
            let ghost before = old_values@;
            if let Some(value) = card.workflow_inputs.get(spec.map_key.as_str()) {
                old_values.insert(spec.map_key.clone(), value.deep_clone());
            }
            proof {
                let sp = sv.subrange(0, i + 1);
                assert forall|k: Seq<char>| spec_keys(sp).contains(k) <==> (spec_keys(sv.subrange(0, i as int)).contains(k) || k == spec@.map_key) by {
                    if spec_keys(sp).contains(k) {
                        let j = choose|j: int| 0 <= j < sp.len() && sp[j].map_key == k;
                        if j < i {
                            assert(sv.subrange(0, i as int)[j] == sp[j]);
                        }
                    }
                    if spec_keys(sv.subrange(0, i as int)).contains(k) {
                        let j = choose|j: int| 0 <= j < i && sv.subrange(0, i as int)[j].map_key == k;
                        assert(sp[j] == sv.subrange(0, i as int)[j]);
                    }
                    if k == spec@.map_key {
                        assert(sp[i as int].map_key == k);
                    }
                }
                assert(old_values@ =~= old_in.restrict(spec_keys(sp)));
            }
            i = i + 1;
        }
        assert(sv.subrange(0, n as int) =~= sv);
    } else {
        assert(old_values@ =~= old_values_of(old_preset, old_in));
    }
    let ghost ov = old_values@;
    assert(ov == old_values_of(old_preset, old_in));
    let changed = sync_storyboard_inputs(card, Some(new_preset));
    let ghost nsv = view_specs(new_preset.input_specs@);
    let ghost base = card.workflow_inputs@;
    if old_values.is_empty() {
        proof {
            lemma_transfers_empty(nsv, osv);
            assert(base.union_prefer_right(transfers(nsv, osv, ov)) =~= base);
        }
        return changed;
    }
    let mut transfer_map: KeyedMap<StoryboardInputValue> = KeyedMap::new();
    let n = new_preset.input_specs.len();
    let mut i: usize = 0;
    while i < n
        invariant
            n == new_preset.input_specs@.len(),
            nsv == view_specs(new_preset.input_specs@),
            osv == preset_specs(old_preset),
            ov == old_values@,
            i <= n,
            transfer_map@ == transfers(nsv.subrange(0, i as int), osv, ov),
        decreases n - i,
    {
        let spec = &new_preset.input_specs[i];
        let ghost sp = nsv.subrange(0, i + 1);
        proof {
            assert(sp.drop_last() =~= nsv.subrange(0, i as int));
            assert(sp.last() == spec@);
        }
        let mut done = false;
        if let Some(value) = old_values.get(spec.map_key.as_str()) {
            if value.matches_kind(&spec.kind) {
                transfer_map.insert(spec.map_key.clone(), value.deep_clone());
                done = true;
            }
        }
        if !done {
            if let Some(source_key) = find_transfer_source(spec, old_preset, &old_values) {
                if let Some(value) = old_values.get(source_key.as_str()) {
                    if value.matches_kind(&spec.kind) {
                        transfer_map.insert(spec.map_key.clone(), value.deep_clone());
                    }
                }
            }
        }
        i = i + 1;
    }
    assert(nsv.subrange(0, n as int) =~= nsv);
    let ghost t = transfer_map@;
    let mut errors: KeyedMap<String> = KeyedMap::new();
    std::mem::swap(&mut errors, &mut card.workflow_input_errors);
    let tn = transfer_map.len();
    let ghost mid = *card;
    let mut any_transfer = false;
    let mut j: usize = 0;
    while j < tn
        invariant
            tn == transfer_map.members().len(),
            t == transfer_map@,
            t == map_of(transfer_map.members()),
            j <= tn,
            card.workflow_inputs@ == base.union_prefer_right(map_of(transfer_map.members().subrange(0, j as int))),
            errors@ == Map::<Seq<char>, Seq<char>>::empty(),
            any_transfer == (j > 0),
            same_card_but_inputs(*card, mid),
        decreases tn - j,
    {
        let (k, v) = transfer_map.member_at(j);
        card.workflow_inputs.insert(k.clone(), v.deep_clone());
        errors.remove(k.as_str());
        any_transfer = true;
        proof {
            let m = transfer_map.members();
            let p = m.subrange(0, j + 1);
            assert(p.drop_last() =~= m.subrange(0, j as int));
            assert(p.last() == m[j as int]);
            assert(card.workflow_inputs@ =~= base.union_prefer_right(map_of(p)));
            assert(errors@ =~= Map::<Seq<char>, Seq<char>>::empty());
        }
        j = j + 1;
    }
    proof {
        assert(transfer_map.members().subrange(0, tn as int) =~= transfer_map.members());
        if tn == 0 {
            assert(t.dom().len() == 0);
            assert(t =~= Map::<Seq<char>, InputValue>::empty());
        } else {
            assert(t.dom().len() > 0);
            assert(t != Map::<Seq<char>, InputValue>::empty());
        }
    }
    card.workflow_input_errors = errors;
    changed || any_transfer
}

} // verus!
