//! The decisions of the storyboard card editor: how a workflow input is
//! labelled, which value it holds before it is edited, what an edit or a
//! button does to it, which inputs the editor fills in itself, and how the
//! inputs are laid out.

use vstd::prelude::*;
use crate::input_display::{ensure_text_input_value, text_fallback};
use crate::json::{Json, JsonValue};
use crate::json_text::{parse_json, parsed_json};
use crate::board::{clone_settings, first_workflow, lemma_first_workflow_prefix, settings_of, specs_at, sync_result, values_at};
use crate::storyboard::{
    default_value_exec, default_value_of, old_values_of, preset_specs, sync_storyboard_inputs,
    sync_storyboard_inputs_with_transfer, synced_inputs, transfers, StoryboardCard, StoryboardWorkflowOutputKind,
    StoryboardWorkflowPreset,
};
use crate::text::{
    cat, chars_eq, chars_of, eq_ignore_case, eq_ignore_case_lit, eq_lit, lower, lower_vec, string_of,
    trim, trim_vec,
};
use crate::screenplay::strings_view;
use crate::workflow_input::{
    default_for_kind_spec, input_value_eq, inputs_eq, matches_kind_spec, InputValue, StoryboardInputValue,
    StoryboardWorkflowInputKind,
};
use crate::workflow_preset::{view_specs, InputSpecView, StoryboardWorkflowInputSpec};

verus! {

/// An input of a Gemini image node.
pub open spec fn is_gemini_input(s: InputSpecView) -> bool {
    eq_ignore_case(s.node_class, "GeminiImageNode"@)
}

/// An input of a Runway image-to-video node.
pub open spec fn is_runway_input(s: InputSpecView) -> bool {
    eq_ignore_case(s.node_class, "RunwayImageToVideoNodeGen4"@)
}

/// A Runway prompt or ratio: edited as text whatever its kind.
pub open spec fn is_runway_text(s: InputSpecView) -> bool {
    is_runway_input(s) && (lower(s.input_key) == "prompt"@ || lower(s.input_key) == "ratio"@)
}

/// The label an input is shown under: fixed names for the prompts and
/// ratios of Gemini and Runway nodes, else the spec's label.
pub open spec fn input_label(s: InputSpecView) -> Seq<char> {
    let k = lower(s.input_key);
    if is_gemini_input(s) && k == "prompt"@ {
        "prompt"@
    } else if is_gemini_input(s) && (k == "aspect_ratio"@ || k == "aspect-ratio"@) {
        "Aspect Ratio"@
    } else if is_runway_input(s) && k == "prompt"@ {
        "Prompt"@
    } else if is_runway_input(s) && k == "ratio"@ {
        "Ratio"@
    } else {
        s.label
    }
}

/// The label an input is shown under in the card editor; see
/// `input_label`.
pub fn storyboard_input_label(spec: &StoryboardWorkflowInputSpec) -> (r: String)
    ensures
        r@ == input_label(spec@),
{
    let class = chars_of(spec.node_class.as_str());
    let gemini = eq_ignore_case_lit(class.as_slice(), "GeminiImageNode");
    let runway = eq_ignore_case_lit(class.as_slice(), "RunwayImageToVideoNodeGen4");
    let k = lower_vec(chars_of(spec.input_key.as_str()).as_slice());
    if gemini && eq_lit(k.as_slice(), "prompt") {
        String::from_str("prompt")
    } else if gemini && (eq_lit(k.as_slice(), "aspect_ratio") || eq_lit(k.as_slice(), "aspect-ratio")) {
        String::from_str("Aspect Ratio")
    } else if runway && eq_lit(k.as_slice(), "prompt") {
        String::from_str("Prompt")
    } else if runway && eq_lit(k.as_slice(), "ratio") {
        String::from_str("Ratio")
    } else {
        spec.label.clone()
    }
}

/// The views of a list of (label, value) choices.
pub open spec fn choices_view(c: Seq<(&str, &str)>) -> Seq<(Seq<char>, Seq<char>)> {
    c.map_values(|x: (&str, &str)| (x.0@, x.1@))
}

/// The aspect ratios a Gemini image node offers, with their labels.
pub open spec fn gemini_aspect_ratio_choices() -> Seq<(Seq<char>, Seq<char>)> {
    seq![
        ("1 : 1 (1024 x 1024)"@, "1:1"@),
        ("2 : 3 (832 x 1248)"@, "2:3"@),
        ("3 : 2 (1248 x 832)"@, "3:2"@),
        ("3 : 4 (864 x 1184)"@, "3:4"@),
        ("4 : 3 (1184 x 864)"@, "4:3"@),
        ("4 : 5 (896 x 1152)"@, "4:5"@),
        ("5 : 4 (1152 x 896)"@, "5:4"@),
        ("9 : 16 (768 x 1344)"@, "9:16"@),
        ("16 : 9 (1344 x 768)"@, "16:9"@),
        ("21 : 9 (1536 x 672)"@, "21:9"@),
    ]
}

/// The ratios a Runway image-to-video node offers, with their labels.
pub open spec fn runway_ratio_choices() -> Seq<(Seq<char>, Seq<char>)> {
    seq![
        ("1280 : 720"@, "1280:720"@),
        ("720 : 1280"@, "720:1280"@),
        ("1104 : 832"@, "1104:832"@),
        ("832 : 1104"@, "832:1104"@),
        ("960 : 960"@, "960:960"@),
        ("1584 : 672"@, "1584:672"@),
    ]
}

/// The aspect ratios offered for a Gemini image node, with their labels.
pub fn gemini_aspect_ratio_options() -> (r: Vec<(&'static str, &'static str)>)
    ensures
        choices_view(r@) == gemini_aspect_ratio_choices(),
{
    let r = vec![
        ("1 : 1 (1024 x 1024)", "1:1"),
        ("2 : 3 (832 x 1248)", "2:3"),
        ("3 : 2 (1248 x 832)", "3:2"),
        ("3 : 4 (864 x 1184)", "3:4"),
        ("4 : 3 (1184 x 864)", "4:3"),
        ("4 : 5 (896 x 1152)", "4:5"),
        ("5 : 4 (1152 x 896)", "5:4"),
        ("9 : 16 (768 x 1344)", "9:16"),
        ("16 : 9 (1344 x 768)", "16:9"),
        ("21 : 9 (1536 x 672)", "21:9"),
    ];
    assert(choices_view(r@) =~= gemini_aspect_ratio_choices());
    r
}

/// The ratios offered for a Runway image-to-video node, with their labels.
pub fn runway_ratio_options() -> (r: Vec<(&'static str, &'static str)>)
    ensures
        choices_view(r@) == runway_ratio_choices(),
{
    let r = vec![
        ("1280 : 720", "1280:720"),
        ("720 : 1280", "720:1280"),
        ("1104 : 832", "1104:832"),
        ("832 : 1104", "832:1104"),
        ("960 : 960", "960:960"),
        ("1584 : 672", "1584:672"),
    ];
    assert(choices_view(r@) =~= runway_ratio_choices());
    r
}

/// The label shown for a chosen value: that of the first choice with the
/// value, else the value itself.
pub open spec fn choice_label(choices: Seq<(Seq<char>, Seq<char>)>, value: Seq<char>) -> Seq<char>
    decreases choices.len(),
{
    if choices.len() == 0 {
        value
    } else if choices[0].1 == value {
        choices[0].0
    } else {
        choice_label(choices.drop_first(), value)
    }
}

/// The selected text of a ratio picker; see `choice_label`.
pub fn ratio_choice_label(choices: &Vec<(&'static str, &'static str)>, value: &str) -> (r: String)
    ensures
        r@ == choice_label(choices_view(choices@), value@),
{
    let v = chars_of(value);
    assert(choices_view(choices@).subrange(0, choices@.len() as int) =~= choices_view(choices@));
    let mut i: usize = 0;
    while i < choices.len()
        invariant
            i <= choices@.len(),
            v@ == value@,
            choice_label(choices_view(choices@), value@) == choice_label(
                choices_view(choices@).subrange(i as int, choices@.len() as int),
                value@,
            ),
        decreases choices@.len() - i,
    {
        let ghost rest = choices_view(choices@).subrange(i as int, choices@.len() as int);
        assert(rest[0] == (choices@[i as int].0@, choices@[i as int].1@));
        let c = chars_of(choices[i].1);
        if chars_eq(c.as_slice(), v.as_slice()) {
            return String::from_str(choices[i].0);
        }
        assert(rest.drop_first() =~= choices_view(choices@).subrange(i + 1, choices@.len() as int));
        i = i + 1;
    }
    String::from_str(value)
}

/// The value an input holds once the editor has shown it: the card's value,
/// or the input's starting value when it has none; then a Runway prompt or
/// ratio is made text (see `ensure_text_input_value`), a null input is kept
/// as it is, and any other value of the wrong kind becomes the kind's empty
/// value.
pub open spec fn prepared_value(s: StoryboardWorkflowInputSpec, inputs: Map<Seq<char>, InputValue>) -> InputValue {
    let start = if inputs.dom().contains(s@.map_key) {
        inputs[s@.map_key]
    } else if s@.kind == StoryboardWorkflowInputKind::Null {
        InputValue::Null
    } else {
        default_value_of(s@)
    };
    if is_runway_text(s@) {
        match start {
            InputValue::Text(_) => start,
            _ => InputValue::Text(text_fallback(s)),
        }
    } else if s@.kind == StoryboardWorkflowInputKind::Null || matches_kind_spec(start, s@.kind) {
        start
    } else {
        default_for_kind_spec(s@.kind)
    }
}

/// Whether showing an input clears its error: Runway prompts and ratios,
/// text and null inputs.
pub open spec fn shown_clears_error(s: InputSpecView) -> bool {
    is_runway_text(s) || s.kind is Text || s.kind == StoryboardWorkflowInputKind::Null
}

/// All fields of two cards but the inputs and their errors agree.
pub open spec fn same_but_inputs(a: StoryboardCard, b: StoryboardCard) -> bool {
    crate::storyboard::same_card_but_inputs(a, b)
}

/// Readies an input before it is shown for editing: the input gets its
/// prepared value (see `prepared_value`) and, where `shown_clears_error`
/// says so, loses its error.
pub fn storyboard_prepare_input(card: &mut StoryboardCard, spec: &StoryboardWorkflowInputSpec)
    ensures
        same_but_inputs(*final(card), *old(card)),
        final(card).workflow_inputs@ == old(card).workflow_inputs@.insert(
            spec@.map_key,
            prepared_value(*spec, old(card).workflow_inputs@),
        ),
        final(card).workflow_input_errors@ == if shown_clears_error(spec@) {
            old(card).workflow_input_errors@.remove(spec@.map_key)
        } else {
            old(card).workflow_input_errors@
        },
{
    let is_null = match spec.kind {
        StoryboardWorkflowInputKind::Null => true,
        _ => false,
    };
    let start: StoryboardInputValue = match card.workflow_inputs.get(spec.map_key.as_str()) {
        Some(v) => v.deep_clone(),
        None => if is_null {
            StoryboardInputValue::Null
        } else {
            default_value_exec(spec)
        },
    };
    let class = chars_of(spec.node_class.as_str());
    let k = lower_vec(chars_of(spec.input_key.as_str()).as_slice());
    let runway_text = eq_ignore_case_lit(class.as_slice(), "RunwayImageToVideoNodeGen4") && (eq_lit(
        k.as_slice(),
        "prompt",
    ) || eq_lit(k.as_slice(), "ratio"));
    let value = if runway_text {
        let mut v = start;
        ensure_text_input_value(&mut v, spec);
        v
    } else if is_null || start.matches_kind(&spec.kind) {
        start
    } else {
        StoryboardInputValue::default_for_kind(&spec.kind)
    };
    card.workflow_inputs.insert(spec.map_key.clone(), value);
    let is_text = match spec.kind {
        StoryboardWorkflowInputKind::Text { .. } => true,
        _ => false,
    };
    if runway_text || is_text || is_null {
        card.workflow_input_errors.remove(spec.map_key.as_str());
    }
}

/// What an edit of an array or object input's text does, by what the text
/// parses to: a value of the input's kind is taken and its error cleared;
/// another value, or text that is not JSON, leaves the value and records an
/// error.
pub open spec fn structured_edit(
    is_array: bool,
    key: Seq<char>,
    parsed: Result<Json, Seq<char>>,
    inputs: Map<Seq<char>, InputValue>,
    errors: Map<Seq<char>, Seq<char>>,
) -> (Map<Seq<char>, InputValue>, Map<Seq<char>, Seq<char>>, bool) {
    match parsed {
        Ok(Json::Arr(items)) if is_array => (inputs.insert(key, InputValue::Array(items)), errors.remove(key), true),
        Ok(Json::Obj(entries)) if !is_array => (inputs.insert(key, InputValue::Object(entries)), errors.remove(key), true),
        Ok(_) => (
            inputs,
            errors.insert(key, if is_array {
                "Expected JSON array value."@
            } else {
                "Expected JSON object value."@
            }),
            false,
        ),
        Err(e) => (
            inputs,
            errors.insert(key, if is_array {
                "Invalid array JSON: "@ + e
            } else {
                "Invalid object JSON: "@ + e
            }),
            false,
        ),
    }
}

/// Takes the edited text of an array or object
/// input; see `structured_edit`. The result says whether the
/// value was taken (the card is then selected).
pub fn storyboard_edit_structured_input(card: &mut StoryboardCard, spec: &StoryboardWorkflowInputSpec, buffer: &str) -> (r: bool)
    requires
        spec.kind == StoryboardWorkflowInputKind::Array || spec.kind == StoryboardWorkflowInputKind::Object,
    ensures
        same_but_inputs(*final(card), *old(card)),
        (final(card).workflow_inputs@, final(card).workflow_input_errors@, r) == structured_edit(
            spec.kind == StoryboardWorkflowInputKind::Array,
            spec@.map_key,
            parsed_json(buffer@),
            old(card).workflow_inputs@,
            old(card).workflow_input_errors@,
        ),
{
    let is_array = match spec.kind {
        StoryboardWorkflowInputKind::Array => true,
        _ => false,
    };
    match parse_json(buffer) {
        Ok(JsonValue::Array(items)) if is_array => {
            card.workflow_inputs.insert(spec.map_key.clone(), StoryboardInputValue::Array(items));
            card.workflow_input_errors.remove(spec.map_key.as_str());
            true
        },
        Ok(JsonValue::Object(entries)) if !is_array => {
            card.workflow_inputs.insert(spec.map_key.clone(), StoryboardInputValue::Object(entries));
            card.workflow_input_errors.remove(spec.map_key.as_str());
            true
        },
        Ok(_) => {
            let msg = if is_array {
                String::from_str("Expected JSON array value.")
            } else {
                String::from_str("Expected JSON object value.")
            };
            card.workflow_input_errors.insert(spec.map_key.clone(), msg);
            false
        },
        Err(e) => {
            let msg = if is_array {
                cat("Invalid array JSON: ", e.as_str())
            } else {
                cat("Invalid object JSON: ", e.as_str())
            };
            card.workflow_input_errors.insert(spec.map_key.clone(), msg);
            false
        },
    }
}

/// What the `Use Reference` button of a file input does: with a card
/// reference that is not blank and a file value, the value becomes the
/// trimmed reference. The result says whether the value changed and whether
/// the reference was used.
pub open spec fn reference_use(
    key: Seq<char>,
    reference: Seq<char>,
    inputs: Map<Seq<char>, InputValue>,
) -> (Map<Seq<char>, InputValue>, bool, bool) {
    let t = trim(reference);
    if t.len() == 0 {
        (inputs, false, false)
    } else if inputs.dom().contains(key) && inputs[key] is File {
        if inputs[key] == InputValue::File(t) {
            (inputs, false, true)
        } else {
            (inputs.insert(key, InputValue::File(t)), true, true)
        }
    } else {
        (inputs, false, false)
    }
}

/// The `Use Reference` button of a file input; see `reference_use`. The
/// result is (changed, used).
pub fn storyboard_use_reference_for_input(card: &mut StoryboardCard, spec: &StoryboardWorkflowInputSpec) -> (r: (bool, bool))
    ensures
        same_but_inputs(*final(card), *old(card)),
        final(card).workflow_input_errors@ == old(card).workflow_input_errors@,
        (final(card).workflow_inputs@, r.0, r.1) == reference_use(
            spec@.map_key,
            old(card).reference_path@,
            old(card).workflow_inputs@,
        ),
{
    let t = trim_vec(chars_of(card.reference_path.as_str()).as_slice());
    if t.len() == 0 {
        return (false, false);
    }
    let current: Option<bool> = match card.workflow_inputs.get(spec.map_key.as_str()) {
        Some(StoryboardInputValue::File(p)) => Some(chars_eq(chars_of(p.as_str()).as_slice(), t.as_slice())),
        _ => None,
    };
    match current {
        Some(true) => (false, true),
        Some(false) => {
            card.workflow_inputs.insert(spec.map_key.clone(), StoryboardInputValue::File(string_of(t.as_slice())));
            (true, true)
        },
        None => (false, false),
    }
}

/// The value the editor keeps in an input it fills in itself: a Runway
/// node's duration is the card's duration (as a double), a `LoadImage`
/// image is the card's trimmed reference; other inputs are left alone.
pub open spec fn managed_value(s: InputSpecView, duration_text: Seq<char>, reference: Seq<char>) -> Option<InputValue> {
    if is_runway_input(s) {
        if lower(s.input_key) == "duration"@ {
            Some(InputValue::Float(duration_text))
        } else {
            None
        }
    } else if eq_ignore_case(s.node_class, "LoadImage"@) && eq_ignore_case(s.input_key, "image"@) {
        Some(InputValue::File(trim(reference)))
    } else {
        None
    }
}

/// `sync_runway_managed_inputs` over the specs in order: each filled-in
/// input whose value differs (as `==` on values says) takes the filled-in
/// value and is listed as changed; every filled-in input loses its error.
pub open spec fn managed_sync(
    specs: Seq<InputSpecView>,
    inputs: Map<Seq<char>, InputValue>,
    errors: Map<Seq<char>, Seq<char>>,
    duration_text: Seq<char>,
    reference: Seq<char>,
) -> (Map<Seq<char>, InputValue>, Map<Seq<char>, Seq<char>>, Seq<Seq<char>>)
    decreases specs.len(),
{
    if specs.len() == 0 {
        (inputs, errors, Seq::empty())
    } else {
        let prev = managed_sync(specs.drop_last(), inputs, errors, duration_text, reference);
        let s = specs.last();
        match managed_value(s, duration_text, reference) {
            Some(d) => {
                let same = prev.0.dom().contains(s.map_key) && input_value_eq(prev.0[s.map_key], d);
                (
                    if same {
                        prev.0
                    } else {
                        prev.0.insert(s.map_key, d)
                    },
                    prev.1.remove(s.map_key),
                    if same {
                        prev.2
                    } else {
                        prev.2.push(s.map_key)
                    },
                )
            },
            None => prev,
        }
    }
}

/// `sync_runway_managed_inputs`: see `managed_sync`; the result lists the
/// keys whose values changed. The card's duration comes as the text of the
/// double it widens to (floats are kept out of the library), which the
/// caller writes with `f64::to_string`.
pub fn sync_runway_managed_inputs(card: &mut StoryboardCard, specs: &Vec<StoryboardWorkflowInputSpec>, duration_text: &str) -> (r: Vec<String>)
    ensures
        same_but_inputs(*final(card), *old(card)),
        (final(card).workflow_inputs@, final(card).workflow_input_errors@, strings_view(r@)) == managed_sync(
            view_specs(specs@),
            old(card).workflow_inputs@,
            old(card).workflow_input_errors@,
            duration_text@,
            old(card).reference_path@,
        ),
{
    let ghost sv = view_specs(specs@);
    let ghost dt = duration_text@;
    let ghost refp = card.reference_path@;
    let ghost in0 = card.workflow_inputs@;
    let ghost er0 = card.workflow_input_errors@;
    let reference = string_of(trim_vec(chars_of(card.reference_path.as_str()).as_slice()).as_slice());
    let duration = String::from_str(duration_text);
    let mut changed: Vec<String> = Vec::new();
    let mut i: usize = 0;
    while i < specs.len()
        invariant
            i <= specs@.len(),
            sv == view_specs(specs@),
            sv.len() == specs@.len(),
            dt == duration_text@,
            refp == old(card).reference_path@,
            in0 == old(card).workflow_inputs@,
            er0 == old(card).workflow_input_errors@,
            reference@ == trim(refp),
            duration@ == dt,
            same_but_inputs(*card, *old(card)),
            (card.workflow_inputs@, card.workflow_input_errors@, strings_view(changed@)) == managed_sync(
                sv.subrange(0, i as int),
                in0,
                er0,
                dt,
                refp,
            ),
        decreases specs@.len() - i,
    {
        let spec = &specs[i];
        proof {
            assert(sv.subrange(0, i + 1).drop_last() =~= sv.subrange(0, i as int));
            assert(sv.subrange(0, i + 1).last() == spec@);
        }
        let class = chars_of(spec.node_class.as_str());
        let desired: Option<StoryboardInputValue> = if eq_ignore_case_lit(class.as_slice(), "RunwayImageToVideoNodeGen4") {
            let k = lower_vec(chars_of(spec.input_key.as_str()).as_slice());
            if eq_lit(k.as_slice(), "duration") {
                Some(StoryboardInputValue::Float(duration.clone()))
            } else {
                None
            }
        } else if eq_ignore_case_lit(class.as_slice(), "LoadImage") && eq_ignore_case_lit(
            chars_of(spec.input_key.as_str()).as_slice(),
            "image",
        ) {
            Some(StoryboardInputValue::File(reference.clone()))
        } else {
            None
        };
        if let Some(d) = desired {
            let same = match card.workflow_inputs.get(spec.map_key.as_str()) {
                Some(v) => v.value_eq(&d),
                None => false,
            };
            let ghost ch_b = strings_view(changed@);
            if !same {
                card.workflow_inputs.insert(spec.map_key.clone(), d);
                changed.push(spec.map_key.clone());
                assert(strings_view(changed@) =~= ch_b.push(spec@.map_key));
            }
            card.workflow_input_errors.remove(spec.map_key.as_str());
        }
        i = i + 1;
    }
    proof {
        assert(sv.subrange(0, specs@.len() as int) =~= sv);
    }
    changed
}

/// The index of the first workflow with an optional id.
pub open spec fn first_at(ws: Seq<StoryboardWorkflowPreset>, wid: Option<u128>) -> Option<int> {
    match wid {
        Some(w) => first_workflow(ws, w),
        None => None,
    }
}

/// The inputs a card has once it moves to the workflow at `to`, coming from
/// the workflow at `from`: synced with the new workflow, with the values the
/// old one's inputs carry over; none without a new workflow.
pub open spec fn moved_inputs(
    ws: Seq<StoryboardWorkflowPreset>,
    to: Option<int>,
    from: Option<int>,
    inputs: Map<Seq<char>, InputValue>,
) -> Map<Seq<char>, InputValue> {
    match to {
        Some(i) => {
            let specs = view_specs(ws[i].input_specs@);
            sync_result(specs, inputs).union_prefer_right(transfers(specs, specs_at(ws, from), values_at(ws, from, inputs)))
        },
        None => Map::empty(),
    }
}

/// `after` is `before` with the workflow `selection` chosen in the editor:
/// the new id, no workflow error, the video settings and outputs of the
/// first workflow with the id (none and images without one), its inputs
/// moved from the first workflow with the old id, and no input errors.
pub open spec fn is_chosen(after: StoryboardCard, before: StoryboardCard, ws: Seq<StoryboardWorkflowPreset>, selection: Option<u128>) -> bool {
    let np = first_at(ws, selection);
    let op = first_at(ws, before.workflow_id);
    &&& after.id == before.id
    &&& after.title == before.title
    &&& after.description == before.description
    &&& after.reference_path == before.reference_path
    &&& after.duration_seconds == before.duration_seconds
    &&& after.preview_error == before.preview_error
    &&& after.workflow_status == before.workflow_status
    &&& after.workflow_id == selection
    &&& after.workflow_error is None
    &&& settings_of(&after.video_settings) == match np {
        Some(i) => settings_of(&ws[i].video_defaults),
        None => None,
    }
    &&& after.output_kind == match np {
        Some(i) => ws[i].output_kind,
        None => StoryboardWorkflowOutputKind::Image,
    }
    &&& after.workflow_inputs@ == moved_inputs(ws, np, op, before.workflow_inputs@)
    &&& after.workflow_input_errors@ == Map::<Seq<char>, Seq<char>>::empty()
}

/// The index of the first workflow with an id.
fn find_first_workflow(ws: &Vec<StoryboardWorkflowPreset>, id: u128) -> (r: Option<usize>)
    ensures
        match r {
            Some(i) => first_workflow(ws@, id) == Some(i as int) && i < ws@.len(),
            None => first_workflow(ws@, id) is None,
        },
{
    let mut i: usize = 0;
    while i < ws.len()
        invariant
            i <= ws@.len(),
            first_workflow(ws@.subrange(0, i as int), id) is None,
        decreases ws@.len() - i,
    {
        assert(ws@.subrange(0, i + 1).drop_last() =~= ws@.subrange(0, i as int));
        if ws[i].id == id {
            proof {
                lemma_first_workflow_prefix(ws@, id, i + 1);
            }
            return Some(i);
        }
        i = i + 1;
    }
    assert(ws@.subrange(0, ws@.len() as int) =~= ws@);
    None
}

/// The first workflow with an optional id.
fn find_first_at(ws: &Vec<StoryboardWorkflowPreset>, wid: Option<u128>) -> (r: Option<usize>)
    ensures
        match r {
            Some(i) => first_at(ws@, wid) == Some(i as int) && i < ws@.len(),
            None => first_at(ws@, wid) is None,
        },
{
    match wid {
        Some(w) => find_first_workflow(ws, w),
        None => None,
    }
}

/// Chooses a card's workflow: choosing the workflow
/// the card has changes nothing; choosing another gives the card that
/// workflow (see `is_chosen`). The result is (changed, the card's input
/// previews are to be refreshed).
pub fn storyboard_select_card_workflow(card: &mut StoryboardCard, workflows: &Vec<StoryboardWorkflowPreset>, selection: Option<u128>) -> (r: (bool, bool))
    ensures
        selection == old(card).workflow_id ==> *final(card) == *old(card) && r == (false, false),
        selection != old(card).workflow_id ==> is_chosen(*final(card), *old(card), workflows@, selection)
            && r == (true, first_at(workflows@, selection) is Some),
{
    if card.workflow_id == selection {
        return (false, false);
    }
    let ghost before = *card;
    let previous = find_first_at(workflows, card.workflow_id);
    card.workflow_id = selection;
    card.workflow_error = None;
    card.workflow_input_errors.clear();
    let next = find_first_at(workflows, selection);
    card.video_settings = match next {
        Some(i) => clone_settings(&workflows[i].video_defaults),
        None => None,
    };
    card.output_kind = match next {
        Some(i) => workflows[i].output_kind,
        None => StoryboardWorkflowOutputKind::Image,
    };
    match next {
        Some(i) => {
            let prev_preset = match previous {
                Some(j) => Some(&workflows[j]),
                None => None,
            };
            assert(preset_specs(prev_preset) == specs_at(workflows@, first_at(workflows@, before.workflow_id)));
            assert(old_values_of(prev_preset, card.workflow_inputs@) == values_at(
                workflows@,
                first_at(workflows@, before.workflow_id),
                card.workflow_inputs@,
            ));
            let _ = sync_storyboard_inputs_with_transfer(card, &workflows[i], prev_preset);
        },
        None => {
            let _ = sync_storyboard_inputs(card, None);
        },
    }
    (true, next.is_some())
}

/// Re-syncs a card whose workflow stays: with a
/// workflow (the first with the card's id) the inputs are moved from it to
/// itself; without one they are cleared. Other fields stay and the input
/// errors are cleared. The result says whether the input previews are to be
/// refreshed.
pub fn storyboard_resync_card_inputs(card: &mut StoryboardCard, workflows: &Vec<StoryboardWorkflowPreset>) -> (r: bool)
    ensures
        same_but_inputs(*final(card), *old(card)),
        final(card).workflow_input_errors@ == Map::<Seq<char>, Seq<char>>::empty(),
        ({
            let at = first_at(workflows@, old(card).workflow_id);
            let old_in = old(card).workflow_inputs@;
            &&& final(card).workflow_inputs@ == moved_inputs(workflows@, at, at, old_in)
            &&& r == match at {
                Some(i) => {
                    let specs = view_specs(workflows@[i].input_specs@);
                    !inputs_eq(synced_inputs(specs, old_in), old_in)
                        || transfers(specs, specs, values_at(workflows@, at, old_in)) != Map::<Seq<char>, InputValue>::empty()
                },
                None => old_in != Map::<Seq<char>, InputValue>::empty()
                    || old(card).workflow_input_errors@ != Map::<Seq<char>, Seq<char>>::empty(),
            }
        }),
{
    let at = find_first_at(workflows, card.workflow_id);
    match at {
        Some(i) => {
            let p = &workflows[i];
            assert(preset_specs(Some(p)) == specs_at(workflows@, first_at(workflows@, card.workflow_id)));
            assert(old_values_of(Some(p), card.workflow_inputs@) == values_at(
                workflows@,
                first_at(workflows@, card.workflow_id),
                card.workflow_inputs@,
            ));
            sync_storyboard_inputs_with_transfer(card, p, Some(p))
        },
        None => sync_storyboard_inputs(card, None),
    }
}

/// Settles a card's video settings: a card with a workflow and
/// no video settings takes the first such workflow's defaults; a card
/// without a workflow has no video settings.
pub fn storyboard_settle_card_video_settings(card: &mut StoryboardCard, workflows: &Vec<StoryboardWorkflowPreset>)
    ensures
        final(card).id == old(card).id,
        final(card).title == old(card).title,
        final(card).description == old(card).description,
        final(card).reference_path == old(card).reference_path,
        final(card).duration_seconds == old(card).duration_seconds,
        final(card).preview_error == old(card).preview_error,
        final(card).workflow_id == old(card).workflow_id,
        final(card).workflow_error == old(card).workflow_error,
        final(card).workflow_status == old(card).workflow_status,
        final(card).output_kind == old(card).output_kind,
        final(card).workflow_inputs == old(card).workflow_inputs,
        final(card).workflow_input_errors == old(card).workflow_input_errors,
        settings_of(&final(card).video_settings) == match old(card).workflow_id {
            Some(w) => if old(card).video_settings is Some {
                settings_of(&old(card).video_settings)
            } else {
                match first_workflow(workflows@, w) {
                    Some(i) => settings_of(&workflows@[i].video_defaults),
                    None => None,
                }
            },
            None => None,
        },
{
    match card.workflow_id {
        Some(w) => {
            if card.video_settings.is_none() {
                card.video_settings = match find_first_workflow(workflows, w) {
                    Some(i) => clone_settings(&workflows[i].video_defaults),
                    None => None,
                };
            }
        },
        None => {
            card.video_settings = None;
        },
    }
}

/// A section of the workflow inputs: a node's inputs under its group label.
#[derive(Debug)]
pub struct InputGroup {
    pub node_id: String,
    pub label: String,
    pub members: Vec<usize>,
}

/// Where the card editor shows each workflow input, by position in
/// the spec list: the Runway prompts and ratios first, then the inline Gemini
/// inputs, then one section per node.
#[derive(Debug)]
pub struct StoryboardInputLayout {
    pub runway_inline: Vec<usize>,
    pub inline: Vec<usize>,
    pub groups: Vec<InputGroup>,
}

/// The view of positions.
pub open spec fn positions(v: Seq<usize>) -> Seq<int> {
    v.map_values(|u: usize| u as int)
}

/// The view of sections: node id, label and positions.
pub open spec fn groups_view(g: Seq<InputGroup>) -> Seq<(Seq<char>, Seq<char>, Seq<int>)> {
    g.map_values(|x: InputGroup| (x.node_id@, x.label@, positions(x.members@)))
}

/// The positions of the Runway prompts and ratios among the first `n` specs.
pub open spec fn runway_inline_positions(specs: Seq<InputSpecView>, n: int) -> Seq<int>
    decreases n,
{
    if n <= 0 {
        Seq::empty()
    } else if is_runway_text(specs[n - 1]) {
        runway_inline_positions(specs, n - 1).push(n - 1)
    } else {
        runway_inline_positions(specs, n - 1)
    }
}

/// The map keys of the Runway prompts and ratios.
pub open spec fn runway_inline_keys(specs: Seq<InputSpecView>) -> Set<Seq<char>> {
    Set::new(|k: Seq<char>| exists|i: int| 0 <= i < specs.len() && is_runway_text(#[trigger] specs[i]) && specs[i].map_key == k)
}

/// Inputs not shown in the form: those already shown inline for Runway, a
/// Runway node's duration and seed, and a `LoadImage` image.
pub open spec fn skipped_input(s: InputSpecView, inline_keys: Set<Seq<char>>) -> bool {
    ||| inline_keys.contains(s.map_key)
    ||| (is_runway_input(s) && (lower(s.input_key) == "duration"@ || lower(s.input_key) == "seed"@))
    ||| (eq_ignore_case(s.node_class, "LoadImage"@) && eq_ignore_case(s.input_key, "image"@))
}

/// A Gemini prompt or aspect ratio, shown above the sections.
pub open spec fn inline_input(s: InputSpecView) -> bool {
    is_gemini_input(s) && (s.input_key == "prompt"@ || s.input_key == "aspect_ratio"@ || s.input_key == "aspect-ratio"@)
}

/// The first section of a node.
pub open spec fn section_of(g: Seq<(Seq<char>, Seq<char>, Seq<int>)>, node: Seq<char>) -> Option<int>
    decreases g.len(),
{
    if g.len() == 0 {
        None
    } else {
        match section_of(g.drop_last(), node) {
            Some(p) => Some(p),
            None => if g.last().0 == node {
                Some(g.len() - 1)
            } else {
                None
            },
        }
    }
}

/// The sections with the input at position `i` added: to its node's first
/// section, or in a new section at the end, under the input's group label.
pub open spec fn add_to_section(g: Seq<(Seq<char>, Seq<char>, Seq<int>)>, s: InputSpecView, i: int) -> Seq<(Seq<char>, Seq<char>, Seq<int>)> {
    match section_of(g, s.node_id) {
        Some(p) => g.update(p, (g[p].0, g[p].1, g[p].2.push(i))),
        None => g.push((s.node_id, s.group_label, seq![i])),
    }
}

/// The inline inputs and the sections of the first `n` specs.
pub open spec fn form_layout(specs: Seq<InputSpecView>, n: int, inline_keys: Set<Seq<char>>) -> (Seq<int>, Seq<(Seq<char>, Seq<char>, Seq<int>)>)
    decreases n,
{
    if n <= 0 {
        (Seq::empty(), Seq::empty())
    } else {
        let prev = form_layout(specs, n - 1, inline_keys);
        let s = specs[n - 1];
        if skipped_input(s, inline_keys) {
            prev
        } else if inline_input(s) {
            (prev.0.push(n - 1), prev.1)
        } else {
            (prev.0, add_to_section(prev.1, s, n - 1))
        }
    }
}

/// Whether some Runway prompt or ratio has the key.
fn is_runway_inline_key(specs: &Vec<StoryboardWorkflowInputSpec>, key: &str) -> (r: bool)
    ensures
        r == runway_inline_keys(view_specs(specs@)).contains(key@),
{
    let ghost sv = view_specs(specs@);
    let k = chars_of(key);
    let mut i: usize = 0;
    while i < specs.len()
        invariant
            i <= specs@.len(),
            sv == view_specs(specs@),
            sv.len() == specs@.len(),
            k@ == key@,
            forall|j: int| 0 <= j < i ==> !(is_runway_text(#[trigger] sv[j]) && sv[j].map_key == key@),
        decreases specs@.len() - i,
    {
        let spec = &specs[i];
        assert(sv[i as int] == spec@);
        if runway_text_exec(spec) && chars_eq(chars_of(spec.map_key.as_str()).as_slice(), k.as_slice()) {
            assert(is_runway_text(sv[i as int]) && sv[i as int].map_key == key@);
            return true;
        }
        i = i + 1;
    }
    false
}

/// Whether an input is a Runway prompt or ratio.
fn runway_text_exec(spec: &StoryboardWorkflowInputSpec) -> (r: bool)
    ensures
        r == is_runway_text(spec@),
{
    let class = chars_of(spec.node_class.as_str());
    let k = lower_vec(chars_of(spec.input_key.as_str()).as_slice());
    eq_ignore_case_lit(class.as_slice(), "RunwayImageToVideoNodeGen4") && (eq_lit(k.as_slice(), "prompt") || eq_lit(
        k.as_slice(),
        "ratio",
    ))
}

/// The first section of a node, in the sections built so far.
fn find_section(groups: &Vec<InputGroup>, node: &str) -> (r: Option<usize>)
    ensures
        match r {
            Some(p) => section_of(groups_view(groups@), node@) == Some(p as int) && p < groups@.len(),
            None => section_of(groups_view(groups@), node@) is None,
        },
{
    let ghost gv = groups_view(groups@);
    let n = chars_of(node);
    let mut i: usize = 0;
    while i < groups.len()
        invariant
            i <= groups@.len(),
            gv == groups_view(groups@),
            gv.len() == groups@.len(),
            n@ == node@,
            section_of(gv.subrange(0, i as int), node@) is None,
        decreases groups@.len() - i,
    {
        assert(gv.subrange(0, i + 1).drop_last() =~= gv.subrange(0, i as int));
        assert(gv[i as int].0 == groups@[i as int].node_id@);
        if chars_eq(chars_of(groups[i].node_id.as_str()).as_slice(), n.as_slice()) {
            proof {
                lemma_section_prefix(gv, node@, i + 1);
            }
            return Some(i);
        }
        i = i + 1;
    }
    assert(gv.subrange(0, gv.len() as int) =~= gv);
    None
}

proof fn lemma_section_prefix(g: Seq<(Seq<char>, Seq<char>, Seq<int>)>, node: Seq<char>, k: int)
    requires
        0 <= k <= g.len(),
        section_of(g.subrange(0, k), node) is Some,
    ensures
        section_of(g, node) == section_of(g.subrange(0, k), node),
    decreases g.len() - k,
{
    if k < g.len() {
        assert(g.subrange(0, k + 1).drop_last() =~= g.subrange(0, k));
        lemma_section_prefix(g, node, k + 1);
    } else {
        assert(g.subrange(0, k) =~= g);
    }
}

/// The layout of a card's workflow inputs in the editor: the
/// Runway prompts and ratios in order, then (of the inputs that are not
/// skipped, see `skipped_input`) the inline Gemini inputs in order and one
/// section per node in the order the nodes first appear; see `form_layout`.
pub fn storyboard_input_layout(specs: &Vec<StoryboardWorkflowInputSpec>) -> (r: StoryboardInputLayout)
    ensures
        positions(r.runway_inline@) == runway_inline_positions(view_specs(specs@), specs@.len() as int),
        (positions(r.inline@), groups_view(r.groups@)) == form_layout(
            view_specs(specs@),
            specs@.len() as int,
            runway_inline_keys(view_specs(specs@)),
        ),
{
    let ghost sv = view_specs(specs@);
    let ghost keys = runway_inline_keys(sv);
    let mut runway_inline: Vec<usize> = Vec::new();
    let mut inline: Vec<usize> = Vec::new();
    let mut groups: Vec<InputGroup> = Vec::new();
    let mut i: usize = 0;
    while i < specs.len()
        invariant
            i <= specs@.len(),
            sv == view_specs(specs@),
            sv.len() == specs@.len(),
            keys == runway_inline_keys(sv),
            positions(runway_inline@) == runway_inline_positions(sv, i as int),
            (positions(inline@), groups_view(groups@)) == form_layout(sv, i as int, keys),
        decreases specs@.len() - i,
    {
        let spec = &specs[i];
        assert(sv[i as int] == spec@);
        if runway_text_exec(spec) {
            runway_inline.push(i);
            assert(positions(runway_inline@) =~= runway_inline_positions(sv, i as int).push(i as int));
        } else {
            assert(positions(runway_inline@) =~= runway_inline_positions(sv, i + 1));
        }
        let class = chars_of(spec.node_class.as_str());
        let key = chars_of(spec.input_key.as_str());
        let k = lower_vec(key.as_slice());
        let skipped = is_runway_inline_key(specs, spec.map_key.as_str()) || (eq_ignore_case_lit(
            class.as_slice(),
            "RunwayImageToVideoNodeGen4",
        ) && (eq_lit(k.as_slice(), "duration") || eq_lit(k.as_slice(), "seed"))) || (eq_ignore_case_lit(
            class.as_slice(),
            "LoadImage",
        ) && eq_ignore_case_lit(key.as_slice(), "image"));
        let is_inline = eq_ignore_case_lit(class.as_slice(), "GeminiImageNode") && (eq_lit(key.as_slice(), "prompt")
            || eq_lit(key.as_slice(), "aspect_ratio") || eq_lit(key.as_slice(), "aspect-ratio"));
        let ghost gv_b = groups_view(groups@);
        if skipped {
        } else if is_inline {
            let ghost before = positions(inline@);
            inline.push(i);
            assert(positions(inline@) =~= before.push(i as int));
        } else {
            match find_section(&groups, spec.node_id.as_str()) {
                Some(p) => {
                    let mut g = groups.remove(p);
                    g.members.push(i);
                    let ghost gx = g;
                    groups.insert(p, g);
                    proof {
                        assert(positions(gx.members@) =~= gv_b[p as int].2.push(i as int));
                        assert(groups_view(groups@) =~= gv_b.update(p as int, (gv_b[p as int].0, gv_b[p as int].1, gv_b[p as int].2.push(i as int))));
                    }
                },
                None => {
                    let mut members: Vec<usize> = Vec::new();
                    members.push(i);
                    let g = InputGroup { node_id: spec.node_id.clone(), label: spec.group_label.clone(), members };
                    assert(positions(g.members@) =~= seq![i as int]);
                    groups.push(g);
                    assert(groups_view(groups@) =~= gv_b.push((spec@.node_id, spec@.group_label, seq![i as int])));
                },
            }
        }
        i = i + 1;
    }
    StoryboardInputLayout { runway_inline, inline, groups }
}

/// A file input listed under the card's preview: not a Runway prompt or
/// ratio, of the file kind, and not a `LoadImage` image.
pub open spec fn reference_input(s: InputSpecView) -> bool {
    &&& !is_runway_text(s)
    &&& s.kind == StoryboardWorkflowInputKind::File
    &&& !(eq_ignore_case(s.node_class, "LoadImage"@) && eq_ignore_case(s.input_key, "image"@))
}

/// The heading of a listed file input: its label, after its group label
/// when that is neither empty nor the label.
pub open spec fn reference_heading(s: InputSpecView) -> Seq<char> {
    if s.group_label.len() == 0 || s.group_label == s.label {
        s.label
    } else {
        s.group_label + " · "@ + s.label
    }
}

/// The path shown for a listed file input: its trimmed file value, or
/// nothing.
pub open spec fn reference_path_shown(inputs: Map<Seq<char>, InputValue>, key: Seq<char>) -> Seq<char> {
    if inputs.dom().contains(key) {
        match inputs[key] {
            InputValue::File(p) => trim(p),
            _ => Seq::empty(),
        }
    } else {
        Seq::empty()
    }
}

/// The listed file inputs among the first `n` specs: position, heading and
/// shown path.
pub open spec fn reference_entries(specs: Seq<InputSpecView>, n: int, inputs: Map<Seq<char>, InputValue>) -> Seq<(int, Seq<char>, Seq<char>)>
    decreases n,
{
    if n <= 0 {
        Seq::empty()
    } else if reference_input(specs[n - 1]) {
        reference_entries(specs, n - 1, inputs).push(
            (n - 1, reference_heading(specs[n - 1]), reference_path_shown(inputs, specs[n - 1].map_key)),
        )
    } else {
        reference_entries(specs, n - 1, inputs)
    }
}

/// The view of listed entries.
pub open spec fn entries_view(v: Seq<(usize, String, String)>) -> Seq<(int, Seq<char>, Seq<char>)> {
    v.map_values(|e: (usize, String, String)| (e.0 as int, e.1@, e.2@))
}

/// The file inputs listed under a card's preview, with headings and the
/// paths shown; see
/// `reference_entries`.
pub fn workflow_reference_entries(card: &StoryboardCard, specs: &Vec<StoryboardWorkflowInputSpec>) -> (r: Vec<(usize, String, String)>)
    ensures
        entries_view(r@) == reference_entries(view_specs(specs@), specs@.len() as int, card.workflow_inputs@),
{
    let ghost sv = view_specs(specs@);
    let mut out: Vec<(usize, String, String)> = Vec::new();
    let mut i: usize = 0;
    while i < specs.len()
        invariant
            i <= specs@.len(),
            sv == view_specs(specs@),
            sv.len() == specs@.len(),
            entries_view(out@) == reference_entries(sv, i as int, card.workflow_inputs@),
        decreases specs@.len() - i,
    {
        let spec = &specs[i];
        assert(sv[i as int] == spec@);
        let class = chars_of(spec.node_class.as_str());
        let key = chars_of(spec.input_key.as_str());
        let is_file = match spec.kind {
            StoryboardWorkflowInputKind::File => true,
            _ => false,
        };
        let listed = !runway_text_exec(spec) && is_file && !(eq_ignore_case_lit(class.as_slice(), "LoadImage")
            && eq_ignore_case_lit(key.as_slice(), "image"));
        if listed {
            let group = chars_of(spec.group_label.as_str());
            let heading = if group.len() == 0 || chars_eq(
                group.as_slice(),
                chars_of(spec.label.as_str()).as_slice(),
            ) {
                spec.label.clone()
            } else {
                crate::text::cat3(spec.group_label.as_str(), " · ", spec.label.as_str())
            };
            let shown = match card.workflow_inputs.get(spec.map_key.as_str()) {
                Some(StoryboardInputValue::File(p)) => string_of(trim_vec(chars_of(p.as_str()).as_slice()).as_slice()),
                _ => String::new(),
            };
            let ghost before = entries_view(out@);
            out.push((i, heading, shown));
            assert(entries_view(out@) =~= before.push((i as int, reference_heading(spec@), reference_path_shown(card.workflow_inputs@, spec@.map_key))));
        }
        i = i + 1;
    }
    out
}

} // verus!
