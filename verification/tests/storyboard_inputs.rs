use gausian_collab::input_spec::infer_input_semantic;
use gausian_collab::json::{JsonNumber, JsonValue};
use gausian_collab::keyed_map::KeyedMap;
use gausian_collab::storyboard::{
    sync_storyboard_inputs, sync_storyboard_inputs_with_transfer, StoryboardCard,
    StoryboardWorkflowOutputKind, StoryboardWorkflowPreset,
};
use gausian_collab::workflow_input::{
    StoryboardInputValue, StoryboardWorkflowInputKind, WorkflowInputSemantic,
};
use gausian_collab::workflow_preset::{collect_input_specs, StoryboardWorkflowInputSpec};

fn s(text: &str) -> JsonValue {
    JsonValue::String(text.to_string())
}

fn obj(entries: Vec<(&str, JsonValue)>) -> JsonValue {
    JsonValue::Object(entries.into_iter().map(|(k, v)| (k.to_string(), v)).collect())
}

fn make_text_spec(map_key: &str, label: &str, semantic: WorkflowInputSemantic) -> StoryboardWorkflowInputSpec {
    StoryboardWorkflowInputSpec {
        map_key: map_key.to_string(),
        node_id: map_key.to_string(),
        input_key: map_key.to_string(),
        group_label: "Group".to_string(),
        label: label.to_string(),
        kind: StoryboardWorkflowInputKind::Text { multiline: false },
        default_value: Some(StoryboardInputValue::Text(String::new())),
        node_class: "TestNode".to_string(),
        semantic,
    }
}

fn make_preset(id: u128, specs: Vec<StoryboardWorkflowInputSpec>) -> StoryboardWorkflowPreset {
    StoryboardWorkflowPreset {
        id,
        name: "preset".to_string(),
        path: String::new(),
        builtin: false,
        video_defaults: None,
        output_kind: StoryboardWorkflowOutputKind::Image,
        input_specs: specs,
    }
}

fn blank_card() -> StoryboardCard {
    StoryboardCard {
        id: 7,
        title: "Test".to_string(),
        description: String::new(),
        reference_path: String::new(),
        duration_seconds: 5.0f32.to_bits(),
        preview_error: None,
        workflow_id: None,
        workflow_error: None,
        workflow_status: None,
        video_settings: None,
        output_kind: StoryboardWorkflowOutputKind::Image,
        workflow_inputs: KeyedMap::new(),
        workflow_input_errors: KeyedMap::new(),
    }
}

fn text(v: &str) -> StoryboardInputValue {
    StoryboardInputValue::Text(v.to_string())
}

#[test]
fn collect_input_specs_filters_gemini_extras() {
    let node = obj(vec![
        ("_meta", obj(vec![("title", s("Google Gemini Image"))])),
        ("class_type", s("GeminiImageNode")),
        (
            "inputs",
            obj(vec![
                ("$$node-chat-history", s("")),
                ("aspect_ratio", s("16:9")),
                ("model", s("gemini-2.5-flash-image-preview")),
                ("prompt", s("A test prompt")),
                ("seed", JsonValue::Number(JsonNumber::PosInt(970489684225986))),
            ]),
        ),
    ]);
    let prompt_map = vec![("5".to_string(), node)];
    let specs = collect_input_specs(prompt_map);
    assert_eq!(specs.len(), 2, "expected only prompt and aspect ratio specs");
    let keys: Vec<_> = specs.iter().map(|spec| spec.input_key.as_str()).collect();
    assert!(keys.contains(&"prompt"));
    assert!(keys.contains(&"aspect_ratio"));
    assert!(specs.iter().all(|spec| !spec.input_key.starts_with("$$")));
    assert!(specs.iter().all(|spec| spec.node_class.eq_ignore_ascii_case("GeminiImageNode")));
}

#[test]
fn infer_input_semantic_detects_prompt_variants() {
    assert_eq!(
        infer_input_semantic("positive_prompt", "Positive Prompt", "TestNode"),
        WorkflowInputSemantic::PromptPositive
    );
    assert_eq!(
        infer_input_semantic("negativePrompt", "Negative Prompt", "TestNode"),
        WorkflowInputSemantic::PromptNegative
    );
    assert_eq!(
        infer_input_semantic("prompt", "Story Prompt", "TestNode"),
        WorkflowInputSemantic::PromptSingle
    );
    assert_eq!(
        infer_input_semantic("aspect_ratio", "Aspect Ratio", "GeminiImageNode"),
        WorkflowInputSemantic::AspectRatio
    );
    assert_eq!(
        infer_input_semantic("ratio", "Ratio", "RunwayImageToVideoNodeGen4"),
        WorkflowInputSemantic::Ratio
    );
}

#[test]
fn sync_storyboard_inputs_transfers_prompt_and_ratio_fields() {
    let old_preset = make_preset(
        1,
        vec![
            make_text_spec("old:positive", "Positive Prompt", WorkflowInputSemantic::PromptPositive),
            make_text_spec("old:negative", "Negative Prompt", WorkflowInputSemantic::PromptNegative),
            make_text_spec("old:ratio", "Ratio", WorkflowInputSemantic::Ratio),
        ],
    );
    let new_preset = make_preset(
        2,
        vec![
            make_text_spec("new:prompt", "Prompt", WorkflowInputSemantic::PromptSingle),
            make_text_spec("new:aspect", "Aspect Ratio", WorkflowInputSemantic::AspectRatio),
        ],
    );
    let mut card = blank_card();
    card.workflow_inputs.insert("old:positive".to_string(), text("Bright scene"));
    card.workflow_inputs.insert("old:negative".to_string(), text("Noise"));
    card.workflow_inputs.insert("old:ratio".to_string(), text("16:9"));

    sync_storyboard_inputs_with_transfer(&mut card, &new_preset, Some(&old_preset));

    assert_eq!(card.workflow_inputs.get("new:prompt"), Some(&text("Bright scene")));
    assert_eq!(card.workflow_inputs.get("new:aspect"), Some(&text("16:9")));
}

#[test]
fn sync_storyboard_inputs_transfers_single_prompt_to_dual() {
    let single_prompt = make_preset(
        1,
        vec![make_text_spec("single:prompt", "Prompt", WorkflowInputSemantic::PromptSingle)],
    );
    let dual_prompt = make_preset(
        2,
        vec![
            make_text_spec("dual:positive", "Positive Prompt", WorkflowInputSemantic::PromptPositive),
            make_text_spec("dual:negative", "Negative Prompt", WorkflowInputSemantic::PromptNegative),
        ],
    );
    let mut card = blank_card();
    card.workflow_inputs.insert("single:prompt".to_string(), text("Moody city street"));

    sync_storyboard_inputs_with_transfer(&mut card, &dual_prompt, Some(&single_prompt));

    assert_eq!(card.workflow_inputs.get("dual:positive"), Some(&text("Moody city street")));
    // The negative prompt falls back to its default, the empty text.
    assert_eq!(card.workflow_inputs.get("dual:negative"), Some(&text("")));
}

#[test]
fn sync_storyboard_inputs_preserves_values_when_refreshing_same_preset() {
    let preset = make_preset(
        1,
        vec![make_text_spec("prompt:main", "Prompt", WorkflowInputSemantic::PromptSingle)],
    );
    let mut card = blank_card();
    card.workflow_inputs.insert("prompt:main".to_string(), text("Keep me"));

    sync_storyboard_inputs_with_transfer(&mut card, &preset, Some(&preset));

    assert_eq!(card.workflow_inputs.get("prompt:main"), Some(&text("Keep me")));
}

#[test]
fn sync_without_workflow_clears_inputs() {
    let mut card = blank_card();
    card.workflow_inputs.insert("a:b".to_string(), text("x"));
    card.workflow_input_errors.insert("a:b".to_string(), "bad".to_string());
    let changed = sync_storyboard_inputs(&mut card, None);
    assert!(changed);
    assert!(card.workflow_inputs.is_empty());
    assert!(card.workflow_input_errors.is_empty());
    assert!(!sync_storyboard_inputs(&mut card, None));
}

#[test]
fn second_sync_reports_no_change() {
    let preset = make_preset(
        1,
        vec![
            make_text_spec("a", "Positive", WorkflowInputSemantic::PromptPositive),
            make_text_spec("b", "Negative", WorkflowInputSemantic::PromptNegative),
        ],
    );
    let mut card = blank_card();
    card.workflow_inputs.insert("stale".to_string(), text("x"));
    card.workflow_inputs.insert("a".to_string(), StoryboardInputValue::Integer(3));
    assert!(sync_storyboard_inputs(&mut card, Some(&preset)));
    let inputs_after_first: Vec<String> = {
        let mut keys: Vec<String> = vec!["a".to_string(), "b".to_string()];
        keys.retain(|k| card.workflow_inputs.contains_key(k));
        keys
    };
    assert_eq!(inputs_after_first.len(), 2);
    assert!(!sync_storyboard_inputs(&mut card, Some(&preset)));
    assert_eq!(card.workflow_inputs.len(), 2);
    assert!(card.workflow_input_errors.is_empty());
    assert!(!sync_storyboard_inputs(&mut card, Some(&preset)));
}
