use gausian_collab::card_editor::{
    gemini_aspect_ratio_options, ratio_choice_label, runway_ratio_options, storyboard_edit_structured_input,
    storyboard_input_label, storyboard_input_layout, storyboard_prepare_input, storyboard_resync_card_inputs,
    storyboard_select_card_workflow, storyboard_settle_card_video_settings, storyboard_use_reference_for_input,
    sync_runway_managed_inputs, workflow_reference_entries,
};
use gausian_collab::json::{JsonNumber, JsonValue};
use gausian_collab::keyed_map::KeyedMap;
use gausian_collab::storyboard::{
    StoryboardCard, StoryboardVideoSettings, StoryboardWorkflowOutputKind, StoryboardWorkflowPreset,
};
use gausian_collab::workflow_input::{StoryboardInputValue, StoryboardWorkflowInputKind, WorkflowInputSemantic};
use gausian_collab::workflow_preset::StoryboardWorkflowInputSpec;

fn spec(node: &str, input_key: &str, label: &str, class: &str, kind: StoryboardWorkflowInputKind) -> StoryboardWorkflowInputSpec {
    StoryboardWorkflowInputSpec {
        map_key: format!("{}:{}", node, input_key),
        node_id: node.to_string(),
        input_key: input_key.to_string(),
        group_label: format!("Node {}", node),
        label: label.to_string(),
        kind,
        default_value: None,
        node_class: class.to_string(),
        semantic: WorkflowInputSemantic::Other,
    }
}

fn text() -> StoryboardWorkflowInputKind {
    StoryboardWorkflowInputKind::Text { multiline: false }
}

fn card(reference: &str) -> StoryboardCard {
    StoryboardCard {
        id: 7,
        title: "Shot".to_string(),
        description: String::new(),
        reference_path: reference.to_string(),
        duration_seconds: 4.0f32.to_bits(),
        preview_error: None,
        workflow_id: None,
        workflow_error: Some("old error".to_string()),
        workflow_status: None,
        video_settings: None,
        output_kind: StoryboardWorkflowOutputKind::Video,
        workflow_inputs: KeyedMap::new(),
        workflow_input_errors: KeyedMap::new(),
    }
}

fn preset(id: u128, kind: StoryboardWorkflowOutputKind, specs: Vec<StoryboardWorkflowInputSpec>) -> StoryboardWorkflowPreset {
    StoryboardWorkflowPreset {
        id,
        name: format!("Flow {}", id),
        path: String::new(),
        builtin: false,
        video_defaults: Some(StoryboardVideoSettings {
            filename_prefix: format!("flow-{}", id),
            format: "mp4".to_string(),
            codec: "h264".to_string(),
        }),
        output_kind: kind,
        input_specs: specs,
    }
}

fn value(c: &StoryboardCard, key: &str) -> Option<StoryboardInputValue> {
    c.workflow_inputs.get(key).map(|v| v.deep_clone())
}

#[test]
fn input_labels() {
    assert_eq!(storyboard_input_label(&spec("1", "Prompt", "Text", "geminiimagenode", text())), "prompt");
    assert_eq!(storyboard_input_label(&spec("1", "aspect-ratio", "AR", "GeminiImageNode", text())), "Aspect Ratio");
    assert_eq!(storyboard_input_label(&spec("2", "prompt", "Text", "RunwayImageToVideoNodeGen4", text())), "Prompt");
    assert_eq!(storyboard_input_label(&spec("2", "RATIO", "R", "RunwayImageToVideoNodeGen4", text())), "Ratio");
    assert_eq!(storyboard_input_label(&spec("3", "seed", "Seed", "KSampler", text())), "Seed");
}

#[test]
fn ratio_labels() {
    let gemini = gemini_aspect_ratio_options();
    assert_eq!(gemini.len(), 10);
    assert_eq!(ratio_choice_label(&gemini, "16:9"), "16 : 9 (1344 x 768)");
    assert_eq!(ratio_choice_label(&gemini, "7:5"), "7:5");
    let runway = runway_ratio_options();
    assert_eq!(runway.len(), 6);
    assert_eq!(ratio_choice_label(&runway, "960:960"), "960 : 960");
}

#[test]
fn shown_inputs_get_values_of_their_kind() {
    let mut c = card("");
    let mut steps = spec("3", "steps", "Steps", "KSampler", StoryboardWorkflowInputKind::Integer);
    steps.default_value = Some(StoryboardInputValue::Integer(20));
    c.workflow_input_errors.insert("3:steps".to_string(), "bad".to_string());
    storyboard_prepare_input(&mut c, &steps);
    assert_eq!(value(&c, "3:steps"), Some(StoryboardInputValue::Integer(20)));
    assert!(c.workflow_input_errors.contains_key("3:steps"));
    c.workflow_inputs.insert("3:steps".to_string(), StoryboardInputValue::Text("x".to_string()));
    storyboard_prepare_input(&mut c, &steps);
    assert_eq!(value(&c, "3:steps"), Some(StoryboardInputValue::Integer(0)));

    let mut prompt = spec("2", "prompt", "Prompt", "RunwayImageToVideoNodeGen4", StoryboardWorkflowInputKind::Integer);
    prompt.default_value = Some(StoryboardInputValue::Text("a dog".to_string()));
    c.workflow_inputs.insert("2:prompt".to_string(), StoryboardInputValue::Integer(4));
    c.workflow_input_errors.insert("2:prompt".to_string(), "bad".to_string());
    storyboard_prepare_input(&mut c, &prompt);
    assert_eq!(value(&c, "2:prompt"), Some(StoryboardInputValue::Text("a dog".to_string())));
    assert!(!c.workflow_input_errors.contains_key("2:prompt"));

    let nothing = spec("4", "none", "None", "Node", StoryboardWorkflowInputKind::Null);
    storyboard_prepare_input(&mut c, &nothing);
    assert_eq!(value(&c, "4:none"), Some(StoryboardInputValue::Null));
    assert_eq!(c.title, "Shot");
}

#[test]
fn array_and_object_edits() {
    let mut c = card("");
    let list = spec("5", "items", "Items", "Node", StoryboardWorkflowInputKind::Array);
    assert!(storyboard_edit_structured_input(&mut c, &list, "[1, \"a\"]"));
    assert_eq!(
        value(&c, "5:items"),
        Some(StoryboardInputValue::Array(vec![
            JsonValue::Number(JsonNumber::PosInt(1)),
            JsonValue::String("a".to_string()),
        ]))
    );
    assert!(!storyboard_edit_structured_input(&mut c, &list, "{\"a\": 1}"));
    assert_eq!(c.workflow_input_errors.get("5:items").cloned(), Some("Expected JSON array value.".to_string()));
    assert!(!storyboard_edit_structured_input(&mut c, &list, "[1,"));
    let err = c.workflow_input_errors.get("5:items").cloned().unwrap();
    assert!(err.starts_with("Invalid array JSON: "));
    assert!(err.len() > "Invalid array JSON: ".len());
    assert_eq!(value(&c, "5:items").map(|v| matches!(v, StoryboardInputValue::Array(ref a) if a.len() == 2)), Some(true));

    let obj = spec("6", "opts", "Options", "Node", StoryboardWorkflowInputKind::Object);
    assert!(!storyboard_edit_structured_input(&mut c, &obj, "[]"));
    assert_eq!(c.workflow_input_errors.get("6:opts").cloned(), Some("Expected JSON object value.".to_string()));
    assert!(storyboard_edit_structured_input(&mut c, &obj, "{\"k\": true}"));
    assert!(!c.workflow_input_errors.contains_key("6:opts"));
}

#[test]
fn reference_fills_a_file_input() {
    let file = spec("7", "image", "Image", "LoadImageMask", StoryboardWorkflowInputKind::File);
    let mut c = card("  /media/shot.png ");
    c.workflow_inputs.insert("7:image".to_string(), StoryboardInputValue::File(String::new()));
    assert_eq!(storyboard_use_reference_for_input(&mut c, &file), (true, true));
    assert_eq!(value(&c, "7:image"), Some(StoryboardInputValue::File("/media/shot.png".to_string())));
    assert_eq!(storyboard_use_reference_for_input(&mut c, &file), (false, true));
    let mut blank = card("   ");
    blank.workflow_inputs.insert("7:image".to_string(), StoryboardInputValue::File("x".to_string()));
    assert_eq!(storyboard_use_reference_for_input(&mut blank, &file), (false, false));
    assert_eq!(value(&blank, "7:image"), Some(StoryboardInputValue::File("x".to_string())));
}

#[test]
fn managed_inputs_follow_the_card() {
    let specs = vec![
        spec("2", "Duration", "Duration", "RunwayImageToVideoNodeGen4", StoryboardWorkflowInputKind::Float),
        spec("2", "seed", "Seed", "RunwayImageToVideoNodeGen4", StoryboardWorkflowInputKind::Integer),
        spec("8", "IMAGE", "Image", "loadimage", StoryboardWorkflowInputKind::File),
        spec("9", "steps", "Steps", "KSampler", StoryboardWorkflowInputKind::Integer),
    ];
    let mut c = card(" ref.png ");
    c.workflow_input_errors.insert("2:Duration".to_string(), "bad".to_string());
    let duration = (f32::from_bits(c.duration_seconds) as f64).to_string();
    let changed = sync_runway_managed_inputs(&mut c, &specs, &duration);
    assert_eq!(changed, vec!["2:Duration".to_string(), "8:IMAGE".to_string()]);
    assert_eq!(value(&c, "2:Duration"), Some(StoryboardInputValue::Float("4".to_string())));
    assert_eq!(value(&c, "8:IMAGE"), Some(StoryboardInputValue::File("ref.png".to_string())));
    assert!(!c.workflow_input_errors.contains_key("2:Duration"));
    assert_eq!(value(&c, "2:seed"), None);
    c.workflow_inputs.insert("2:Duration".to_string(), StoryboardInputValue::Float("4.0".to_string()));
    let again = sync_runway_managed_inputs(&mut c, &specs, &duration);
    assert!(again.is_empty());
}

#[test]
fn inputs_are_laid_out_by_node() {
    let specs = vec![
        spec("1", "prompt", "Prompt", "RunwayImageToVideoNodeGen4", text()),
        spec("1", "duration", "Duration", "RunwayImageToVideoNodeGen4", StoryboardWorkflowInputKind::Float),
        spec("2", "steps", "Steps", "KSampler", StoryboardWorkflowInputKind::Integer),
        spec("3", "prompt", "Prompt", "GeminiImageNode", text()),
        spec("2", "cfg", "CFG", "KSampler", StoryboardWorkflowInputKind::Float),
        spec("4", "image", "Image", "LoadImage", StoryboardWorkflowInputKind::File),
        spec("5", "text", "Text", "CLIPTextEncode", text()),
        spec("3", "Prompt", "Other", "GeminiImageNode", text()),
    ];
    let layout = storyboard_input_layout(&specs);
    assert_eq!(layout.runway_inline, vec![0]);
    assert_eq!(layout.inline, vec![3]);
    assert_eq!(layout.groups.len(), 3);
    assert_eq!(layout.groups[0].node_id, "2");
    assert_eq!(layout.groups[0].label, "Node 2");
    assert_eq!(layout.groups[0].members, vec![2, 4]);
    assert_eq!(layout.groups[1].node_id, "5");
    assert_eq!(layout.groups[1].members, vec![6]);
    assert_eq!(layout.groups[2].node_id, "3");
    assert_eq!(layout.groups[2].members, vec![7]);
}

#[test]
fn workflow_references_are_listed() {
    let mut a = spec("1", "video", "Video", "LoadVideo", StoryboardWorkflowInputKind::File);
    a.group_label = "Video".to_string();
    let b = spec("2", "mask", "Mask", "LoadMask", StoryboardWorkflowInputKind::File);
    let specs = vec![
        a,
        spec("4", "image", "Image", "LoadImage", StoryboardWorkflowInputKind::File),
        b,
        spec("3", "steps", "Steps", "KSampler", StoryboardWorkflowInputKind::Integer),
    ];
    let mut c = card("");
    c.workflow_inputs.insert("2:mask".to_string(), StoryboardInputValue::File("  m.png ".to_string()));
    let entries = workflow_reference_entries(&c, &specs);
    assert_eq!(
        entries,
        vec![
            (0, "Video".to_string(), String::new()),
            (2, "Node 2 · Mask".to_string(), "m.png".to_string()),
        ]
    );
}

#[test]
fn choosing_a_workflow_moves_the_inputs() {
    let mut steps = spec("1", "steps", "Steps", "KSampler", StoryboardWorkflowInputKind::Integer);
    steps.default_value = Some(StoryboardInputValue::Integer(25));
    let workflows = vec![
        preset(1, StoryboardWorkflowOutputKind::Image, vec![steps]),
        preset(2, StoryboardWorkflowOutputKind::Video, vec![spec("9", "seed", "Seed", "Node", StoryboardWorkflowInputKind::Integer)]),
    ];
    let mut c = card("");
    c.workflow_input_errors.insert("x".to_string(), "bad".to_string());
    assert_eq!(storyboard_select_card_workflow(&mut c, &workflows, None), (false, false));
    assert_eq!(c.workflow_error, Some("old error".to_string()));
    assert_eq!(storyboard_select_card_workflow(&mut c, &workflows, Some(1)), (true, true));
    assert_eq!(c.workflow_id, Some(1));
    assert_eq!(c.workflow_error, None);
    assert_eq!(c.output_kind, StoryboardWorkflowOutputKind::Image);
    assert_eq!(c.video_settings.as_ref().map(|s| s.filename_prefix.clone()), Some("flow-1".to_string()));
    assert_eq!(value(&c, "1:steps"), Some(StoryboardInputValue::Integer(25)));
    assert!(c.workflow_input_errors.is_empty());
    assert_eq!(storyboard_select_card_workflow(&mut c, &workflows, Some(99)), (true, false));
    assert_eq!(c.output_kind, StoryboardWorkflowOutputKind::Image);
    assert!(c.video_settings.is_none());
    assert!(c.workflow_inputs.is_empty());
}

#[test]
fn staying_on_a_workflow_resyncs() {
    let mut steps = spec("1", "steps", "Steps", "KSampler", StoryboardWorkflowInputKind::Integer);
    steps.default_value = Some(StoryboardInputValue::Integer(25));
    let workflows = vec![preset(1, StoryboardWorkflowOutputKind::Image, vec![steps])];
    let mut c = card("");
    c.workflow_id = Some(1);
    c.workflow_inputs.insert("stale".to_string(), StoryboardInputValue::Boolean(true));
    assert!(storyboard_resync_card_inputs(&mut c, &workflows));
    assert_eq!(value(&c, "1:steps"), Some(StoryboardInputValue::Integer(25)));
    assert_eq!(value(&c, "stale"), None);
    let mut none = card("");
    assert!(!storyboard_resync_card_inputs(&mut none, &workflows));
    none.workflow_inputs.insert("a".to_string(), StoryboardInputValue::Null);
    assert!(storyboard_resync_card_inputs(&mut none, &workflows));
    assert!(none.workflow_inputs.is_empty());
}

#[test]
fn video_settings_follow_the_workflow() {
    let workflows = vec![preset(1, StoryboardWorkflowOutputKind::Video, vec![])];
    let mut c = card("");
    c.workflow_id = Some(1);
    storyboard_settle_card_video_settings(&mut c, &workflows);
    assert_eq!(c.video_settings.as_ref().map(|s| s.format.clone()), Some("mp4".to_string()));
    c.video_settings.as_mut().unwrap().format = "mov".to_string();
    storyboard_settle_card_video_settings(&mut c, &workflows);
    assert_eq!(c.video_settings.as_ref().map(|s| s.format.clone()), Some("mov".to_string()));
    c.workflow_id = None;
    storyboard_settle_card_video_settings(&mut c, &workflows);
    assert!(c.video_settings.is_none());
}
