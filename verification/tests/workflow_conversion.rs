use gausian_collab::comfy_prompt::{
    convert_workflow_to_prompt, is_ui_only_node, node_widget_inputs, prompt_payload,
    strip_ui_only_prompt_nodes, PromptPayload,
};
use gausian_collab::json::{JsonNumber, JsonValue};
use gausian_collab::phase_plan::compute_phase_plan_from_payload;
use gausian_collab::preset_scan::{input_specs_from_text, parse_output_kind, parse_video_defaults, prompt_map_from_str};
use gausian_collab::storyboard::StoryboardWorkflowOutputKind;

fn s(text: &str) -> JsonValue {
    JsonValue::String(text.to_string())
}

fn obj(entries: Vec<(&str, JsonValue)>) -> JsonValue {
    JsonValue::Object(entries.into_iter().map(|(k, v)| (k.to_string(), v)).collect())
}

fn parse(text: &str) -> serde_json::Value {
    serde_json::from_str(text).expect("valid JSON")
}

#[test]
fn ui_only_nodes_are_recognised() {
    assert!(is_ui_only_node(Some("  MarkdownNote "), None));
    assert!(is_ui_only_node(Some("Note"), None));
    assert!(!is_ui_only_node(Some("KSampler"), None));
    let meta = vec![("category".to_string(), s("UI"))];
    assert!(is_ui_only_node(Some("Anything"), Some(&meta)));
    let flag = vec![("ui_only".to_string(), JsonValue::Bool(true))];
    assert!(is_ui_only_node(None, Some(&flag)));
    let off = vec![("ui_only".to_string(), JsonValue::Bool(false))];
    assert!(!is_ui_only_node(None, Some(&off)));
}

#[test]
fn strip_removes_notes_and_keeps_order() {
    let mut prompt = vec![
        ("1".to_string(), obj(vec![("class_type", s("KSampler"))])),
        ("2".to_string(), obj(vec![("class_type", s("Note"))])),
        ("3".to_string(), obj(vec![("class_type", s("SaveImage"))])),
    ];
    strip_ui_only_prompt_nodes(&mut prompt);
    let keys: Vec<&str> = prompt.iter().map(|(k, _)| k.as_str()).collect();
    assert_eq!(keys, vec!["1", "3"]);
}

#[test]
fn widget_values_are_named_by_class() {
    let widgets = JsonValue::Array(vec![
        s("clip.safetensors"),
        JsonValue::Null,
        s("cpu"),
    ]);
    let pairs = node_widget_inputs("CLIPLoader", &widgets);
    assert_eq!(pairs, vec![("clip_name".to_string(), s("clip.safetensors")), ("device".to_string(), s("cpu"))]);
    let object = obj(vec![("a", JsonValue::Number(JsonNumber::PosInt(1))), ("b", JsonValue::Null), ("c", obj(vec![]))]);
    assert_eq!(node_widget_inputs("Whatever", &object), vec![("a".to_string(), JsonValue::Number(JsonNumber::PosInt(1)))]);
    assert!(node_widget_inputs("Unknown", &widgets).is_empty());
}

#[test]
fn graph_workflow_converts_to_prompt() {
    let workflow = r#"{
        "nodes": [
            {"id": 1, "type": "CheckpointLoader", "inputs": [], "widgets_values": ["model.ckpt"], "title": " Loader "},
            {"id": 2, "type": "KSampler", "inputs": [{"name": "model", "link": 5}, {"name": "cfg", "value": 7}],
             "widgets_values": [42, 20, 8, "euler", "normal", 1]},
            {"id": 3, "type": "MarkdownNote", "widgets_values": ["hello"]}
        ],
        "links": [[5, 1, 0, 2, 0, "MODEL"]]
    }"#;
    let text = convert_workflow_to_prompt(workflow).expect("converts");
    let v = parse(&text);
    let prompt = v.get("prompt").and_then(|p| p.as_object()).expect("prompt object");
    assert_eq!(prompt.len(), 2);
    assert!(prompt.get("3").is_none());
    let sampler = &prompt["2"];
    assert_eq!(sampler["class_type"], "KSampler");
    assert_eq!(sampler["inputs"]["model"][0], "1");
    assert_eq!(sampler["inputs"]["model"][1], 0);
    assert_eq!(sampler["inputs"]["model"].as_array().map(|a| a.len()), Some(2));
    assert_eq!(sampler["inputs"]["cfg"], 7);
    assert_eq!(sampler["inputs"]["seed"], 42);
    assert_eq!(sampler["inputs"]["steps"], 20);
    assert_eq!(prompt["1"]["title"], "Loader");
    assert_eq!(prompt["1"]["_meta"]["title"], "Loader");
    let client = v["client_id"].as_str().expect("client id");
    assert_eq!(client.len(), 36);
    assert!(uuid::Uuid::parse_str(client).is_ok());
}

#[test]
fn payload_with_prompt_is_kept_and_stripped() {
    let workflow = r#"{"prompt": {"1": {"class_type": "Note"}, "2": {"class_type": "SaveImage", "inputs": {}}}, "extra": 1}"#;
    let text = convert_workflow_to_prompt(workflow).expect("converts");
    let v = parse(&text);
    assert_eq!(v["extra"], 1);
    assert!(v["prompt"].get("1").is_none());
    assert!(v["prompt"].get("2").is_some());
    assert!(v.get("client_id").is_none());
}

#[test]
fn bare_prompt_is_wrapped() {
    let text = convert_workflow_to_prompt(r#"{"7": {"class_type": "SaveImage"}}"#).expect("converts");
    let v = parse(&text);
    assert_eq!(v["prompt"]["7"]["class_type"], "SaveImage");
    assert_eq!(v["client_id"].as_str().map(|c| c.len()), Some(36));
}

#[test]
fn conversion_errors_are_reported() {
    let err = convert_workflow_to_prompt("not json").unwrap_err();
    assert!(err.starts_with("Invalid JSON: "));
    assert_eq!(
        convert_workflow_to_prompt("[1, 2]").unwrap_err(),
        "Workflow JSON doesn't contain a 'prompt' or a 'nodes' array; please paste a ComfyUI API prompt (Copy API)"
    );
    assert_eq!(convert_workflow_to_prompt(r#"{"nodes": [{"type": "X"}]}"#).unwrap_err(), "Node missing 'id'");
    assert_eq!(convert_workflow_to_prompt(r#"{"nodes": [{"id": null, "type": "X"}]}"#).unwrap_err(), "Node id is empty");
    assert_eq!(
        convert_workflow_to_prompt(r#"{"nodes": [{"id": 4, "class_type": 3, "type": "X"}]}"#).unwrap_err(),
        "Node 4 missing class_type"
    );
}

#[test]
fn prompt_payload_distinguishes_shapes() {
    let doc = obj(vec![("prompt", obj(vec![]))]);
    assert!(matches!(prompt_payload(&doc), Ok(PromptPayload::Complete(_))));
    let bare = obj(vec![("1", obj(vec![("class_type", s("A"))]))]);
    assert!(matches!(prompt_payload(&bare), Ok(PromptPayload::NeedsClientId(_))));
}

#[test]
fn output_kind_is_read_from_names() {
    assert_eq!(parse_output_kind(r#"{"prompt": {"1": {"class_type": "SaveImage"}}}"#), StoryboardWorkflowOutputKind::Image);
    assert_eq!(parse_output_kind(r#"{"prompt": {"1": {"class_type": "VHS_VideoCombine"}}}"#), StoryboardWorkflowOutputKind::Video);
    assert_eq!(
        parse_output_kind(r#"{"prompt": {"1": {"class_type": "SaveImage"}, "2": {"class_type": "SaveVideo"}}}"#),
        StoryboardWorkflowOutputKind::ImageAndVideo
    );
    assert_eq!(parse_output_kind("garbage"), StoryboardWorkflowOutputKind::Image);
}

#[test]
fn video_defaults_from_prompt_and_graph() {
    let prompt = r#"{"prompt": {"9": {"class_type": "SaveVideo", "inputs": {"filename_prefix": "clips/a", "format": "mp4", "codec": 5}}}}"#;
    let v = parse_video_defaults(prompt).expect("settings");
    assert_eq!((v.filename_prefix.as_str(), v.format.as_str(), v.codec.as_str()), ("clips/a", "mp4", "5"));
    let graph = r#"{"nodes": [{"type": "SaveVideo", "widgets_values": ["out"]}]}"#;
    let g = parse_video_defaults(graph).expect("settings");
    assert_eq!((g.filename_prefix.as_str(), g.format.as_str(), g.codec.as_str()), ("out", "auto", "auto"));
    assert!(parse_video_defaults(r#"{"prompt": {}}"#).is_none());
}

#[test]
fn prompt_map_reads_or_converts() {
    let direct = prompt_map_from_str(r#"{"prompt": {"1": {"class_type": "A"}}}"#).expect("prompt");
    assert_eq!(direct.len(), 1);
    let converted = prompt_map_from_str(r#"{"nodes": [{"id": 3, "type": "B"}]}"#).expect("prompt");
    assert_eq!(converted[0].0, "3");
    assert!(prompt_map_from_str("{}").is_some());
    assert!(prompt_map_from_str("[]").is_none());
}

#[test]
fn phase_plan_finds_samplers_and_encoders() {
    let plan = compute_phase_plan_from_payload(
        r#"{"prompt": {"3": {"class_type": "KSampler"}, "1": {"class_type": "ModelSamplingSD3"}, "9": {"class_type": "VHS_VideoCombine"}, "4": {"class_type": "CLIPLoader"}}}"#,
    );
    assert_eq!(plan.sampling, vec!["1".to_string(), "3".to_string()]);
    assert_eq!(plan.encoding, vec!["9".to_string()]);
    let graph = compute_phase_plan_from_payload(r#"{"nodes": [{"id": 5, "class_type": "SaveVideo"}]}"#);
    assert_eq!(graph.encoding, vec!["5".to_string()]);
    assert!(compute_phase_plan_from_payload("oops").sampling.is_empty());
}

#[test]
fn input_specs_of_a_workflow_file() {
    let text = r#"{"3": {"class_type": "KSampler", "inputs": {"seed": 5, "model": ["1", 0]}}}"#;
    let specs = input_specs_from_text(text);
    assert!(specs.iter().any(|s| s.input_key == "seed" && s.node_id == "3"));
    assert!(!specs.iter().any(|s| s.input_key == "model"));
    assert!(input_specs_from_text("not json").is_empty());
}
