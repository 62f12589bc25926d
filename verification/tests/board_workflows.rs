use gausian_collab::board::Storyboard;
use gausian_collab::draft::{standard_prompt_defaults, ScreenplayDraft, ScreenplayShot};
use gausian_collab::draft_cards::{at_least_tenth, TENTH_SECOND_BITS};
use gausian_collab::input_refresh::{InputRefreshQueue, PendingInputRefresh};
use gausian_collab::input_display::{ensure_text_input_value, format_workflow_input_value};
use gausian_collab::json::{JsonNumber, JsonValue};
use gausian_collab::keyed_map::KeyedMap;
use gausian_collab::naming::slugify_workflow_name;
use gausian_collab::storyboard::{
    StoryboardCard, StoryboardVideoSettings, StoryboardWorkflowOutputKind, StoryboardWorkflowPreset,
};
use gausian_collab::workflow_input::{StoryboardInputValue, StoryboardWorkflowInputKind, WorkflowInputSemantic};
use gausian_collab::workflow_order::order_storyboard_workflows;
use gausian_collab::workflow_preset::StoryboardWorkflowInputSpec;

fn spec(map_key: &str, input_key: &str, label: &str, class: &str, kind: StoryboardWorkflowInputKind) -> StoryboardWorkflowInputSpec {
    StoryboardWorkflowInputSpec {
        map_key: map_key.to_string(),
        node_id: "1".to_string(),
        input_key: input_key.to_string(),
        group_label: "Group".to_string(),
        label: label.to_string(),
        kind,
        default_value: None,
        node_class: class.to_string(),
        semantic: WorkflowInputSemantic::Other,
    }
}

fn text_kind() -> StoryboardWorkflowInputKind {
    StoryboardWorkflowInputKind::Text { multiline: false }
}

fn preset(id: u128, name: &str, kind: StoryboardWorkflowOutputKind, specs: Vec<StoryboardWorkflowInputSpec>) -> StoryboardWorkflowPreset {
    StoryboardWorkflowPreset {
        id,
        name: name.to_string(),
        path: String::new(),
        builtin: false,
        video_defaults: Some(StoryboardVideoSettings {
            filename_prefix: format!("{}-prefix", name),
            format: "mp4".to_string(),
            codec: "h264".to_string(),
        }),
        output_kind: kind,
        input_specs: specs,
    }
}

fn shot(title: &str, seconds: f32) -> ScreenplayShot {
    ScreenplayShot {
        id: 1,
        title: title.to_string(),
        duration_bits: seconds.to_bits(),
        location: String::new(),
        time_of_day: String::new(),
        camera: String::new(),
        action: String::new(),
        visual_description: String::new(),
        prompt: String::new(),
        negative_prompt: String::new(),
        notes: String::new(),
        workflow_key: None,
        workflow_id: None,
        workflow_inputs: Vec::new(),
    }
}

fn draft(shots: Vec<ScreenplayShot>) -> ScreenplayDraft {
    ScreenplayDraft {
        title: "Draft".to_string(),
        genre: String::new(),
        logline: String::new(),
        visual_style: String::new(),
        style_tags: Vec::new(),
        duration_minutes_bits: None,
        defaults: standard_prompt_defaults(),
        characters: Vec::new(),
        shots,
        acts: Vec::new(),
    }
}

const IMAGE_ID: u128 = 0x1111_2222_0000_0000_0000_0000_0000_0001;
const VIDEO_ID: u128 = 0xabcd_ef01_0000_0000_0000_0000_0000_0002;

fn board() -> Storyboard {
    let image = preset(
        IMAGE_ID,
        "Still Image",
        StoryboardWorkflowOutputKind::Image,
        vec![
            spec("1:text", "text", "Positive Prompt", "CLIPTextEncode", text_kind()),
            spec("2:text", "text", "Negative Prompt", "CLIPTextEncode", text_kind()),
        ],
    );
    let video = preset(
        VIDEO_ID,
        "Video Flow",
        StoryboardWorkflowOutputKind::Video,
        vec![
            spec("3:steps", "steps", "Steps", "KSampler", StoryboardWorkflowInputKind::Integer),
            spec("4:prompt", "prompt", "Positive prompt text", "TextNode", text_kind()),
            spec("5:seed", "seed", "Seed", "RunwayImageToVideoNodeGen4", StoryboardWorkflowInputKind::Integer),
        ],
    );
    Storyboard { cards: vec![], selected: None, workflows: vec![image, video] }
}

#[test]
fn tenth_of_a_second_at_least() {
    assert_eq!(at_least_tenth(2.5f32.to_bits()), 2.5f32.to_bits());
    assert_eq!(at_least_tenth(0.0f32.to_bits()), 0.1f32.to_bits());
    assert_eq!(at_least_tenth((-3.0f32).to_bits()), 0.1f32.to_bits());
    assert_eq!(at_least_tenth(f32::NAN.to_bits()), 0.1f32.to_bits());
    assert_eq!(at_least_tenth(0.05f32.to_bits()), 0.1f32.to_bits());
    assert_eq!(at_least_tenth(f32::INFINITY.to_bits()), f32::INFINITY.to_bits());
    assert_eq!(TENTH_SECOND_BITS, 0.1f32.to_bits());
}

#[test]
fn draft_replaces_the_cards() {
    let mut b = board();
    b.storyboard_add_card_with_id(5);
    let mut first = shot("  ", 3.0);
    first.visual_description = "  ".to_string();
    first.action = "A cat walks".to_string();
    first.prompt = "  sunny street  ".to_string();
    first.negative_prompt = "blurry".to_string();
    let mut second = shot("Chase", 0.0);
    second.prompt = "car chase".to_string();
    second.workflow_key = Some(format!("  {}  ", slugify_workflow_name("Video Flow", VIDEO_ID).to_uppercase()));
    second.workflow_inputs = vec![
        ("STEPS".to_string(), JsonValue::Number(JsonNumber::PosInt(30))),
        ("seed".to_string(), JsonValue::Number(JsonNumber::PosInt(7))),
        ("unknown".to_string(), JsonValue::Bool(true)),
    ];
    let mut third = shot("By id", 1.0);
    third.workflow_id = Some(IMAGE_ID);
    third.workflow_inputs = vec![("1:TEXT".to_string(), JsonValue::String("from inputs".to_string()))];
    third.prompt = "ignored, already set".to_string();
    let d = draft(vec![first, second, third]);
    let n = b.storyboard_replace_with_screenplay_draft_with_ids(&d, &vec![10, 20, 30]);
    assert_eq!(n, 3);
    assert_eq!(b.cards.len(), 3);
    assert_eq!(b.selected, Some(0));

    let c0 = &b.cards[0];
    assert_eq!(c0.id, 10);
    assert_eq!(c0.title, "Shot 1");
    assert_eq!(c0.description, "A cat walks");
    assert_eq!(c0.duration_seconds, 3.0f32.to_bits());
    assert_eq!(c0.workflow_id, Some(IMAGE_ID));
    assert_eq!(c0.output_kind, StoryboardWorkflowOutputKind::Image);
    // A new card already has a value for every input of the first workflow,
    // so the shot's prompts do not replace them there.
    assert_eq!(c0.workflow_inputs.get("1:text"), Some(&StoryboardInputValue::Text(String::new())));
    assert_eq!(c0.workflow_inputs.get("2:text"), Some(&StoryboardInputValue::Text(String::new())));

    let c1 = &b.cards[1];
    assert_eq!(c1.title, "Chase");
    assert_eq!(c1.description, "car chase");
    assert_eq!(c1.duration_seconds, 0.1f32.to_bits());
    assert_eq!(c1.workflow_id, Some(VIDEO_ID));
    assert_eq!(c1.output_kind, StoryboardWorkflowOutputKind::Video);
    assert_eq!(c1.video_settings.as_ref().map(|v| v.filename_prefix.clone()), Some("Video Flow-prefix".to_string()));
    assert_eq!(c1.workflow_inputs.get("3:steps"), Some(&StoryboardInputValue::Integer(30)));
    assert_eq!(c1.workflow_inputs.get("4:prompt"), Some(&StoryboardInputValue::Text("car chase".to_string())));
    // An input the editor fills in itself is not taken from the shot.
    assert_eq!(c1.workflow_inputs.get("5:seed"), Some(&StoryboardInputValue::Integer(0)));
    assert!(c1.workflow_inputs.get("unknown").is_none());

    let c2 = &b.cards[2];
    assert_eq!(c2.workflow_id, Some(IMAGE_ID));
    assert_eq!(c2.workflow_inputs.get("1:text"), Some(&StoryboardInputValue::Text("from inputs".to_string())));
}

#[test]
fn empty_draft_clears_the_board() {
    let mut b = board();
    b.storyboard_add_card_with_id(5);
    let n = b.storyboard_replace_with_screenplay_draft(&draft(vec![]));
    assert_eq!(n, 0);
    assert!(b.cards.is_empty());
    assert_eq!(b.selected, None);
}

#[test]
fn random_ids_for_draft_cards() {
    let mut b = board();
    let n = b.storyboard_replace_with_screenplay_draft(&draft(vec![shot("A", 2.0), shot("B", 2.0)]));
    assert_eq!(n, 2);
    assert_ne!(b.cards[0].id, b.cards[1].id);
    assert_eq!(b.cards[1].title, "B");
}

fn card(id: u128, workflow: Option<u128>) -> StoryboardCard {
    StoryboardCard {
        id,
        title: "Card".to_string(),
        description: String::new(),
        reference_path: String::new(),
        duration_seconds: 5.0f32.to_bits(),
        preview_error: None,
        workflow_id: workflow,
        workflow_error: None,
        workflow_status: None,
        video_settings: None,
        output_kind: StoryboardWorkflowOutputKind::ImageAndVideo,
        workflow_inputs: KeyedMap::new(),
        workflow_input_errors: KeyedMap::new(),
    }
}

#[test]
fn cards_are_settled_on_known_workflows() {
    let mut b = board();
    b.cards.push(card(1, Some(999)));
    b.cards.push(card(2, Some(VIDEO_ID)));
    b.cards.push(card(3, None));
    b.ensure_storyboard_card_workflow_selection();
    assert_eq!(b.cards[0].workflow_id, Some(IMAGE_ID));
    assert_eq!(b.cards[0].output_kind, StoryboardWorkflowOutputKind::Image);
    assert_eq!(b.cards[0].video_settings.as_ref().map(|v| v.filename_prefix.clone()), Some("Still Image-prefix".to_string()));
    assert_eq!(b.cards[0].workflow_inputs.len(), 2);
    assert_eq!(b.cards[1].workflow_id, Some(VIDEO_ID));
    assert_eq!(b.cards[1].output_kind, StoryboardWorkflowOutputKind::Video);
    // A card that keeps its workflow keeps its own video settings.
    assert!(b.cards[1].video_settings.is_none());
    assert_eq!(b.cards[1].workflow_inputs.get("3:steps"), Some(&StoryboardInputValue::Integer(0)));
    assert_eq!(b.cards[2].workflow_id, Some(IMAGE_ID));

    let mut empty = Storyboard { cards: vec![card(4, Some(IMAGE_ID))], selected: Some(0), workflows: vec![] };
    empty.cards[0].workflow_inputs.insert("x".to_string(), StoryboardInputValue::Boolean(true));
    empty.ensure_storyboard_card_workflow_selection();
    assert_eq!(empty.cards[0].workflow_id, None);
    assert_eq!(empty.cards[0].output_kind, StoryboardWorkflowOutputKind::Image);
    assert!(empty.cards[0].workflow_inputs.is_empty());
    assert_eq!(empty.selected, Some(0));
}

#[test]
fn workflow_catalog_for_the_writer() {
    let b = board();
    let text = b.screenplay_workflow_context().expect("catalog");
    assert!(text.starts_with("Storyboard workflow catalog (you must choose exactly one workflow per shot"));
    let image_line = format!("- key: {} — Still Image (Outputs: Image)\n", slugify_workflow_name("Still Image", IMAGE_ID));
    assert!(text.contains(&image_line));
    assert!(text.contains("  Inputs: text [text], text [text]\n"));
    // Sorted, without the seed the editor fills in itself.
    assert!(text.contains("  Inputs: prompt [text], steps [integer]\n"));
    assert!(text.ends_with("manual inputs (e.g., prompt, ratio)."));
    let empty = Storyboard { cards: vec![], selected: None, workflows: vec![] };
    assert_eq!(empty.screenplay_workflow_context(), None);
    let bare = Storyboard {
        cards: vec![],
        selected: None,
        workflows: vec![preset(3, "Bare", StoryboardWorkflowOutputKind::ImageAndVideo, vec![])],
    };
    let text = bare.screenplay_workflow_context().unwrap();
    assert!(text.contains("(Outputs: Image & Video)\n  Inputs: (no manual inputs required)\n"));
}

#[test]
fn input_value_previews() {
    assert_eq!(format_workflow_input_value(&JsonValue::String("hi".to_string())), "hi");
    assert_eq!(format_workflow_input_value(&JsonValue::Number(JsonNumber::NegInt(-12))), "-12");
    assert_eq!(format_workflow_input_value(&JsonValue::Number(JsonNumber::Float("0.5".to_string()))), "0.5");
    assert_eq!(format_workflow_input_value(&JsonValue::Bool(false)), "false");
    assert_eq!(format_workflow_input_value(&JsonValue::Null), "null");
    assert_eq!(format_workflow_input_value(&JsonValue::Object(vec![])), "<object>");
    let items = JsonValue::Array(vec![
        JsonValue::Number(JsonNumber::PosInt(1)),
        JsonValue::Array(vec![]),
        JsonValue::Bool(true),
        JsonValue::Null,
    ]);
    assert_eq!(format_workflow_input_value(&items), "[1, [], true, …]");
    assert_eq!(format_workflow_input_value(&JsonValue::Array(vec![JsonValue::Null])), "[null]");

    let mut with_default = spec("1:text", "text", "Prompt", "Node", text_kind());
    with_default.default_value = Some(StoryboardInputValue::Text("start".to_string()));
    let mut v = StoryboardInputValue::Integer(3);
    ensure_text_input_value(&mut v, &with_default);
    assert_eq!(v, StoryboardInputValue::Text("start".to_string()));
    let mut kept = StoryboardInputValue::Text("mine".to_string());
    ensure_text_input_value(&mut kept, &with_default);
    assert_eq!(kept, StoryboardInputValue::Text("mine".to_string()));
    let mut none = StoryboardInputValue::Null;
    ensure_text_input_value(&mut none, &spec("x", "x", "X", "Node", text_kind()));
    assert_eq!(none, StoryboardInputValue::Text(String::new()));
}

#[test]
fn applying_a_draft_needs_shots() {
    let mut b = board();
    let e = b.screenplay_apply_draft_to_storyboard(false, None).unwrap_err();
    assert_eq!(e.0, "Start a session before applying storyboard shots.");
    let e = b.screenplay_apply_draft_to_storyboard(true, None).unwrap_err();
    assert_eq!(e.1, "Cannot apply storyboard: screenplay draft missing.");
    let empty = draft(vec![]);
    let e = b.screenplay_apply_draft_to_storyboard(true, Some(&empty)).unwrap_err();
    assert_eq!(e.0, "The current screenplay draft has no shots to apply.");
    let one = draft(vec![shot("Only", 4.0)]);
    assert_eq!(b.screenplay_apply_draft_to_storyboard(true, Some(&one)).unwrap(), "Applied 1 screenplay shot to the storyboard workspace.");
    let two = draft(vec![shot("A", 4.0), shot("B", 4.0)]);
    assert_eq!(b.screenplay_apply_draft_to_storyboard(true, Some(&two)).unwrap(), "Applied 2 screenplay shots to the storyboard workspace.");
    assert_eq!(b.cards.len(), 2);
}

#[test]
fn removing_a_workflow_detaches_its_cards() {
    let mut b = board();
    b.workflows[0].builtin = true;
    assert_eq!(b.storyboard_workflow_removal_check(IMAGE_ID).unwrap_err(), "Built-in workflows cannot be deleted.");
    assert_eq!(b.storyboard_workflow_removal_check(12345).unwrap_err(), "Workflow not found.");
    assert_eq!(b.storyboard_workflow_removal_check(VIDEO_ID), Ok(1));
    let mut using = card(1, Some(VIDEO_ID));
    using.reference_path = "/out/v.mp4".to_string();
    using.workflow_status = Some("Queued".to_string());
    using.workflow_inputs.insert("3:steps".to_string(), StoryboardInputValue::Integer(9));
    b.cards.push(using);
    b.cards.push(card(2, Some(IMAGE_ID)));
    let affected = b.storyboard_detach_workflow(VIDEO_ID);
    assert_eq!(affected, vec![(1, "/out/v.mp4".to_string())]);
    assert_eq!(b.cards[0].workflow_id, None);
    assert_eq!(b.cards[0].reference_path, "");
    assert_eq!(b.cards[0].workflow_status, None);
    assert!(b.cards[0].workflow_inputs.is_empty());
    assert_eq!(b.cards[0].output_kind, StoryboardWorkflowOutputKind::Image);
    assert_eq!(b.cards[0].title, "Card");
    assert_eq!(b.cards[1].workflow_id, Some(IMAGE_ID));
}

#[test]
fn workflows_are_ordered() {
    let mut builtin = preset(1, "Zeta", StoryboardWorkflowOutputKind::Image, vec![]);
    builtin.builtin = true;
    let found = vec![
        preset(2, "beta", StoryboardWorkflowOutputKind::Image, vec![]),
        preset(3, "Alpha", StoryboardWorkflowOutputKind::Image, vec![]),
        builtin,
        preset(4, "ALPHA", StoryboardWorkflowOutputKind::Video, vec![]),
        preset(5, "Émile", StoryboardWorkflowOutputKind::Image, vec![]),
    ];
    let ordered = order_storyboard_workflows(found);
    let ids: Vec<u128> = ordered.iter().map(|p| p.id).collect();
    assert_eq!(ids, vec![1, 3, 4, 2, 5]);

    let mut b = board();
    b.cards.push(card(9, Some(VIDEO_ID)));
    b.refresh_storyboard_workflows(vec![preset(IMAGE_ID, "Only", StoryboardWorkflowOutputKind::Image, vec![])]);
    assert_eq!(b.workflows.len(), 1);
    assert_eq!(b.cards[0].workflow_id, Some(IMAGE_ID));
}

#[test]
fn stored_cards_are_loaded() {
    let mut b = board();
    b.storyboard_load_cards(vec![card(1, Some(404)), card(2, Some(VIDEO_ID))], Some(7));
    assert_eq!(b.selected, Some(0));
    assert_eq!(b.cards[0].workflow_id, Some(IMAGE_ID));
    assert_eq!(b.cards[1].workflow_id, Some(VIDEO_ID));
    b.storyboard_load_cards(vec![card(1, None), card(2, None)], Some(1));
    assert_eq!(b.selected, Some(1));
    b.storyboard_load_cards(vec![], Some(0));
    assert_eq!(b.selected, None);
    assert!(b.cards.is_empty());
}

#[test]
fn input_refreshes_wait_per_card() {
    use_refresh_queue();
}

fn keys_of(p: &PendingInputRefresh) -> Vec<String> {
    match p {
        PendingInputRefresh::Keys(k) => {
            let mut v = k.clone();
            v.sort();
            v.dedup();
            v
        },
        PendingInputRefresh::All => vec!["*".to_string()],
    }
}

fn use_refresh_queue() {
    let mut q = InputRefreshQueue::new();
    q.schedule_storyboard_input_refresh(1, Some(vec![" 2:image ".to_string(), "  ".to_string()]));
    q.schedule_storyboard_input_refresh(1, Some(vec!["3:mask".to_string(), "2:image".to_string()]));
    q.schedule_storyboard_input_refresh(2, Some(vec![" ".to_string()]));
    assert!(q.pending.get(2).is_none());
    assert_eq!(keys_of(q.pending.get(1).unwrap()), vec!["2:image".to_string(), "3:mask".to_string()]);
    q.schedule_storyboard_input_refresh(1, None);
    q.schedule_storyboard_input_refresh(1, Some(vec!["4:x".to_string()]));
    assert_eq!(keys_of(q.pending.get(1).unwrap()), vec!["*".to_string()]);
    let taken = q.take_storyboard_input_refresh(1).unwrap();
    assert!(matches!(taken, PendingInputRefresh::All));
    assert!(q.take_storyboard_input_refresh(1).is_none());
}
