use gausian_collab::board::Storyboard;
use gausian_collab::chat::{build_chat_prompt, trim_chat_history, ChatMessage, ChatRole};
use gausian_collab::ids::uuid_string;
use gausian_collab::json::{JsonNumber, JsonValue};
use gausian_collab::keyed_map::KeyedMap;
use gausian_collab::naming::{
    comfy_input_file_name, comfy_input_reference, is_autofilled_workflow_input, normalized_workflow_key,
    sanitize_filename_component, slugify_workflow_name, storyboard_comfy_input_stem,
    storyboard_forced_filename_prefix, workflow_input_kind_label,
};
use gausian_collab::patch::{build_storyboard_prompt, patch_storyboard_prompt};
use gausian_collab::project_paths::normalize_project_base_path;
use gausian_collab::settings::{cache_max_jobs, parse_usize, AutoProxySetting, ViewerScale};
use gausian_collab::storyboard::{
    StoryboardCard, StoryboardVideoSettings, StoryboardWorkflowOutputKind, StoryboardWorkflowPreset,
};
use gausian_collab::timeline::{
    collect_target_tracks, nearest_track_by_kind, item_from_node_impl, item_from_node_with_extension, ClipNode, Fps, FrameRange, ItemKind,
    TimelineNode, TimelineNodeKind, TrackKind,
};
use gausian_collab::workflow_input::{
    StoryboardInputValue, StoryboardWorkflowInputKind, WorkflowInputSemantic,
};
use gausian_collab::workflow_preset::StoryboardWorkflowInputSpec;

fn s(text: &str) -> JsonValue {
    JsonValue::String(text.to_string())
}

fn obj(entries: Vec<(&str, JsonValue)>) -> JsonValue {
    JsonValue::Object(entries.into_iter().map(|(k, v)| (k.to_string(), v)).collect())
}

fn card(id: u128, title: &str) -> StoryboardCard {
    StoryboardCard {
        id,
        title: title.to_string(),
        description: String::new(),
        reference_path: String::new(),
        duration_seconds: 5.0f32.to_bits(),
        preview_error: None,
        workflow_id: None,
        workflow_error: None,
        workflow_status: None,
        video_settings: None,
        output_kind: StoryboardWorkflowOutputKind::Image,
        workflow_inputs: KeyedMap::new(),
        workflow_input_errors: KeyedMap::new(),
    }
}

fn spec(map_key: &str, input_key: &str, class: &str, default: Option<StoryboardInputValue>) -> StoryboardWorkflowInputSpec {
    StoryboardWorkflowInputSpec {
        map_key: map_key.to_string(),
        node_id: "1".to_string(),
        input_key: input_key.to_string(),
        group_label: "G".to_string(),
        label: input_key.to_string(),
        kind: StoryboardWorkflowInputKind::Text { multiline: false },
        default_value: default,
        node_class: class.to_string(),
        semantic: WorkflowInputSemantic::Other,
    }
}

#[test]
fn labels_of_settings_and_outputs() {
    assert_eq!(AutoProxySetting::Off.display_name(), "Off");
    assert_eq!(AutoProxySetting::LargeOnly.display_name(), "Large Only");
    assert_eq!(AutoProxySetting::All.display_name(), "All Clips");
    assert_eq!(AutoProxySetting::default_setting(), AutoProxySetting::LargeOnly);
    assert!(!AutoProxySetting::Off.should_queue_proxy(true, Some(true)));
    assert!(AutoProxySetting::All.should_queue_proxy(true, None));
    assert!(!AutoProxySetting::All.should_queue_proxy(false, Some(true)));
    assert!(AutoProxySetting::LargeOnly.should_queue_proxy(true, Some(true)));
    assert!(!AutoProxySetting::LargeOnly.should_queue_proxy(true, None));
    assert_eq!(ViewerScale::Full.label(), "100%");
    assert_eq!(ViewerScale::Half.label(), "50%");
    assert_eq!(ViewerScale::Quarter.label(), "25%");
    assert_eq!(StoryboardWorkflowOutputKind::ImageAndVideo.label(), "Outputs: Image & Video");
    assert_eq!(StoryboardWorkflowOutputKind::from_flags(false, false), StoryboardWorkflowOutputKind::Image);
    assert_eq!(StoryboardWorkflowOutputKind::from_flags(false, true), StoryboardWorkflowOutputKind::Video);
}

#[test]
fn names_and_slugs() {
    assert_eq!(sanitize_filename_component("My  Project!!"), "My-Project");
    assert_eq!(sanitize_filename_component("--a--b--"), "a-b");
    assert_eq!(sanitize_filename_component("***"), "storyboard");
    let id: u128 = 0x0123_4567_89ab_cdef_0011_2233_4455_6677;
    assert_eq!(uuid_string(id), "01234567-89ab-cdef-0011-223344556677");
    assert_eq!(uuid_string(id), uuid::Uuid::from_u128(id).to_string());
    assert_eq!(storyboard_forced_filename_prefix("proj 1", id), "storyboard-proj-1-01234567");
    assert_eq!(slugify_workflow_name("Wan 2.2 Video!", id), "wan-2-2-video-01234567");
    assert_eq!(slugify_workflow_name("!!!", id), "-01234567");
    assert_eq!(slugify_workflow_name("", id), "workflow-01234567");
    assert_eq!(normalized_workflow_key("  Wan-Video "), "wan-video");
    assert!(is_autofilled_workflow_input(&spec("1:seed", "Seed", "RunwayImageToVideoNodeGen4", None)));
    assert!(is_autofilled_workflow_input(&spec("1:image", "IMAGE", "loadimage", None)));
    assert!(!is_autofilled_workflow_input(&spec("1:prompt", "prompt", "LoadImage", None)));
    assert_eq!(workflow_input_kind_label(&StoryboardWorkflowInputKind::Text { multiline: true }), "multiline text");
    assert_eq!(workflow_input_kind_label(&StoryboardWorkflowInputKind::Float), "number");
}

#[test]
fn chat_history_and_prompt() {
    let mut messages: Vec<ChatMessage> = (0..70)
        .map(|i| ChatMessage { role: if i == 0 { ChatRole::System } else { ChatRole::User }, text: format!("m{i}") })
        .collect();
    trim_chat_history(&mut messages);
    assert_eq!(messages.len(), 60);
    assert_eq!(messages[0].text, "m0");
    assert_eq!(messages[1].text, "m11");
    let mut plain: Vec<ChatMessage> = (0..61).map(|i| ChatMessage { role: ChatRole::User, text: format!("u{i}") }).collect();
    trim_chat_history(&mut plain);
    assert_eq!(plain.len(), 60);
    assert_eq!(plain[0].text, "u1");
    let history = vec![
        ChatMessage { role: ChatRole::User, text: "  hi ".to_string() },
        ChatMessage { role: ChatRole::Assistant, text: "hello".to_string() },
    ];
    assert_eq!(build_chat_prompt("  Be brief. ", &history), "Be brief.\nUser: hi\nAssistant: hello\nAssistant:");
    assert_eq!(build_chat_prompt("", &[]), "Assistant:");
}

#[test]
fn timeline_items_from_nodes() {
    let clip = |asset: &str| TimelineNode {
        id: "n1".to_string(),
        kind: TimelineNodeKind::Clip(ClipNode {
            asset_id: Some(asset.to_string()),
            timeline_range: FrameRange { start: 10, duration: 20 },
            media_range: FrameRange { start: 3, duration: 20 },
            playback_rate_bits: 1.0f32.to_bits(),
        }),
    };
    let fps = Fps { num: 30, den: 0 };
    let img = item_from_node_impl(&clip("/media/still.PNG"), TrackKind::Video, fps).expect("item");
    assert_eq!(img.kind, ItemKind::Image { src: "/media/still.PNG".to_string() });
    let vid = item_from_node_impl(&clip("/media/shot.mov"), TrackKind::Video, fps).expect("item");
    assert_eq!(
        vid.kind,
        ItemKind::Video { src: "/media/shot.mov".to_string(), frame_rate: Fps { num: 30, den: 1 }, in_offset_frames: 3, rate_bits: 1.0f32.to_bits() }
    );
    assert_eq!((vid.from, vid.duration_in_frames), (10, 20));
    let aud = item_from_node_with_extension(&clip("a.wav"), TrackKind::Audio, fps, Some("wav")).expect("item");
    assert!(matches!(aud.kind, ItemKind::Audio { .. }));
    let text = TimelineNode {
        id: "t".to_string(),
        kind: TimelineNodeKind::Generator {
            generator_id: "text".to_string(),
            timeline_range: FrameRange { start: 0, duration: 5 },
            metadata: obj(vec![("text", s("Hi"))]),
        },
    };
    let t = item_from_node_impl(&text, TrackKind::Video, fps).expect("item");
    assert_eq!(t.kind, ItemKind::Text { text: "Hi".to_string(), color: "#ffffff".to_string() });
    let solid = TimelineNode {
        id: "s".to_string(),
        kind: TimelineNodeKind::Generator { generator_id: "solid".to_string(), timeline_range: FrameRange { start: 0, duration: 5 }, metadata: JsonValue::Null },
    };
    assert_eq!(item_from_node_impl(&solid, TrackKind::Video, fps).expect("item").kind, ItemKind::Solid { color: "#4c4c4c".to_string() });
    let other = TimelineNode {
        id: "o".to_string(),
        kind: TimelineNodeKind::Generator { generator_id: "noise".to_string(), timeline_range: FrameRange { start: 0, duration: 5 }, metadata: JsonValue::Null },
    };
    assert!(item_from_node_impl(&other, TrackKind::Video, fps).is_none());
}

fn preset(id: u128, specs: Vec<StoryboardWorkflowInputSpec>) -> StoryboardWorkflowPreset {
    StoryboardWorkflowPreset {
        id,
        name: "wf".to_string(),
        path: String::new(),
        builtin: false,
        video_defaults: Some(StoryboardVideoSettings { filename_prefix: "v".to_string(), format: "mp4".to_string(), codec: "h264".to_string() }),
        output_kind: StoryboardWorkflowOutputKind::Video,
        input_specs: specs,
    }
}

#[test]
fn storyboard_cards_add_move_duplicate_remove() {
    let mut board = Storyboard {
        cards: vec![],
        selected: None,
        workflows: vec![preset(9, vec![spec("1:prompt", "prompt", "Node", Some(StoryboardInputValue::Text("start".to_string())))])],
    };
    assert_eq!(board.storyboard_add_card_with_id(100), 0);
    assert_eq!(board.storyboard_add_card(), 1);
    assert_eq!(board.cards[0].title, "Shot 1");
    assert_eq!(board.cards[1].title, "Shot 2");
    assert_eq!(board.cards[0].workflow_id, Some(9));
    assert_eq!(board.cards[0].output_kind, StoryboardWorkflowOutputKind::Video);
    assert_eq!(board.cards[0].workflow_inputs.get("1:prompt"), Some(&StoryboardInputValue::Text("start".to_string())));
    assert_eq!(board.selected, Some(1));
    board.storyboard_move_selected(-1);
    assert_eq!(board.selected, Some(0));
    assert_eq!(board.cards[1].id, 100);
    board.storyboard_move_selected(-1);
    assert_eq!(board.selected, Some(0));
    board.selected = Some(1);
    assert_eq!(board.storyboard_duplicate_selected_with_id(200), Some(2));
    assert_eq!(board.cards[2].id, 200);
    assert_eq!(board.cards[2].title, "Shot 1 (Copy)");
    assert_eq!(board.cards[2].workflow_inputs.get("1:prompt"), Some(&StoryboardInputValue::Text("start".to_string())));
    assert_eq!(board.storyboard_remove_selected(), Some(200));
    assert_eq!(board.cards.len(), 2);
    assert_eq!(board.selected, Some(1));
    board.selected = None;
    assert_eq!(board.storyboard_remove_selected(), None);
}

#[test]
fn prompt_patching_for_a_card() {
    let mut c = card(1, "Shot");
    c.description = "  A sunny beach ".to_string();
    c.video_settings = Some(StoryboardVideoSettings { filename_prefix: "x".to_string(), format: " webm ".to_string(), codec: "  ".to_string() });
    let mut raw = KeyedMap::new();
    raw.insert("2:seed".to_string(), StoryboardInputValue::Integer(-5));
    raw.insert("2:image".to_string(), StoryboardInputValue::File("  ".to_string()));
    raw.insert("nocolon".to_string(), StoryboardInputValue::Integer(1));
    let mut resolved = KeyedMap::new();
    resolved.insert("9:none".to_string(), "x".to_string());
    let mut prompt = vec![
        (
            "1".to_string(),
            obj(vec![
                ("_meta", obj(vec![("title", s("POSITIVE prompt"))])),
                ("inputs", obj(vec![("text", s("old")), ("image", JsonValue::Null), ("length", JsonValue::Number(JsonNumber::PosInt(1)))])),
            ]),
        ),
        (
            "2".to_string(),
            obj(vec![("inputs", obj(vec![("fps", s("a")), ("format", s("mp4")), ("codec", s("h264")), ("image", JsonValue::Bool(true))]))]),
        ),
    ];
    patch_storyboard_prompt(&mut prompt, &c, "ref.png", 24, 120, "pre", &resolved, &raw);
    let expected = vec![
        (
            "1".to_string(),
            obj(vec![
                ("_meta", obj(vec![("title", s("POSITIVE prompt"))])),
                ("inputs", obj(vec![("text", s("A sunny beach")), ("image", s("ref.png")), ("length", JsonValue::Number(JsonNumber::PosInt(120)))])),
            ]),
        ),
        (
            "2".to_string(),
            obj(vec![(
                "inputs",
                obj(vec![
                    ("fps", JsonValue::Number(JsonNumber::PosInt(24))),
                    ("format", s("webm")),
                    ("codec", s("h264")),
                    ("image", JsonValue::Bool(true)),
                    ("seed", JsonValue::Number(JsonNumber::NegInt(-5))),
                ]),
            )]),
        ),
    ];
    assert_eq!(prompt, expected);
}

#[test]
fn storyboard_request_body() {
    let c = card(1, "Shot");
    let raw = KeyedMap::new();
    let resolved = KeyedMap::new();
    let (body, client) = build_storyboard_prompt(
        r#"{"prompt": {"1": {"class_type": "Note"}, "2": {"class_type": "SaveImage", "inputs": {"filename_prefix": "a"}}}}"#,
        &c, "img.png", &resolved, &raw, "pre", 24, 120, "client-1",
    )
    .expect("body");
    assert_eq!(client, "client-1");
    let JsonValue::Object(e) = &body else { panic!("object") };
    assert!(e.iter().any(|(k, v)| k == "client_id" && *v == s("client-1")));
    let prompt = e.iter().find(|(k, _)| k == "prompt").map(|(_, v)| v).expect("prompt");
    let JsonValue::Object(p) = prompt else { panic!("object") };
    assert_eq!(p.len(), 1);
    assert_eq!(
        p[0].1,
        obj(vec![("class_type", s("SaveImage")), ("inputs", obj(vec![("filename_prefix", s("pre"))]))])
    );
    let err = build_storyboard_prompt("{\"prompt\": 3}", &c, "i", &resolved, &raw, "p", 1, 1, "c").unwrap_err();
    assert_eq!(err, "Workflow prompt is not an object.");
    let err2 = build_storyboard_prompt("{]", &c, "i", &resolved, &raw, "p", 1, 1, "c").unwrap_err();
    assert!(err2.starts_with("Workflow JSON invalid ("));
}

#[test]
fn target_tracks_for_assets() {
    let (audio, video) = (TrackKind::Audio, TrackKind::Video);
    let kinds = vec![video, audio, video, audio];
    let ids = vec![10, 11, 12, 13];
    assert_eq!(nearest_track_by_kind(&kinds, Some(2), true), Some(1));
    assert_eq!(nearest_track_by_kind(&kinds, Some(3), false), Some(2));
    assert_eq!(nearest_track_by_kind(&kinds, None, false), Some(0));
    assert_eq!(nearest_track_by_kind(&vec![video], None, true), None);
    assert_eq!(collect_target_tracks(&kinds, &ids, true, false, Some(3)), vec![3]);
    assert_eq!(collect_target_tracks(&kinds, &ids, false, true, Some(2)), vec![2, 1]);
    assert_eq!(collect_target_tracks(&kinds, &ids, false, false, Some(2)), vec![2]);
    assert_eq!(collect_target_tracks(&vec![video], &vec![1], true, false, Some(0)), vec![0]);
    assert_eq!(collect_target_tracks(&vec![video], &vec![1], true, false, Some(4)), Vec::<usize>::new());
    // No video track: the first track stands in, and is not listed twice.
    assert_eq!(collect_target_tracks(&vec![audio], &vec![1], false, true, None), vec![0]);
    assert_eq!(collect_target_tracks(&vec![], &vec![], false, true, None), Vec::<usize>::new());
}

fn comps(parts: &[&str]) -> Vec<Option<String>> {
    let mut v = vec![None];
    v.extend(parts.iter().map(|p| Some(p.to_string())));
    v
}

#[test]
fn project_base_from_media_folders() {
    assert_eq!(normalize_project_base_path(comps(&["home", "proj", "media", "comfy", "2024-05-01"])), comps(&["home", "proj"]));
    assert_eq!(normalize_project_base_path(comps(&["home", "proj", "Media", "COMFY"])), comps(&["home", "proj"]));
    assert_eq!(normalize_project_base_path(comps(&["p", "media", "comfy", "media", "comfy", "2024-05-01"])), comps(&["p"]));
    assert_eq!(normalize_project_base_path(comps(&["p", "comfy", "2024-05-01"])), comps(&["p", "comfy", "2024-05-01"]));
    assert_eq!(normalize_project_base_path(comps(&["p", "media", "comfy", "2024-5-01"])), comps(&["p", "media", "comfy", "2024-5-01"]));
    let bare = vec![Some("media".to_string()), Some("comfy".to_string())];
    assert_eq!(normalize_project_base_path(bare.clone()), bare);
}

#[test]
fn cache_jobs_from_environment() {
    assert_eq!(parse_usize("12"), Some(12));
    assert_eq!(parse_usize("+7"), Some(7));
    assert_eq!(parse_usize("-1"), None);
    assert_eq!(parse_usize(""), None);
    assert_eq!(parse_usize("+"), None);
    assert_eq!(parse_usize("4x"), None);
    assert_eq!(parse_usize("99999999999999999999999"), None);
    assert_eq!(cache_max_jobs(Some("6"), 8), 6);
    assert_eq!(cache_max_jobs(Some("0"), 8), 1);
    assert_eq!(cache_max_jobs(Some("many"), 8), 7);
    assert_eq!(cache_max_jobs(None, 1), 1);
    assert_eq!(cache_max_jobs(None, 4), 3);
}

#[test]
fn comfy_copies_are_named_per_card() {
    let id: u128 = 0x1234_5678_9abc_def0_1234_5678_9abc_def0;
    let stem = storyboard_comfy_input_stem("Opening Shot!", id, None);
    assert_eq!(stem, "Opening-Shot-12345678");
    let keyed = storyboard_comfy_input_stem("Opening Shot!", id, Some("12:Start Image"));
    assert_eq!(keyed, "Opening-Shot-Start-Image-12345678");
    let plain = storyboard_comfy_input_stem("", id, Some("nokey"));
    assert_eq!(plain, "storyboard-nokey-12345678");
    assert_eq!(comfy_input_file_name(&stem, Some("jpg"), 0), "Opening-Shot-12345678.jpg");
    assert_eq!(comfy_input_file_name(&stem, None, 2), "Opening-Shot-12345678-2.png");
    assert_eq!(comfy_input_reference("a.png"), "storyboard/a.png");
}

#[test]
fn sanitizing_twice_is_sanitizing_once() {
    for raw in ["My  Project!!", "--a--b--", "***", "Shot 1: Dawn"] {
        let once = sanitize_filename_component(raw);
        assert_eq!(sanitize_filename_component(&once), once);
    }
}
