use gausian_collab::board::Storyboard;
use gausian_collab::cloud_health::{cloud_health_urls, cloud_import_file_name, healthz_report, recent_jobs};
use gausian_collab::local_llm::{ollama_answer, ollama_payload, ollama_target};
use gausian_collab::comfy_monitor::{comfy_queue_url, comfy_ws_url, parse_comfy_queue, parse_comfy_ws_message, ComfyWsMessage};
use gausian_collab::cloud_job::{
    cloud_queue_outcome, cloud_request_body, finish_cloud_body, job_prefix_used, prepare_cloud_job,
    short_client_id, CloudQueueOutcome, CloudTarget,
};
use gausian_collab::comfy_jobs::{ComfyJobInfo, ComfyJobStatus, ComfyJobTable, ComfyWsEvent};
use gausian_collab::comfy_queue::{
    attach_comfy_api_key, comfy_prompt_id, comfy_queue_failure, storyboard_batch_summary, storyboard_file_inputs, QueuePlan,
};
use gausian_collab::comfy_output::{match_output_to_card, OutputImport, OutputJob};
use gausian_collab::ids::uuid_string;
use gausian_collab::json::{JsonNumber, JsonValue};
use gausian_collab::keyed_map::KeyedMap;
use gausian_collab::storyboard::{StoryboardCard, StoryboardWorkflowOutputKind};
use gausian_collab::transfer::{
    asset_kind_for_extension, plan_transfer_placements, prepare_transfer_card, storyboard_clip_metadata,
    storyboard_detect_asset_kind, storyboard_node_metadata, storyboard_transfer_alerts, transfer_source_path, AssetRecord, FrameSpan,
    PlannedClip, StoryboardAssetKind,
};
use gausian_collab::workflow_input::StoryboardInputValue;

const CLIENT: &str = "0123abcd-0000-4000-8000-000000000000";

fn get<'a>(v: &'a JsonValue, key: &str) -> Option<&'a JsonValue> {
    match v {
        JsonValue::Object(e) => e.iter().find(|(k, _)| k == key).map(|(_, x)| x),
        _ => None,
    }
}

fn string(v: Option<&JsonValue>) -> Option<String> {
    match v {
        Some(JsonValue::String(s)) => Some(s.clone()),
        _ => None,
    }
}

#[test]
fn cloud_job_needs_base_and_payload() {
    let e = prepare_cloud_job("  ", "", "{}", CloudTarget::Prompt, CLIENT).unwrap_err();
    assert_eq!(e, "Base URL not set");
    let e = prepare_cloud_job("https://x.dev", "", " \n", CloudTarget::Prompt, CLIENT).unwrap_err();
    assert_eq!(e, "Payload is empty");
    let e = prepare_cloud_job("https://x.dev", "", "{oops", CloudTarget::Prompt, CLIENT).unwrap_err();
    assert!(e.starts_with("Invalid JSON: "));
    let e = prepare_cloud_job("https://x.dev", "", "{\"nodes\": 3}", CloudTarget::Workflow, CLIENT).unwrap_err();
    assert!(e.starts_with("Workflow convert failed: "));
}

#[test]
fn cloud_job_request_is_tagged() {
    let payload = r#"{"1": {"class_type": "SaveImage", "inputs": {"filename_prefix": " shots "}},
                      "2": {"class_type": "VAEDecode"},
                      "3": {"class_type": "SaveVideo", "inputs": {"filename_prefix": "x-0123abcd"}}}"#;
    let job = prepare_cloud_job(" https://cloud.dev// ", "secret", payload, CloudTarget::Prompt, CLIENT).expect("job");
    assert_eq!(job.url, "https://cloud.dev/prompt");
    assert_eq!(job.authorization, Some("Bearer secret".to_string()));
    let prompt = get(&job.body, "prompt").expect("wrapped prompt");
    let n1 = get(get(prompt, "1").unwrap(), "inputs").unwrap();
    assert_eq!(string(get(n1, "filename_prefix")), Some("shots-0123abcd".to_string()));
    let n2 = get(get(prompt, "2").unwrap(), "inputs").unwrap();
    assert_eq!(string(get(n2, "filename_prefix")), Some("0123abcd".to_string()));
    let n3 = get(get(prompt, "3").unwrap(), "inputs").unwrap();
    assert_eq!(string(get(n3, "filename_prefix")), Some("x-0123abcd".to_string()));
    assert_eq!(string(get(&job.body, "client_id")), Some(CLIENT.to_string()));
    let none = prepare_cloud_job("https://cloud.dev", "  ", payload, CloudTarget::Prompt, CLIENT).expect("job");
    assert_eq!(none.authorization, None);
}

#[test]
fn cloud_body_keeps_client_id_and_prompt() {
    let body = cloud_request_body(r#"{"prompt": {}, "client_id": "mine"}"#, CloudTarget::Prompt).expect("body");
    let done = finish_cloud_body(body, CLIENT);
    assert_eq!(string(get(&done, "client_id")), Some("mine".to_string()));
    assert!(get(&done, "prompt").is_some());
    assert_eq!(short_client_id(CLIENT), "0123abcd");
    assert_eq!(short_client_id("abc"), "abc");
}

#[test]
fn cloud_workflow_payload_is_converted() {
    let workflow = r#"{"nodes": [{"id": 1, "type": "SaveImage", "widgets_values": ["out"]}], "links": []}"#;
    let job = prepare_cloud_job("https://cloud.dev", "", workflow, CloudTarget::Workflow, CLIENT).expect("job");
    let prompt = get(&job.body, "prompt").expect("prompt");
    let inputs = get(get(prompt, "1").unwrap(), "inputs").unwrap();
    assert_eq!(string(get(inputs, "filename_prefix")), Some("out-0123abcd".to_string()));
    assert_eq!(job_prefix_used(&job.body, CLIENT), "out-0123abcd");
}

#[test]
fn cloud_answers() {
    let sent = JsonValue::Object(vec![("prompt".to_string(), JsonValue::Object(vec![]))]);
    match cloud_queue_outcome(200, Some(r#"{"job_id": "j-1"}"#.to_string()), &sent, CLIENT) {
        CloudQueueOutcome::Queued { job_id, prefix } => {
            assert_eq!(job_id, "j-1");
            assert_eq!(prefix, CLIENT);
        },
        other => panic!("unexpected {:?}", other),
    }
    match cloud_queue_outcome(201, Some(r#"{"prompt_id": 5, "id": "x"}"#.to_string()), &sent, CLIENT) {
        CloudQueueOutcome::Log(m) => assert_eq!(m, "Job queued (no id in response)"),
        other => panic!("unexpected {:?}", other),
    }
    match cloud_queue_outcome(200, Some("ok".to_string()), &sent, CLIENT) {
        CloudQueueOutcome::Log(m) => assert_eq!(m, "Job queued (non-JSON response)"),
        other => panic!("unexpected {:?}", other),
    }
    match cloud_queue_outcome(200, None, &sent, CLIENT) {
        CloudQueueOutcome::Log(m) => assert_eq!(m, "Job queued (no body)"),
        other => panic!("unexpected {:?}", other),
    }
    match cloud_queue_outcome(502, Some("bad gateway".to_string()), &sent, CLIENT) {
        CloudQueueOutcome::Log(m) => assert_eq!(m, "Queue failed: HTTP 502\nbad gateway"),
        other => panic!("unexpected {:?}", other),
    }
}

fn card(id: u128, path: &str) -> StoryboardCard {
    let mut inputs = KeyedMap::new();
    inputs.insert("1:seed".to_string(), StoryboardInputValue::Integer(4));
    StoryboardCard {
        id,
        title: "Opening".to_string(),
        description: "Wide shot".to_string(),
        reference_path: path.to_string(),
        duration_seconds: 2.0f32.to_bits(),
        preview_error: None,
        workflow_id: None,
        workflow_error: None,
        workflow_status: None,
        video_settings: None,
        output_kind: StoryboardWorkflowOutputKind::Image,
        workflow_inputs: inputs,
        workflow_input_errors: KeyedMap::new(),
    }
}

#[test]
fn asset_kinds_from_extensions() {
    assert_eq!(asset_kind_for_extension(Some("PNG")), StoryboardAssetKind::Image);
    assert_eq!(asset_kind_for_extension(Some("tiff")), StoryboardAssetKind::Image);
    assert_eq!(asset_kind_for_extension(Some("mp4")), StoryboardAssetKind::Video);
    assert_eq!(asset_kind_for_extension(Some("xyz")), StoryboardAssetKind::Video);
    assert_eq!(asset_kind_for_extension(None), StoryboardAssetKind::Video);
    assert_eq!(storyboard_detect_asset_kind("/tmp/a/shot.JPG"), StoryboardAssetKind::Image);
    assert_eq!(storyboard_detect_asset_kind("/tmp/a/shot.mov"), StoryboardAssetKind::Video);
}

#[test]
fn transfer_cards_are_checked() {
    let ok: Result<Option<AssetRecord>, String> = Ok(None);
    let e = prepare_transfer_card(&card(1, "   "), StoryboardAssetKind::Image, 48, &ok, true, None).unwrap_err();
    assert_eq!(e, ("Opening".to_string(), "no generated asset".to_string()));
    let e = prepare_transfer_card(&card(1, "/a.png"), StoryboardAssetKind::Image, 0, &ok, true, None).unwrap_err();
    assert_eq!(e.1, "duration is zero");
    let failed: Result<Option<AssetRecord>, String> = Err("db locked".to_string());
    let e = prepare_transfer_card(&card(1, "/a.png"), StoryboardAssetKind::Image, 48, &failed, true, None).unwrap_err();
    assert_eq!(e.1, "asset lookup failed: db locked");
    let e = prepare_transfer_card(&card(1, "/a.png"), StoryboardAssetKind::Image, 48, &ok, false, None).unwrap_err();
    assert_eq!(e.1, "asset file missing on disk");

    let entry = prepare_transfer_card(&card(1, " /a.png "), StoryboardAssetKind::Image, 48, &ok, true, Some("a".to_string())).expect("entry");
    assert_eq!(entry.path, "/a.png");
    assert_eq!(entry.label, "a");
    assert_eq!(entry.media_frames, 1);
    let entry = prepare_transfer_card(&card(1, "/a.mp4"), StoryboardAssetKind::Video, 48, &ok, true, None).expect("entry");
    assert_eq!(entry.label, "Opening");
    assert_eq!(entry.media_frames, 48);

    let found: Result<Option<AssetRecord>, String> = Ok(Some(AssetRecord {
        id: "asset-7".to_string(),
        src_abs: "/library/a.mp4".to_string(),
        duration_frames: Some(120),
    }));
    assert_eq!(transfer_source_path(&found, "/a.mp4"), "/library/a.mp4");
    let entry = prepare_transfer_card(&card(1, "/a.mp4"), StoryboardAssetKind::Video, 48, &found, true, None).expect("entry");
    assert_eq!(entry.path, "/library/a.mp4");
    assert_eq!(entry.label, "asset-7");
    assert_eq!(entry.media_frames, 120);
    assert_eq!(entry.duration_frames, 48);
}

#[test]
fn transfer_clips_find_free_tracks() {
    // Track 0 has a clip at [100, 150); track 1 is empty until 200.
    let tracks = vec![
        vec![FrameSpan { start: 100, duration: 50 }],
        vec![FrameSpan { start: 200, duration: 10 }],
    ];
    let entries = vec![(60, 60), (0, 0), (500, 30)];
    let plan = plan_transfer_placements(&tracks, 50, &entries);
    assert_eq!(plan.len(), 3);
    // [50, 110) meets track 0's clip, so it goes on track 1.
    assert_eq!(plan[0], PlannedClip { track: 1, new_track: false, start: 50, duration: 60, media_duration: 60 });
    // [110, 111) meets track 0's clip and nothing on track 1.
    assert_eq!(plan[1], PlannedClip { track: 1, new_track: false, start: 110, duration: 1, media_duration: 1 });
    // [111, 611) meets both tracks: an overlay track is made.
    assert_eq!(plan[2], PlannedClip { track: 2, new_track: true, start: 111, duration: 500, media_duration: 30 });

    let plan = plan_transfer_placements(&vec![], -5, &vec![(10, 10), (10, 10)]);
    assert_eq!(plan[0], PlannedClip { track: 0, new_track: true, start: 0, duration: 10, media_duration: 10 });
    assert_eq!(plan[1], PlannedClip { track: 0, new_track: false, start: 10, duration: 10, media_duration: 10 });
}

#[test]
fn transfer_metadata() {
    let ok: Result<Option<AssetRecord>, String> = Ok(None);
    let entry = prepare_transfer_card(&card(42, "/a.png"), StoryboardAssetKind::Image, 48, &ok, true, None).expect("entry");
    let meta = storyboard_clip_metadata(&entry);
    assert_eq!(string(get(&meta, "source")), Some("storyboard".to_string()));
    assert_eq!(string(get(&meta, "card_id")), Some(uuid_string(42)));
    assert_eq!(string(get(&meta, "card_title")), Some("Opening".to_string()));
    assert_eq!(string(get(&meta, "reference_path")), Some("/a.png".to_string()));
    let inputs = get(&meta, "workflow_inputs").unwrap();
    assert_eq!(get(inputs, "1:seed"), Some(&JsonValue::Number(JsonNumber::PosInt(4))));
    let node = storyboard_node_metadata(42, StoryboardAssetKind::Video);
    assert_eq!(string(get(&node, "asset_kind")), Some("video".to_string()));
    assert_eq!(string(get(&node, "card_id")), Some("00000000-0000-0000-0000-00000000002a".to_string()));
}

#[test]
fn outputs_find_their_cards() {
    let a: u128 = 0xdeadbeef_0000_0000_0000_0000_0000_0001;
    let b: u128 = 0x0badf00d_0000_0000_0000_0000_0000_0002;
    let jobs = vec![
        OutputJob { card_id: a, prefix: "  ".to_string(), prefix_file_name: None, already_imported: false },
        OutputJob {
            card_id: b,
            prefix: "Project/Shots/B-".to_string(),
            prefix_file_name: Some("b-".to_string()),
            already_imported: false,
        },
    ];
    assert_eq!(match_output_to_card("render_DEADBEEF_00001.png", &jobs), Some(a));
    assert_eq!(match_output_to_card("B-00001_.mp4", &jobs), Some(b));
    assert_eq!(match_output_to_card("project/shots/b-1.png", &jobs), Some(b));
    assert_eq!(match_output_to_card("other.png", &jobs), None);
    let mut seen = jobs;
    seen[0].already_imported = true;
    assert_eq!(match_output_to_card("B-00001_.mp4", &seen), None);
}

#[test]
fn outputs_update_their_cards() {
    let mut board = Storyboard { cards: vec![card(1, "/old.png"), card(2, "")], selected: None, workflows: vec![] };
    board.cards[0].preview_error = Some("stale".to_string());
    let r = board.storyboard_begin_output_import(1, "/new.png", "10:00:00");
    assert_eq!(r, Some(OutputImport { index: 0, reference_changed: true, save_now: true }));
    assert_eq!(board.cards[0].reference_path, "/new.png");
    assert_eq!(board.cards[0].preview_error, None);
    assert_eq!(board.cards[0].workflow_status, Some("Importing result from ComfyUI… (10:00:00)".to_string()));
    let again = board.storyboard_begin_output_import(1, "/new.png", "10:00:01");
    assert_eq!(again, Some(OutputImport { index: 0, reference_changed: false, save_now: false }));
    board.storyboard_finish_output_import(0, "10:00:02");
    assert_eq!(board.cards[0].workflow_status, Some("Updated from ComfyUI (10:00:02)".to_string()));
    assert_eq!(board.storyboard_begin_output_import(99, "/x.png", "t"), None);
}

fn info(status: ComfyJobStatus, progress: f32, at: u64) -> ComfyJobInfo {
    ComfyJobInfo { status, progress_bits: progress.to_bits(), updated_at_ms: at }
}

#[test]
fn queue_reports_update_jobs() {
    let mut table = ComfyJobTable::new();
    table.jobs.insert("old-run".to_string(), info(ComfyJobStatus::Running, 0.5, 1));
    table.jobs.insert("old-fail".to_string(), info(ComfyJobStatus::Failed, 0.2, 1));
    table.jobs.insert("waiting".to_string(), info(ComfyJobStatus::Queued, 0.0, 1));
    table.handle_comfy_ws_event(
        &ComfyWsEvent::Queue { pending: vec!["new-q".to_string()], running: vec!["waiting".to_string(), "new-r".to_string()] },
        100,
    );
    assert_eq!(table.jobs.get("new-q"), Some(&info(ComfyJobStatus::Queued, 0.0, 100)));
    assert_eq!(table.jobs.get("waiting"), Some(&info(ComfyJobStatus::Running, 0.01, 100)));
    assert_eq!(table.jobs.get("new-r"), Some(&info(ComfyJobStatus::Running, 0.01, 100)));
    assert_eq!(table.jobs.get("old-run"), Some(&info(ComfyJobStatus::Completed, 1.0, 100)));
    assert_eq!(table.jobs.get("old-fail"), Some(&info(ComfyJobStatus::Failed, 0.2, 1)));

    table.handle_comfy_ws_event(&ComfyWsEvent::Progress { prompt_id: "new-r".to_string(), progress_bits: 0.75f32.to_bits() }, 110);
    assert_eq!(table.jobs.get("new-r"), Some(&info(ComfyJobStatus::Running, 0.75, 110)));
    table.handle_comfy_ws_event(&ComfyWsEvent::Queue { pending: vec![], running: vec!["new-r".to_string()] }, 120);
    assert_eq!(table.jobs.get("new-r"), Some(&info(ComfyJobStatus::Running, 0.75, 120)));
    table.handle_comfy_ws_event(&ComfyWsEvent::ExecutionStart { prompt_id: "x".to_string() }, 130);
    assert_eq!(table.jobs.get("x"), Some(&info(ComfyJobStatus::Running, 0.0, 130)));
    table.handle_comfy_ws_event(&ComfyWsEvent::ExecutionEnd { prompt_id: "x".to_string() }, 140);
    assert_eq!(table.jobs.get("x"), Some(&info(ComfyJobStatus::Completed, 1.0, 140)));

    table.prune_comfy_jobs(30_120);
    assert!(table.jobs.get("x").is_some());
    assert!(table.jobs.get("old-fail").is_none());
    assert!(table.jobs.get("old-run").is_none());
    assert!(table.jobs.get("new-r").is_some());
    table.prune_comfy_jobs(30_140);
    assert!(table.jobs.get("x").is_none());
}

fn queue_board(kind: StoryboardWorkflowOutputKind) -> Storyboard {
    let preset = gausian_collab::storyboard::StoryboardWorkflowPreset {
        id: 77,
        name: "wf".to_string(),
        path: "/wf.json".to_string(),
        builtin: false,
        video_defaults: None,
        output_kind: kind,
        input_specs: vec![],
    };
    let mut c = card(1, "  ");
    c.workflow_id = Some(77);
    let mut other = card(2, "/ref.png");
    other.workflow_id = Some(5);
    Storyboard { cards: vec![c, other, card(3, "/r.png")], selected: None, workflows: vec![preset] }
}

#[test]
fn queue_plans_check_the_card() {
    let b = queue_board(StoryboardWorkflowOutputKind::Image);
    assert_eq!(b.storyboard_queue_plan(9, true, false).unwrap_err(), "Invalid storyboard card");
    assert_eq!(b.storyboard_queue_plan(0, false, false).unwrap_err(), "ComfyUI server not reachable. Start ComfyUI and try again.");
    assert_eq!(b.storyboard_queue_plan(2, true, true).unwrap_err(), "Select a workflow before queuing.");
    assert_eq!(b.storyboard_queue_plan(1, true, true).unwrap_err(), "Selected workflow is no longer available.");
    assert_eq!(b.storyboard_queue_plan(0, true, false), Ok(QueuePlan { preset_index: 0, copy_reference: false }));
    let v = queue_board(StoryboardWorkflowOutputKind::Video);
    assert_eq!(v.storyboard_queue_plan(0, true, false).unwrap_err(), "Reference path is empty.");
    let mut with_ref = queue_board(StoryboardWorkflowOutputKind::ImageAndVideo);
    with_ref.cards[0].reference_path = "/in.png".to_string();
    assert_eq!(with_ref.storyboard_queue_plan(0, true, false).unwrap_err(), "Reference path does not exist.");
    assert_eq!(with_ref.storyboard_queue_plan(0, true, true), Ok(QueuePlan { preset_index: 0, copy_reference: true }));
    let mut image_ref = queue_board(StoryboardWorkflowOutputKind::Image);
    image_ref.cards[0].reference_path = "/in.png".to_string();
    assert_eq!(image_ref.storyboard_queue_plan(0, true, false), Ok(QueuePlan { preset_index: 0, copy_reference: false }));
}

#[test]
fn queue_request_details() {
    let mut c = card(1, "");
    c.workflow_inputs.insert("2:image".to_string(), StoryboardInputValue::File("  /a/b.png ".to_string()));
    c.workflow_inputs.insert("3:mask".to_string(), StoryboardInputValue::File("   ".to_string()));
    assert_eq!(storyboard_file_inputs(&c), vec![("2:image".to_string(), "/a/b.png".to_string())]);

    let body = JsonValue::Object(vec![("prompt".to_string(), JsonValue::Object(vec![]))]);
    let with_key = attach_comfy_api_key(body, "  k-1 ");
    let extra = get(&with_key, "extra_data").expect("extra");
    assert_eq!(string(get(extra, "api_key_comfy_org")), Some("k-1".to_string()));
    let without = attach_comfy_api_key(with_key, " ");
    let extra = get(&without, "extra_data").expect("extra");
    assert_eq!(get(extra, "api_key_comfy_org"), None);

    assert_eq!(comfy_prompt_id(r#"{"prompt_id": "p-9", "number": 3}"#), Some("p-9".to_string()));
    assert_eq!(comfy_prompt_id("  "), None);
    assert_eq!(comfy_prompt_id("not json"), None);
    assert_eq!(comfy_prompt_id(r#"{"prompt_id": 4}"#), None);

    let (e, w) = comfy_queue_failure(401, "unauthorized", "");
    assert_eq!(e, "ComfyUI 401: unauthorized");
    assert_eq!(w, Some("Comfy.org API key required. Enter it in ComfyUI settings.".to_string()));
    let (_, w) = comfy_queue_failure(403, "", "key");
    assert_eq!(w, Some("Comfy.org rejected the stored API key. Re-enter it in ComfyUI settings.".to_string()));
    let (e, w) = comfy_queue_failure(500, "boom", "");
    assert_eq!(e, "ComfyUI 500: boom");
    assert_eq!(w, None);
}

#[test]
fn health_urls_from_the_base() {
    assert_eq!(cloud_health_urls("  ").unwrap_err(), "Base URL not set");
    assert_eq!(
        cloud_health_urls(" https://m.run/api/healthz/ ").unwrap(),
        ("https://m.run/api/healthz".to_string(), "https://m.run/api/health".to_string())
    );
    assert_eq!(
        cloud_health_urls("https://m.run//health").unwrap(),
        ("https://m.run/healthz".to_string(), "https://m.run/health".to_string())
    );
    assert_eq!(
        cloud_health_urls("https://m.run/").unwrap(),
        ("https://m.run/healthz".to_string(), "https://m.run/health".to_string())
    );
}

fn artifact(name: &str, url: &str) -> JsonValue {
    JsonValue::Object(vec![
        ("filename".to_string(), JsonValue::String(name.to_string())),
        ("url".to_string(), JsonValue::String(url.to_string())),
    ])
}

#[test]
fn recent_jobs_and_report() {
    let answer = JsonValue::Object(vec![(
        "recent".to_string(),
        JsonValue::Array(vec![
            JsonValue::Object(vec![
                ("id".to_string(), JsonValue::String("j1".to_string())),
                ("artifacts".to_string(), JsonValue::Array(vec![artifact("a.mp4", "https://x/a"), artifact("b.mp4", "")])),
            ]),
            JsonValue::Object(vec![("status".to_string(), JsonValue::String("queued".to_string()))]),
            JsonValue::Object(vec![("id".to_string(), JsonValue::String("j3".to_string()))]),
        ]),
    )]);
    let jobs = recent_jobs(&answer);
    assert_eq!(jobs.len(), 2);
    assert_eq!(jobs[0].id, "j1");
    assert_eq!(jobs[0].artifacts, vec![("a.mp4".to_string(), "https://x/a".to_string())]);
    assert_eq!(jobs[1].id, "j3");
    assert!(jobs[1].artifacts.is_empty());
    assert!(recent_jobs(&JsonValue::Null).is_empty());

    let body = r#"{"recent": [{"id": "j1", "artifacts": [{"filename": "a.mp4", "url": "u1"}, {"filename": "b", "url": "u2"}]},
                             {"id": "j2", "status": "running"},
                             {"id": "j3", "artifacts": []},
                             {"id": "j4", "status": "done"}]}"#;
    assert_eq!(
        healthz_report(200, Some(body)),
        vec![
            "Healthz: 200 (recent jobs: 4)".to_string(),
            "  [1] j1 a.mp4 -> u1".to_string(),
            "  [2] j2 (status: running)".to_string(),
        ]
    );
    assert_eq!(healthz_report(503, Some("down")), vec!["Healthz: 503 (non-JSON)".to_string()]);
    assert_eq!(healthz_report(204, None), vec!["Healthz: 204 (empty body)".to_string()]);
    assert_eq!(healthz_report(200, Some("{}")), vec!["Healthz: 200 (recent jobs: 0)".to_string()]);
}

#[test]
fn tagging_twice_is_tagging_once() {
    let payload = r#"{"prompt": {"1": {"class_type": "SaveImage", "inputs": {"filename_prefix": " shots "}},
                                 "2": {"class_type": "Other"}}}"#;
    let body = cloud_request_body(payload, CloudTarget::Prompt).expect("body");
    let once = finish_cloud_body(body, CLIENT);
    let twice = finish_cloud_body(once.deep_clone(), CLIENT);
    assert_eq!(twice, once);
}

#[test]
fn websocket_url_and_messages() {
    assert_eq!(comfy_ws_url(false, "127.0.0.1", 8188, "ab cd/é~").unwrap(), "ws://127.0.0.1:8188/ws?clientId=ab%20cd%2F%C3%A9~");
    assert_eq!(comfy_ws_url(true, "host", 443, "x-1").unwrap(), "wss://host:443/ws?clientId=x-1");
    assert_eq!(comfy_ws_url(false, "  ", 8188, "x"), None);
    assert_eq!(comfy_ws_url(false, "host", 0, "x"), None);

    let status = r#"{"type": "status", "data": {"status": {"queue_pending": [[1, "p1", {}], [2], "junk"], "queue_running": [[0, "r1"]]}}}"#;
    match parse_comfy_ws_message(status) {
        Some(ComfyWsMessage::Queue { pending, running }) => {
            assert_eq!(pending, vec!["p1".to_string()]);
            assert_eq!(running, vec!["r1".to_string()]);
        },
        other => panic!("unexpected {:?}", other),
    }
    match parse_comfy_ws_message(r#"{"type": "progress", "data": {"prompt_id": "p1", "value": 3, "max": 20}}"#) {
        Some(ComfyWsMessage::Progress { prompt_id, value, max }) => {
            assert_eq!(prompt_id, "p1");
            assert_eq!(value, JsonNumber::PosInt(3));
            assert_eq!(max, JsonNumber::PosInt(20));
        },
        other => panic!("unexpected {:?}", other),
    }
    assert!(parse_comfy_ws_message(r#"{"type": "progress", "data": {"prompt_id": "p1", "value": "3", "max": 20}}"#).is_none());
    match parse_comfy_ws_message(r#"{"type": "execution_start", "data": {"prompt_id": "p2"}}"#) {
        Some(ComfyWsMessage::ExecutionStart { prompt_id }) => assert_eq!(prompt_id, "p2"),
        other => panic!("unexpected {:?}", other),
    }
    match parse_comfy_ws_message(r#"{"type": "execution_end", "data": {"prompt_id": "p3"}}"#) {
        Some(ComfyWsMessage::ExecutionEnd { prompt_id }) => assert_eq!(prompt_id, "p3"),
        other => panic!("unexpected {:?}", other),
    }
    assert!(parse_comfy_ws_message(r#"{"type": "status", "data": {}}"#).is_none());
    assert!(parse_comfy_ws_message(r#"{"type": "executed"}"#).is_none());
    assert!(parse_comfy_ws_message("not json").is_none());
}

#[test]
fn downloaded_artifact_names() {
    assert_eq!(cloud_import_file_name(Some("clip.mp4".to_string()), "https://x/a/b.mov"), "clip.mp4");
    assert_eq!(cloud_import_file_name(Some(String::new()), "https://x/a/b.mov"), "b.mov");
    assert_eq!(cloud_import_file_name(None, "https://x/a/b%20c.png?x=1"), "b%20c.png");
    assert_eq!(cloud_import_file_name(None, "not a url"), "artifact.mp4");
    assert_eq!(cloud_import_file_name(None, "data:text/plain,hi"), "artifact.mp4");
}

#[test]
fn http_queue_listing() {
    assert_eq!(comfy_queue_url("http://127.0.0.1:8188//"), Some("http://127.0.0.1:8188/queue".to_string()));
    assert_eq!(comfy_queue_url("  "), None);
    let (pending, running) = parse_comfy_queue(r#"{"queue_running": [[0, "r1", {}]], "queue_pending": [[1, "p1"], [2, "p2"]]}"#).expect("queue");
    assert_eq!(pending, vec!["p1".to_string(), "p2".to_string()]);
    assert_eq!(running, vec!["r1".to_string()]);
    assert!(parse_comfy_queue("<html>").is_none());
    let (pending, running) = parse_comfy_queue("{}").expect("queue");
    assert!(pending.is_empty() && running.is_empty());
}

#[test]
fn local_llm_requests_and_answers() {
    assert_eq!(
        ollama_target("  ", " "),
        ("http://localhost:11434/api/generate".to_string(), "llama3.2:latest".to_string())
    );
    assert_eq!(
        ollama_target(" http://gpu:11434/ ", " mistral "),
        ("http://gpu:11434/api/generate".to_string(), "mistral".to_string())
    );
    assert_eq!(ollama_target("http://x/api/generate", "m").0, "http://x/api/generate");
    let body = ollama_payload("m", "Write a scene", JsonNumber::Float("0.7".to_string()));
    assert_eq!(string(get(&body, "model")), Some("m".to_string()));
    assert_eq!(get(&body, "stream"), Some(&JsonValue::Bool(false)));
    let options = get(&body, "options").unwrap();
    assert_eq!(get(options, "temperature"), Some(&JsonValue::Number(JsonNumber::Float("0.7".to_string()))));
    assert_eq!(get(options, "num_predict"), Some(&JsonValue::Number(JsonNumber::PosInt(1024))));

    assert_eq!(ollama_answer(200, r#"{"response": "  Hello  ", "done": true}"#), Ok("Hello".to_string()));
    assert_eq!(ollama_answer(200, r#"{"response": " ", "done": true}"#), Ok(String::new()));
    assert_eq!(ollama_answer(200, r#"{"error": "model not found"}"#), Err("model not found".to_string()));
    assert_eq!(ollama_answer(200, r#"{"response": ""}"#), Err("Ollama response missing expected content: {\"response\": \"\"}".to_string()));
    assert_eq!(ollama_answer(200, "oops"), Err("Ollama returned invalid JSON: oops".to_string()));
    assert_eq!(ollama_answer(404, "no route"), Err("Ollama 404: no route".to_string()));
}

#[test]
fn batch_queue_reports() {
    let mut b = queue_board(StoryboardWorkflowOutputKind::Image);
    assert_eq!(b.storyboard_record_queue_result(0, Err("Reference path is empty.".to_string())), Some(("Opening".to_string(), "Reference path is empty.".to_string())));
    assert_eq!(b.cards[0].workflow_error, Some("Reference path is empty.".to_string()));
    assert_eq!(b.storyboard_record_queue_result(0, Ok(())), None);
    assert_eq!(b.cards[0].workflow_error, None);
    assert_eq!(b.storyboard_record_queue_result(5, Err("gone".to_string())), Some(("Card 6".to_string(), "gone".to_string())));

    let none = storyboard_batch_summary(1, &vec![]);
    assert_eq!(none.log, "Storyboard batch queue finished: 1 queued, 0 skipped");
    assert_eq!(none.queued_alert, Some("Queued 1 storyboard job in ComfyUI".to_string()));
    assert_eq!(none.skipped_alert, None);
    assert!(none.skipped_lines.is_empty());
    let failures: Vec<(String, String)> = (1..=9).map(|i| (format!("S{}", i), format!("e{}", i))).collect();
    let many = storyboard_batch_summary(0, &failures);
    assert_eq!(many.queued_alert, None);
    assert_eq!(many.skipped_alert, Some("Skipped 9 card(s): S1, S2, S3…".to_string()));
    assert_eq!(many.skipped_lines.len(), 8);
    assert_eq!(many.skipped_lines[0], "Storyboard batch skipped 'S1': e1");
    let two = storyboard_batch_summary(2, &failures[..2].to_vec());
    assert_eq!(two.queued_alert, Some("Queued 2 storyboard jobs in ComfyUI".to_string()));
    assert_eq!(two.skipped_alert, Some("Skipped 2 card(s): S1, S2".to_string()));
}

#[test]
fn transfer_notices() {
    let none: Vec<(String, String)> = Vec::new();
    assert_eq!(
        storyboard_transfer_alerts(1, &none),
        ("Transferred 1 storyboard shot to the timeline.".to_string(), None)
    );
    let skipped = vec![
        ("A".to_string(), "no media".to_string()),
        ("B".to_string(), "duration is zero".to_string()),
        ("C".to_string(), "x".to_string()),
        ("D".to_string(), "y".to_string()),
    ];
    let (done, note) = storyboard_transfer_alerts(3, &skipped);
    assert_eq!(done, "Transferred 3 storyboard shots to the timeline.");
    assert_eq!(note, Some("Skipped 4 card(s): A, B, C…".to_string()));
    let blank = vec![(String::new(), "no media".to_string())];
    assert_eq!(storyboard_transfer_alerts(0, &blank).1, Some("Skipped 1 card(s)".to_string()));
}

#[test]
fn plain_file_names_decide_the_kind() {
    assert_eq!(storyboard_detect_asset_kind("clip.png"), StoryboardAssetKind::Image);
    assert_eq!(storyboard_detect_asset_kind("clip"), StoryboardAssetKind::Video);
    assert_eq!(storyboard_detect_asset_kind(".png"), StoryboardAssetKind::Video);
    assert_eq!(storyboard_detect_asset_kind("take.2.WEBP"), StoryboardAssetKind::Image);
    assert_eq!(storyboard_detect_asset_kind("frame.png.mp4"), StoryboardAssetKind::Video);
}
