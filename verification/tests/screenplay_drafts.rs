use gausian_collab::draft::{legacy_screenplay_from_text, DEFAULT_SHOT_SECONDS_BITS};
use gausian_collab::json::JsonValue;
use gausian_collab::screenplay::{
    build_llm_provider, clean_optional_string, extract_draft_metadata, provider_label,
    provider_model_options, provider_options, truncate_preview, LlmProviderConfig,
    LlmScreenplayDraft, ProviderKind,
};
use gausian_collab::structured::{
    llm_draft_to_screenplay, structured_json_candidates, structured_screenplay_to_draft,
    DoubleBits, StructuredAct, StructuredCamera, StructuredDialogueLine, StructuredScreenplay,
    StructuredShot, StructuredSound,
};

fn draft(script: &str, synopsis: Option<&str>, metadata: JsonValue) -> LlmScreenplayDraft {
    LlmScreenplayDraft { script: script.to_string(), synopsis: synopsis.map(|s| s.to_string()), metadata }
}

fn meta(entries: Vec<(&str, JsonValue)>) -> JsonValue {
    JsonValue::Object(entries.into_iter().map(|(k, v)| (k.to_string(), v)).collect())
}

fn double(d: f64) -> DoubleBits {
    DoubleBits { bits: d.to_bits(), narrowed: (d as f32).to_bits() }
}

fn shot(id: Option<u32>, title: Option<&str>) -> StructuredShot {
    StructuredShot {
        id,
        title: title.map(|t| t.to_string()),
        visual_description: None,
        location: None,
        characters: vec![],
        duration: None,
        camera: None,
        sound: None,
        workflow: None,
    }
}

#[test]
fn clean_optional_string_trims_and_drops_blank() {
    assert_eq!(clean_optional_string(Some("  hi  ".to_string())), Some("hi".to_string()));
    assert_eq!(clean_optional_string(Some(" \n ".to_string())), None);
    assert_eq!(clean_optional_string(None), None);
}

#[test]
fn truncate_preview_cuts_by_bytes() {
    assert_eq!(truncate_preview("  short  ", 10), "short");
    assert_eq!(truncate_preview("abcdefghij", 4), "abcd...");
    assert_eq!(truncate_preview("héllo", 3), "hé...");
}

#[test]
fn metadata_defaults_and_values() {
    let (t, g, tags, style) = extract_draft_metadata(&draft("", None, JsonValue::Null));
    assert_eq!((t.as_str(), g.as_str(), tags.len(), style.as_str()), ("Generated Screenplay", "Drama", 0, "Generated via LLM"));
    let m = meta(vec![
        ("title", JsonValue::String("Night".to_string())),
        ("style_tags", JsonValue::Array(vec![JsonValue::String("noir".to_string()), JsonValue::Bool(true)])),
        ("source", JsonValue::String("Gemini".to_string())),
    ]);
    let (t, g, tags, style) = extract_draft_metadata(&draft("", None, m));
    assert_eq!(t, "Night");
    assert_eq!(g, "Drama");
    assert_eq!(tags, vec!["noir".to_string()]);
    assert_eq!(style, "Generated via Gemini");
}

#[test]
fn providers_and_labels() {
    assert_eq!(provider_model_options(&ProviderKind::OpenAi), vec!["gpt-5", "gpt-4o", "gpt-4o-mini", "o1-mini"]);
    assert_eq!(provider_model_options(&ProviderKind::Gemini), vec!["gemini-2.5-flash", "gemini-2.5-pro"]);
    assert_eq!(provider_model_options(&ProviderKind::Mock), vec!["mock-screenwriter"]);
    assert!(provider_model_options(&ProviderKind::Custom("x".to_string())).is_empty());
    let labels: Vec<&str> = provider_options().iter().map(|(l, _)| *l).collect();
    assert_eq!(labels, vec!["OpenAI", "Gemini", "Mock"]);
    assert_eq!(provider_label(&ProviderKind::Custom("x".to_string())), "Custom");
    assert_eq!(
        build_llm_provider(&ProviderKind::OpenAi, "k", "m"),
        Ok(LlmProviderConfig::OpenAi { api_key: "k".to_string(), model: "m".to_string() })
    );
    assert_eq!(build_llm_provider(&ProviderKind::Mock, "", ""), Ok(LlmProviderConfig::Mock));
    assert_eq!(
        build_llm_provider(&ProviderKind::Custom("local".to_string()), "", ""),
        Err("Custom provider 'local' is not supported via the built-in LLM adapters.".to_string())
    );
}

#[test]
fn legacy_draft_splits_paragraphs() {
    let d = legacy_screenplay_from_text(draft("INT. ROOM\nA man waits.\n\n\n\n  EXT. STREET  \n\n", Some("  "), JsonValue::Null));
    assert_eq!(d.shots.len(), 2);
    assert_eq!(d.shots[0].id, 1);
    assert_eq!(d.shots[0].title, "INT. ROOM");
    assert_eq!(d.shots[0].action, "INT. ROOM\nA man waits.");
    assert_eq!(d.shots[1].title, "EXT. STREET");
    assert_eq!(d.shots[1].duration_bits, 5.0f32.to_bits());
    assert_eq!(d.logline, "INT. ROOM\nA man waits.\n\n\n\n  EXT. STREET");
    assert_eq!(d.title, "Generated Screenplay");
    assert_eq!(d.defaults.frame_rate_bits, 24.0f32.to_bits());
    let empty = legacy_screenplay_from_text(draft("   ", Some("Plot"), JsonValue::Null));
    assert_eq!(empty.shots.len(), 1);
    assert_eq!(empty.shots[0].title, "Opening");
    assert_eq!(empty.logline, "Plot");
    assert_eq!(DEFAULT_SHOT_SECONDS_BITS, 5.0f32.to_bits());
}

#[test]
fn structured_draft_numbers_and_notes() {
    let mut first = shot(None, None);
    first.characters = vec![" Bob ".to_string(), "Alice".to_string(), "Bob".to_string(), "  ".to_string()];
    first.camera = Some(StructuredCamera { movement: Some("Dolly".to_string()), angle: None });
    first.sound = Some(StructuredSound {
        music: Some("Jazz".to_string()),
        fx: None,
        dialogue: vec![
            StructuredDialogueLine { character: None, line: Some("Hello".to_string()) },
            StructuredDialogueLine { character: Some("Bob".to_string()), line: Some(" ".to_string()) },
        ],
    });
    first.duration = Some(double(-2.0));
    let mut second = shot(Some(7), Some("Chase"));
    second.characters = vec!["Alice".to_string()];
    second.duration = Some(double(3.5));
    let third = shot(None, None);
    let st = StructuredScreenplay {
        title: Some(" Title ".to_string()),
        genre: None,
        duration: Some(double(12.0)),
        synopsis: None,
        acts: vec![
            StructuredAct { id: None, title: None, summary: None, shots: vec![first, second] },
            StructuredAct { id: Some(4), title: Some("Finale".to_string()), summary: Some("End".to_string()), shots: vec![third] },
        ],
    };
    let d = structured_screenplay_to_draft(st, &draft("script", Some("Syn"), JsonValue::Null));
    assert_eq!(d.title, "Title");
    assert_eq!(d.genre, "Drama");
    assert_eq!(d.logline, "Syn");
    assert_eq!(d.visual_style, "Generated via LLM (2 act structure)");
    assert_eq!(d.style_tags, vec!["structured-json".to_string()]);
    assert_eq!(d.duration_minutes_bits, Some(12.0f32.to_bits()));
    let ids: Vec<u32> = d.shots.iter().map(|s| s.id).collect();
    assert_eq!(ids, vec![1, 7, 8]);
    assert_eq!(d.acts[0].id, 1);
    assert_eq!(d.acts[0].title, "Act 1");
    assert_eq!(d.acts[1].id, 4);
    assert_eq!(d.shots[0].title, "Shot 1");
    assert_eq!(d.shots[0].camera, "Movement: Dolly");
    assert_eq!(d.shots[0].notes, "Characters: Alice, Bob\nMusic: Jazz\nDialogue – Unknown: Hello");
    assert_eq!(d.shots[0].duration_bits, 5.0f32.to_bits());
    assert_eq!(d.shots[1].duration_bits, 3.5f32.to_bits());
    assert_eq!(d.shots[2].title, "Shot 8");
    let cast: Vec<(String, String)> = d.characters.iter().map(|c| (c.name.clone(), c.role.clone())).collect();
    assert_eq!(
        cast,
        vec![("Alice".to_string(), "Appears in 2 shots".to_string()), ("Bob".to_string(), "Appears in 1 shot".to_string())]
    );
}

#[test]
fn llm_draft_uses_structured_only_with_shots() {
    let st = StructuredScreenplay {
        title: None,
        genre: None,
        duration: None,
        synopsis: None,
        acts: vec![StructuredAct { id: None, title: None, summary: None, shots: vec![] }],
    };
    let d = llm_draft_to_screenplay(draft("One\n\nTwo", None, JsonValue::Null), Some(st));
    assert_eq!(d.shots.len(), 2);
    assert!(d.acts.is_empty());
}

#[test]
fn structured_candidates_are_trimmed_text_and_braces() {
    assert!(structured_json_candidates("   ").is_empty());
    assert_eq!(structured_json_candidates(" {\"a\":1} "), vec!["{\"a\":1}".to_string(), "{\"a\":1}".to_string()]);
    assert_eq!(
        structured_json_candidates("Here: {\"a\": {\"b\": 2}} done"),
        vec!["Here: {\"a\": {\"b\": 2}} done".to_string(), "{\"a\": {\"b\": 2}}".to_string()]
    );
    assert_eq!(structured_json_candidates("} {"), vec!["} {".to_string()]);
}
