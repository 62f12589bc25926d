use gausian_collab::board::Storyboard;
use gausian_collab::comfy_queue::comfy_authorization_header;
use gausian_collab::job_registry::StoryboardJobRegistry;
use gausian_collab::keyed_map::KeyedMap;
use gausian_collab::screenplay::{ensure_screenplay_model, screenplay_provider_base, ProviderKind};
use gausian_collab::storyboard::{StoryboardCard, StoryboardWorkflowOutputKind};

fn card(id: u128, title: &str) -> StoryboardCard {
    StoryboardCard {
        id,
        title: title.to_string(),
        description: String::new(),
        reference_path: String::new(),
        duration_seconds: 2.0f32.to_bits(),
        preview_error: None,
        workflow_id: None,
        workflow_error: None,
        workflow_status: None,
        video_settings: None,
        output_kind: StoryboardWorkflowOutputKind::Video,
        workflow_inputs: KeyedMap::new(),
        workflow_input_errors: KeyedMap::new(),
    }
}

fn board(cards: Vec<StoryboardCard>) -> Storyboard {
    Storyboard { cards, selected: None, workflows: Vec::new() }
}

fn linked(reg: &StoryboardJobRegistry, prompt: &str) -> Option<u128> {
    reg.prompt_to_card.get(prompt).copied()
}

fn job(reg: &StoryboardJobRegistry, card: u128) -> Option<Option<String>> {
    reg.jobs.get(card).cloned()
}

#[test]
fn authorization_header_uses_trimmed_key() {
    assert_eq!(comfy_authorization_header("  abc123 "), Some("Bearer abc123".to_string()));
    assert_eq!(comfy_authorization_header("   "), None);
    assert_eq!(comfy_authorization_header(""), None);
}

#[test]
fn provider_bases() {
    assert_eq!(screenplay_provider_base(&ProviderKind::OpenAi), "https://api.openai.com/v1");
    assert_eq!(screenplay_provider_base(&ProviderKind::Gemini), "https://generativelanguage.googleapis.com");
    assert_eq!(screenplay_provider_base(&ProviderKind::Mock), "http://localhost:3001/api/screenplay");
    assert_eq!(screenplay_provider_base(&ProviderKind::Custom("http://llm.local".to_string())), "http://llm.local");
}

#[test]
fn screenplay_model_falls_back_to_first_offered() {
    assert_eq!(ensure_screenplay_model(&ProviderKind::OpenAi, "gpt-4o-mini"), "gpt-4o-mini");
    assert_eq!(ensure_screenplay_model(&ProviderKind::OpenAi, "gemini-2.5-pro"), "gpt-5");
    assert_eq!(ensure_screenplay_model(&ProviderKind::Gemini, "gpt-5"), "gemini-2.5-flash");
    assert_eq!(ensure_screenplay_model(&ProviderKind::Custom("x".to_string()), "my-model"), "my-model");
}

#[test]
fn status_goes_to_the_card_with_the_id() {
    let mut b = board(vec![card(1, "A"), card(2, "B")]);
    b.set_storyboard_status(2, "Queued".to_string());
    assert_eq!(b.cards[0].workflow_status, None);
    assert_eq!(b.cards[1].workflow_status, Some("Queued".to_string()));
    b.set_storyboard_status(9, "Lost".to_string());
    assert_eq!(b.cards[0].workflow_status, None);
    assert_eq!(b.cards[1].workflow_status, Some("Queued".to_string()));
}

#[test]
fn queued_job_links_its_prompt() {
    let mut reg = StoryboardJobRegistry::new();
    reg.record_storyboard_job(1, Some("p1".to_string()));
    assert_eq!(job(&reg, 1), Some(Some("p1".to_string())));
    assert_eq!(linked(&reg, "p1"), Some(1));
    assert!(reg.known_prompts.contains_key("p1"));
    // queuing the card again drops the earlier prompt's link
    reg.record_storyboard_job(1, Some("p2".to_string()));
    assert_eq!(linked(&reg, "p1"), None);
    assert_eq!(linked(&reg, "p2"), Some(1));
    assert!(reg.known_prompts.contains_key("p1"));
    // a queue answer without a prompt id leaves the card's job without one
    reg.record_storyboard_job(1, None);
    assert_eq!(job(&reg, 1), Some(None));
    assert_eq!(linked(&reg, "p2"), None);
}

#[test]
fn finished_prompt_unlinks() {
    let mut reg = StoryboardJobRegistry::new();
    reg.record_storyboard_job(1, Some("p1".to_string()));
    reg.record_storyboard_job(2, Some("p2".to_string()));
    reg.finish_storyboard_prompt("p1");
    assert_eq!(linked(&reg, "p1"), None);
    assert_eq!(job(&reg, 1), Some(None));
    assert_eq!(linked(&reg, "p2"), Some(2));
    assert!(reg.known_prompts.contains_key("p1"));
    reg.finish_storyboard_prompt("unknown");
    assert_eq!(reg.jobs.len(), 2);
}

#[test]
fn removed_job_forgets_its_prompt() {
    let mut reg = StoryboardJobRegistry::new();
    reg.record_storyboard_job(1, Some("p1".to_string()));
    reg.record_storyboard_job(2, Some("p2".to_string()));
    reg.remove_storyboard_job(1);
    assert_eq!(job(&reg, 1), None);
    assert_eq!(linked(&reg, "p1"), None);
    assert!(!reg.known_prompts.contains_key("p1"));
    assert_eq!(linked(&reg, "p2"), Some(2));
    reg.remove_storyboard_job(7);
    assert_eq!(reg.jobs.len(), 1);
}

#[test]
fn cleanup_drops_jobs_of_gone_cards() {
    let mut reg = StoryboardJobRegistry::new();
    reg.record_storyboard_job(1, Some("p1".to_string()));
    reg.record_storyboard_job(2, Some("p2".to_string()));
    reg.record_storyboard_job(3, None);
    let cards = vec![card(2, "B")];
    reg.cleanup_storyboard_jobs(&cards);
    assert_eq!(reg.jobs.len(), 1);
    assert_eq!(job(&reg, 2), Some(Some("p2".to_string())));
    assert_eq!(linked(&reg, "p1"), None);
    assert!(!reg.known_prompts.contains_key("p1"));
    assert_eq!(linked(&reg, "p2"), Some(2));
    reg.clear_all_storyboard_jobs();
    assert!(reg.jobs.is_empty());
    assert!(reg.prompt_to_card.is_empty());
    assert!(reg.known_prompts.is_empty());
}

#[test]
fn stored_jobs_come_back_for_present_cards() {
    let mut reg = StoryboardJobRegistry::new();
    reg.record_storyboard_job(9, Some("old".to_string()));
    let stored = vec![(1u128, Some("p1".to_string())), (2u128, Some("p2".to_string())), (3u128, None)];
    let cards = vec![card(1, "A"), card(3, "C")];
    reg.restore_storyboard_jobs(&stored, &cards);
    assert_eq!(reg.jobs.len(), 2);
    assert_eq!(job(&reg, 1), Some(Some("p1".to_string())));
    assert_eq!(job(&reg, 3), Some(None));
    assert_eq!(job(&reg, 2), None);
    assert_eq!(linked(&reg, "p1"), Some(1));
    assert_eq!(linked(&reg, "p2"), None);
    assert_eq!(linked(&reg, "old"), None);
    assert!(!reg.known_prompts.contains_key("old"));
}

#[test]
fn prompt_status_reaches_its_card() {
    let mut reg = StoryboardJobRegistry::new();
    reg.record_storyboard_job(2, Some("p2".to_string()));
    let mut b = board(vec![card(1, "A"), card(2, "B")]);
    b.set_storyboard_status_for_prompt(&reg, "p2", "Rendering".to_string());
    assert_eq!(b.cards[1].workflow_status, Some("Rendering".to_string()));
    b.set_storyboard_status_for_prompt(&reg, "p9", "Other".to_string());
    assert_eq!(b.cards[0].workflow_status, None);
    assert_eq!(b.cards[1].workflow_status, Some("Rendering".to_string()));
}
