use gausian_collab::board::Storyboard;
use gausian_collab::chat::{screenplay_push_log, ChatPanel, ChatRole, SCREENPLAY_LOG_LIMIT};
use gausian_collab::draft::{standard_prompt_defaults, ScreenplayDraft, ScreenplayShot};
use gausian_collab::screenplay::{dialog_turn_to_questions, ProviderKind};
use gausian_collab::screenplay_panel::{
    push_message, ScreenplayEvent, ScreenplayPanel, ScreenplaySession, ScreenplayStatus, ScreenplayTab,
};

fn shot(title: &str) -> ScreenplayShot {
    ScreenplayShot {
        id: 1,
        title: title.to_string(),
        duration_bits: 3.0f32.to_bits(),
        location: String::new(),
        time_of_day: String::new(),
        camera: String::new(),
        action: String::new(),
        visual_description: String::new(),
        prompt: "a prompt".to_string(),
        negative_prompt: String::new(),
        notes: String::new(),
        workflow_key: None,
        workflow_id: None,
        workflow_inputs: Vec::new(),
    }
}

fn draft(shots: Vec<ScreenplayShot>) -> ScreenplayDraft {
    ScreenplayDraft {
        title: "Draft".to_string(),
        genre: String::new(),
        logline: String::new(),
        visual_style: String::new(),
        style_tags: Vec::new(),
        duration_minutes_bits: None,
        defaults: standard_prompt_defaults(),
        characters: Vec::new(),
        shots,
        acts: Vec::new(),
    }
}

fn session(id: &str) -> ScreenplaySession<(), ()> {
    ScreenplaySession {
        id: id.to_string(),
        project_id: None,
        created_at_ms: Some(1),
        updated_at_ms: Some(1),
        completed: true,
        question_index: 0,
        answers: Vec::new(),
        messages: Vec::new(),
        screenplay: None,
        prompts: Some(()),
    }
}

fn panel() -> ScreenplayPanel<(), ()> {
    ScreenplayPanel {
        show_panel: false,
        active_tab: ScreenplayTab::Draft,
        session: None,
        questions: Vec::new(),
        input: String::new(),
        revision_input: String::new(),
        error: None,
        busy: false,
        generate_busy: false,
        cancel_requested: false,
        has_handle: false,
        provider: ProviderKind::Gemini,
        model: "gemini-2.5-pro".to_string(),
        api_token: "  ".to_string(),
        logs: Vec::new(),
    }
}

#[test]
fn follow_up_questions_are_numbered() {
    let qs = dialog_turn_to_questions(&vec!["Who?".to_string(), "Where?".to_string()]);
    assert_eq!(qs.len(), 2);
    assert_eq!(qs[0].label, "Follow-up 1");
    assert_eq!(qs[1].label, "Follow-up 2");
    assert_eq!(qs[1].question, "Where?");
    assert_eq!(qs[0].id.len(), 36);
    assert_ne!(qs[0].id, qs[1].id);
}

#[test]
fn screenplay_log_keeps_sixteen() {
    let mut logs: Vec<String> = Vec::new();
    screenplay_push_log(&mut logs, "   ".to_string());
    assert!(logs.is_empty());
    for i in 0..20 {
        screenplay_push_log(&mut logs, format!("entry {}", i));
    }
    assert_eq!(logs.len(), SCREENPLAY_LOG_LIMIT);
    assert_eq!(logs[0], "entry 4");
    assert_eq!(logs[15], "entry 19");
}

#[test]
fn messages_are_stamped() {
    let mut s = session("s1");
    push_message(&mut s, ChatRole::Assistant, "Hello".to_string(), 99);
    assert_eq!(s.messages.len(), 1);
    assert_eq!(s.messages[0].text, "Hello");
    assert_eq!(s.messages[0].created_at_ms, Some(99));
    assert_eq!(s.updated_at_ms, Some(99));
    assert_eq!(s.messages[0].id.len(), 36);
}

#[test]
fn panel_toggles_and_reports_status() {
    let mut p = panel();
    p.error = Some("x".to_string());
    p.has_handle = true;
    p.screenplay_toggle_panel();
    assert!(p.show_panel);
    assert_eq!(p.error, None);
    assert_eq!(p.active_tab, ScreenplayTab::Conversation);
    assert!(p.has_handle);
    assert_eq!(p.screenplay_status(), ScreenplayStatus::Idle);
    p.screenplay_toggle_panel();
    assert!(!p.has_handle);
    p.busy = true;
    assert_eq!(p.screenplay_status(), ScreenplayStatus::Processing);
    p.error = Some("bad".to_string());
    assert_eq!(p.screenplay_status(), ScreenplayStatus::Error);
}

#[test]
fn provider_change_settles_the_model() {
    let mut p = panel();
    p.screenplay_select_provider(ProviderKind::OpenAi);
    assert_eq!(p.provider, ProviderKind::OpenAi);
    assert_eq!(p.model, "gpt-5");
    p.model = "gpt-4o".to_string();
    p.screenplay_select_provider(ProviderKind::OpenAi);
    assert_eq!(p.model, "gpt-4o");
}

#[test]
fn session_start_and_answer() {
    let mut p = panel();
    p.input = "draft text".to_string();
    p.questions = dialog_turn_to_questions(&vec!["Q".to_string()]);
    let req = p.screenplay_start_session();
    assert!(p.busy);
    assert!(p.session.is_none());
    assert!(p.questions.is_empty());
    assert_eq!(p.input, "");
    assert_eq!(req.base, "https://generativelanguage.googleapis.com");
    assert_eq!(req.token, None);
    assert_eq!(req.model, "gemini-2.5-pro");
    assert_eq!(p.logs, vec!["Connecting to Gemini (gemini-2.5-pro)...".to_string()]);
    p.screenplay_handle_event(ScreenplayEvent::SessionStarted(Ok((session("s1"), Vec::new(), true))));
    assert!(!p.busy);
    assert!(p.has_handle);
    assert_eq!(p.session.as_ref().map(|s| s.id.clone()), Some("s1".to_string()));
    assert_eq!(p.logs.last().cloned(), Some("Connected to Gemini (gemini-2.5-pro)".to_string()));
}

#[test]
fn failed_session_drops_the_handle() {
    let mut p = panel();
    p.has_handle = true;
    p.busy = true;
    p.screenplay_handle_event(ScreenplayEvent::SessionStarted(Err("refused".to_string())));
    assert!(!p.has_handle);
    assert!(!p.busy);
    assert_eq!(p.error, Some("refused".to_string()));
    assert_eq!(p.logs, vec!["Session failed: refused".to_string()]);
}

#[test]
fn sending_messages() {
    let mut p = panel();
    assert_eq!(p.screenplay_send_message(5), None);
    assert_eq!(p.error, Some("Start a session first".to_string()));
    assert_eq!(p.logs, vec!["Cannot send message: no active session.".to_string()]);
    p.session = Some(session("s1"));
    p.input = "   ".to_string();
    assert_eq!(p.screenplay_send_message(5), None);
    assert_eq!(p.error, Some("Message cannot be empty".to_string()));
    p.input = "  A heist at dawn ".to_string();
    p.cancel_requested = true;
    assert_eq!(p.screenplay_send_message(5), Some("A heist at dawn".to_string()));
    assert!(p.busy);
    assert!(!p.cancel_requested);
    assert_eq!(p.error, None);
    let s = p.session.as_ref().unwrap();
    assert_eq!(s.messages.len(), 1);
    assert_eq!(s.messages[0].role, ChatRole::User);
    assert_eq!(s.messages[0].text, "A heist at dawn");
    assert!(!s.completed);
    assert_eq!(p.screenplay_send_message(6), None);
    assert_eq!(p.session.as_ref().unwrap().messages.len(), 1);
    p.screenplay_handle_event(ScreenplayEvent::MessagePosted(Ok((session("s2"), Vec::new()))));
    assert_eq!(p.input, "");
    assert!(!p.busy);
    assert_eq!(p.session.as_ref().unwrap().id, "s2");
}

#[test]
fn drafts_need_a_user_message() {
    let mut p = panel();
    assert!(p.screenplay_generate_screenplay().is_none());
    assert_eq!(p.logs, vec!["Cannot generate draft: no active session.".to_string()]);
    p.session = Some(session("s1"));
    assert!(p.screenplay_generate_screenplay().is_none());
    assert_eq!(
        p.error,
        Some("Share a few story details with the assistant before generating a draft.".to_string())
    );
    push_message(p.session.as_mut().unwrap(), ChatRole::User, "idea".to_string(), 3);
    p.api_token = " key ".to_string();
    let req = p.screenplay_generate_screenplay().unwrap();
    assert_eq!(req.session_id, "s1");
    assert_eq!(req.token, Some(" key ".to_string()));
    assert!(p.generate_busy);
    assert!(p.screenplay_generate_screenplay().is_none());
    p.revision_input = "old".to_string();
    p.screenplay_handle_event(ScreenplayEvent::ScreenplayGenerated(Ok(draft(vec![shot("A")]))));
    assert!(!p.generate_busy);
    assert_eq!(p.active_tab, ScreenplayTab::Draft);
    assert_eq!(p.revision_input, "");
    let s = p.session.as_ref().unwrap();
    assert_eq!(s.id, "s1");
    assert!(s.prompts.is_none());
    assert_eq!(s.screenplay.as_ref().map(|d| d.shots.len()), Some(1));
}

#[test]
fn draft_without_session_opens_a_local_one() {
    let mut p = panel();
    p.screenplay_handle_event(ScreenplayEvent::ScreenplayGenerated(Ok(draft(vec![]))));
    let s = p.session.as_ref().unwrap();
    assert_eq!(s.id, "local");
    assert!(s.completed);
    assert!(s.screenplay.is_some());
}

#[test]
fn revisions_need_a_draft_and_a_handle() {
    let mut p = panel();
    assert!(p.screenplay_request_revision().is_none());
    assert_eq!(p.error, Some("Enter revision instructions before sending a request.".to_string()));
    p.revision_input = " tighten act two ".to_string();
    assert!(p.screenplay_request_revision().is_none());
    assert_eq!(p.error, Some("Start a session to request revisions.".to_string()));
    p.session = Some(session("s1"));
    assert!(p.screenplay_request_revision().is_none());
    assert_eq!(p.error, Some("Generate a screenplay before requesting revisions.".to_string()));
    p.session.as_mut().unwrap().screenplay = Some(draft(vec![shot("A")]));
    assert!(p.screenplay_request_revision().is_none());
    assert_eq!(p.error, Some("This provider does not support live revisions in the current mode.".to_string()));
    p.has_handle = true;
    assert_eq!(p.screenplay_request_revision(), Some("tighten act two".to_string()));
    assert!(p.busy);
    assert_eq!(p.logs.last().cloned(), Some("Requesting screenplay revision…".to_string()));
    p.screenplay_handle_event(ScreenplayEvent::RevisionApplied(Ok(draft(vec![shot("A"), shot("B")]))));
    assert!(!p.busy);
    assert_eq!(p.revision_input, "");
    assert_eq!(p.session.as_ref().unwrap().screenplay.as_ref().map(|d| d.shots.len()), Some(2));
    assert_eq!(p.logs.last().cloned(), Some("Revision applied to screenplay draft.".to_string()));
}

#[test]
fn paused_request_drops_its_answer() {
    let mut p = panel();
    p.screenplay_pause_current();
    assert!(p.logs.is_empty());
    p.generate_busy = true;
    p.screenplay_pause_current();
    assert!(p.cancel_requested);
    assert!(!p.generate_busy);
    assert_eq!(p.error, Some("Paused current request".to_string()));
    assert_eq!(p.logs, vec!["Current request paused.".to_string()]);
    p.screenplay_handle_event(ScreenplayEvent::ScreenplayGenerated(Ok(draft(vec![]))));
    assert!(p.session.is_none());
    assert!(!p.cancel_requested);
}

#[test]
fn applying_the_draft_through_the_panel() {
    let mut p = panel();
    let mut board = Storyboard { cards: Vec::new(), selected: None, workflows: Vec::new() };
    assert!(!p.screenplay_apply_draft_to_storyboard(&mut board));
    assert_eq!(p.error, Some("Start a session before applying storyboard shots.".to_string()));
    let mut s = session("s1");
    s.screenplay = Some(draft(vec![shot("A"), shot("B")]));
    p.session = Some(s);
    assert!(p.screenplay_apply_draft_to_storyboard(&mut board));
    assert_eq!(board.cards.len(), 2);
    assert_eq!(board.selected, Some(0));
    assert_eq!(p.error, None);
    assert!(p.session.as_ref().unwrap().prompts.is_none());
    assert_eq!(
        p.logs.last().cloned(),
        Some("Applied 2 screenplay shots to the storyboard workspace.".to_string())
    );
}

fn chat() -> ChatPanel {
    ChatPanel {
        messages: Vec::new(),
        input: String::new(),
        busy: false,
        error: Some("old".to_string()),
        system_prompt: "Be brief.".to_string(),
    }
}

#[test]
fn chat_sends_and_takes_answers() {
    let mut c = chat();
    assert_eq!(c.chat_send_current(), None);
    c.input = "  hello  ".to_string();
    let prompt = c.chat_send_current().unwrap();
    assert_eq!(prompt, "Be brief.\nUser: hello\nAssistant:");
    assert!(c.busy);
    assert_eq!(c.input, "");
    assert_eq!(c.error, None);
    c.input = "again".to_string();
    assert_eq!(c.chat_send_current(), None);
    assert_eq!(c.messages.len(), 1);
    c.chat_handle_event(Ok("  Hi there \n".to_string()));
    assert!(!c.busy);
    assert_eq!(c.messages.len(), 2);
    assert_eq!(c.messages[1].role, ChatRole::Assistant);
    assert_eq!(c.messages[1].text, "Hi there");
    c.busy = true;
    c.chat_handle_event(Ok("   ".to_string()));
    assert!(!c.busy);
    assert_eq!(c.messages.len(), 2);
    c.chat_handle_event(Err("offline".to_string()));
    assert_eq!(c.error, Some("offline".to_string()));
    c.chat_reset();
    assert!(c.messages.is_empty());
    assert_eq!(c.error, None);
}

#[test]
fn draft_tab_buttons() {
    let mut p = panel();
    let d = draft(vec![shot("A")]);
    assert!(p.screenplay_apply_enabled(&d));
    assert!(!p.screenplay_apply_enabled(&draft(vec![])));
    p.revision_input = "more tension".to_string();
    assert!(!p.screenplay_revision_enabled());
    let mut s = session("s1");
    s.screenplay = Some(draft(vec![shot("A")]));
    p.session = Some(s);
    assert!(!p.screenplay_revision_enabled());
    p.has_handle = true;
    assert!(p.screenplay_revision_enabled());
    p.generate_busy = true;
    assert!(!p.screenplay_revision_enabled());
    assert!(!p.screenplay_apply_enabled(&d));
}
